# AsterDrive: Tencent COS

The part of AsterDrive's Tencent COS driver that decides, as a verified library:

- the CORS configuration of a bucket, as rules and as an XML tree, and how
  AsterDrive puts its own rule into it without touching the others
  (`cors`, `cors_update`, `cors_exchange`);
- media metadata out of the service's media info documents
  (`media_tree`, `native_media_metadata`, `media_request`);
- the reports of the Litmus suite and the baseline of known differences
  (`litmus`, `litmus_baseline`, `redaction`);
- what these need: texts, numerals, searching, XML names, HTTP status codes,
  digests and errors.

Every function has a contract. What holds across functions stands in the public
proof functions whose names begin with `law_`; most of them are in `cors_laws`,
`cors_update_laws`, `refusal_laws` and `media_laws`.

Verus takes the contracts of a few outside functions as they are stated: MD5 and
base64 in `digest`, the text of a status code in `http`, UTF-8 decoding in
`cors_exchange`, adding to a date in `media_request`, and two functions of the
standard library in `text`.

`tests/` runs the library. `app/` is the driver around it: it signs and sends the
requests, and reads and writes the XML documents.
