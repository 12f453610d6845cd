//! The requests that read and write the CORS configuration of a bucket: what is
//! sent, and what is made of the answers.

use vstd::prelude::*;
use vstd::string::*;
use vstd::utf8::{decode_utf8, valid_utf8};

use crate::cors::{
    configuration_read, parse_cors_configuration, Configuration, CosCorsConfiguration,
};
use crate::digest::{base64_standard, content_md5_base64, md5_digest};
use crate::errors::{
    failed_step, storage_driver_error, storage_driver_error_with_code, ApiErrorCode, AsterError,
    Failure, StorageErrorKind,
};
use crate::http::{
    is_server_error, is_success, status_line, HttpStatus, BAD_REQUEST, CONFLICT, FORBIDDEN,
    NOT_FOUND, PRECONDITION_FAILED, TOO_MANY_REQUESTS, UNAUTHORIZED,
};
use crate::numerals::{decimal, push_decimal};
use crate::text::{trim, trimmed};
use crate::xml::{
    elements_view, lemma_elements_view_at, lemma_elements_view_len, text_view, Element, XmlElement,
};
use crate::xml_utils::{local_name_eq, names, non_blank, non_empty_owned_text};

verus! {

broadcast use lemma_elements_view_len;

/// The name of the header that gives the type of a body.
pub const CONTENT_TYPE_HEADER: &'static str = "content-type";

/// The type of the body of a CORS configuration.
pub const CORS_XML_CONTENT_TYPE: &'static str = "application/xml";

/// The name of the header that gives the digest of a body.
pub const CONTENT_MD5_HEADER: &'static str = "Content-MD5";

/// How long a signed request is valid, in seconds.
pub const KEY_TIME_SECONDS: u64 = 300;

/// The first and the last second of a request signed at `now`.
pub open spec fn key_span(now: nat) -> Seq<char> {
    decimal(now) + ";"@ + decimal(now + KEY_TIME_SECONDS as nat)
}

/// The seconds from which and until which a request signed at `now` is valid.
pub fn cos_key_time(now: u64) -> (key_time: String)
    requires
        now + KEY_TIME_SECONDS <= u64::MAX,
    ensures
        key_time@ == key_span(now as nat),
{
    let mut key_time: String = String::new();
    push_decimal(&mut key_time, now);
    key_time.append(";");
    push_decimal(&mut key_time, now + KEY_TIME_SECONDS);
    assert(key_time@ =~= decimal(now as nat) + ";"@ + decimal((now + KEY_TIME_SECONDS) as nat));
    key_time
}

/// What `String::from_utf8` says of bytes that are not UTF-8.
pub uninterp spec fn utf8_complaint(bytes: Seq<u8>) -> Seq<char>;

/// `String::from_utf8`: the characters that the bytes encode, or, for bytes that
/// are not UTF-8, a complaint that depends on the bytes alone.
#[verifier::external_body]
fn decode_text(bytes: Vec<u8>) -> (decoded: Result<String, String>)
    ensures
        decoded is Ok == valid_utf8(bytes@),
        decoded matches Ok(text) ==> text@ == decode_utf8(bytes@),
        decoded matches Err(complaint) ==> complaint@ == utf8_complaint(bytes@),
{
    match String::from_utf8(bytes) {
        Ok(text) => Ok(text),
        Err(error) => Err(error.to_string()),
    }
}

/// The text that a document was written as, where that went well and gave text.
pub open spec fn body_written(written: Result<Vec<u8>, String>) -> Result<Seq<char>, Failure> {
    match written {
        Ok(bytes) => if valid_utf8(bytes@) {
            Ok(decode_utf8(bytes@))
        } else {
            Err(failed_step("encode COS CORS XML"@, utf8_complaint(bytes@)))
        },
        Err(cause) => Err(failed_step("serialize COS CORS XML"@, cause@)),
    }
}

/// The body of the request that writes a CORS configuration, from what writing
/// its document gave: the bytes, or the writer's complaint.
pub fn put_bucket_cors_body(written: Result<Vec<u8>, String>) -> (body: Result<String, AsterError>)
    ensures
        match body {
            Ok(text) => body_written(written) == Ok::<Seq<char>, Failure>(text@),
            Err(error) => body_written(written) == Err::<Seq<char>, Failure>(error@),
        },
{
    match written {
        Ok(bytes) => match decode_text(bytes) {
            Ok(text) => Ok(text),
            Err(complaint) => Err(
                AsterError::storage_driver_error("encode COS CORS XML", complaint.as_str()),
            ),
        },
        Err(cause) => Err(
            AsterError::storage_driver_error("serialize COS CORS XML", cause.as_str()),
        ),
    }
}

/// A header is signed under its name, with its value.
pub open spec fn header_view(header: (String, String)) -> (Seq<char>, Seq<char>) {
    (header.0@, header.1@)
}

/// The names and values of the headers that go with a body.
pub open spec fn body_headers(body: Seq<u8>) -> Seq<(Seq<char>, Seq<char>)> {
    seq![
        (CONTENT_TYPE_HEADER@, CORS_XML_CONTENT_TYPE@),
        (CONTENT_MD5_HEADER@, base64_standard(md5_digest(body))),
    ]
}

/// The headers of the request that writes a CORS configuration.
pub fn put_bucket_cors_headers(body: &str) -> (headers: Vec<(String, String)>)
    ensures
        headers@.map_values(|header: (String, String)| header_view(header)) == body_headers(
            body.spec_bytes(),
        ),
{
    let content_md5: String = content_md5_base64(body.as_bytes());
    let mut headers: Vec<(String, String)> = Vec::new();
    headers.push((CONTENT_TYPE_HEADER.to_string(), CORS_XML_CONTENT_TYPE.to_string()));
    headers.push((CONTENT_MD5_HEADER.to_string(), content_md5));
    assert(headers@.map_values(|header: (String, String)| header_view(header)) =~= body_headers(
        body.spec_bytes(),
    ));
    headers
}

/// The text that a document gives under a tag: that of an element with the tag's
/// name, or the first one that its children give.
pub open spec fn tag_text(e: Element, tag: Seq<char>) -> Option<Seq<char>>
    decreases e, 0nat,
{
    if names(e.name, tag) {
        non_blank(e.text)
    } else {
        first_tag_text(e.children, tag)
    }
}

/// The first text that elements give under a tag.
pub open spec fn first_tag_text(elements: Seq<Element>, tag: Seq<char>) -> Option<Seq<char>>
    decreases elements, 1nat,
{
    if elements.len() == 0 {
        None
    } else {
        match tag_text(elements[0], tag) {
            Some(text) => Some(text),
            None => first_tag_text(elements.drop_first(), tag),
        }
    }
}

/// The text under a tag in a document, where the body was one.
pub open spec fn document_tag_text(document: Option<XmlElement>, tag: Seq<char>) -> Option<
    Seq<char>,
> {
    match document {
        Some(root) => tag_text(root@, tag),
        None => None,
    }
}

/// The text of an element, where it is not blank.
pub fn element_text(element: &XmlElement) -> (text: Option<String>)
    ensures
        text_view(text) == non_blank(element@.text),
{
    non_empty_owned_text(element.get_text())
}

/// The text that a document gives under a tag.
pub fn find_xml_tag_text(element: &XmlElement, tag: &str) -> (text: Option<String>)
    ensures
        text_view(text) == tag_text(element@, tag@),
    decreases element,
{
    if local_name_eq(element.name.as_str(), tag) {
        return element_text(element);
    }
    let ghost elements = element@.children;
    assert(elements.skip(0) =~= elements);
    for i in 0..element.children.len()
        invariant
            elements == elements_view(element.children@),
            first_tag_text(elements, tag@) == first_tag_text(elements.skip(i as int), tag@),
            tag_text(element@, tag@) == first_tag_text(elements, tag@),
    {
        proof {
            lemma_elements_view_at(element.children@, i as int);
            assert(elements.skip(i as int)[0] == elements[i as int]);
            assert(elements.skip(i as int).drop_first() =~= elements.skip(i + 1));
        }
        let text: Option<String> = find_xml_tag_text(&element.children[i], tag);
        if text.is_some() {
            return text;
        }
    }
    None
}

/// The text under a tag of an error document, from what parsing the body within
/// `error_xml_options` gave.
pub fn extract_xml_tag(document: &Option<XmlElement>, tag: &str) -> (text: Option<String>)
    ensures
        text_view(text) == document_tag_text(*document, tag@),
{
    match document {
        Some(root) => find_xml_tag_text(root, tag),
        None => None,
    }
}

/// How much of a body stands in for an error message, in characters.
pub const BODY_EXCERPT_CHARS: usize = 300;

/// The start of a body, without white space around it.
pub open spec fn body_excerpt(body: Seq<char>) -> Seq<char> {
    let kept = trimmed(body);
    trimmed(
        if kept.len() > BODY_EXCERPT_CHARS {
            kept.take(BODY_EXCERPT_CHARS as int)
        } else {
            kept
        },
    )
}

/// `label` and a text, where there is one.
pub open spec fn labelled(label: Seq<char>, text: Option<Seq<char>>) -> Seq<char> {
    match text {
        Some(t) => label + t,
        None => Seq::empty(),
    }
}

/// The message of the service: the one of its error document, or else the start
/// of the body.
pub open spec fn service_message(body: Seq<char>, document: Option<XmlElement>) -> Seq<char> {
    match document_tag_text(document, "Message"@) {
        Some(message) => message,
        None => body_excerpt(body),
    }
}

/// What is said of a request that the service refused.
pub open spec fn refusal_detail(
    status: u16,
    body: Seq<char>,
    document: Option<XmlElement>,
    action: Seq<char>,
) -> Seq<char> {
    let head = "Tencent COS "@ + action + " failed with HTTP "@ + status_line(status) + labelled(
        " code="@,
        document_tag_text(document, "Code"@),
    ) + labelled(" request_id="@, document_tag_text(document, "RequestId"@));
    let message = service_message(body, document);
    if message.len() == 0 {
        head
    } else {
        head + ": "@ + message
    }
}

/// The kind of error that a status of the service means.
pub open spec fn refusal_kind(status: u16) -> StorageErrorKind {
    if status == BAD_REQUEST {
        StorageErrorKind::Misconfigured
    } else if status == UNAUTHORIZED {
        StorageErrorKind::Auth
    } else if status == FORBIDDEN {
        StorageErrorKind::Permission
    } else if status == PRECONDITION_FAILED || status == CONFLICT {
        StorageErrorKind::Precondition
    } else if status == TOO_MANY_REQUESTS {
        StorageErrorKind::RateLimited
    } else if is_server_error(status) {
        StorageErrorKind::Transient
    } else {
        StorageErrorKind::Unknown
    }
}

/// The failure of a request that the service refused. Where the credential lacks
/// a permission, the failure names it and has the API's code for that.
pub open spec fn refusal(
    status: u16,
    body: Seq<char>,
    document: Option<XmlElement>,
    action: Seq<char>,
) -> Failure {
    let kind = refusal_kind(status);
    let detail = refusal_detail(status, body, document, action);
    if kind == StorageErrorKind::Permission {
        Failure {
            kind,
            code: Some(ApiErrorCode::StoragePermission),
            message: detail
                + ". The Tencent COS credential needs name/cos:PutBucketCORS."@,
        }
    } else {
        Failure { kind, code: None, message: detail }
    }
}

fn excerpt(body: &str) -> (text: String)
    ensures
        text@ == body_excerpt(body@),
{
    let kept: &str = trim(body);
    let n: usize = kept.unicode_len();
    let start: &str = kept.substring_char(
        0,
        if n > BODY_EXCERPT_CHARS {
            BODY_EXCERPT_CHARS
        } else {
            n
        },
    );
    proof {
        if n > BODY_EXCERPT_CHARS {
            assert(start@ =~= kept@.take(BODY_EXCERPT_CHARS as int));
        } else {
            assert(start@ =~= kept@);
        }
    }
    trim(start).to_string()
}

fn append_labelled(out: &mut String, label: &str, text: &Option<String>)
    ensures
        final(out)@ == old(out)@ + labelled(label@, text_view(*text)),
{
    if let Some(t) = text {
        out.append(label);
        out.append(t.as_str());
    }
    assert(out@ =~= old(out)@ + labelled(label@, text_view(*text)));
}

fn kind_of_refusal(status: HttpStatus) -> (kind: StorageErrorKind)
    ensures
        kind == refusal_kind(status@),
{
    let code: u16 = status.as_u16();
    if code == BAD_REQUEST {
        StorageErrorKind::Misconfigured
    } else if code == UNAUTHORIZED {
        StorageErrorKind::Auth
    } else if code == FORBIDDEN {
        StorageErrorKind::Permission
    } else if code == PRECONDITION_FAILED || code == CONFLICT {
        StorageErrorKind::Precondition
    } else if code == TOO_MANY_REQUESTS {
        StorageErrorKind::RateLimited
    } else if status.is_server_error() {
        StorageErrorKind::Transient
    } else {
        StorageErrorKind::Unknown
    }
}

/// The error for a request that the service refused, from the body of its answer
/// and what parsing that within `error_xml_options` gave.
pub fn cos_cors_response_error(
    status: HttpStatus,
    body: &str,
    document: &Option<XmlElement>,
    action: &str,
) -> (error: AsterError)
    ensures
        error@ == refusal(status@, body@, *document, action@),
{
    let message: String = match extract_xml_tag(document, "Message") {
        Some(message) => message,
        None => excerpt(body),
    };
    let mut detail: String = "Tencent COS ".to_string();
    detail.append(action);
    detail.append(" failed with HTTP ");
    detail.append(status.line().as_str());
    append_labelled(&mut detail, " code=", &extract_xml_tag(document, "Code"));
    append_labelled(&mut detail, " request_id=", &extract_xml_tag(document, "RequestId"));
    if !message.as_str().is_empty() {
        detail.append(": ");
        detail.append(message.as_str());
    }
    assert(detail@ == refusal_detail(status@, body@, *document, action@));
    let kind: StorageErrorKind = kind_of_refusal(status);
    if kind == StorageErrorKind::Permission {
        detail.append(". The Tencent COS credential needs name/cos:PutBucketCORS.");
        storage_driver_error_with_code(kind, ApiErrorCode::StoragePermission, detail)
    } else {
        storage_driver_error(kind, detail)
    }
}

/// The configuration of a bucket that has none.
pub open spec fn no_configuration() -> Configuration {
    Configuration { rules: Seq::empty(), response_vary: None }
}

/// What the answer to the request that reads the configuration comes to.
pub open spec fn bucket_reading(
    status: u16,
    body: Seq<char>,
    document: Result<XmlElement, String>,
    error_document: Option<XmlElement>,
) -> Result<Configuration, Failure> {
    if status == NOT_FOUND {
        Ok(no_configuration())
    } else if !is_success(status) {
        Err(refusal(status, body, error_document, "GET Bucket cors"@))
    } else {
        configuration_read(document)
    }
}

/// The configuration of a bucket, from the answer to the request that reads it:
/// none where the bucket has none, an error where the request was refused, and
/// otherwise what the body describes. `document` is what parsing the body within
/// `cors_xml_options` gave, and `error_document` what it gave within
/// `error_xml_options`.
pub fn bucket_cors_from_response(
    status: HttpStatus,
    body: &str,
    document: &Result<XmlElement, String>,
    error_document: &Option<XmlElement>,
) -> (configuration: Result<CosCorsConfiguration, AsterError>)
    ensures
        match configuration {
            Ok(c) => bucket_reading(status@, body@, *document, *error_document) == Ok::<
                Configuration,
                Failure,
            >(c@),
            Err(error) => bucket_reading(status@, body@, *document, *error_document) == Err::<
                Configuration,
                Failure,
            >(error@),
        },
{
    if status.as_u16() == NOT_FOUND {
        let none: CosCorsConfiguration = CosCorsConfiguration {
            rules: Vec::new(),
            response_vary: None,
        };
        assert(none@.rules =~= no_configuration().rules);
        return Ok(none);
    }
    if !status.is_success() {
        return Err(cos_cors_response_error(status, body, error_document, "GET Bucket cors"));
    }
    parse_cors_configuration(document)
}

/// What the answer to the request that writes the configuration comes to.
pub open spec fn bucket_writing(
    status: u16,
    body: Seq<char>,
    error_document: Option<XmlElement>,
    request_id: Option<String>,
) -> Result<Option<String>, Failure> {
    if is_success(status) {
        Ok(request_id)
    } else {
        Err(refusal(status, body, error_document, "PUT Bucket cors"@))
    }
}

/// What the request that writes the configuration came to, from its answer: the
/// service's ID of the request, or an error where the request was refused.
pub fn put_bucket_cors_outcome(
    status: HttpStatus,
    body: &str,
    error_document: &Option<XmlElement>,
    request_id: Option<String>,
) -> (outcome: Result<Option<String>, AsterError>)
    ensures
        match outcome {
            Ok(id) => bucket_writing(status@, body@, *error_document, request_id) == Ok::<
                Option<String>,
                Failure,
            >(id),
            Err(error) => bucket_writing(status@, body@, *error_document, request_id) == Err::<
                Option<String>,
                Failure,
            >(error@),
        },
{
    if status.is_success() {
        return Ok(request_id);
    }
    Err(cos_cors_response_error(status, body, error_document, "PUT Bucket cors"))
}

} // verus!
