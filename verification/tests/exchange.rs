use aster_drive::cors::CosCorsConfiguration;
use aster_drive::cors_exchange::{
    bucket_cors_from_response, cos_cors_response_error, cos_key_time, extract_xml_tag,
    put_bucket_cors_body, put_bucket_cors_headers, put_bucket_cors_outcome,
};
use aster_drive::digest::content_md5_base64;
use aster_drive::errors::{ApiErrorCode, AsterError, StorageErrorKind};
use aster_drive::http::HttpStatus;
use aster_drive::xml::XmlElement;

fn tree_of(element: &xmltree::Element) -> XmlElement {
    let mut tree = XmlElement::new(&element.name);
    if let Some(text) = element.get_text() {
        tree = tree.with_text(&text);
    }
    for node in &element.children {
        if let Some(child) = node.as_element() {
            tree.push(tree_of(child));
        }
    }
    tree
}

fn document(xml: &str) -> Option<XmlElement> {
    xmltree::Element::parse(xml.as_bytes()).ok().map(|root| tree_of(&root))
}

fn status(code: u16) -> HttpStatus {
    HttpStatus::from_u16(code).expect("status code")
}

fn refused(code: u16, body: &str, action: &str) -> AsterError {
    cos_cors_response_error(status(code), body, &document(body), action)
}

#[test]
fn maps_cos_cors_permission_error_to_storage_permission_code() {
    let error = refused(
        403,
        r#"<Error><Code>AccessDenied</Code><Message>Forbidden.</Message><RequestId>req-1</RequestId></Error>"#,
        "PUT Bucket cors",
    );

    assert_eq!(
        error.api_error_code_override(),
        Some(ApiErrorCode::StoragePermission)
    );
    assert!(error.message().contains("name/cos:PutBucketCORS"));
    assert!(error.message().contains("request_id=req-1"));
    assert_eq!(
        error.message(),
        "Tencent COS PUT Bucket cors failed with HTTP 403 Forbidden code=AccessDenied request_id=req-1: Forbidden.. The Tencent COS credential needs name/cos:PutBucketCORS."
    );
}

#[test]
fn maps_cos_cors_bad_request_to_storage_misconfigured_code() {
    let error = refused(
        400,
        r#"<Error><Code>InvalidRequest</Code><Message>Missing required header for this request: Content-MD5</Message><RequestId>req-2</RequestId></Error>"#,
        "PUT Bucket cors",
    );

    assert_eq!(error.api_error_code(), ApiErrorCode::StorageMisconfigured);
    assert!(error.message().contains("Missing required header"));
    assert!(error.message().contains("code=InvalidRequest"));
    assert!(error.message().contains("request_id=req-2"));
}

#[test]
fn content_md5_base64_matches_cos_required_header_format() {
    assert_eq!(content_md5_base64(b"hello"), "XUFAKrxLKna5cZ2REBfFkg==");
}

#[test]
fn content_md5_of_other_bodies() {
    assert_eq!(content_md5_base64(b""), "1B2M2Y8AsgTpgAmY7PhCfg==");
    let value = content_md5_base64(&[0xff; 100]);
    assert_eq!(value.len(), 24);
    assert!(value.ends_with("=="));
}

#[test]
fn every_status_has_its_kind() {
    for (code, kind) in [
        (400, StorageErrorKind::Misconfigured),
        (401, StorageErrorKind::Auth),
        (403, StorageErrorKind::Permission),
        (409, StorageErrorKind::Precondition),
        (412, StorageErrorKind::Precondition),
        (429, StorageErrorKind::RateLimited),
        (500, StorageErrorKind::Transient),
        (503, StorageErrorKind::Transient),
        (599, StorageErrorKind::Transient),
        (600, StorageErrorKind::Unknown),
        (302, StorageErrorKind::Unknown),
        (404, StorageErrorKind::Unknown),
    ] {
        let error = refused(code, "", "GET Bucket cors");
        assert_eq!(error.kind(), kind);
        assert_eq!(error.api_error_code_override().is_some(), code == 403);
    }
}

#[test]
fn status_lines_are_those_of_the_http_client() {
    for code in 100..=999 {
        assert_eq!(
            status(code).line(),
            reqwest::StatusCode::from_u16(code).unwrap().to_string()
        );
        assert_eq!(
            status(code).is_success(),
            reqwest::StatusCode::from_u16(code).unwrap().is_success()
        );
        assert_eq!(
            status(code).is_server_error(),
            reqwest::StatusCode::from_u16(code).unwrap().is_server_error()
        );
    }
    assert_eq!(status(503).line(), "503 Service Unavailable");
    assert_eq!(HttpStatus::from_u16(99), None);
    assert_eq!(HttpStatus::from_u16(1000), None);
}

#[test]
fn a_body_without_document_is_quoted_in_part() {
    let error = refused(500, "  upstream \u{e9}chec\n", "GET Bucket cors");
    assert_eq!(
        error.message(),
        "Tencent COS GET Bucket cors failed with HTTP 500 Internal Server Error: upstream \u{e9}chec"
    );
    let error = refused(500, " \n ", "GET Bucket cors");
    assert_eq!(
        error.message(),
        "Tencent COS GET Bucket cors failed with HTTP 500 Internal Server Error"
    );
    let long = format!("{}{} tail", "\u{e9}".repeat(299), " ");
    let error = refused(500, &long, "x");
    assert_eq!(
        error.message(),
        format!(
            "Tencent COS x failed with HTTP 500 Internal Server Error: {}",
            "\u{e9}".repeat(299)
        )
    );
}

#[test]
fn tags_are_found_at_any_depth_and_hide_what_is_inside() {
    let found = document("<Error><Inner><Code> deep </Code></Inner><Code>late</Code></Error>");
    assert_eq!(extract_xml_tag(&found, "Code"), Some("deep".to_string()));
    let hidden = document("<Error><Code><Code>inside</Code></Code><Code>next</Code></Error>");
    assert_eq!(extract_xml_tag(&hidden, "Code"), Some("next".to_string()));
    assert_eq!(extract_xml_tag(&hidden, "code"), None);
    assert_eq!(extract_xml_tag(&None, "Code"), None);
}

#[test]
fn key_times_span_five_minutes() {
    assert_eq!(cos_key_time(0), "0;300");
    assert_eq!(cos_key_time(1_700_000_000), "1700000000;1700000300");
    assert_eq!(
        cos_key_time(u64::MAX - 300),
        "18446744073709551315;18446744073709551615"
    );
}

#[test]
fn bodies_are_the_bytes_written() {
    assert_eq!(
        put_bucket_cors_body(Ok("<a>\u{e9}\u{1f600}</a>".as_bytes().to_vec())),
        Ok("<a>\u{e9}\u{1f600}</a>".to_string())
    );
    let error = put_bucket_cors_body(Err("disk full".to_string())).expect_err("complaint");
    assert_eq!(error.message(), "serialize COS CORS XML: disk full");
    let error = put_bucket_cors_body(Ok(vec![b'a', 0xff])).expect_err("not UTF-8");
    assert_eq!(
        error.message(),
        "encode COS CORS XML: invalid utf-8 sequence of 1 bytes from index 1"
    );
    assert_eq!(error.kind(), StorageErrorKind::Unknown);
}

#[test]
fn written_configurations_carry_type_and_digest() {
    assert_eq!(
        put_bucket_cors_headers("hello"),
        vec![
            ("content-type".to_string(), "application/xml".to_string()),
            (
                "Content-MD5".to_string(),
                "XUFAKrxLKna5cZ2REBfFkg==".to_string()
            ),
        ]
    );
}

#[test]
fn a_bucket_without_configuration_has_no_rules() {
    let none = CosCorsConfiguration { rules: Vec::new(), response_vary: None };
    assert_eq!(
        bucket_cors_from_response(
            status(404),
            "",
            &Err("no document".to_string()),
            &None
        ),
        Ok(none)
    );
}

#[test]
fn answers_to_the_read_request() {
    let root = XmlElement::new("CORSConfiguration");
    let read = bucket_cors_from_response(status(200), "", &Ok(root), &None).expect("read");
    assert!(read.rules.is_empty());
    let error = bucket_cors_from_response(status(200), "x", &Err("bad".to_string()), &None)
        .expect_err("broken document");
    assert_eq!(error.message(), "parse COS CORS XML: bad");
    let error = bucket_cors_from_response(status(401), "x", &Err("bad".to_string()), &None)
        .expect_err("refused");
    assert_eq!(
        error.message(),
        "Tencent COS GET Bucket cors failed with HTTP 401 Unauthorized: x"
    );
    assert_eq!(error.kind(), StorageErrorKind::Auth);
}

#[test]
fn answers_to_the_write_request() {
    assert_eq!(
        put_bucket_cors_outcome(status(200), "", &None, Some("req-3".to_string())),
        Ok(Some("req-3".to_string()))
    );
    assert_eq!(put_bucket_cors_outcome(status(204), "", &None, None), Ok(None));
    let error = put_bucket_cors_outcome(status(409), "", &None, Some("req-3".to_string()))
        .expect_err("refused");
    assert_eq!(
        error.message(),
        "Tencent COS PUT Bucket cors failed with HTTP 409 Conflict"
    );
    assert_eq!(error.api_error_code(), ApiErrorCode::StoragePrecondition);
}
