use aster_drive::cors::{
    build_cors_configuration_xml, child_text, child_texts, cors_rule_element, cors_xml_options,
    error_xml_options, parse_cors_configuration, parse_cors_rule, CosCorsConfiguration,
    CosCorsRule, ASTERDRIVE_COS_CORS_RULE_ID,
};
use aster_drive::cors_update::{asterdrive_cors_rule, merge_asterdrive_cors};
use aster_drive::errors::{ApiErrorCode, StorageErrorKind};
use aster_drive::xml::XmlElement;

fn tree_of(element: &xmltree::Element) -> XmlElement {
    let name = match &element.prefix {
        Some(prefix) => format!("{prefix}:{}", element.name),
        None => element.name.clone(),
    };
    let mut tree = XmlElement::new(&name);
    if let Some(text) = element.get_text() {
        tree = tree.with_text(&text);
    }
    for node in &element.children {
        if let Some(child) = node.as_element() {
            tree.push(tree_of(child));
        }
    }
    tree
}

fn document(xml: &str) -> Result<XmlElement, String> {
    match xmltree::Element::parse(xml.as_bytes()) {
        Ok(root) => Ok(tree_of(&root)),
        Err(error) => Err(error.to_string()),
    }
}

fn written(tree: &XmlElement) -> xmltree::Element {
    let mut element = xmltree::Element::new(&tree.name);
    if let Some(text) = tree.get_text() {
        element.children.push(xmltree::XMLNode::Text(text.to_string()));
    }
    for child in &tree.children {
        element.children.push(xmltree::XMLNode::Element(written(child)));
    }
    element
}

fn text_of(tree: &XmlElement) -> String {
    let mut bytes: Vec<u8> = Vec::new();
    written(tree).write(&mut bytes).expect("written document");
    String::from_utf8(bytes).expect("UTF-8")
}

fn rule(id: Option<&str>, origin: &str) -> CosCorsRule {
    CosCorsRule {
        id: id.map(|text| text.to_string()),
        allowed_origins: vec![origin.to_string()],
        allowed_methods: vec!["GET".to_string()],
        allowed_headers: Vec::new(),
        expose_headers: Vec::new(),
        max_age_seconds: None,
    }
}

#[test]
fn asterdrive_cors_xml_contains_browser_direct_access_headers() {
    let config = CosCorsConfiguration {
        rules: vec![asterdrive_cors_rule(&[
            "https://drive.example.com".to_string(),
            "https://admin.example.com".to_string(),
        ])],
        response_vary: Some(true),
    };

    let xml = text_of(&build_cors_configuration_xml(&config));

    assert!(xml.contains("<ID>asterdrive-presigned-access</ID>"));
    assert!(xml.contains("<AllowedOrigin>https://drive.example.com</AllowedOrigin>"));
    assert!(xml.contains("<AllowedOrigin>https://admin.example.com</AllowedOrigin>"));
    assert!(xml.contains("<AllowedMethod>PUT</AllowedMethod>"));
    assert!(xml.contains("<AllowedMethod>GET</AllowedMethod>"));
    assert!(xml.contains("<AllowedMethod>HEAD</AllowedMethod>"));
    assert!(xml.contains("<AllowedHeader>*</AllowedHeader>"));
    assert!(xml.contains("<ExposeHeader>ETag</ExposeHeader>"));
    assert!(xml.contains("<ExposeHeader>Content-Range</ExposeHeader>"));
    assert!(xml.contains("<ExposeHeader>Content-Disposition</ExposeHeader>"));
    assert!(xml.contains("<MaxAgeSeconds>600</MaxAgeSeconds>"));
    assert!(xml.contains("<ResponseVary>true</ResponseVary>"));
}

#[test]
fn parses_and_preserves_existing_cos_cors_rules() {
    let xml = r#"
<CORSConfiguration>
  <CORSRule>
    <ID>other-app</ID>
    <AllowedOrigin>https://other.example.com</AllowedOrigin>
    <AllowedMethod>GET</AllowedMethod>
    <AllowedHeader>Authorization</AllowedHeader>
    <ExposeHeader>ETag</ExposeHeader>
    <MaxAgeSeconds>300</MaxAgeSeconds>
  </CORSRule>
  <ResponseVary>false</ResponseVary>
</CORSConfiguration>
"#;

    let parsed = parse_cors_configuration(&document(xml)).expect("parse CORS XML");

    assert_eq!(parsed.rules.len(), 1);
    assert_eq!(parsed.rules[0].id.as_deref(), Some("other-app"));
    assert_eq!(
        parsed.rules[0].allowed_origins,
        vec!["https://other.example.com".to_string()]
    );
    assert_eq!(parsed.response_vary, Some(false));
    assert_ne!(
        parsed.rules[0].id.as_deref(),
        Some(ASTERDRIVE_COS_CORS_RULE_ID)
    );
    assert_eq!(parsed.rules[0].max_age_seconds, Some(300));
}

#[test]
fn parses_namespaced_cos_cors_xml_and_ignores_blank_values() {
    let xml = r#"
<cos:CORSConfiguration xmlns:cos="http://cos.example.com/doc">
  <cos:CORSRule>
    <cos:ID>  </cos:ID>
    <cos:AllowedOrigin>https://drive.example.com</cos:AllowedOrigin>
    <cos:AllowedOrigin>  </cos:AllowedOrigin>
    <cos:AllowedMethod>PUT</cos:AllowedMethod>
    <cos:AllowedHeader>*</cos:AllowedHeader>
    <cos:ExposeHeader>x-cos-request-id</cos:ExposeHeader>
    <cos:MaxAgeSeconds>not-a-number</cos:MaxAgeSeconds>
  </cos:CORSRule>
  <cos:ResponseVary>TRUE</cos:ResponseVary>
</cos:CORSConfiguration>
"#;

    let parsed = parse_cors_configuration(&document(xml)).expect("parse namespaced CORS XML");

    assert_eq!(parsed.rules.len(), 1);
    assert_eq!(parsed.rules[0].id, None);
    assert_eq!(
        parsed.rules[0].allowed_origins,
        vec!["https://drive.example.com".to_string()]
    );
    assert_eq!(parsed.rules[0].max_age_seconds, None);
    assert_eq!(parsed.response_vary, Some(true));
}

#[test]
fn rejects_xml_with_unexpected_root() {
    let error = parse_cors_configuration(&document(
        "<Error><Code>NoSuchCORSConfiguration</Code></Error>",
    ))
    .expect_err("unexpected root should fail");

    assert!(error.message().contains("root is not CORSConfiguration"));
    assert_eq!(error.kind(), StorageErrorKind::Misconfigured);
    assert_eq!(error.api_error_code(), ApiErrorCode::StorageMisconfigured);
    assert_eq!(error.api_error_code_override(), None);
}

#[test]
fn complaint_of_the_xml_parser_is_kept() {
    let error = parse_cors_configuration(&Err("unexpected end of file".to_string()))
        .expect_err("broken document");
    assert_eq!(error.message(), "parse COS CORS XML: unexpected end of file");
    assert_eq!(error.kind(), StorageErrorKind::Unknown);
    assert_eq!(error.api_error_code(), ApiErrorCode::StorageUnknown);
}

#[test]
fn blank_texts_are_skipped_and_others_trimmed() {
    let mut element = XmlElement::new("CORSRule");
    element.push(XmlElement::new("ID").with_text(" \t\n"));
    element.push(XmlElement::new("x:ID").with_text("  first \n"));
    element.push(XmlElement::new("ID").with_text("second"));
    element.push(XmlElement::new("id").with_text("third"));
    element.push(XmlElement::new("ID"));
    assert_eq!(child_text(&element, "ID"), Some("first".to_string()));
    assert_eq!(
        child_texts(&element, "ID"),
        vec!["first".to_string(), "second".to_string()]
    );
    assert_eq!(child_text(&element, "MaxAgeSeconds"), None);
}

#[test]
fn max_age_is_read_as_a_number_of_32_bits() {
    for (text, expected) in [
        ("0", Some(0)),
        ("+600", Some(600)),
        (" 600 ", Some(600)),
        ("4294967295", Some(u32::MAX)),
        ("4294967296", None),
        ("-1", None),
        ("6e2", None),
        ("+", None),
        ("", None),
    ] {
        let mut element = XmlElement::new("CORSRule");
        element.push(XmlElement::new("MaxAgeSeconds").with_text(text));
        assert_eq!(parse_cors_rule(&element).max_age_seconds, expected);
    }
}

#[test]
fn a_rule_is_read_back_from_its_element() {
    let mut written_rule = asterdrive_cors_rule(&["https://a.example".to_string()]);
    assert_eq!(parse_cors_rule(&cors_rule_element(&written_rule)), written_rule);
    written_rule.id = None;
    written_rule.max_age_seconds = None;
    assert_eq!(parse_cors_rule(&cors_rule_element(&written_rule)), written_rule);
}

#[test]
fn a_configuration_is_read_back_from_its_document() {
    for response_vary in [None, Some(false), Some(true)] {
        let configuration = CosCorsConfiguration {
            rules: vec![rule(Some("one"), "https://one.example"), rule(None, "*")],
            response_vary,
        };
        let root = build_cors_configuration_xml(&configuration);
        assert_eq!(parse_cors_configuration(&Ok(root)), Ok(configuration));
    }
}

#[test]
fn reading_drops_white_space_that_writing_kept() {
    let configuration = CosCorsConfiguration {
        rules: vec![rule(Some(" one "), "  ")],
        response_vary: None,
    };
    let read = parse_cors_configuration(&Ok(build_cors_configuration_xml(&configuration)))
        .expect("configuration");
    assert_eq!(read.rules[0].id.as_deref(), Some("one"));
    assert!(read.rules[0].allowed_origins.is_empty());
}

#[test]
fn other_rules_are_kept_in_order_and_the_own_one_comes_last() {
    let origins = vec!["https://drive.example.com".to_string()];
    let existing = CosCorsConfiguration {
        rules: vec![
            rule(Some("one"), "https://one.example"),
            rule(Some(ASTERDRIVE_COS_CORS_RULE_ID), "https://old.example"),
            rule(None, "https://two.example"),
            rule(Some(ASTERDRIVE_COS_CORS_RULE_ID), "https://older.example"),
        ],
        response_vary: Some(false),
    };
    let update = merge_asterdrive_cors(existing, &origins);
    assert_eq!(
        update.configuration,
        CosCorsConfiguration {
            rules: vec![
                rule(Some("one"), "https://one.example"),
                rule(None, "https://two.example"),
                asterdrive_cors_rule(&origins),
            ],
            response_vary: Some(true),
        }
    );
    assert_eq!(update.preserved_rule_count, 2);
    assert!(update.replaced_existing_rule);
}

#[test]
fn an_empty_configuration_gets_the_own_rule() {
    let origins = vec!["https://drive.example.com".to_string()];
    let update = merge_asterdrive_cors(
        CosCorsConfiguration { rules: Vec::new(), response_vary: None },
        &origins,
    );
    assert_eq!(update.configuration.rules, vec![asterdrive_cors_rule(&origins)]);
    assert_eq!(update.preserved_rule_count, 0);
    assert!(!update.replaced_existing_rule);

    let result = update.applied(&origins, Some("req-9".to_string()));
    assert_eq!(result.rule_id, ASTERDRIVE_COS_CORS_RULE_ID);
    assert_eq!(result.allowed_origins, origins);
    assert_eq!(result.request_id.as_deref(), Some("req-9"));
    assert_eq!(result.preserved_rule_count, 0);
    assert!(!result.replaced_existing_rule);
    assert!(result.response_vary);
}

#[test]
fn a_second_update_decides_and_changes_nothing_for_the_same_origins() {
    let first = vec!["https://first.example".to_string()];
    let second = vec!["https://second.example".to_string()];
    let existing = || CosCorsConfiguration {
        rules: vec![rule(Some("one"), "https://one.example")],
        response_vary: None,
    };
    let direct = merge_asterdrive_cors(existing(), &second);
    assert!(!direct.replaced_existing_rule);

    let once = merge_asterdrive_cors(existing(), &first).configuration;
    let twice = merge_asterdrive_cors(once, &second);
    assert_eq!(twice.configuration, direct.configuration);
    assert!(twice.replaced_existing_rule);
    assert_eq!(twice.preserved_rule_count, 1);

    let read = parse_cors_configuration(&Ok(build_cors_configuration_xml(&direct.configuration)))
        .expect("configuration");
    let again = merge_asterdrive_cors(read, &second);
    assert_eq!(again.configuration, direct.configuration);
}

#[test]
fn own_rule_is_exact() {
    let own = asterdrive_cors_rule(&["https://a.example".to_string()]);
    assert_eq!(own.id.as_deref(), Some("asterdrive-presigned-access"));
    assert_eq!(own.allowed_headers, vec!["*", "Content-Type", "Range", "x-cos-*"]);
    assert_eq!(
        own.expose_headers,
        vec![
            "ETag",
            "Content-Length",
            "Content-Range",
            "Content-Disposition",
            "Accept-Ranges",
            "x-cos-request-id",
            "x-cos-hash-crc64ecma",
        ]
    );
}

#[test]
fn document_limits() {
    let options = cors_xml_options();
    assert_eq!(
        (options.max_size, options.max_depth, options.max_elements),
        (64 * 1024, 16, 500)
    );
    let options = error_xml_options();
    assert_eq!(
        (options.max_size, options.max_depth, options.max_elements),
        (16 * 1024, 8, 100)
    );
}
