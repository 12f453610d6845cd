//! The CORS rules of a Tencent COS bucket.
//!
//! AsterDrive owns one rule of the bucket, which lets browsers reach objects by
//! presigned URLs, and leaves every other rule as it finds it.

use vstd::prelude::*;
use vstd::string::*;

use crate::errors::{failed_step, storage_driver_error, AsterError, Failure, StorageErrorKind};
use crate::numerals::{decimal, parse_unsigned, push_decimal, read_unsigned};
use crate::text::{ascii_lowercase, eq_ignore_ascii_case};
use crate::xml::{
    elements_view, lemma_elements_view_at, lemma_elements_view_len, text_view, texts_view, Element,
    ParseOptions, XmlElement,
};
use crate::xml_utils::{local_name_eq, names, non_blank, non_empty_owned_text};

verus! {

broadcast use lemma_elements_view_len;

/// The ID of the rule that belongs to AsterDrive.
pub const ASTERDRIVE_COS_CORS_RULE_ID: &'static str = "asterdrive-presigned-access";

/// A CORS rule of a bucket.
#[derive(Debug, Clone, PartialEq, Eq)]
pub struct CosCorsRule {
    pub id: Option<String>,
    pub allowed_origins: Vec<String>,
    pub allowed_methods: Vec<String>,
    pub allowed_headers: Vec<String>,
    pub expose_headers: Vec<String>,
    pub max_age_seconds: Option<u32>,
}

/// What a `CosCorsRule` stands for.
pub struct Rule {
    pub id: Option<Seq<char>>,
    pub allowed_origins: Seq<Seq<char>>,
    pub allowed_methods: Seq<Seq<char>>,
    pub allowed_headers: Seq<Seq<char>>,
    pub expose_headers: Seq<Seq<char>>,
    pub max_age_seconds: Option<u32>,
}

impl View for CosCorsRule {
    type V = Rule;

    open spec fn view(&self) -> Rule {
        Rule {
            id: text_view(self.id),
            allowed_origins: texts_view(self.allowed_origins@),
            allowed_methods: texts_view(self.allowed_methods@),
            allowed_headers: texts_view(self.allowed_headers@),
            expose_headers: texts_view(self.expose_headers@),
            max_age_seconds: self.max_age_seconds,
        }
    }
}

/// The CORS configuration of a bucket.
#[derive(Debug, Clone, PartialEq, Eq)]
pub struct CosCorsConfiguration {
    pub rules: Vec<CosCorsRule>,
    pub response_vary: Option<bool>,
}

/// What a `CosCorsConfiguration` stands for.
pub struct Configuration {
    pub rules: Seq<Rule>,
    pub response_vary: Option<bool>,
}

/// The rules that a list stands for.
pub open spec fn rules_view(rules: Seq<CosCorsRule>) -> Seq<Rule> {
    rules.map_values(|rule: CosCorsRule| rule@)
}

impl View for CosCorsConfiguration {
    type V = Configuration;

    open spec fn view(&self) -> Configuration {
        Configuration { rules: rules_view(self.rules@), response_vary: self.response_vary }
    }
}

/// How large a CORS configuration may be.
pub fn cors_xml_options() -> (options: ParseOptions)
    ensures
        options == (ParseOptions { max_size: 65536, max_depth: 16, max_elements: 500 }),
{
    ParseOptions { max_size: 64 * 1024, max_depth: 16, max_elements: 500 }
}

/// How large an error document may be.
pub fn error_xml_options() -> (options: ParseOptions)
    ensures
        options == (ParseOptions { max_size: 16384, max_depth: 8, max_elements: 100 }),
{
    ParseOptions { max_size: 16 * 1024, max_depth: 8, max_elements: 100 }
}

/// The text of an element that has the given name, and of no other.
pub open spec fn text_under(name: Seq<char>) -> spec_fn(Element) -> Option<Seq<char>> {
    |e: Element|
        if names(e.name, name) {
            non_blank(e.text)
        } else {
            None
        }
}

/// The texts of the elements with the given name, without the blank ones.
pub open spec fn texts_of(elements: Seq<Element>, name: Seq<char>) -> Seq<Seq<char>> {
    elements.filter_map(text_under(name))
}

/// The first of these texts.
pub open spec fn first_text_of(elements: Seq<Element>, name: Seq<char>) -> Option<Seq<char>> {
    let texts = texts_of(elements, name);
    if texts.len() > 0 {
        Some(texts[0])
    } else {
        None
    }
}

/// The texts of the children with the given name, without the blank ones.
pub fn child_texts(element: &XmlElement, name: &str) -> (texts: Vec<String>)
    ensures
        texts_view(texts@) == texts_of(element@.children, name@),
{
    let mut texts: Vec<String> = Vec::new();
    let ghost elements = element@.children;
    for i in 0..element.children.len()
        invariant
            elements == elements_view(element.children@),
            texts_view(texts@) == texts_of(elements.take(i as int), name@),
    {
        let child: &XmlElement = &element.children[i];
        proof {
            elements.lemma_filter_map_take_succ(text_under(name@), i as int);
            lemma_elements_view_at(element.children@, i as int);
        }
        let ghost before = texts@;
        if local_name_eq(child.name.as_str(), name) {
            if let Some(text) = non_empty_owned_text(child.get_text()) {
                texts.push(text);
                assert(texts_view(texts@) =~= texts_view(before).push(text@));
            }
        }
    }
    assert(elements.take(elements.len() as int) =~= elements);
    texts
}

/// The first text of the children with the given name that is not blank.
pub fn child_text(element: &XmlElement, name: &str) -> (text: Option<String>)
    ensures
        text_view(text) == first_text_of(element@.children, name@),
{
    let ghost elements = element@.children;
    for i in 0..element.children.len()
        invariant
            elements == elements_view(element.children@),
            texts_of(elements.take(i as int), name@).len() == 0,
    {
        let child: &XmlElement = &element.children[i];
        proof {
            elements.lemma_filter_map_take_succ(text_under(name@), i as int);
            lemma_elements_view_at(element.children@, i as int);
        }
        if local_name_eq(child.name.as_str(), name) {
            let text: Option<String> = non_empty_owned_text(child.get_text());
            if text.is_some() {
                proof {
                    lemma_filter_map_prefix(elements, text_under(name@), i + 1);
                    let head = texts_of(elements.take(i + 1), name@);
                    assert(head[0] == text->0@);
                    assert(texts_of(elements, name@)[0] == head[0]);
                }
                return text;
            }
        }
    }
    assert(elements.take(elements.len() as int) =~= elements);
    None
}

proof fn lemma_filter_map_prefix<A, B>(s: Seq<A>, f: spec_fn(A) -> Option<B>, n: int)
    requires
        0 <= n <= s.len(),
    ensures
        s.take(n).filter_map(f).is_prefix_of(s.filter_map(f)),
    decreases s.len() - n,
{
    if n < s.len() {
        s.lemma_filter_map_take_succ(f, n);
        lemma_filter_map_prefix(s, f, n + 1);
    } else {
        assert(s.take(n) =~= s);
    }
}

/// The rule that a `CORSRule` element describes.
pub open spec fn rule_of(e: Element) -> Rule {
    Rule {
        id: first_text_of(e.children, "ID"@),
        allowed_origins: texts_of(e.children, "AllowedOrigin"@),
        allowed_methods: texts_of(e.children, "AllowedMethod"@),
        allowed_headers: texts_of(e.children, "AllowedHeader"@),
        expose_headers: texts_of(e.children, "ExposeHeader"@),
        max_age_seconds: max_age_of(first_text_of(e.children, "MaxAgeSeconds"@)),
    }
}

/// The number of seconds that a text stands for, where it is one.
pub open spec fn max_age_of(text: Option<Seq<char>>) -> Option<u32> {
    match text {
        Some(t) => match parse_unsigned(t, u32::MAX as nat) {
            Some(seconds) => Some(seconds as u32),
            None => None,
        },
        None => None,
    }
}

/// The rule that an element describes, where it is a `CORSRule` element.
pub open spec fn described_rule() -> spec_fn(Element) -> Option<Rule> {
    |e: Element|
        if names(e.name, "CORSRule"@) {
            Some(rule_of(e))
        } else {
            None
        }
}

/// Whether a text says `true`, up to the case of its letters.
pub open spec fn says_true(text: Seq<char>) -> bool {
    ascii_lowercase(text) == ascii_lowercase("true"@)
}

/// The configuration that a `CORSConfiguration` element describes.
pub open spec fn configuration_of(e: Element) -> Configuration {
    Configuration {
        rules: e.children.filter_map(described_rule()),
        response_vary: match first_text_of(e.children, "ResponseVary"@) {
            Some(text) => Some(says_true(text)),
            None => None,
        },
    }
}

/// The failure for a document that is not a CORS configuration.
pub open spec fn unexpected_root() -> Failure {
    Failure {
        kind: StorageErrorKind::Misconfigured,
        code: None,
        message: "COS CORS XML root is not CORSConfiguration"@,
    }
}

/// Reads a `CORSRule` element.
pub fn parse_cors_rule(element: &XmlElement) -> (rule: CosCorsRule)
    ensures
        rule@ == rule_of(element@),
{
    let max_age_text: Option<String> = child_text(element, "MaxAgeSeconds");
    let max_age_seconds: Option<u32> = match &max_age_text {
        Some(text) => match read_unsigned(text.as_str(), 0xffff_ffff) {
            Some(seconds) => Some(seconds as u32),
            None => None,
        },
        None => None,
    };
    CosCorsRule {
        id: child_text(element, "ID"),
        allowed_origins: child_texts(element, "AllowedOrigin"),
        allowed_methods: child_texts(element, "AllowedMethod"),
        allowed_headers: child_texts(element, "AllowedHeader"),
        expose_headers: child_texts(element, "ExposeHeader"),
        max_age_seconds,
    }
}

/// The configuration that a document describes, where it was parsed and is one.
pub open spec fn configuration_read(document: Result<XmlElement, String>) -> Result<
    Configuration,
    Failure,
> {
    match document {
        Ok(root) => if names(root@.name, "CORSConfiguration"@) {
            Ok(configuration_of(root@))
        } else {
            Err(unexpected_root())
        },
        Err(cause) => Err(failed_step("parse COS CORS XML"@, cause@)),
    }
}

/// Reads a CORS configuration from what parsing its document within
/// `cors_xml_options` gave: the root element, or the parser's complaint.
pub fn parse_cors_configuration(document: &Result<XmlElement, String>) -> (parsed: Result<
    CosCorsConfiguration,
    AsterError,
>)
    ensures
        match parsed {
            Ok(configuration) => configuration_read(*document) == Ok::<Configuration, Failure>(
                configuration@,
            ),
            Err(error) => configuration_read(*document) == Err::<Configuration, Failure>(error@),
        },
{
    let root: &XmlElement = match document {
        Ok(root) => root,
        Err(cause) => {
            return Err(AsterError::storage_driver_error("parse COS CORS XML", cause.as_str()));
        },
    };
    if !local_name_eq(root.name.as_str(), "CORSConfiguration") {
        return Err(
            storage_driver_error(
                StorageErrorKind::Misconfigured,
                "COS CORS XML root is not CORSConfiguration".to_string(),
            ),
        );
    }
    let mut rules: Vec<CosCorsRule> = Vec::new();
    let ghost elements = root@.children;
    for i in 0..root.children.len()
        invariant
            elements == elements_view(root.children@),
            rules_view(rules@) == elements.take(i as int).filter_map(described_rule()),
    {
        let child: &XmlElement = &root.children[i];
        proof {
            elements.lemma_filter_map_take_succ(described_rule(), i as int);
            lemma_elements_view_at(root.children@, i as int);
        }
        let ghost before = rules@;
        if local_name_eq(child.name.as_str(), "CORSRule") {
            let rule: CosCorsRule = parse_cors_rule(child);
            rules.push(rule);
            assert(rules_view(rules@) =~= rules_view(before).push(rule@));
        }
    }
    assert(elements.take(elements.len() as int) =~= elements);
    let vary_text: Option<String> = child_text(root, "ResponseVary");
    let response_vary: Option<bool> = match &vary_text {
        Some(text) => Some(eq_ignore_ascii_case(text.as_str(), "true")),
        None => None,
    };
    Ok(CosCorsConfiguration { rules, response_vary })
}

/// An element with a text and no children.
pub open spec fn text_element(name: Seq<char>, text: Seq<char>) -> Element {
    Element { name, text: Some(text), children: Seq::empty() }
}

/// One element with the given name for each text.
pub open spec fn text_elements(name: Seq<char>, texts: Seq<Seq<char>>) -> Seq<Element> {
    texts.map_values(|text: Seq<char>| text_element(name, text))
}

/// The texts that an optional text gives: itself, or none.
pub open spec fn listed(text: Option<Seq<char>>) -> Seq<Seq<char>> {
    match text {
        Some(t) => seq![t],
        None => Seq::empty(),
    }
}

/// How a number of seconds is written, where there is one.
pub open spec fn max_age_text(seconds: Option<u32>) -> Option<Seq<char>> {
    match seconds {
        Some(n) => Some(decimal(n as nat)),
        None => None,
    }
}

/// The `CORSRule` element that describes a rule.
pub open spec fn rule_element(rule: Rule) -> Element {
    Element {
        name: "CORSRule"@,
        text: None,
        children: text_elements("ID"@, listed(rule.id)) + text_elements(
            "AllowedOrigin"@,
            rule.allowed_origins,
        ) + text_elements("AllowedMethod"@, rule.allowed_methods) + text_elements(
            "AllowedHeader"@,
            rule.allowed_headers,
        ) + text_elements("ExposeHeader"@, rule.expose_headers) + text_elements(
            "MaxAgeSeconds"@,
            listed(max_age_text(rule.max_age_seconds)),
        ),
    }
}

/// The elements that describe rules.
pub open spec fn rule_elements(rules: Seq<Rule>) -> Seq<Element> {
    rules.map_values(|rule: Rule| rule_element(rule))
}

/// How a truth value is written, where there is one.
pub open spec fn truth_text(value: Option<bool>) -> Option<Seq<char>> {
    match value {
        Some(true) => Some("true"@),
        Some(false) => Some("false"@),
        None => None,
    }
}

/// The `CORSConfiguration` element that describes a configuration.
pub open spec fn configuration_element(configuration: Configuration) -> Element {
    Element {
        name: "CORSConfiguration"@,
        text: None,
        children: rule_elements(configuration.rules) + text_elements(
            "ResponseVary"@,
            listed(truth_text(configuration.response_vary)),
        ),
    }
}

/// Adds a child with the given name and text.
pub fn push_text_child(element: &mut XmlElement, name: &str, value: &str)
    ensures
        final(element)@ == (Element {
            children: old(element)@.children.push(text_element(name@, value@)),
            ..old(element)@
        }),
{
    element.push(XmlElement::new(name).with_text(value));
}

fn push_text_children(element: &mut XmlElement, name: &str, values: &Vec<String>)
    ensures
        final(element)@ == (Element {
            children: old(element)@.children + text_elements(name@, texts_view(values@)),
            ..old(element)@
        }),
{
    let ghost before = element@;
    let ghost texts = texts_view(values@);
    assert(before.children + text_elements(name@, texts.take(0)) =~= before.children);
    for i in 0..values.len()
        invariant
            texts == texts_view(values@),
            element@ == (Element {
                children: before.children + text_elements(name@, texts.take(i as int)),
                ..before
            }),
    {
        push_text_child(element, name, values[i].as_str());
        proof {
            assert(texts.take(i + 1) =~= texts.take(i as int).push(texts[i as int]));
            assert(before.children + text_elements(name@, texts.take(i + 1)) =~= (before.children
                + text_elements(name@, texts.take(i as int))).push(
                text_element(name@, texts[i as int]),
            ));
        }
    }
    assert(texts.take(texts.len() as int) =~= texts);
}

/// The element that describes a rule.
pub fn cors_rule_element(rule: &CosCorsRule) -> (element: XmlElement)
    ensures
        element@ == rule_element(rule@),
{
    let mut element: XmlElement = XmlElement::new("CORSRule");
    if let Some(id) = &rule.id {
        push_text_child(&mut element, "ID", id.as_str());
    }
    assert(element@.children =~= text_elements("ID"@, listed(rule@.id)));
    push_text_children(&mut element, "AllowedOrigin", &rule.allowed_origins);
    push_text_children(&mut element, "AllowedMethod", &rule.allowed_methods);
    push_text_children(&mut element, "AllowedHeader", &rule.allowed_headers);
    push_text_children(&mut element, "ExposeHeader", &rule.expose_headers);
    let ghost before = element@;
    if let Some(seconds) = rule.max_age_seconds {
        let mut text: String = String::new();
        push_decimal(&mut text, seconds as u64);
        assert(text@ =~= decimal(seconds as nat));
        push_text_child(&mut element, "MaxAgeSeconds", text.as_str());
    }
    assert(element@.children =~= before.children + text_elements(
        "MaxAgeSeconds"@,
        listed(max_age_text(rule.max_age_seconds)),
    ));
    element
}

/// The document that describes a configuration.
pub fn build_cors_configuration_xml(config: &CosCorsConfiguration) -> (root: XmlElement)
    ensures
        root@ == configuration_element(config@),
{
    let mut root: XmlElement = XmlElement::new("CORSConfiguration");
    let ghost rules = rules_view(config.rules@);
    assert(rule_elements(rules.take(0)) =~= Seq::<Element>::empty());
    for i in 0..config.rules.len()
        invariant
            rules == rules_view(config.rules@),
            root@ == (Element {
                name: "CORSConfiguration"@,
                text: None,
                children: rule_elements(rules.take(i as int)),
            }),
    {
        root.push(cors_rule_element(&config.rules[i]));
        proof {
            assert(rules[i as int] == config.rules@[i as int]@);
            assert(rule_elements(rules.take(i + 1)) =~= rule_elements(rules.take(i as int)).push(
                rule_element(rules[i as int]),
            ));
        }
    }
    assert(rules.take(rules.len() as int) =~= rules);
    let ghost before = root@;
    if let Some(response_vary) = config.response_vary {
        push_text_child(
            &mut root,
            "ResponseVary",
            if response_vary {
                "true"
            } else {
                "false"
            },
        );
    }
    assert(root@.children =~= before.children + text_elements(
        "ResponseVary"@,
        listed(truth_text(config.response_vary)),
    ));
    root
}

} // verus!
