//! What the documents of CORS configurations say, element by element.

use vstd::prelude::*;

use crate::cors::{
    configuration_element, configuration_of, described_rule, rule_element, rule_of, text_under,
    texts_of, Configuration, Rule,
};
use crate::cors_laws::{lemma_configuration_names, lemma_rule_names};
use crate::numerals::{decimal, parse_unsigned};
use crate::text::ascii_lowercase;
use crate::xml::Element;
use crate::xml_utils::{local_part, non_blank};

verus! {

/// An element with one more child, after the others.
pub open spec fn with_child(e: Element, child: Element) -> Element {
    Element { children: e.children.push(child), ..e }
}

/// Whether one of some elements has the given local part and a text that is not
/// blank.
pub open spec fn is_told(elements: Seq<Element>, name: Seq<char>) -> bool {
    exists|i: int|
        0 <= i < elements.len() && local_part((#[trigger] elements[i]).name) == name && non_blank(
            elements[i].text,
        ) is Some
}

proof fn lemma_texts_push(elements: Seq<Element>, child: Element, name: Seq<char>)
    ensures
        texts_of(elements.push(child), name) == (if local_part(child.name) == name && non_blank(
            child.text,
        ) is Some {
            texts_of(elements, name).push(non_blank(child.text)->0)
        } else {
            texts_of(elements, name)
        }),
{
    assert(elements.push(child).drop_last() =~= elements);
    assert(elements.push(child).last() == child);
    let texts = texts_of(elements, name);
    if let Some(t) = text_under(name)(child) {
        assert(texts_of(elements.push(child), name) =~= texts.push(t));
    }
}

proof fn lemma_told(elements: Seq<Element>, name: Seq<char>)
    ensures
        is_told(elements, name) <==> texts_of(elements, name).len() > 0,
    decreases elements.len(),
{
    if elements.len() > 0 {
        let shorter = elements.drop_last();
        lemma_told(shorter, name);
        lemma_texts_push(shorter, elements.last(), name);
        assert(shorter.push(elements.last()) =~= elements);
        if is_told(shorter, name) {
            let i = choose|i: int|
                0 <= i < shorter.len() && local_part((#[trigger] shorter[i]).name) == name
                    && non_blank(shorter[i].text) is Some;
            assert(elements[i] == shorter[i]);
        }
        if local_part(elements.last().name) == name && non_blank(elements.last().text) is Some {
            assert(elements[elements.len() - 1] == elements.last());
        }
        if is_told(elements, name) && !is_told(shorter, name) {
            let i = choose|i: int|
                0 <= i < elements.len() && local_part((#[trigger] elements[i]).name) == name
                    && non_blank(elements[i].text) is Some;
            if i < shorter.len() {
                assert(shorter[i] == elements[i]);
            }
        }
    }
}

/// A rule is read child by child. A child without text says nothing. The four lists
/// take each text in order; the first ID and the first age decide; a child with any
/// other name is passed over. An element without children is a rule that allows
/// nothing.
pub proof fn law_rule_is_read_child_by_child(e: Element, child: Element)
    ensures
        ({
            let before = rule_of(e);
            let after = rule_of(with_child(e, child));
            let name = local_part(child.name);
            match non_blank(child.text) {
                None => after == before,
                Some(t) => if name == "AllowedOrigin"@ {
                    after == (Rule { allowed_origins: before.allowed_origins.push(t), ..before })
                } else if name == "AllowedMethod"@ {
                    after == (Rule { allowed_methods: before.allowed_methods.push(t), ..before })
                } else if name == "AllowedHeader"@ {
                    after == (Rule { allowed_headers: before.allowed_headers.push(t), ..before })
                } else if name == "ExposeHeader"@ {
                    after == (Rule { expose_headers: before.expose_headers.push(t), ..before })
                } else if name == "ID"@ {
                    after == (if before.id is None {
                        Rule { id: Some(t), ..before }
                    } else {
                        before
                    })
                } else if name == "MaxAgeSeconds"@ {
                    after == (if is_told(e.children, "MaxAgeSeconds"@) {
                        before
                    } else {
                        Rule {
                            max_age_seconds: match parse_unsigned(t, 4294967295) {
                                Some(seconds) => Some(seconds as u32),
                                None => None,
                            },
                            ..before
                        }
                    })
                } else {
                    after == before
                },
            }
        }),
        e.children.len() == 0 ==> rule_of(e) == (Rule {
            id: None,
            allowed_origins: Seq::empty(),
            allowed_methods: Seq::empty(),
            allowed_headers: Seq::empty(),
            expose_headers: Seq::empty(),
            max_age_seconds: None,
        }),
{
    lemma_rule_names();
    lemma_texts_push(e.children, child, "ID"@);
    lemma_texts_push(e.children, child, "AllowedOrigin"@);
    lemma_texts_push(e.children, child, "AllowedMethod"@);
    lemma_texts_push(e.children, child, "AllowedHeader"@);
    lemma_texts_push(e.children, child, "ExposeHeader"@);
    lemma_texts_push(e.children, child, "MaxAgeSeconds"@);
    lemma_told(e.children, "MaxAgeSeconds"@);
    lemma_told(e.children, "ID"@);
}

/// A configuration is read child by child: each `CORSRule` child is one rule more,
/// whatever it says; the first `ResponseVary` child with a text decides, by whether
/// that is `true` up to case; any other child is passed over.
pub proof fn law_configuration_is_read_child_by_child(e: Element, child: Element)
    ensures
        ({
            let before = configuration_of(e);
            let after = configuration_of(with_child(e, child));
            let name = local_part(child.name);
            if name == "CORSRule"@ {
                after == (Configuration { rules: before.rules.push(rule_of(child)), ..before })
            } else if name == "ResponseVary"@ && before.response_vary is None {
                after == (Configuration {
                    response_vary: match non_blank(child.text) {
                        Some(t) => Some(ascii_lowercase(t) == "true"@),
                        None => None,
                    },
                    ..before
                })
            } else {
                after == before
            }
        }),
        e.children.len() == 0 ==> configuration_of(e) == (Configuration {
            rules: Seq::empty(),
            response_vary: None,
        }),
{
    lemma_configuration_names();
    lemma_texts_push(e.children, child, "ResponseVary"@);
    let rules = e.children.filter_map(described_rule());
    assert(e.children.push(child).drop_last() =~= e.children);
    assert(e.children.push(child).last() == child);
    if let Some(rule) = described_rule()(child) {
        assert(e.children.push(child).filter_map(described_rule()) =~= rules.push(rule));
    }
    reveal_strlit("true");
    assert(ascii_lowercase("true"@) =~= "true"@);
}

/// An element that holds a text and nothing else.
pub open spec fn holds_text(e: Element, name: Seq<char>, text: Seq<char>) -> bool {
    e.name == name && e.text == Some(text) && e.children.len() == 0
}

/// A rule is written as a `CORSRule` element with one child for each value: the ID,
/// the origins, the methods, the headers, the exposed headers and the age, in this
/// order, each list in its own order, every text as it is.
pub proof fn law_rule_is_written_value_by_value(rule: Rule)
    ensures
        ({
            let e = rule_element(rule);
            let a = if rule.id is Some {
                1int
            } else {
                0
            };
            let b = a + rule.allowed_origins.len();
            let c = b + rule.allowed_methods.len();
            let d = c + rule.allowed_headers.len();
            let f = d + rule.expose_headers.len();
            let n = f + if rule.max_age_seconds is Some {
                1int
            } else {
                0
            };
            &&& e.name == "CORSRule"@
            &&& e.text is None
            &&& e.children.len() == n
            &&& rule.id matches Some(id) ==> holds_text(e.children[0], "ID"@, id)
            &&& forall|i: int|
                0 <= i < rule.allowed_origins.len() ==> holds_text(
                    #[trigger] e.children[a + i],
                    "AllowedOrigin"@,
                    rule.allowed_origins[i],
                )
            &&& forall|i: int|
                0 <= i < rule.allowed_methods.len() ==> holds_text(
                    #[trigger] e.children[b + i],
                    "AllowedMethod"@,
                    rule.allowed_methods[i],
                )
            &&& forall|i: int|
                0 <= i < rule.allowed_headers.len() ==> holds_text(
                    #[trigger] e.children[c + i],
                    "AllowedHeader"@,
                    rule.allowed_headers[i],
                )
            &&& forall|i: int|
                0 <= i < rule.expose_headers.len() ==> holds_text(
                    #[trigger] e.children[d + i],
                    "ExposeHeader"@,
                    rule.expose_headers[i],
                )
            &&& rule.max_age_seconds matches Some(seconds) ==> holds_text(
                e.children[f],
                "MaxAgeSeconds"@,
                decimal(seconds as nat),
            )
        }),
{
}

/// A configuration is written as a `CORSConfiguration` element with one child for
/// each rule, in order, and one for what it says of `ResponseVary`, if anything.
pub proof fn law_configuration_is_written_rule_by_rule(configuration: Configuration)
    ensures
        ({
            let e = configuration_element(configuration);
            let n = configuration.rules.len() as int;
            &&& e.name == "CORSConfiguration"@
            &&& e.text is None
            &&& forall|i: int|
                0 <= i < n ==> #[trigger] e.children[i] == rule_element(configuration.rules[i])
            &&& match configuration.response_vary {
                Some(vary) => e.children.len() == n + 1 && holds_text(
                    e.children[n],
                    "ResponseVary"@,
                    if vary {
                        "true"@
                    } else {
                        "false"@
                    },
                ),
                None => e.children.len() == n,
            }
        }),
{
}

} // verus!
