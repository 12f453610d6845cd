//! What holds between writing a CORS configuration and reading it.

use vstd::prelude::*;

use crate::cors::{
    configuration_element, configuration_of, described_rule, listed, max_age_text, rule_element,
    rule_elements, rule_of, says_true, text_element, text_elements, text_under, texts_of,
    truth_text, Configuration, Rule,
};
use crate::numerals::{decimal, is_digit, lemma_decimal, lemma_parse_decimal};
use crate::text::{ascii_lowercase, is_white_space, lemma_after_last, lemma_trimmed};
use crate::xml::Element;
use crate::xml_utils::{law_kept_text_is_clean, local_part, names, non_blank};

verus! {

/// Whether reading keeps a text as it is: it neither is empty nor starts or ends
/// with white space.
pub open spec fn is_clean(text: Seq<char>) -> bool {
    &&& text.len() > 0
    &&& !is_white_space(text[0])
    &&& !is_white_space(text.last())
}

/// Whether reading keeps each text of a list as it is.
pub open spec fn all_clean(texts: Seq<Seq<char>>) -> bool {
    forall|i: int| 0 <= i < texts.len() ==> is_clean(#[trigger] texts[i])
}

/// Whether reading keeps each text of a rule as it is.
pub open spec fn is_clean_rule(rule: Rule) -> bool {
    &&& rule.id matches Some(id) ==> is_clean(id)
    &&& all_clean(rule.allowed_origins)
    &&& all_clean(rule.allowed_methods)
    &&& all_clean(rule.allowed_headers)
    &&& all_clean(rule.expose_headers)
}

/// Whether reading keeps each text of a configuration as it is.
pub open spec fn is_clean_configuration(configuration: Configuration) -> bool {
    forall|i: int|
        0 <= i < configuration.rules.len() ==> is_clean_rule(#[trigger] configuration.rules[i])
}

proof fn lemma_filter_map_add<A, B>(s: Seq<A>, t: Seq<A>, f: spec_fn(A) -> Option<B>)
    ensures
        (s + t).filter_map(f) == s.filter_map(f) + t.filter_map(f),
    decreases t.len(),
{
    if t.len() == 0 {
        assert(s + t =~= s);
        assert(t.filter_map(f) =~= Seq::<B>::empty());
    } else {
        lemma_filter_map_add(s, t.drop_last(), f);
        assert((s + t).drop_last() =~= s + t.drop_last());
        assert((s + t).last() == t.last());
    }
}

/// A clean text is kept.
proof fn lemma_clean_is_kept(text: Seq<char>)
    requires
        is_clean(text),
    ensures
        non_blank(Some(text)) == Some(text),
{
    lemma_trimmed(text);
}

proof fn lemma_texts_of_own(name: Seq<char>, texts: Seq<Seq<char>>)
    requires
        local_part(name) == name,
        all_clean(texts),
    ensures
        texts_of(text_elements(name, texts), name) == texts,
    decreases texts.len(),
{
    let elements = text_elements(name, texts);
    if texts.len() > 0 {
        let shorter = texts.drop_last();
        assert(all_clean(shorter)) by {
            assert forall|i: int| 0 <= i < shorter.len() implies is_clean(#[trigger] shorter[i]) by {
                assert(is_clean(texts[i]));
            }
        }
        lemma_texts_of_own(name, shorter);
        assert(elements.drop_last() =~= text_elements(name, shorter));
        assert(elements.last() == text_element(name, texts.last()));
        assert(is_clean(texts[texts.len() - 1]));
        lemma_clean_is_kept(texts.last());
        assert(text_under(name)(elements.last()) == Some(texts.last()));
        assert(texts_of(elements, name) =~= shorter + seq![texts.last()]);
    }
    assert(texts_of(elements, name) =~= texts);
}

proof fn lemma_texts_of_other(name: Seq<char>, texts: Seq<Seq<char>>, other: Seq<char>)
    requires
        local_part(name) == name,
        name != other,
    ensures
        texts_of(text_elements(name, texts), other) == Seq::<Seq<char>>::empty(),
    decreases texts.len(),
{
    let elements = text_elements(name, texts);
    if texts.len() > 0 {
        lemma_texts_of_other(name, texts.drop_last(), other);
        assert(elements.drop_last() =~= text_elements(name, texts.drop_last()));
        assert(text_under(other)(elements.last()) is None);
    }
}

/// A name without a colon is its own local part.
proof fn lemma_plain_name(name: Seq<char>)
    requires
        forall|i: int| 0 <= i < name.len() ==> name[i] != ':',
    ensures
        local_part(name) == name,
{
    lemma_after_last(name, ':');
}

/// The names of a rule's elements have no prefix, and are different from each other.
pub proof fn lemma_rule_names()
    ensures
        local_part("ID"@) == "ID"@,
        local_part("AllowedOrigin"@) == "AllowedOrigin"@,
        local_part("AllowedMethod"@) == "AllowedMethod"@,
        local_part("AllowedHeader"@) == "AllowedHeader"@,
        local_part("ExposeHeader"@) == "ExposeHeader"@,
        local_part("MaxAgeSeconds"@) == "MaxAgeSeconds"@,
        "ID"@.len() == 2,
        "ExposeHeader"@.len() == 12,
        "AllowedOrigin"@.len() == 13,
        "AllowedMethod"@.len() == 13,
        "AllowedHeader"@.len() == 13,
        "MaxAgeSeconds"@.len() == 13,
        "AllowedOrigin"@[7] == 'O',
        "AllowedMethod"@[7] == 'M',
        "AllowedHeader"@[7] == 'H',
        "MaxAgeSeconds"@[7] == 'e',
{
    reveal_strlit("ID");
    reveal_strlit("AllowedOrigin");
    reveal_strlit("AllowedMethod");
    reveal_strlit("AllowedHeader");
    reveal_strlit("ExposeHeader");
    reveal_strlit("MaxAgeSeconds");
    lemma_plain_name("ID"@);
    lemma_plain_name("AllowedOrigin"@);
    lemma_plain_name("AllowedMethod"@);
    lemma_plain_name("AllowedHeader"@);
    lemma_plain_name("ExposeHeader"@);
    lemma_plain_name("MaxAgeSeconds"@);
}

/// The texts with one name among the children of a rule's element.
proof fn lemma_rule_texts(rule: Rule, name: Seq<char>)
    ensures
        texts_of(rule_element(rule).children, name) == texts_of(
            text_elements("ID"@, listed(rule.id)),
            name,
        ) + texts_of(text_elements("AllowedOrigin"@, rule.allowed_origins), name) + texts_of(
            text_elements("AllowedMethod"@, rule.allowed_methods),
            name,
        ) + texts_of(text_elements("AllowedHeader"@, rule.allowed_headers), name) + texts_of(
            text_elements("ExposeHeader"@, rule.expose_headers),
            name,
        ) + texts_of(
            text_elements("MaxAgeSeconds"@, listed(max_age_text(rule.max_age_seconds))),
            name,
        ),
{
    let f = text_under(name);
    let a = text_elements("ID"@, listed(rule.id));
    let b = text_elements("AllowedOrigin"@, rule.allowed_origins);
    let c = text_elements("AllowedMethod"@, rule.allowed_methods);
    let d = text_elements("AllowedHeader"@, rule.allowed_headers);
    let e = text_elements("ExposeHeader"@, rule.expose_headers);
    let g = text_elements("MaxAgeSeconds"@, listed(max_age_text(rule.max_age_seconds)));
    lemma_filter_map_add(a, b, f);
    lemma_filter_map_add(a + b, c, f);
    lemma_filter_map_add(a + b + c, d, f);
    lemma_filter_map_add(a + b + c + d, e, f);
    lemma_filter_map_add(a + b + c + d + e, g, f);
}

/// Reading the element of a rule gives the rule back.
pub proof fn law_rule_round_trip(rule: Rule)
    requires
        is_clean_rule(rule),
    ensures
        rule_of(rule_element(rule)) == rule,
{
    lemma_rule_names();
    let ages = listed(max_age_text(rule.max_age_seconds));
    if let Some(n) = rule.max_age_seconds {
        lemma_decimal(n as nat);
        lemma_parse_decimal(n as nat, u32::MAX as nat);
        let text = decimal(n as nat);
        assert(is_digit(text[0]));
        assert(is_digit(text[text.len() - 1]));
        assert(is_clean(text));
    }
    assert(all_clean(ages));
    assert(all_clean(listed(rule.id)));
    assert forall|name: Seq<char>|
        name == "ID"@ || name == "AllowedOrigin"@ || name == "AllowedMethod"@ || name
            == "AllowedHeader"@ || name == "ExposeHeader"@ || name
            == "MaxAgeSeconds"@ implies #[trigger] texts_of(rule_element(rule).children, name) == (
    if name == "ID"@ {
        listed(rule.id)
    } else if name == "AllowedOrigin"@ {
        rule.allowed_origins
    } else if name == "AllowedMethod"@ {
        rule.allowed_methods
    } else if name == "AllowedHeader"@ {
        rule.allowed_headers
    } else if name == "ExposeHeader"@ {
        rule.expose_headers
    } else {
        ages
    }) by {
        lemma_rule_texts(rule, name);
        if name == "ID"@ {
            lemma_texts_of_own("ID"@, listed(rule.id));
        } else {
            lemma_texts_of_other("ID"@, listed(rule.id), name);
        }
        if name == "AllowedOrigin"@ {
            lemma_texts_of_own("AllowedOrigin"@, rule.allowed_origins);
        } else {
            lemma_texts_of_other("AllowedOrigin"@, rule.allowed_origins, name);
        }
        if name == "AllowedMethod"@ {
            lemma_texts_of_own("AllowedMethod"@, rule.allowed_methods);
        } else {
            lemma_texts_of_other("AllowedMethod"@, rule.allowed_methods, name);
        }
        if name == "AllowedHeader"@ {
            lemma_texts_of_own("AllowedHeader"@, rule.allowed_headers);
        } else {
            lemma_texts_of_other("AllowedHeader"@, rule.allowed_headers, name);
        }
        if name == "ExposeHeader"@ {
            lemma_texts_of_own("ExposeHeader"@, rule.expose_headers);
        } else {
            lemma_texts_of_other("ExposeHeader"@, rule.expose_headers, name);
        }
        if name == "MaxAgeSeconds"@ {
            lemma_texts_of_own("MaxAgeSeconds"@, ages);
        } else {
            lemma_texts_of_other("MaxAgeSeconds"@, ages, name);
        }
        assert(texts_of(rule_element(rule).children, name) =~= (if name == "ID"@ {
            listed(rule.id)
        } else if name == "AllowedOrigin"@ {
            rule.allowed_origins
        } else if name == "AllowedMethod"@ {
            rule.allowed_methods
        } else if name == "AllowedHeader"@ {
            rule.allowed_headers
        } else if name == "ExposeHeader"@ {
            rule.expose_headers
        } else {
            ages
        }));
    }
    let children = rule_element(rule).children;
    assert(texts_of(children, "ID"@) == listed(rule.id));
    assert(texts_of(children, "AllowedOrigin"@) == rule.allowed_origins);
    assert(texts_of(children, "AllowedMethod"@) == rule.allowed_methods);
    assert(texts_of(children, "AllowedHeader"@) == rule.allowed_headers);
    assert(texts_of(children, "ExposeHeader"@) == rule.expose_headers);
    assert(texts_of(children, "MaxAgeSeconds"@) == ages);
}

/// The names of a configuration's elements have no prefix, and its two truth values
/// are kept and told apart.
pub proof fn lemma_configuration_names()
    ensures
        local_part("CORSConfiguration"@) == "CORSConfiguration"@,
        local_part("CORSRule"@) == "CORSRule"@,
        local_part("ResponseVary"@) == "ResponseVary"@,
        "CORSRule"@ != "ResponseVary"@,
        is_clean("true"@),
        is_clean("false"@),
        !says_true("false"@),
{
    reveal_strlit("CORSConfiguration");
    reveal_strlit("CORSRule");
    reveal_strlit("ResponseVary");
    reveal_strlit("true");
    reveal_strlit("false");
    lemma_plain_name("CORSConfiguration"@);
    lemma_plain_name("CORSRule"@);
    lemma_plain_name("ResponseVary"@);
    assert(ascii_lowercase("true"@).len() == 4);
    assert(ascii_lowercase("false"@).len() == 5);
}

proof fn lemma_rules_round_trip(rules: Seq<Rule>)
    requires
        forall|i: int| 0 <= i < rules.len() ==> is_clean_rule(#[trigger] rules[i]),
    ensures
        rule_elements(rules).filter_map(described_rule()) == rules,
        texts_of(rule_elements(rules), "ResponseVary"@) == Seq::<Seq<char>>::empty(),
    decreases rules.len(),
{
    let elements = rule_elements(rules);
    if rules.len() > 0 {
        let shorter = rules.drop_last();
        assert forall|i: int| 0 <= i < shorter.len() implies is_clean_rule(#[trigger] shorter[i]) by {
            assert(is_clean_rule(rules[i]));
        }
        lemma_rules_round_trip(shorter);
        lemma_configuration_names();
        assert(elements.drop_last() =~= rule_elements(shorter));
        assert(elements.last() == rule_element(rules.last()));
        assert(is_clean_rule(rules[rules.len() - 1]));
        law_rule_round_trip(rules.last());
        assert(described_rule()(elements.last()) == Some(rules.last()));
        assert(text_under("ResponseVary"@)(elements.last()) is None);
        assert(elements.filter_map(described_rule()) =~= shorter + seq![rules.last()]);
    }
    assert(elements.filter_map(described_rule()) =~= rules);
}

proof fn lemma_texts_describe_no_rule(texts: Seq<Seq<char>>)
    ensures
        text_elements("ResponseVary"@, texts).filter_map(described_rule()) == Seq::<Rule>::empty(),
    decreases texts.len(),
{
    let elements = text_elements("ResponseVary"@, texts);
    if texts.len() > 0 {
        lemma_texts_describe_no_rule(texts.drop_last());
        lemma_configuration_names();
        assert(elements.drop_last() =~= text_elements("ResponseVary"@, texts.drop_last()));
        assert(described_rule()(elements.last()) is None);
    }
}

/// Reading the document of a configuration gives the configuration back.
pub proof fn law_configuration_round_trip(configuration: Configuration)
    requires
        is_clean_configuration(configuration),
    ensures
        names(configuration_element(configuration).name, "CORSConfiguration"@),
        configuration_of(configuration_element(configuration)) == configuration,
{
    let rules = rule_elements(configuration.rules);
    let truths = listed(truth_text(configuration.response_vary));
    let vary = text_elements("ResponseVary"@, truths);
    lemma_configuration_names();
    lemma_rules_round_trip(configuration.rules);
    lemma_texts_describe_no_rule(truths);
    lemma_filter_map_add(rules, vary, described_rule());
    lemma_filter_map_add(rules, vary, text_under("ResponseVary"@));
    assert(all_clean(truths));
    lemma_texts_of_own("ResponseVary"@, truths);
    assert(texts_of(rules + vary, "ResponseVary"@) =~= truths);
    assert((rules + vary).filter_map(described_rule()) =~= configuration.rules);
}

/// The texts read from elements are clean.
proof fn lemma_read_texts_are_clean(elements: Seq<Element>, name: Seq<char>)
    ensures
        all_clean(texts_of(elements, name)),
    decreases elements.len(),
{
    if elements.len() > 0 {
        lemma_read_texts_are_clean(elements.drop_last(), name);
        law_kept_text_is_clean(elements.last().text);
    }
}

/// Whatever document a configuration is read from, its texts are clean: blank
/// values are left out, and white space around the others is dropped.
pub proof fn law_read_configuration_is_clean(e: Element)
    ensures
        is_clean_configuration(configuration_of(e)),
{
    lemma_described_rules_are_clean(e.children);
}

proof fn lemma_described_rules_are_clean(elements: Seq<Element>)
    ensures
        forall|i: int|
            0 <= i < elements.filter_map(described_rule()).len() ==> is_clean_rule(
                #[trigger] elements.filter_map(described_rule())[i],
            ),
    decreases elements.len(),
{
    if elements.len() > 0 {
        lemma_described_rules_are_clean(elements.drop_last());
        let children = elements.last().children;
        lemma_read_texts_are_clean(children, "ID"@);
        lemma_read_texts_are_clean(children, "AllowedOrigin"@);
        lemma_read_texts_are_clean(children, "AllowedMethod"@);
        lemma_read_texts_are_clean(children, "AllowedHeader"@);
        lemma_read_texts_are_clean(children, "ExposeHeader"@);
        assert(is_clean_rule(rule_of(elements.last())));
        let fewer = elements.drop_last().filter_map(described_rule());
        let all = elements.filter_map(described_rule());
        assert forall|i: int| 0 <= i < all.len() implies is_clean_rule(#[trigger] all[i]) by {
            if i < fewer.len() {
                assert(all[i] == fewer[i]);
            } else {
                assert(described_rule()(elements.last()) == Some(all[i]));
            }
        }
    }
}

} // verus!
