//! What holds of putting AsterDrive's rule into the configuration of a bucket.

use vstd::prelude::*;

use crate::cors::{
    configuration_element, configuration_of, Configuration, Rule, ASTERDRIVE_COS_CORS_RULE_ID,
};
use crate::cors_laws::{
    all_clean, is_clean, is_clean_configuration, is_clean_rule, law_configuration_round_trip,
    law_read_configuration_is_clean,
};
use crate::cors_update::{asterdrive_rule, foreign_rules, has_own, is_own, with_asterdrive_rule};
use crate::xml::Element;
use crate::xml_utils::names;

verus! {

/// The rules that are filtered out are those that belong to AsterDrive.
proof fn lemma_foreign_rules(rules: Seq<Rule>)
    ensures
        !has_own(foreign_rules(rules)),
        foreign_rules(rules).len() <= rules.len(),
        foreign_rules(rules).len() == rules.len() <==> !has_own(rules),
        !has_own(rules) ==> foreign_rules(rules) == rules,
        forall|i: int|
            0 <= i < foreign_rules(rules).len() ==> rules.contains(
                #[trigger] foreign_rules(rules)[i],
            ),
    decreases rules.len(),
{
    reveal(Seq::filter);
    let foreign = |rule: Rule| !is_own(rule);
    if rules.len() > 0 {
        let shorter = rules.drop_last();
        let last = rules.last();
        lemma_foreign_rules(shorter);
        let kept = foreign_rules(shorter);
        assert(foreign_rules(rules) == if foreign(last) {
            kept.push(last)
        } else {
            kept
        });
        assert(rules =~= shorter.push(last));
        assert(is_own(last) ==> has_own(rules)) by {
            assert(rules[rules.len() - 1] == last);
        }
        assert(has_own(shorter) ==> has_own(rules)) by {
            if has_own(shorter) {
                let i = choose|i: int| 0 <= i < shorter.len() && is_own(#[trigger] shorter[i]);
                assert(is_own(rules[i]));
            }
        }
        assert forall|i: int| 0 <= i < foreign_rules(rules).len() implies {
            &&& !is_own(#[trigger] foreign_rules(rules)[i])
            &&& rules.contains(foreign_rules(rules)[i])
        } by {
            let rule = foreign_rules(rules)[i];
            if i < kept.len() {
                assert(rule == kept[i]);
                assert(!is_own(kept[i]));
                let j = choose|j: int| 0 <= j < shorter.len() && shorter[j] == kept[i];
                assert(rules[j] == rule);
            } else {
                assert(rules[rules.len() - 1] == rule);
            }
        }
        if !has_own(rules) {
            assert(foreign_rules(rules) =~= rules);
        }
        if has_own(rules) && !is_own(last) {
            let i = choose|i: int| 0 <= i < rules.len() && is_own(#[trigger] rules[i]);
            assert(is_own(shorter[i]));
        }
    }
}

/// The new configuration has one rule of AsterDrive, after all the others.
pub proof fn law_one_own_rule(existing: Configuration, origins: Seq<Seq<char>>)
    ensures
        ({
            let rules = with_asterdrive_rule(existing, origins).rules;
            &&& rules.len() > 0
            &&& rules.last() == asterdrive_rule(origins)
            &&& is_own(rules.last())
            &&& !has_own(rules.drop_last())
        }),
{
    lemma_foreign_rules(existing.rules);
    let rules = with_asterdrive_rule(existing, origins).rules;
    assert(rules.drop_last() =~= foreign_rules(existing.rules));
}

/// The rules of others are left as they are, in their order, whether or not the
/// bucket had a rule of AsterDrive.
pub proof fn law_other_rules_are_kept(existing: Configuration, origins: Seq<Seq<char>>)
    ensures
        foreign_rules(with_asterdrive_rule(existing, origins).rules) == foreign_rules(
            existing.rules,
        ),
        !has_own(existing.rules) ==> with_asterdrive_rule(existing, origins).rules
            == existing.rules.push(asterdrive_rule(origins)),
        forall|i: int|
            0 <= i < foreign_rules(existing.rules).len() ==> existing.rules.contains(
                #[trigger] foreign_rules(existing.rules)[i],
            ),
{
    let kept = foreign_rules(existing.rules);
    lemma_foreign_rules(existing.rules);
    lemma_foreign_rules(kept);
    kept.lemma_filter_push(asterdrive_rule(origins), |rule: Rule| !is_own(rule));
}

/// A rule of AsterDrive was replaced exactly where fewer rules are kept than
/// there were.
pub proof fn law_replaced_where_fewer_kept(rules: Seq<Rule>)
    ensures
        has_own(rules) <==> foreign_rules(rules).len() != rules.len(),
{
    lemma_foreign_rules(rules);
}

/// Of two updates in a row, the second decides: the configuration is as if the
/// first had never been made, and the second finds a rule to replace.
pub proof fn law_second_update_decides(
    existing: Configuration,
    first: Seq<Seq<char>>,
    second: Seq<Seq<char>>,
)
    ensures
        with_asterdrive_rule(with_asterdrive_rule(existing, first), second)
            == with_asterdrive_rule(existing, second),
        has_own(with_asterdrive_rule(existing, first).rules),
{
    law_other_rules_are_kept(existing, first);
    let rules = with_asterdrive_rule(existing, first).rules;
    assert(rules[rules.len() - 1] == asterdrive_rule(first));
}

proof fn lemma_own_rule_is_clean(origins: Seq<Seq<char>>)
    requires
        all_clean(origins),
    ensures
        is_clean_rule(asterdrive_rule(origins)),
{
    reveal_strlit("asterdrive-presigned-access");
    reveal_strlit("PUT");
    reveal_strlit("GET");
    reveal_strlit("HEAD");
    reveal_strlit("*");
    reveal_strlit("Content-Type");
    reveal_strlit("Range");
    reveal_strlit("x-cos-*");
    reveal_strlit("ETag");
    reveal_strlit("Content-Length");
    reveal_strlit("Content-Range");
    reveal_strlit("Content-Disposition");
    reveal_strlit("Accept-Ranges");
    reveal_strlit("x-cos-request-id");
    reveal_strlit("x-cos-hash-crc64ecma");
    assert(is_clean(ASTERDRIVE_COS_CORS_RULE_ID@));
}

/// What an update writes over a configuration that was read is read back as it
/// was written, for origins without white space around them.
pub proof fn law_update_is_read_back(document: Element, origins: Seq<Seq<char>>)
    requires
        all_clean(origins),
    ensures
        ({
            let updated = with_asterdrive_rule(configuration_of(document), origins);
            &&& names(configuration_element(updated).name, "CORSConfiguration"@)
            &&& configuration_of(configuration_element(updated)) == updated
        }),
{
    let existing = configuration_of(document);
    let updated = with_asterdrive_rule(existing, origins);
    law_read_configuration_is_clean(document);
    lemma_foreign_rules(existing.rules);
    lemma_own_rule_is_clean(origins);
    assert forall|i: int| 0 <= i < updated.rules.len() implies is_clean_rule(
        #[trigger] updated.rules[i],
    ) by {
        let kept = foreign_rules(existing.rules);
        if i < kept.len() {
            assert(updated.rules[i] == kept[i]);
            let j = choose|j: int|
                0 <= j < existing.rules.len() && existing.rules[j] == kept[i];
            assert(is_clean_rule(existing.rules[j]));
        }
    }
    assert(is_clean_configuration(updated));
    law_configuration_round_trip(updated);
}

/// Updating a bucket again, for the same origins, changes nothing.
pub proof fn law_update_is_idempotent(document: Element, origins: Seq<Seq<char>>)
    requires
        all_clean(origins),
    ensures
        ({
            let updated = with_asterdrive_rule(configuration_of(document), origins);
            with_asterdrive_rule(configuration_of(configuration_element(updated)), origins)
                == updated
        }),
{
    law_update_is_read_back(document, origins);
    law_second_update_decides(configuration_of(document), origins, origins);
}

/// Only its ID makes a rule one of AsterDrive: every rule with another ID, or with
/// none, is in the new configuration, whatever else it says.
pub proof fn law_rules_are_told_apart_by_id_alone(
    existing: Configuration,
    origins: Seq<Seq<char>>,
    i: int,
)
    requires
        0 <= i < existing.rules.len(),
    ensures
        existing.rules[i].id != Some("asterdrive-presigned-access"@) ==> with_asterdrive_rule(
            existing,
            origins,
        ).rules.contains(existing.rules[i]),
        has_own(existing.rules) <==> exists|j: int|
            0 <= j < existing.rules.len() && (#[trigger] existing.rules[j]).id == Some(
                "asterdrive-presigned-access"@,
            ),
    decreases existing.rules.len(),
{
    let last = existing.rules.len() - 1;
    let fewer = Configuration { rules: existing.rules.drop_last(), ..existing };
    let updated = with_asterdrive_rule(existing, origins).rules;
    law_update_rule_by_rule(fewer, existing.rules[last], origins);
    assert(fewer.rules.push(existing.rules[last]) =~= existing.rules);
    let before = with_asterdrive_rule(fewer, origins).rules;
    law_one_own_rule(fewer, origins);
    if existing.rules[i].id != Some("asterdrive-presigned-access"@) {
        if i < last {
            law_rules_are_told_apart_by_id_alone(fewer, origins, i);
            assert(fewer.rules[i] == existing.rules[i]);
            let k = choose|k: int| 0 <= k < before.len() && before[k] == existing.rules[i];
            if k == before.len() - 1 {
                assert(before[k] == asterdrive_rule(origins));
                law_own_rule_depends_on_origins_alone(origins, origins);
            }
            assert(before.drop_last()[k] == before[k]);
            assert(updated[k] == existing.rules[i]);
        } else {
            assert(updated[updated.len() - 2] == existing.rules[i]);
        }
    }
    assert(forall|rule: Rule|
        #![trigger is_own(rule)]
        is_own(rule) <==> rule.id == Some("asterdrive-presigned-access"@));
}

/// A rule more among the existing ones is one more that is kept, just before the
/// rule of AsterDrive, unless its ID is that of AsterDrive's rule: then it makes no
/// difference. A bucket without rules gets the one rule.
pub proof fn law_update_rule_by_rule(
    existing: Configuration,
    rule: Rule,
    origins: Seq<Seq<char>>,
)
    ensures
        ({
            let more = Configuration { rules: existing.rules.push(rule), ..existing };
            let without = with_asterdrive_rule(existing, origins).rules;
            let updated = with_asterdrive_rule(more, origins).rules;
            if rule.id == Some("asterdrive-presigned-access"@) {
                &&& updated == without
                &&& foreign_rules(more.rules).len() == foreign_rules(existing.rules).len()
                &&& has_own(more.rules)
            } else {
                &&& updated == without.drop_last().push(rule).push(without.last())
                &&& foreign_rules(more.rules).len() == foreign_rules(existing.rules).len() + 1
                &&& has_own(more.rules) == has_own(existing.rules)
            }
        }),
        existing.rules.len() == 0 ==> {
            &&& with_asterdrive_rule(existing, origins).rules == seq![asterdrive_rule(origins)]
            &&& foreign_rules(existing.rules).len() == 0
            &&& !has_own(existing.rules)
        },
        with_asterdrive_rule(existing, origins).response_vary == Some(true),
{
    let rules = existing.rules;
    rules.lemma_filter_push(rule, |r: Rule| !is_own(r));
    let kept = foreign_rules(rules);
    assert(kept.push(asterdrive_rule(origins)).drop_last() =~= kept);
    lemma_foreign_rules(rules);
    lemma_foreign_rules(rules.push(rule));
    assert(rules.push(rule)[rules.len() as int] == rule);
    if has_own(rules) {
        let i = choose|i: int| 0 <= i < rules.len() && is_own(#[trigger] rules[i]);
        assert(is_own(rules.push(rule)[i]));
    }
    if has_own(rules.push(rule)) && !is_own(rule) {
        let i = choose|i: int|
            0 <= i < rules.push(rule).len() && is_own(#[trigger] rules.push(rule)[i]);
        assert(is_own(rules[i]));
    }
    if rules.len() == 0 {
        assert(kept =~= Seq::<Rule>::empty());
        assert(kept.push(asterdrive_rule(origins)) =~= seq![asterdrive_rule(origins)]);
    }
}

/// The rule of AsterDrive has its ID and the origins it is made for, as many as
/// there are; nothing else in it depends on them.
pub proof fn law_own_rule_depends_on_origins_alone(a: Seq<Seq<char>>, b: Seq<Seq<char>>)
    ensures
        asterdrive_rule(a).id == Some("asterdrive-presigned-access"@),
        asterdrive_rule(a).allowed_origins == a,
        asterdrive_rule(a).allowed_methods == seq!["PUT"@, "GET"@, "HEAD"@],
        asterdrive_rule(a).max_age_seconds == Some(600u32),
        asterdrive_rule(a) == (Rule { allowed_origins: a, ..asterdrive_rule(b) }),
{
}

} // verus!
