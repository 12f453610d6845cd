//! How AsterDrive puts its own rule into the CORS configuration of a bucket.

use vstd::prelude::*;
use vstd::string::*;

use crate::cors::{
    rules_view, Configuration, CosCorsConfiguration, CosCorsRule, Rule, ASTERDRIVE_COS_CORS_RULE_ID,
};
use crate::cors_update_laws::law_replaced_where_fewer_kept;
use crate::text::same_text;
use crate::xml::texts_view;

verus! {

/// The rule that belongs to AsterDrive, for pages of the given origins.
pub open spec fn asterdrive_rule(origins: Seq<Seq<char>>) -> Rule {
    Rule {
        id: Some(ASTERDRIVE_COS_CORS_RULE_ID@),
        allowed_origins: origins,
        allowed_methods: seq!["PUT"@, "GET"@, "HEAD"@],
        allowed_headers: seq!["*"@, "Content-Type"@, "Range"@, "x-cos-*"@],
        expose_headers: seq![
            "ETag"@,
            "Content-Length"@,
            "Content-Range"@,
            "Content-Disposition"@,
            "Accept-Ranges"@,
            "x-cos-request-id"@,
            "x-cos-hash-crc64ecma"@,
        ],
        max_age_seconds: Some(600),
    }
}

/// Whether a rule carries the ID of the rule that belongs to AsterDrive.
pub open spec fn is_own(rule: Rule) -> bool {
    rule.id == Some(ASTERDRIVE_COS_CORS_RULE_ID@)
}

/// Whether one of the rules carries that ID.
pub open spec fn has_own(rules: Seq<Rule>) -> bool {
    exists|i: int| 0 <= i < rules.len() && is_own(#[trigger] rules[i])
}

/// The rules of a list that do not belong to AsterDrive, in their order.
pub open spec fn foreign_rules(rules: Seq<Rule>) -> Seq<Rule> {
    rules.filter(|rule: Rule| !is_own(rule))
}

/// A configuration with AsterDrive's rule in it: the rules of others as they
/// are, then the one rule of AsterDrive.
pub open spec fn with_asterdrive_rule(
    existing: Configuration,
    origins: Seq<Seq<char>>,
) -> Configuration {
    Configuration {
        rules: foreign_rules(existing.rules).push(asterdrive_rule(origins)),
        response_vary: Some(true),
    }
}

/// The new configuration of a bucket, and how it differs from the old one.
#[derive(Debug, PartialEq, Eq)]
pub struct CorsUpdate {
    pub configuration: CosCorsConfiguration,
    pub preserved_rule_count: usize,
    pub replaced_existing_rule: bool,
}

/// What AsterDrive reports once a bucket has its rule.
#[derive(Debug, Clone, PartialEq, Eq)]
pub struct TencentCosCorsApplyResult {
    pub rule_id: String,
    pub allowed_origins: Vec<String>,
    pub request_id: Option<String>,
    pub preserved_rule_count: usize,
    pub replaced_existing_rule: bool,
    pub response_vary: bool,
}

fn copy_texts(texts: &[String]) -> (copy: Vec<String>)
    ensures
        copy@ == texts@,
{
    let mut copy: Vec<String> = Vec::new();
    for i in 0..texts.len()
        invariant
            copy@ == texts@.take(i as int),
    {
        copy.push(texts[i].clone());
    }
    assert(texts@.take(texts@.len() as int) =~= texts@);
    copy
}

/// The rule that belongs to AsterDrive.
pub fn asterdrive_cors_rule(allowed_origins: &[String]) -> (rule: CosCorsRule)
    ensures
        rule@ == asterdrive_rule(texts_view(allowed_origins@)),
{
    let rule: CosCorsRule = CosCorsRule {
        id: Some(ASTERDRIVE_COS_CORS_RULE_ID.to_string()),
        allowed_origins: copy_texts(allowed_origins),
        allowed_methods: vec!["PUT".to_string(), "GET".to_string(), "HEAD".to_string()],
        allowed_headers: vec![
            "*".to_string(),
            "Content-Type".to_string(),
            "Range".to_string(),
            "x-cos-*".to_string(),
        ],
        expose_headers: vec![
            "ETag".to_string(),
            "Content-Length".to_string(),
            "Content-Range".to_string(),
            "Content-Disposition".to_string(),
            "Accept-Ranges".to_string(),
            "x-cos-request-id".to_string(),
            "x-cos-hash-crc64ecma".to_string(),
        ],
        max_age_seconds: Some(600),
    };
    let ghost expected = asterdrive_rule(texts_view(allowed_origins@));
    assert(rule@.allowed_methods =~= expected.allowed_methods);
    assert(rule@.allowed_headers =~= expected.allowed_headers);
    assert(rule@.expose_headers =~= expected.expose_headers);
    rule
}

fn is_asterdrive_rule(rule: &CosCorsRule) -> (own: bool)
    ensures
        own == is_own(rule@),
{
    match &rule.id {
        Some(id) => same_text(id.as_str(), ASTERDRIVE_COS_CORS_RULE_ID),
        None => false,
    }
}

/// Puts AsterDrive's rule into the configuration that a bucket has, in place of
/// the one it may have had there before.
pub fn merge_asterdrive_cors(existing: CosCorsConfiguration, allowed_origins: &[String]) -> (update:
    CorsUpdate)
    ensures
        update.configuration@ == with_asterdrive_rule(existing@, texts_view(allowed_origins@)),
        update.preserved_rule_count == foreign_rules(existing@.rules).len(),
        update.replaced_existing_rule == has_own(existing@.rules),
        update.replaced_existing_rule == (update.preserved_rule_count != existing.rules@.len()),
        update.configuration.rules@.len() == update.preserved_rule_count + 1,
{
    let ghost before = existing@.rules;
    let ghost foreign = |rule: Rule| !is_own(rule);
    let mut rules: Vec<CosCorsRule> = existing.rules;
    let mut kept: usize = 0;
    let mut replaced_existing_rule: bool = false;
    let ghost mut seen: int = 0;
    assert(before.take(0).filter(foreign) =~= Seq::<Rule>::empty());
    assert(before.take(0).filter(foreign) + before.skip(0) =~= before);
    while kept < rules.len()
        invariant
            0 <= seen <= before.len(),
            foreign == (|rule: Rule| !is_own(rule)),
            rules_view(rules@) == before.take(seen).filter(foreign) + before.skip(seen),
            kept == before.take(seen).filter(foreign).len(),
            replaced_existing_rule == exists|i: int|
                0 <= i < seen && is_own(#[trigger] before[i]),
        decreases rules@.len() - kept,
    {
        let ghost held = before.take(seen).filter(foreign);
        let ghost current = rules_view(rules@);
        proof {
            assert(current[kept as int] == before[seen]);
            assert(before.take(seen + 1) =~= before.take(seen).push(before[seen]));
            before.take(seen).lemma_filter_push(before[seen], foreign);
        }
        if is_asterdrive_rule(&rules[kept]) {
            rules.remove(kept);
            assert(is_own(before[seen]));
            replaced_existing_rule = true;
            assert(rules_view(rules@) =~= current.remove(kept as int));
            assert(current.remove(kept as int) =~= held + before.skip(seen + 1));
        } else {
            kept = kept + 1;
            assert(held.push(before[seen]) + before.skip(seen + 1) =~= current);
        }
        proof {
            seen = seen + 1;
        }
    }
    proof {
        law_replaced_where_fewer_kept(before);
        assert(before.take(seen) =~= before);
        assert(rules_view(rules@) =~= foreign_rules(before));
    }
    let ghost kept_rules = rules@;
    let rule: CosCorsRule = asterdrive_cors_rule(allowed_origins);
    rules.push(rule);
    assert(rules_view(rules@) =~= rules_view(kept_rules).push(rule@));
    CorsUpdate {
        configuration: CosCorsConfiguration { rules, response_vary: Some(true) },
        preserved_rule_count: kept,
        replaced_existing_rule,
    }
}

impl CorsUpdate {
    /// What is reported once the service has taken the new configuration.
    pub fn applied(&self, allowed_origins: &[String], request_id: Option<String>) -> (result:
        TencentCosCorsApplyResult)
        ensures
            result.rule_id@ == ASTERDRIVE_COS_CORS_RULE_ID@,
            result.allowed_origins@ == allowed_origins@,
            result.request_id == request_id,
            result.preserved_rule_count == self.preserved_rule_count,
            result.replaced_existing_rule == self.replaced_existing_rule,
            result.response_vary,
    {
        TencentCosCorsApplyResult {
            rule_id: ASTERDRIVE_COS_CORS_RULE_ID.to_string(),
            allowed_origins: copy_texts(allowed_origins),
            request_id,
            preserved_rule_count: self.preserved_rule_count,
            replaced_existing_rule: self.replaced_existing_rule,
            response_vary: true,
        }
    }
}

} // verus!
