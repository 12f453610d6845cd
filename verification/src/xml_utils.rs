//! Names and texts of XML elements.

use vstd::prelude::*;
use vstd::string::*;

use crate::text::{
    after_last, ascii_lowercase, eq_ignore_ascii_case, is_white_space, lemma_after_last,
    lemma_trimmed, same_text, text_after_last, trim, trimmed,
};

verus! {

/// A qualified name without its namespace prefix: what follows the last colon.
pub open spec fn local_part(name: Seq<char>) -> Seq<char> {
    after_last(name, ':')
}

/// Whether a qualified name has the given local part.
pub open spec fn names(actual: Seq<char>, expected: Seq<char>) -> bool {
    local_part(actual) == expected
}

/// Whether a qualified name has the given local part, up to the case of ASCII
/// letters.
pub open spec fn names_ignore_case(actual: Seq<char>, expected: Seq<char>) -> bool {
    ascii_lowercase(local_part(actual)) == ascii_lowercase(expected)
}

/// The trimmed text, where there is one and anything of it is left.
pub open spec fn non_blank(text: Option<Seq<char>>) -> Option<Seq<char>> {
    match text {
        Some(t) => if trimmed(t).len() > 0 {
            Some(trimmed(t))
        } else {
            None
        },
        None => None,
    }
}

/// The local part of a qualified XML name.
pub fn local_name(name: &str) -> (local: &str)
    ensures
        local@ == local_part(name@),
{
    text_after_last(name, ':')
}

/// Whether the local part of `actual` is `expected`.
pub fn local_name_eq(actual: &str, expected: &str) -> (same: bool)
    ensures
        same == names(actual@, expected@),
{
    same_text(local_name(actual), expected)
}

/// Whether the local part of `actual` is `expected`, up to the case of ASCII
/// letters.
pub fn local_name_eq_ignore_case(actual: &str, expected: &str) -> (same: bool)
    ensures
        same == names_ignore_case(actual@, expected@),
{
    eq_ignore_ascii_case(local_name(actual), expected)
}

/// The trimmed text, or nothing where `text` is absent or blank.
pub fn non_empty_owned_text(text: Option<&str>) -> (owned: Option<String>)
    ensures
        match text {
            Some(t) => match owned {
                Some(o) => non_blank(Some(t@)) == Some(o@),
                None => non_blank(Some(t@)) is None,
            },
            None => owned is None,
        },
{
    match text {
        Some(t) => {
            let kept: &str = trim(t);
            if kept.is_empty() {
                None
            } else {
                Some(kept.to_string())
            }
        },
        None => None,
    }
}

/// A local part holds no colon, and taking the local part again changes nothing.
pub proof fn law_local_part_is_final(name: Seq<char>)
    ensures
        !local_part(name).contains(':'),
        local_part(name).is_suffix_of(name),
        local_part(local_part(name)) == local_part(name),
{
    lemma_after_last(name, ':');
    lemma_after_last(local_part(name), ':');
}

/// A namespace prefix, whatever it is, does not change the local part.
pub proof fn law_prefix_is_ignored(prefix: Seq<char>, name: Seq<char>)
    ensures
        local_part(prefix.push(':') + name) == local_part(name),
{
    lemma_after_last(name, ':');
}

/// A name that matches exactly also matches without regard to case.
pub proof fn law_exact_match_ignores_case(actual: Seq<char>, expected: Seq<char>)
    requires
        names(actual, expected),
    ensures
        names_ignore_case(actual, expected),
{
}

/// A text that was kept neither is empty nor starts or ends with white space, and
/// keeping it again changes nothing.
pub proof fn law_kept_text_is_clean(text: Option<Seq<char>>)
    ensures
        non_blank(text) matches Some(t) ==> {
            &&& t.len() > 0
            &&& !is_white_space(t[0])
            &&& !is_white_space(t.last())
            &&& non_blank(Some(t)) == Some(t)
        },
{
    if let Some(t) = text {
        lemma_trimmed(t);
    }
}

} // verus!
