//! Finding one sequence inside another, and splitting text where something is
//! found.

use vstd::prelude::*;
use vstd::string::*;

use crate::text::{chars_of, strs_view};

verus! {

/// Whether `pattern` stands in `s` at a place.
pub open spec fn occurs_at<T>(s: Seq<T>, pattern: Seq<T>, i: int) -> bool {
    0 <= i && i + pattern.len() <= s.len() && s.subrange(i, i + pattern.len()) == pattern
}

/// Whether `pattern` stands somewhere in `s`.
pub open spec fn occurs<T>(s: Seq<T>, pattern: Seq<T>) -> bool {
    exists|i: int| occurs_at(s, pattern, i)
}

/// The first place, from `i` on, at which `pattern` stands in `s`.
pub open spec fn find_from<T>(s: Seq<T>, pattern: Seq<T>, i: int) -> Option<int>
    decreases s.len() - i + 1,
{
    if i < 0 || i + pattern.len() > s.len() {
        None
    } else if occurs_at(s, pattern, i) {
        Some(i)
    } else {
        find_from(s, pattern, i + 1)
    }
}

/// The first place at which `pattern` stands in `s`.
pub open spec fn find<T>(s: Seq<T>, pattern: Seq<T>) -> Option<int> {
    find_from(s, pattern, 0)
}

proof fn lemma_find_from<T>(s: Seq<T>, pattern: Seq<T>, from: int)
    requires
        0 <= from,
    ensures
        match find_from(s, pattern, from) {
            Some(i) => from <= i && occurs_at(s, pattern, i) && forall|j: int|
                from <= j < i ==> !occurs_at(s, pattern, j),
            None => forall|j: int| from <= j ==> !occurs_at(s, pattern, j),
        },
    decreases s.len() - from + 1,
{
    if from + pattern.len() <= s.len() && !occurs_at(s, pattern, from) {
        lemma_find_from(s, pattern, from + 1);
    }
}

/// What is found is an occurrence with none before it, and nothing is found only
/// where there is none.
pub proof fn lemma_find<T>(s: Seq<T>, pattern: Seq<T>)
    ensures
        match find(s, pattern) {
            Some(i) => occurs_at(s, pattern, i) && forall|j: int|
                j < i ==> !occurs_at(s, pattern, j),
            None => !occurs(s, pattern),
        },
{
    lemma_find_from(s, pattern, 0);
}

/// Whether `pattern` stands in `bytes` at index `at`.
fn bytes_stand_at(bytes: &[u8], pattern: &[u8], at: usize) -> (stands: bool)
    requires
        at + pattern@.len() <= bytes@.len(),
    ensures
        stands == occurs_at(bytes@, pattern@, at as int),
{
    let n: usize = bytes.len();
    for k in 0..pattern.len()
        invariant
            n == bytes@.len(),
            at + pattern@.len() <= n,
            forall|j: int| 0 <= j < k ==> bytes@[at + j] == pattern@[j],
    {
        if bytes[at + k] != pattern[k] {
            assert(bytes@.subrange(at as int, at + pattern@.len())[k as int] != pattern@[k as int]);
            return false;
        }
    }
    assert(bytes@.subrange(at as int, at + pattern@.len()) =~= pattern@);
    true
}

/// The first index, from `from` on, at which `pattern` stands in `bytes`.
pub fn find_bytes(bytes: &[u8], pattern: &[u8], from: usize) -> (found: Option<usize>)
    requires
        from <= bytes@.len(),
    ensures
        match found {
            Some(i) => find_from(bytes@, pattern@, from as int) == Some(i as int),
            None => find_from(bytes@, pattern@, from as int) is None,
        },
{
    let mut at: usize = from;
    while pattern.len() <= bytes.len() - at
        invariant
            from <= at <= bytes@.len(),
            find_from(bytes@, pattern@, from as int) == find_from(bytes@, pattern@, at as int),
        decreases bytes@.len() - at,
    {
        if bytes_stand_at(bytes, pattern, at) {
            return Some(at);
        }
        if at == bytes.len() {
            assert(find_from(bytes@, pattern@, at + 1) is None);
            return None;
        }
        at = at + 1;
    }
    None
}

fn chars_stand_at(chars: &Vec<char>, pattern: &Vec<char>, at: usize) -> (stands: bool)
    requires
        at + pattern@.len() <= chars@.len(),
    ensures
        stands == occurs_at(chars@, pattern@, at as int),
{
    let n: usize = chars.len();
    for k in 0..pattern.len()
        invariant
            n == chars@.len(),
            at + pattern@.len() <= n,
            forall|j: int| 0 <= j < k ==> chars@[at + j] == pattern@[j],
    {
        if chars[at + k] != pattern[k] {
            assert(chars@.subrange(at as int, at + pattern@.len())[k as int] != pattern@[k as int]);
            return false;
        }
    }
    assert(chars@.subrange(at as int, at + pattern@.len()) =~= pattern@);
    true
}

/// The first place, counted in characters, at which `pattern` stands in `text`.
pub fn find_text(text: &str, pattern: &str) -> (found: Option<usize>)
    ensures
        match found {
            Some(i) => find(text@, pattern@) == Some(i as int),
            None => find(text@, pattern@) is None,
        },
{
    let chars: Vec<char> = chars_of(text);
    let wanted: Vec<char> = chars_of(pattern);
    let mut at: usize = 0;
    while wanted.len() <= chars.len() - at
        invariant
            at <= chars@.len(),
            chars@ == text@,
            wanted@ == pattern@,
            find(text@, pattern@) == find_from(text@, pattern@, at as int),
        decreases chars@.len() - at,
    {
        if chars_stand_at(&chars, &wanted, at) {
            return Some(at);
        }
        if at == chars.len() {
            assert(find_from(text@, pattern@, at + 1) is None);
            return None;
        }
        at = at + 1;
    }
    None
}

/// `s` before and after the first occurrence of `pattern`.
pub open spec fn split_once(s: Seq<char>, pattern: Seq<char>) -> Option<(Seq<char>, Seq<char>)> {
    match find(s, pattern) {
        Some(i) => Some((s.take(i), s.skip(i + pattern.len()))),
        None => None,
    }
}

/// The text before and the text after the first occurrence of `pattern`.
pub fn text_split_once<'a>(text: &'a str, pattern: &str) -> (parts: Option<(&'a str, &'a str)>)
    ensures
        match parts {
            Some((before, after)) => split_once(text@, pattern@) == Some((before@, after@)),
            None => split_once(text@, pattern@) is None,
        },
{
    match find_text(text, pattern) {
        Some(i) => {
            proof {
                lemma_find(text@, pattern@);
            }
            let n: usize = text.unicode_len();
            let m: usize = pattern.unicode_len();
            let before: &'a str = text.substring_char(0, i);
            let after: &'a str = text.substring_char(i + m, n);
            assert(before@ =~= text@.take(i as int));
            assert(after@ =~= text@.skip(i + m));
            Some((before, after))
        },
        None => None,
    }
}

/// `s` without a carriage return at its end.
pub open spec fn without_return(s: Seq<char>) -> Seq<char> {
    if s.len() > 0 && s.last() == '\r' {
        s.drop_last()
    } else {
        s
    }
}

/// The lines of a text: what stands before each line feed, without a carriage
/// return directly before that, and what follows the last line feed, if anything.
pub open spec fn lines(s: Seq<char>) -> Seq<Seq<char>>
    decreases s.len(),
{
    if s.len() == 0 {
        Seq::empty()
    } else {
        match find(s, seq!['\n']) {
            Some(i) => if 0 <= i < s.len() {
                seq![without_return(s.take(i))] + lines(s.skip(i + 1))
            } else {
                Seq::empty()
            },
            None => seq![s],
        }
    }
}

/// The parts of a text between the occurrences of a character.
pub open spec fn split(s: Seq<char>, c: char) -> Seq<Seq<char>>
    decreases s.len(),
{
    match find(s, seq![c]) {
        Some(i) => if 0 <= i < s.len() {
            seq![s.take(i)] + split(s.skip(i + 1), c)
        } else {
            seq![s]
        },
        None => seq![s],
    }
}

/// The lines of `text`.
pub fn text_lines(text: &str) -> (found: Vec<&str>)
    ensures
        strs_view(found@) == lines(text@),
{
    let mut found: Vec<&str> = Vec::new();
    let mut rest: &str = text;
    proof {
        reveal_strlit("\n");
        assert("\n"@ =~= seq!['\n']);
        assert(strs_view(found@) + lines(rest@) =~= lines(text@));
    }
    while !rest.is_empty()
        invariant
            "\n"@ == seq!['\n'],
            lines(text@) == strs_view(found@) + lines(rest@),
        decreases rest@.len(),
    {
        let ghost before = found@;
        match text_split_once(rest, "\n") {
            Some((line, after)) => {
                proof {
                    lemma_find(rest@, "\n"@);
                }
                let kept: &str = if ends_with_return(line) {
                    line.substring_char(0, line.unicode_len() - 1)
                } else {
                    line
                };
                assert(kept@ =~= without_return(line@));
                found.push(kept);
                assert(strs_view(found@) =~= strs_view(before).push(kept@));
                assert(strs_view(before) + (seq![kept@] + lines(after@)) =~= strs_view(found@)
                    + lines(after@));
                rest = after;
            },
            None => {
                found.push(rest);
                assert(strs_view(found@) =~= strs_view(before) + seq![rest@]);
                return found;
            },
        }
    }
    assert(strs_view(found@) + lines(rest@) =~= strs_view(found@));
    found
}

fn ends_with_return(text: &str) -> (ends: bool)
    ensures
        ends == (text@.len() > 0 && text@.last() == '\r'),
{
    let n: usize = text.unicode_len();
    n > 0 && text.get_char(n - 1) == '\r'
}

/// The parts of `text` between the occurrences of `c`.
pub fn text_split(text: &str, c: char) -> (parts: Vec<&str>)
    ensures
        strs_view(parts@) == split(text@, c),
{
    let mut separator: String = String::new();
    separator.push(c);
    assert(separator@ =~= seq![c]);
    let mut parts: Vec<&str> = Vec::new();
    let mut rest: &str = text;
    assert(strs_view(parts@) + split(rest@, c) =~= split(text@, c));
    loop
        invariant
            separator@ == seq![c],
            split(text@, c) == strs_view(parts@) + split(rest@, c),
        decreases rest@.len(),
    {
        let ghost before = parts@;
        match text_split_once(rest, separator.as_str()) {
            Some((part, after)) => {
                proof {
                    lemma_find(rest@, separator@);
                }
                parts.push(part);
                assert(strs_view(parts@) =~= strs_view(before).push(part@));
                assert(strs_view(before) + (seq![part@] + split(after@, c)) =~= strs_view(parts@)
                    + split(after@, c));
                rest = after;
            },
            None => {
                parts.push(rest);
                assert(strs_view(parts@) =~= strs_view(before) + seq![rest@]);
                return parts;
            },
        }
    }
}

} // verus!
