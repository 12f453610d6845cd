//! Text as a sequence of characters: the few string operations the rest of the
//! library is built from, each with the sequence it stands for.

use vstd::prelude::*;
use vstd::string::*;

verus! {

/// `String::push` adds one character at the end.
pub assume_specification[ String::push ](s: &mut String, c: char)
    ensures
        final(s)@ == old(s)@.push(c),
;

/// The characters with the Unicode property `White_Space`.
pub open spec fn is_white_space(c: char) -> bool {
    ||| '\u{9}' <= c <= '\u{d}'
    ||| c == '\u{20}'
    ||| c == '\u{85}'
    ||| c == '\u{a0}'
    ||| c == '\u{1680}'
    ||| '\u{2000}' <= c <= '\u{200a}'
    ||| c == '\u{2028}'
    ||| c == '\u{2029}'
    ||| c == '\u{202f}'
    ||| c == '\u{205f}'
    ||| c == '\u{3000}'
}

/// `char::is_whitespace` tells the characters with the Unicode property
/// `White_Space` from the others.
pub assume_specification[ char::is_whitespace ](c: char) -> (white: bool)
    ensures
        white == is_white_space(c),
;

/// `s` without the longest prefix made of characters that satisfy `p`.
pub open spec fn without_leading(s: Seq<char>, p: spec_fn(char) -> bool) -> Seq<char>
    decreases s.len(),
{
    if s.len() > 0 && p(s[0]) {
        without_leading(s.drop_first(), p)
    } else {
        s
    }
}

/// `s` without the longest suffix made of characters that satisfy `p`.
pub open spec fn without_trailing(s: Seq<char>, p: spec_fn(char) -> bool) -> Seq<char>
    decreases s.len(),
{
    if s.len() > 0 && p(s.last()) {
        without_trailing(s.drop_last(), p)
    } else {
        s
    }
}

/// The predicate of the white space characters.
pub open spec fn white() -> spec_fn(char) -> bool {
    |c: char| is_white_space(c)
}

/// The predicate that only `c` satisfies.
pub open spec fn only(c: char) -> spec_fn(char) -> bool {
    |d: char| d == c
}

/// `s` without white space at either end.
pub open spec fn trimmed(s: Seq<char>) -> Seq<char> {
    without_trailing(without_leading(s, white()), white())
}

proof fn lemma_without_leading_skip(s: Seq<char>, p: spec_fn(char) -> bool, n: int)
    requires
        0 <= n <= s.len(),
        forall|i: int| 0 <= i < n ==> p(#[trigger] s[i]),
        n < s.len() ==> !p(s[n]),
    ensures
        without_leading(s, p) == s.skip(n),
    decreases n,
{
    if n == 0 {
        assert(s.skip(0) =~= s);
    } else {
        let rest = s.drop_first();
        assert forall|i: int| 0 <= i < n - 1 implies p(#[trigger] rest[i]) by {
            assert(rest[i] == s[i + 1]);
        }
        lemma_without_leading_skip(rest, p, n - 1);
        assert(rest.skip(n - 1) =~= s.skip(n));
        assert(p(s[0]));
    }
}

proof fn lemma_without_trailing_take(s: Seq<char>, p: spec_fn(char) -> bool, n: int)
    requires
        0 <= n <= s.len(),
        forall|i: int| n <= i < s.len() ==> p(#[trigger] s[i]),
        n > 0 ==> !p(s[n - 1]),
    ensures
        without_trailing(s, p) == s.take(n),
    decreases s.len() - n,
{
    if n == s.len() {
        assert(s.take(n) =~= s);
    } else {
        let rest = s.drop_last();
        lemma_without_trailing_take(rest, p, n);
        assert(rest.take(n) =~= s.take(n));
        assert(p(s[s.len() - 1]));
    }
}

/// The characters of each text in a list.
pub open spec fn strs_view(texts: Seq<&str>) -> Seq<Seq<char>> {
    texts.map_values(|text: &str| text@)
}

/// The characters of `text`.
pub fn chars_of(text: &str) -> (chars: Vec<char>)
    ensures
        chars@ == text@,
{
    let mut chars: Vec<char> = Vec::new();
    for c in iter: text.chars()
        invariant
            chars@ == text@.take(iter.index() as int),
            iter.seq() == text@,
    {
        chars.push(c);
    }
    chars
}

/// Whether two texts are made of the same characters.
pub fn same_text(a: &str, b: &str) -> (same: bool)
    ensures
        same == (a@ == b@),
{
    let left: Vec<char> = chars_of(a);
    let right: Vec<char> = chars_of(b);
    if left.len() != right.len() {
        return false;
    }
    for i in 0..left.len()
        invariant
            left@ == a@,
            right@ == b@,
            left@.len() == right@.len(),
            forall|j: int| 0 <= j < i ==> left@[j] == right@[j],
    {
        if left[i] != right[i] {
            return false;
        }
    }
    assert(a@ =~= b@);
    true
}

/// The part of `text` between its first and its last character that is not
/// white space.
pub fn trim(text: &str) -> (kept: &str)
    ensures
        kept@ == trimmed(text@),
{
    let chars: Vec<char> = chars_of(text);
    let mut from: usize = 0;
    while from < chars.len() && chars[from].is_whitespace()
        invariant
            from <= chars@.len(),
            forall|i: int| 0 <= i < from ==> is_white_space(#[trigger] chars@[i]),
        decreases chars@.len() - from,
    {
        from = from + 1;
    }
    let mut to: usize = chars.len();
    while to > from && chars[to - 1].is_whitespace()
        invariant
            from <= to <= chars@.len(),
            forall|i: int| to <= i < chars@.len() ==> is_white_space(#[trigger] chars@[i]),
        decreases to,
    {
        to = to - 1;
    }
    proof {
        let s = text@;
        lemma_without_leading_skip(s, white(), from as int);
        let rest = s.skip(from as int);
        assert forall|i: int| to - from <= i < rest.len() implies white()(#[trigger] rest[i]) by {
            assert(rest[i] == s[i + from]);
        }
        if to > from {
            assert(rest[to - from - 1] == s[to - 1]);
        }
        lemma_without_trailing_take(rest, white(), to - from);
        assert(rest.take(to - from) =~= s.subrange(from as int, to as int));
    }
    text.substring_char(from, to)
}

/// `text` without the `c`s that it starts with.
pub fn trim_start_char(text: &str, c: char) -> (kept: &str)
    ensures
        kept@ == without_leading(text@, only(c)),
{
    let chars: Vec<char> = chars_of(text);
    let mut from: usize = 0;
    while from < chars.len() && chars[from] == c
        invariant
            from <= chars@.len(),
            forall|i: int| 0 <= i < from ==> #[trigger] chars@[i] == c,
        decreases chars@.len() - from,
    {
        from = from + 1;
    }
    proof {
        lemma_without_leading_skip(text@, only(c), from as int);
        assert(text@.skip(from as int) =~= text@.subrange(from as int, text@.len() as int));
    }
    text.substring_char(from, chars.len())
}

/// `text` without the `c`s that it ends with.
pub fn trim_end_char(text: &str, c: char) -> (kept: &str)
    ensures
        kept@ == without_trailing(text@, only(c)),
{
    let chars: Vec<char> = chars_of(text);
    let mut to: usize = chars.len();
    while to > 0 && chars[to - 1] == c
        invariant
            to <= chars@.len(),
            forall|i: int| to <= i < chars@.len() ==> #[trigger] chars@[i] == c,
        decreases to,
    {
        to = to - 1;
    }
    proof {
        lemma_without_trailing_take(text@, only(c), to as int);
        assert(text@.take(to as int) =~= text@.subrange(0, to as int));
    }
    text.substring_char(0, to)
}

proof fn lemma_without_leading_push(s: Seq<char>, p: spec_fn(char) -> bool, c: char)
    requires
        p(c),
    ensures
        without_leading(s.push(c), p) == (if without_leading(s, p).len() == 0 {
            Seq::empty()
        } else {
            without_leading(s, p).push(c)
        }),
    decreases s.len(),
{
    if s.len() == 0 {
        assert(s.push(c).drop_first() =~= s);
    } else if p(s[0]) {
        assert(s.push(c).drop_first() =~= s.drop_first().push(c));
        lemma_without_leading_push(s.drop_first(), p, c);
    }
}

/// White space around a text makes no difference to what trimming leaves.
pub proof fn law_white_space_around_is_ignored(s: Seq<char>, c: char)
    requires
        is_white_space(c),
    ensures
        trimmed(seq![c] + s) == trimmed(s),
        trimmed(s.push(c)) == trimmed(s),
{
    assert((seq![c] + s).drop_first() =~= s);
    lemma_without_leading_push(s, white(), c);
    let lead = without_leading(s, white());
    assert(lead.push(c).drop_last() =~= lead);
}

/// Nothing is left to trim from a text that neither starts nor ends with white
/// space, and trimming leaves such a text.
pub proof fn lemma_trimmed(s: Seq<char>)
    ensures
        trimmed(s).len() > 0 ==> !is_white_space(trimmed(s)[0]) && !is_white_space(
            trimmed(s).last(),
        ),
        (s.len() > 0 ==> !is_white_space(s[0]) && !is_white_space(s.last())) ==> trimmed(s) == s,
        trimmed(trimmed(s)) == trimmed(s),
        trimmed(s).len() <= s.len(),
{
    let lead = without_leading(s, white());
    lemma_without_leading_start(s, white());
    lemma_without_trailing_end(lead, white());
    let t = trimmed(s);
    if t.len() > 0 {
        assert(t[0] == lead[0]);
    }
    assert(without_leading(t, white()) == t);
    assert(without_trailing(t, white()) == t);
}

proof fn lemma_without_leading_start(s: Seq<char>, p: spec_fn(char) -> bool)
    ensures
        without_leading(s, p).len() > 0 ==> !p(without_leading(s, p)[0]),
        without_leading(s, p).len() <= s.len(),
    decreases s.len(),
{
    if s.len() > 0 && p(s[0]) {
        lemma_without_leading_start(s.drop_first(), p);
    }
}

proof fn lemma_without_trailing_end(s: Seq<char>, p: spec_fn(char) -> bool)
    ensures
        without_trailing(s, p).is_prefix_of(s),
        without_trailing(s, p).len() > 0 ==> !p(without_trailing(s, p).last()),
    decreases s.len(),
{
    if s.len() > 0 && p(s.last()) {
        lemma_without_trailing_end(s.drop_last(), p);
    }
}

/// The lower case letter of an ASCII capital, any other character as it is.
pub open spec fn ascii_lower(c: char) -> char {
    if 'A' <= c <= 'Z' {
        (c as int + 32) as char
    } else {
        c
    }
}

/// `s` with its ASCII capitals made lower case.
pub open spec fn ascii_lowercase(s: Seq<char>) -> Seq<char> {
    s.map_values(|c: char| ascii_lower(c))
}

fn to_ascii_lower(c: char) -> (lower: char)
    ensures
        lower == ascii_lower(c),
{
    if 'A' <= c && c <= 'Z' {
        (c as u8 + 32) as char
    } else {
        c
    }
}

/// `text` with its ASCII capitals made lower case.
pub fn to_ascii_lowercase(text: &str) -> (lower: String)
    ensures
        lower@ == ascii_lowercase(text@),
{
    let mut lower: String = String::new();
    for c in iter: text.chars()
        invariant
            lower@ == ascii_lowercase(text@.take(iter.index() as int)),
            iter.seq() == text@,
    {
        lower.push(to_ascii_lower(c));
        assert(lower@ =~= ascii_lowercase(text@.take(iter.index() as int + 1)));
    }
    assert(text@.take(text@.len() as int) =~= text@);
    lower
}

/// Whether two texts differ at most in the case of their ASCII letters.
pub fn eq_ignore_ascii_case(a: &str, b: &str) -> (same: bool)
    ensures
        same == (ascii_lowercase(a@) == ascii_lowercase(b@)),
{
    let left: String = to_ascii_lowercase(a);
    let right: String = to_ascii_lowercase(b);
    left == right
}

/// Whether `text` begins with `prefix`.
pub fn starts_with(text: &str, prefix: &str) -> (starts: bool)
    ensures
        starts == prefix@.is_prefix_of(text@),
{
    let n: usize = prefix.unicode_len();
    if text.unicode_len() < n {
        return false;
    }
    let head: &str = text.substring_char(0, n);
    let starts: bool = same_text(head, prefix);
    assert(starts ==> prefix@.is_prefix_of(text@));
    proof {
        if prefix@.is_prefix_of(text@) {
            assert(head@ =~= prefix@);
        }
    }
    starts
}

proof fn lemma_lowercase_of_leading(s: Seq<char>)
    ensures
        ascii_lowercase(without_leading(s, white())) == without_leading(
            ascii_lowercase(s),
            white(),
        ),
    decreases s.len(),
{
    if s.len() > 0 && is_white_space(s[0]) {
        lemma_lowercase_of_leading(s.drop_first());
        assert(ascii_lowercase(s).drop_first() =~= ascii_lowercase(s.drop_first()));
    }
}

proof fn lemma_lowercase_of_trailing(s: Seq<char>)
    ensures
        ascii_lowercase(without_trailing(s, white())) == without_trailing(
            ascii_lowercase(s),
            white(),
        ),
    decreases s.len(),
{
    if s.len() > 0 && is_white_space(s.last()) {
        lemma_lowercase_of_trailing(s.drop_last());
        assert(ascii_lowercase(s).drop_last() =~= ascii_lowercase(s.drop_last()));
    }
}

/// Lower case and trimming do not get into each other's way.
pub proof fn law_trimming_keeps_case_apart(s: Seq<char>)
    ensures
        ascii_lowercase(trimmed(s)) == trimmed(ascii_lowercase(s)),
{
    lemma_lowercase_of_leading(s);
    lemma_lowercase_of_trailing(without_leading(s, white()));
}

/// Whether `text` ends with `suffix`.
pub fn ends_with(text: &str, suffix: &str) -> (ends: bool)
    ensures
        ends == suffix@.is_suffix_of(text@),
{
    let n: usize = text.unicode_len();
    let m: usize = suffix.unicode_len();
    if n < m {
        return false;
    }
    same_text(text.substring_char(n - m, n), suffix)
}

/// What follows the last `c` in `s`, or all of it where there is none.
pub open spec fn after_last(s: Seq<char>, c: char) -> Seq<char>
    decreases s.len(),
{
    if s.len() == 0 || s.last() == c {
        Seq::empty()
    } else {
        after_last(s.drop_last(), c).push(s.last())
    }
}

proof fn lemma_after_last_skip(s: Seq<char>, c: char, n: int)
    requires
        0 <= n <= s.len(),
        n > 0 ==> s[n - 1] == c,
        forall|i: int| n <= i < s.len() ==> s[i] != c,
    ensures
        after_last(s, c) == s.skip(n),
    decreases s.len() - n,
{
    if n < s.len() {
        lemma_after_last_skip(s.drop_last(), c, n);
        assert(s.drop_last().skip(n).push(s.last()) =~= s.skip(n));
    }
}

/// What follows the last `c` in `text`, or all of it where there is none.
pub fn text_after_last(text: &str, c: char) -> (rest: &str)
    ensures
        rest@ == after_last(text@, c),
{
    let chars: Vec<char> = chars_of(text);
    let mut from: usize = chars.len();
    while from > 0 && chars[from - 1] != c
        invariant
            from <= chars@.len(),
            forall|i: int| from <= i < chars@.len() ==> chars@[i] != c,
        decreases from,
    {
        from = from - 1;
    }
    proof {
        lemma_after_last_skip(text@, c, from as int);
        assert(text@.skip(from as int) =~= text@.subrange(from as int, text@.len() as int));
    }
    text.substring_char(from, chars.len())
}

/// What follows the last `c` holds no `c`, ends the text, and is the text itself
/// where it holds none.
pub proof fn lemma_after_last(s: Seq<char>, c: char)
    ensures
        !after_last(s, c).contains(c),
        after_last(s, c).is_suffix_of(s),
        !s.contains(c) ==> after_last(s, c) == s,
        forall|prefix: Seq<char>| #[trigger] after_last(prefix.push(c) + s, c) == after_last(s, c),
    decreases s.len(),
{
    if s.len() > 0 && s.last() != c {
        let shorter = s.drop_last();
        lemma_after_last(shorter, c);
        let rest = after_last(shorter, c);
        assert(rest.push(s.last()) =~= s.subrange(s.len() - rest.len() - 1, s.len() as int));
        if !s.contains(c) {
            assert forall|i: int| 0 <= i < shorter.len() implies shorter[i] != c by {
                assert(s.contains(s[i]));
            }
            assert(shorter.push(s.last()) =~= s);
        }
    } else if s.len() > 0 {
        assert(s.contains(s[s.len() - 1]));
    }
    assert forall|prefix: Seq<char>| #[trigger]
        after_last(prefix.push(c) + s, c) == after_last(s, c) by {
        lemma_after_last_prefixed(prefix, c, s);
    }
}

proof fn lemma_after_last_prefixed(prefix: Seq<char>, c: char, s: Seq<char>)
    ensures
        after_last(prefix.push(c) + s, c) == after_last(s, c),
    decreases s.len(),
{
    if s.len() > 0 {
        lemma_after_last_prefixed(prefix, c, s.drop_last());
        assert((prefix.push(c) + s).drop_last() =~= prefix.push(c) + s.drop_last());
    }
}

} // verus!
