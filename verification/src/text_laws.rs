//! What holds of texts: trimming, letters, numerals, lines and parts.

use vstd::prelude::*;

use crate::numerals::{
    decimal, decimal_signed, is_digit, is_numeral, numeral_value, parse_signed, parse_unsigned,
};
use crate::search::{find, lemma_find, lines, occurs, occurs_at, split, split_once};
use crate::text::{
    after_last, ascii_lowercase, is_white_space, law_white_space_around_is_ignored,
    lemma_after_last, lemma_trimmed, trimmed, without_leading, without_trailing,
};
use crate::xml_utils::{names, names_ignore_case, non_blank};

verus! {

/// Whether a text is nothing but white space.
pub open spec fn all_white(s: Seq<char>) -> bool {
    forall|i: int| 0 <= i < s.len() ==> is_white_space(#[trigger] s[i])
}

/// Whether a text has no white space at either end.
pub open spec fn has_clean_ends(s: Seq<char>) -> bool {
    s.len() > 0 ==> !is_white_space(s[0]) && !is_white_space(s.last())
}

/// Trimming drops all white space around a text, however long, and nothing else.
pub proof fn law_trimming_drops_what_is_around(a: Seq<char>, t: Seq<char>, b: Seq<char>)
    requires
        all_white(a),
        all_white(b),
        has_clean_ends(t),
    ensures
        trimmed(a + t + b) == t,
    decreases a.len() + b.len(),
{
    if a.len() > 0 {
        let rest = a.drop_first();
        assert forall|i: int| 0 <= i < rest.len() implies is_white_space(#[trigger] rest[i]) by {
            assert(is_white_space(a[i + 1]));
        }
        law_trimming_drops_what_is_around(rest, t, b);
        assert(is_white_space(a[0]));
        law_white_space_around_is_ignored(rest + t + b, a[0]);
        assert(a + t + b =~= seq![a[0]] + (rest + t + b));
    } else if b.len() > 0 {
        let rest = b.drop_last();
        assert forall|i: int| 0 <= i < rest.len() implies is_white_space(#[trigger] rest[i]) by {
            assert(is_white_space(b[i]));
        }
        law_trimming_drops_what_is_around(a, t, rest);
        assert(is_white_space(b[b.len() - 1]));
        law_white_space_around_is_ignored(a + t + rest, b.last());
        assert(a + t + b =~= (a + t + rest).push(b.last()));
    } else {
        assert(a + t + b =~= t);
        lemma_trimmed(t);
    }
}

/// Every text is what trimming leaves, with white space around it.
pub proof fn law_trimming_leaves_a_part(s: Seq<char>) -> (parts: (Seq<char>, Seq<char>))
    ensures
        all_white(parts.0),
        all_white(parts.1),
        s == parts.0 + trimmed(s) + parts.1,
        has_clean_ends(trimmed(s)),
    decreases s.len(),
{
    lemma_trimmed(s);
    if s.len() > 0 && is_white_space(s[0]) {
        let rest = s.drop_first();
        let (a, b) = law_trimming_leaves_a_part(rest);
        law_white_space_around_is_ignored(rest, s[0]);
        assert(s =~= seq![s[0]] + rest);
        assert(s =~= (seq![s[0]] + a) + trimmed(s) + b);
        (seq![s[0]] + a, b)
    } else if s.len() > 0 && is_white_space(s.last()) {
        let rest = s.drop_last();
        let (a, b) = law_trimming_leaves_a_part(rest);
        law_white_space_around_is_ignored(rest, s.last());
        assert(s =~= rest.push(s.last()));
        assert(s =~= a + trimmed(s) + b.push(s.last()));
        (a, b.push(s.last()))
    } else {
        assert(s =~= Seq::<char>::empty() + trimmed(s) + Seq::<char>::empty());
        (Seq::empty(), Seq::empty())
    }
}

/// A prefix of characters that are not wanted is dropped.
pub proof fn lemma_strip_leading(a: Seq<char>, t: Seq<char>, p: spec_fn(char) -> bool)
    requires
        forall|i: int| 0 <= i < a.len() ==> p(#[trigger] a[i]),
        t.len() > 0 ==> !p(t[0]),
    ensures
        without_leading(a + t, p) == t,
    decreases a.len(),
{
    if a.len() > 0 {
        let rest = a.drop_first();
        assert forall|i: int| 0 <= i < rest.len() implies p(#[trigger] rest[i]) by {
            assert(p(a[i + 1]));
        }
        lemma_strip_leading(rest, t, p);
        assert(p(a[0]));
        assert((a + t).drop_first() =~= rest + t);
    } else {
        assert(a + t =~= t);
    }
}

/// A suffix of characters that are not wanted is dropped.
pub proof fn lemma_strip_trailing(t: Seq<char>, b: Seq<char>, p: spec_fn(char) -> bool)
    requires
        forall|i: int| 0 <= i < b.len() ==> p(#[trigger] b[i]),
        t.len() > 0 ==> !p(t.last()),
    ensures
        without_trailing(t + b, p) == t,
    decreases b.len(),
{
    if b.len() > 0 {
        let rest = b.drop_last();
        assert forall|i: int| 0 <= i < rest.len() implies p(#[trigger] rest[i]) by {
            assert(p(b[i]));
        }
        lemma_strip_trailing(t, rest, p);
        assert(p(b[b.len() - 1]));
        assert((t + b).drop_last() =~= t + rest);
    } else {
        assert(t + b =~= t);
    }
}

/// Lower case moves the 26 capitals of ASCII by 32 places, and no other character.
pub proof fn law_lower_case_moves_capitals(s: Seq<char>)
    ensures
        ascii_lowercase(s).len() == s.len(),
        forall|i: int|
            0 <= i < s.len() ==> (#[trigger] ascii_lowercase(s)[i]) as int == (if 'A' <= s[i]
                <= 'Z' {
                s[i] as int + 32
            } else {
                s[i] as int
            }),
{
}

/// What follows a character is all that follows its last occurrence, and a text
/// without the character is left as it is.
pub proof fn law_after_the_last_occurrence(before: Seq<char>, c: char, rest: Seq<char>)
    requires
        !rest.contains(c),
    ensures
        after_last(rest, c) == rest,
        after_last(before.push(c) + rest, c) == rest,
{
    lemma_after_last(rest, c);
}

/// Whether two characters are the same letter, be it a capital of ASCII or not.
pub open spec fn same_letter(c: char, d: char) -> bool {
    ||| c == d
    ||| 'A' <= c <= 'Z' && d as int == c as int + 32
    ||| 'A' <= d <= 'Z' && c as int == d as int + 32
}

/// A qualified name is compared by what follows its prefix, letter by letter.
pub proof fn law_names_are_compared_without_prefix(
    prefix: Seq<char>,
    name: Seq<char>,
    expected: Seq<char>,
)
    requires
        !name.contains(':'),
    ensures
        names(name, expected) <==> name == expected,
        names(prefix.push(':') + name, expected) <==> name == expected,
        names_ignore_case(name, expected) <==> name.len() == expected.len() && forall|i: int|
            0 <= i < name.len() ==> same_letter(#[trigger] name[i], expected[i]),
        names_ignore_case(prefix.push(':') + name, expected) <==> names_ignore_case(name, expected),
{
    law_after_the_last_occurrence(prefix, ':', name);
    law_lower_case_moves_capitals(name);
    law_lower_case_moves_capitals(expected);
    let a = ascii_lowercase(name);
    let b = ascii_lowercase(expected);
    if a == b {
        assert forall|i: int| 0 <= i < name.len() implies same_letter(#[trigger] name[i], expected[i]) by {
            assert(a[i] == b[i]);
        }
    }
    if name.len() == expected.len() && forall|i: int|
        0 <= i < name.len() ==> same_letter(#[trigger] name[i], expected[i]) {
        assert forall|i: int| 0 <= i < a.len() implies a[i] == b[i] by {
            assert(same_letter(name[i], expected[i]));
        }
        assert(a =~= b);
    }
}

/// A text is kept without the white space around it, whatever its length, and is
/// left out where it is nothing else.
pub proof fn law_text_is_kept_unless_blank(a: Seq<char>, t: Seq<char>, b: Seq<char>)
    requires
        all_white(a),
        all_white(b),
        has_clean_ends(t),
    ensures
        t.len() > 0 ==> non_blank(Some(a + t + b)) == Some(t),
        t.len() == 0 ==> non_blank(Some(a + t + b)) is None,
        non_blank(None) is None,
{
    law_trimming_drops_what_is_around(a, t, b);
}

/// A number is written with the ten digits, the highest place first.
pub proof fn law_decimal_places(n: nat, d: nat)
    requires
        d < 10,
    ensures
        decimal(d) == seq!["0123456789"@[d as int]],
        n > 0 ==> decimal(10 * n + d) == decimal(n).push("0123456789"@[d as int]),
        decimal_signed(n as int) == decimal(n),
        n > 0 ==> decimal_signed(-(n as int)) == seq!['-'] + decimal(n),
{
    reveal_strlit("0123456789");
    if n > 0 {
        assert((10 * n + d) / 10 == n);
        assert((10 * n + d) % 10 == d as int);
    }
}

/// Whether a text is one ASCII digit or more.
pub open spec fn all_digits(s: Seq<char>) -> bool {
    s.len() > 0 && forall|i: int| 0 <= i < s.len() ==> '0' <= #[trigger] s[i] <= '9'
}

/// One more digit makes a number ten times as large, plus the digit; a number
/// above the limit is not read, and a plus sign in front changes nothing.
pub proof fn law_numbers_are_read_digit_by_digit(s: Seq<char>, c: char, max: nat)
    requires
        '0' <= c <= '9',
        s.len() > 0 ==> all_digits(s),
    ensures
        parse_unsigned(s.push(c), max) == ({
            let before = if s.len() > 0 {
                parse_unsigned(s, max)
            } else {
                Some(0)
            };
            match before {
                Some(v) => if 10 * v + (c as int - 48) <= max {
                    Some((10 * v + (c as int - 48)) as nat)
                } else {
                    None
                },
                None => None,
            }
        }),
        parse_unsigned(seq!['+'] + s.push(c), max) == parse_unsigned(s.push(c), max),
{
    let t = s.push(c);
    assert(t.drop_last() =~= s);
    assert forall|i: int| 0 <= i < t.len() implies is_digit(#[trigger] t[i]) by {
        if i < s.len() {
            assert('0' <= s[i] <= '9');
        }
    }
    assert(is_numeral(t));
    assert((seq!['+'] + t).skip(1) =~= t);
    assert(t[0] != '+');
    if s.len() > 0 {
        assert forall|i: int| 0 <= i < s.len() implies is_digit(#[trigger] s[i]) by {
            assert('0' <= s[i] <= '9');
        }
        assert(is_numeral(s));
        assert(s[0] != '+');
    } else {
        assert(numeral_value(s) == 0);
    }
    assert(numeral_value(t) == 10 * numeral_value(s) + (c as int - 48));
}

/// Nothing but digits, after at most one plus sign, is read as a number.
pub proof fn law_other_texts_are_no_numbers(s: Seq<char>, max: nat)
    requires
        !all_digits(s),
    ensures
        s.len() == 0 || s[0] != '+' ==> parse_unsigned(s, max) is None,
        parse_unsigned(seq!['+'] + s, max) is None,
{
    assert((seq!['+'] + s).skip(1) =~= s);
    if s.len() > 0 {
        let i = choose|i: int| 0 <= i < s.len() && !('0' <= #[trigger] s[i] <= '9');
        assert(!is_digit(s[i]));
    }
}

/// A minus sign makes a number negative, and is followed by digits alone; without
/// it a text is read as a number without sign.
pub proof fn law_minus_sign(s: Seq<char>, min: int, max: nat)
    requires
        min <= 0,
    ensures
        s.len() == 0 || s[0] != '-' ==> parse_signed(s, min, max) == (match parse_unsigned(
            s,
            max,
        ) {
            Some(v) => Some(v as int),
            None => None,
        }),
        parse_signed(seq!['-'] + s, min, max) == (if s.len() > 0 && s[0] == '+' {
            None
        } else {
            match parse_unsigned(s, (-min) as nat) {
                Some(v) => Some(-(v as int)),
                None => None,
            }
        }),
{
    assert((seq!['-'] + s).skip(1) =~= s);
    if s.len() > 0 && s[0] == '+' {
        assert(!is_digit(s[0]));
    }
}

/// A number that was written is read back exactly where it is not above the limit.
pub proof fn law_written_numbers_are_read_back(n: nat, max: nat)
    ensures
        parse_unsigned(decimal(n), max) == (if n <= max {
            Some(n)
        } else {
            None
        }),
{
    crate::numerals::lemma_decimal(n);
    assert(is_digit(decimal(n)[0]));
}

/// A pattern stands wherever a text can be parted around it, and only there.
pub proof fn law_occurrences_part_a_text(a: Seq<char>, pattern: Seq<char>, b: Seq<char>, i: int)
    ensures
        occurs_at(a + pattern + b, pattern, a.len() as int),
        occurs_at(a, pattern, i) ==> a == a.take(i) + pattern + a.skip(i + pattern.len()),
        occurs_at(a, pattern, i) ==> occurs(a, pattern),
{
    assert((a + pattern + b).subrange(a.len() as int, a.len() as int + pattern.len()) =~= pattern);
    if occurs_at(a, pattern, i) {
        assert forall|k: int| 0 <= k < pattern.len() implies a[i + k] == pattern[k] by {
            assert(a.subrange(i, i + pattern.len())[k] == a[i + k]);
        }
        assert(a =~= a.take(i) + pattern + a.skip(i + pattern.len()));
    }
}

/// A text is parted where a pattern stands for the first time.
pub proof fn law_parted_at_the_first_occurrence(a: Seq<char>, pattern: Seq<char>, b: Seq<char>)
    requires
        forall|j: int| 0 <= j < a.len() ==> !occurs_at(a + pattern + b, pattern, j),
    ensures
        split_once(a + pattern + b, pattern) == Some((a, b)),
        !occurs(a, pattern) ==> split_once(a, pattern) is None,
{
    let s = a + pattern + b;
    law_occurrences_part_a_text(a, pattern, b, 0);
    lemma_find(s, pattern);
    lemma_find(a, pattern);
    let i = a.len() as int;
    assert(occurs_at(s, pattern, i));
    assert(occurs(s, pattern));
    let found = find(s, pattern)->0;
    if found < i {
        assert(found >= 0);
    }
    assert(s.take(i) =~= a);
    assert(s.skip(i + pattern.len()) =~= b);
}

proof fn lemma_find_char(a: Seq<char>, c: char, rest: Seq<char>)
    requires
        !a.contains(c),
    ensures
        find(a, seq![c]) is None,
        find(a + seq![c] + rest, seq![c]) == Some(a.len() as int),
{
    let s = a + seq![c] + rest;
    lemma_find(a, seq![c]);
    lemma_find(s, seq![c]);
    if occurs(a, seq![c]) {
        let i = choose|i: int| occurs_at(a, seq![c], i);
        assert(a.subrange(i, i + 1)[0] == c);
        assert(a[i] == c);
    }
    let n = a.len() as int;
    assert(s.subrange(n, n + 1) =~= seq![c]);
    assert(occurs_at(s, seq![c], n));
    let i = find(s, seq![c])->0;
    if i < n {
        assert(s.subrange(i, i + 1)[0] == c);
        assert(a[i] == c);
    }
}

/// A line ends at a line feed, before which one carriage return is dropped; what
/// follows the last line feed is a line unless it is empty.
pub proof fn law_lines_end_at_line_feeds(a: Seq<char>, rest: Seq<char>)
    requires
        !a.contains('\n'),
    ensures
        lines(Seq::empty()) == Seq::<Seq<char>>::empty(),
        a.len() > 0 ==> lines(a) == seq![a],
        lines(a + seq!['\r', '\n'] + rest) == seq![a] + lines(rest),
        a.len() == 0 || a.last() != '\r' ==> lines(a + seq!['\n'] + rest) == seq![a] + lines(rest),
{
    lemma_find_char(a, '\n', rest);
    let s = a + seq!['\n'] + rest;
    assert(s.take(a.len() as int) =~= a);
    assert(s.skip(a.len() as int + 1) =~= rest);
    let b = a.push('\r');
    assert(!b.contains('\n')) by {
        if b.contains('\n') {
            let i = b.index_of('\n');
            assert(b[i] == '\n');
            assert(a[i] == '\n');
        }
    }
    lemma_find_char(b, '\n', rest);
    let t = a + seq!['\r', '\n'] + rest;
    assert(t =~= b + seq!['\n'] + rest);
    assert(t.take(b.len() as int) =~= b);
    assert(t.skip(b.len() as int + 1) =~= rest);
    assert(b.drop_last() =~= a);
}

/// A text is split at every occurrence of a character.
pub proof fn law_split_at_every_occurrence(a: Seq<char>, c: char, rest: Seq<char>)
    requires
        !a.contains(c),
    ensures
        split(a, c) == seq![a],
        split(a + seq![c] + rest, c) == seq![a] + split(rest, c),
{
    lemma_find_char(a, c, rest);
    let s = a + seq![c] + rest;
    assert(s.take(a.len() as int) =~= a);
    assert(s.skip(a.len() as int + 1) =~= rest);
}

} // verus!
