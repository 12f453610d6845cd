//! What holds of the reports of the Litmus suite and of its baseline.

use vstd::prelude::*;

use crate::litmus::{
    after_line, after_lines, case_detail, case_name, lemma_with_case, line_status, numbered, shown,
    with_case, Case, Caution, LitmusCaseStatus, Pending, Progress,
};
use crate::litmus_baseline::{baseline_of, baseline_status, fields, status_word, Difference, Known};
use crate::numerals::{decimal, parse_unsigned};
use crate::search::{find, lemma_find, occurs, occurs_at};
use crate::text::{is_white_space, lemma_trimmed, only, trimmed};
use crate::text_laws::{
    all_white, has_clean_ends, law_after_the_last_occurrence, law_parted_at_the_first_occurrence,
    law_split_at_every_occurrence, law_trimming_drops_what_is_around, lemma_strip_leading,
    lemma_strip_trailing,
};

verus! {

/// Whether cases are in the order of their numbers, each number once.
pub open spec fn in_order(cases: Seq<Case>) -> bool {
    forall|i: int, j: int|
        0 <= i < j < cases.len() ==> (#[trigger] cases[i]).number < (#[trigger] cases[j]).number
}

proof fn lemma_place(cases: Seq<Case>, number: int) -> (place: int)
    requires
        in_order(cases),
    ensures
        0 <= place <= cases.len(),
        forall|i: int| 0 <= i < place ==> (#[trigger] cases[i]).number < number,
        forall|i: int| place <= i < cases.len() ==> (#[trigger] cases[i]).number >= number,
    decreases cases.len(),
{
    if cases.len() == 0 {
        0
    } else if cases.last().number < number {
        let n = cases.len() as int;
        assert forall|i: int| 0 <= i < n implies (#[trigger] cases[i]).number < number by {
            if i < n - 1 {
                assert(cases[i].number < cases[n - 1].number);
            }
        }
        n
    } else {
        let shorter = cases.drop_last();
        let place = lemma_place(shorter, number);
        assert(forall|i: int| 0 <= i < shorter.len() ==> shorter[i] == cases[i]);
        place
    }
}

/// The last word on a test stands: the case of its number is the new one, the cases
/// of all other numbers are those that were there, and all are in order.
pub proof fn law_last_word_on_a_test_stands(cases: Seq<Case>, case: Case)
    requires
        in_order(cases),
    ensures
        in_order(with_case(cases, case)),
        with_case(cases, case).contains(case),
        forall|other: Case|
            other.number != case.number ==> (#[trigger] with_case(cases, case).contains(other)
                <==> cases.contains(other)),
{
    let below = lemma_place(cases, case.number as int);
    let above = lemma_place(cases, case.number + 1);
    if above < below {
        assert(cases[above].number < case.number);
    }
    lemma_with_case(cases, case, below, above);
    let all = with_case(cases, case);
    assert(all == cases.take(below) + seq![case] + cases.skip(above));
    assert(all[below] == case);
    assert forall|other: Case| other.number != case.number implies (#[trigger] all.contains(other)
        <==> cases.contains(other)) by {
        if all.contains(other) {
            let i = choose|i: int| 0 <= i < all.len() && all[i] == other;
            if i < below {
                assert(cases[i] == other);
            } else {
                assert(cases[i - below - 1 + above] == other);
            }
        }
        if cases.contains(other) {
            let i = choose|i: int| 0 <= i < cases.len() && cases[i] == other;
            if i < below {
                assert(all[i] == other);
            } else {
                assert(i >= above);
                assert(all[i - above + below + 1] == other);
            }
        }
    }
}

/// Whether the marker of a status stands on a line, from `start` to `end`.
pub open spec fn is_marked(line: Seq<char>, start: int, end: int, status: LitmusCaseStatus) -> bool {
    match status {
        LitmusCaseStatus::Skipped => occurs_at(line, " SKIPPED"@, start) && end == start + 8,
        LitmusCaseStatus::ExpectedFailure => occurs_at(line, " XFAIL"@, start) && end == start + 6,
        LitmusCaseStatus::Failed => occurs_at(line, " FAIL"@, start) && end == start + 5,
        LitmusCaseStatus::Passed => occurs_at(line, " pass"@, start) && end == start + 5,
        LitmusCaseStatus::Warning => false,
    }
}

/// Whether the marker of some status stands at a place on a line.
pub open spec fn is_any_marked(line: Seq<char>, i: int) -> bool {
    ||| occurs_at(line, " SKIPPED"@, i)
    ||| occurs_at(line, " XFAIL"@, i)
    ||| occurs_at(line, " FAIL"@, i)
    ||| occurs_at(line, " pass"@, i)
}

/// The status of a line is that of the first marker on it, and a line without
/// marker has none.
pub proof fn law_first_marker_decides(line: Seq<char>)
    ensures
        match line_status(line) {
            Some(mark) => is_marked(line, mark.start, mark.end, mark.status) && forall|j: int|
                j < mark.start ==> !is_any_marked(line, j),
            None => forall|j: int| !is_any_marked(line, j),
        },
{
    reveal_strlit(" SKIPPED");
    reveal_strlit(" XFAIL");
    reveal_strlit(" FAIL");
    reveal_strlit(" pass");
    lemma_find(line, " SKIPPED"@);
    lemma_find(line, " XFAIL"@);
    lemma_find(line, " FAIL"@);
    lemma_find(line, " pass"@);
}

/// The name of a test is what stands before the dots that fill its line, without the
/// white space around it or between it and the dots.
pub proof fn law_name_without_dots(
    a: Seq<char>,
    name: Seq<char>,
    gap: Seq<char>,
    dots: Seq<char>,
    b: Seq<char>,
)
    requires
        all_white(a),
        all_white(gap),
        all_white(b),
        forall|i: int| 0 <= i < dots.len() ==> #[trigger] dots[i] == '.',
        has_clean_ends(name),
        name.len() == 0 ==> gap.len() == 0,
        name.len() > 0 && name.last() == '.' ==> gap.len() > 0 && dots.len() > 0,
    ensures
        case_name(a + name + gap + dots + b) == name,
{
    let e = Seq::<char>::empty();
    if dots.len() > 0 {
        assert(dots[0] == '.');
        assert(dots[dots.len() - 1] == '.');
        let middle = name + gap + dots;
        assert(has_clean_ends(middle));
        assert(a + name + gap + dots + b =~= a + middle + b);
        law_trimming_drops_what_is_around(a, middle, b);
        let kept = name + gap;
        if kept.len() > 0 && gap.len() > 0 {
            assert(is_white_space(gap[gap.len() - 1]));
        }
        lemma_strip_trailing(kept, dots, only('.'));
        law_trimming_drops_what_is_around(e, name, gap);
        assert(e + name + gap =~= kept);
    } else {
        let tail = gap + b;
        assert forall|i: int| 0 <= i < tail.len() implies is_white_space(#[trigger] tail[i]) by {
            if i < gap.len() {
                assert(is_white_space(gap[i]));
            } else {
                assert(is_white_space(b[i - gap.len()]));
            }
        }
        assert(a + name + gap + dots + b =~= a + name + tail);
        law_trimming_drops_what_is_around(a, name, tail);
        lemma_strip_trailing(name, e, only('.'));
        assert(name + e =~= name);
        lemma_trimmed(name);
    }
}

/// The detail of a test is what stands behind its status, without the brackets
/// around it, however many, and without the white space around those.
pub proof fn law_detail_without_brackets(
    a: Seq<char>,
    open: Seq<char>,
    detail: Seq<char>,
    close: Seq<char>,
    b: Seq<char>,
)
    requires
        all_white(a),
        all_white(b),
        forall|i: int| 0 <= i < open.len() ==> #[trigger] open[i] == '(',
        forall|i: int| 0 <= i < close.len() ==> #[trigger] close[i] == ')',
        detail.len() > 0 ==> detail[0] != '(' && detail.last() != ')',
        detail.len() > 0 && open.len() == 0 ==> !is_white_space(detail[0]),
        detail.len() > 0 && close.len() == 0 ==> !is_white_space(detail.last()),
    ensures
        case_detail(a + open + detail + close + b) == detail,
{
    let middle = open + detail + close;
    if open.len() > 0 {
        assert(open[0] == '(');
        assert(open[open.len() - 1] == '(');
    }
    if close.len() > 0 {
        assert(close[0] == ')');
        assert(close[close.len() - 1] == ')');
    }
    assert(has_clean_ends(middle));
    assert(a + open + detail + close + b =~= a + middle + b);
    law_trimming_drops_what_is_around(a, middle, b);
    assert(middle =~= open + (detail + close));
    lemma_strip_leading(open, detail + close, only('('));
    lemma_strip_trailing(detail, close, only(')'));
}

/// What counts of a line is what was printed last on it: what follows the last
/// carriage return, without white space around it.
pub proof fn law_last_print_counts(before: Seq<char>, a: Seq<char>, t: Seq<char>, b: Seq<char>)
    requires
        all_white(a),
        all_white(b),
        has_clean_ends(t),
        !(a + t + b).contains('\r'),
    ensures
        shown(a + t + b) == t,
        shown(before.push('\r') + (a + t + b)) == t,
{
    law_after_the_last_occurrence(before, '\r', a + t + b);
    law_trimming_drops_what_is_around(a, t, b);
}

/// A line is about a test where a number stands before its first dot that a space
/// follows.
pub proof fn law_number_stands_before_the_dot(head: Seq<char>, rest: Seq<char>)
    requires
        forall|j: int| 0 <= j < head.len() ==> !occurs_at(head + ". "@ + rest, ". "@, j),
    ensures
        numbered(head + ". "@ + rest) == (match parse_unsigned(trimmed(head), usize::MAX as nat) {
            Some(n) => Some((n as usize, rest)),
            None => None,
        }),
        !occurs(head, ". "@) ==> numbered(head) is None,
{
    law_parted_at_the_first_occurrence(head, ". "@, rest);
}

/// Nothing was said before the first line, and each line adds to what was said.
pub proof fn law_report_is_read_line_by_line(raw_lines: Seq<Seq<char>>, raw_line: Seq<char>)
    ensures
        after_lines(raw_lines.push(raw_line)) == after_line(after_lines(raw_lines), raw_line),
        raw_lines.len() == 0 ==> {
            let p = after_lines(raw_lines);
            p.cases.len() == 0 && p.warnings.len() == 0 && p.pending is None
        },
{
    assert(raw_lines.push(raw_line).drop_last() =~= raw_lines);
}

/// A line about a test that gives a status settles the test of that number: its case
/// has the name before the first marker, the marker's status, and the detail behind
/// it, and no test is pending. Without status, the test is pending under its name.
pub proof fn law_line_about_a_test(
    p: Progress,
    raw_line: Seq<char>,
    number: usize,
    rest: Seq<char>,
    w: int,
)
    requires
        numbered(shown(raw_line)) == Some((number, rest)),
        if occurs(rest, " WARNING:"@) {
            occurs_at(rest, " WARNING:"@, w) && forall|j: int|
                0 <= j < w ==> !occurs_at(rest, " WARNING:"@, j)
        } else {
            w == rest.len()
        },
    ensures
        ({
            let q = after_line(p, raw_line);
            match line_status(rest) {
                Some(mark) if case_name(rest.take(mark.start)).len() > 0 => {
                    &&& q.cases == with_case(
                        p.cases,
                        Case {
                            number,
                            name: case_name(rest.take(mark.start)),
                            status: mark.status,
                            detail: case_detail(rest.skip(mark.end)),
                        },
                    )
                    &&& q.pending is None
                },
                _ => {
                    &&& q.cases == p.cases
                    &&& q.pending == (if case_name(rest.take(w)).len() > 0 {
                        Some(Pending { number, name: case_name(rest.take(w)) })
                    } else {
                        p.pending
                    })
                },
            }
        }),
        ({
            let q = after_line(p, raw_line);
            let test = if case_name(rest.take(w)).len() > 0 {
                Some(case_name(rest.take(w)))
            } else {
                match p.pending {
                    Some(pending) => Some(pending.name),
                    None => None,
                }
            };
            q.warnings == (if occurs(rest, " WARNING:"@) && test is Some {
                p.warnings.push(Caution { test: test->0, message: trimmed(rest.skip(w + 9)) })
            } else {
                p.warnings
            })
        }),
{
    reveal_strlit(" WARNING:");
    lemma_find(rest, " WARNING:"@);
    if occurs(rest, " WARNING:"@) {
        assert(find(rest, " WARNING:"@) == Some(w));
    } else {
        assert(rest.take(w) =~= rest);
    }
}

/// A line about no test belongs to the pending one: a warning is added under its
/// name, or else the first marker settles it. Where no test is pending, or the line
/// is neither, nothing changes.
pub proof fn law_line_about_no_test(p: Progress, raw_line: Seq<char>)
    requires
        numbered(shown(raw_line)) is None,
    ensures
        ({
            let line = shown(raw_line);
            let q = after_line(p, raw_line);
            match p.pending {
                None => q == p,
                Some(test) => if "WARNING:"@.is_prefix_of(line) {
                    &&& q.cases == p.cases
                    &&& q.pending == p.pending
                    &&& q.warnings == p.warnings.push(
                        Caution { test: test.name, message: trimmed(line.skip(8)) },
                    )
                } else {
                    &&& q.warnings == p.warnings
                    &&& match line_status(line) {
                        Some(mark) => {
                            &&& q.pending is None
                            &&& q.cases == with_case(
                                p.cases,
                                Case {
                                    number: test.number,
                                    name: test.name,
                                    status: mark.status,
                                    detail: case_detail(line.skip(mark.end)),
                                },
                            )
                        },
                        None => q == p,
                    }
                },
            }
        }),
{
    reveal_strlit("WARNING:");
}

/// Once no test is pending, lines about no test change nothing, however many they
/// are: neither the cases nor the warnings.
pub proof fn law_nothing_is_added_to_settled_tests(
    raw_lines: Seq<Seq<char>>,
    others: Seq<Seq<char>>,
)
    requires
        after_lines(raw_lines).pending is None,
        forall|i: int| 0 <= i < others.len() ==> numbered(shown(#[trigger] others[i])) is None,
    ensures
        after_lines(raw_lines + others) == after_lines(raw_lines),
    decreases others.len(),
{
    if others.len() == 0 {
        assert(raw_lines + others =~= raw_lines);
    } else {
        let fewer = others.drop_last();
        assert forall|i: int| 0 <= i < fewer.len() implies numbered(
            shown(#[trigger] fewer[i]),
        ) is None by {
            assert(numbered(shown(others[i])) is None);
        }
        law_nothing_is_added_to_settled_tests(raw_lines, fewer);
        assert(numbered(shown(others[others.len() - 1])) is None);
        law_line_about_no_test(after_lines(raw_lines + fewer), others.last());
        law_report_is_read_line_by_line(raw_lines + fewer, others.last());
        assert((raw_lines + fewer).push(others.last()) =~= raw_lines + others);
    }
}

/// A test that was given its status keeps it, and its detail, until a line is about
/// a test again: whatever else the report says, such as its summary, is about none.
pub proof fn law_status_of_a_test_is_kept(
    raw_lines: Seq<Seq<char>>,
    raw_line: Seq<char>,
    number: usize,
    rest: Seq<char>,
    others: Seq<Seq<char>>,
)
    requires
        numbered(shown(raw_line)) == Some((number, rest)),
        line_status(rest) matches Some(mark) && case_name(rest.take(mark.start)).len() > 0,
        forall|i: int| 0 <= i < others.len() ==> numbered(shown(#[trigger] others[i])) is None,
    ensures
        after_lines(raw_lines.push(raw_line) + others).cases == after_lines(
            raw_lines.push(raw_line),
        ).cases,
        after_lines(raw_lines.push(raw_line) + others).warnings == after_lines(
            raw_lines.push(raw_line),
        ).warnings,
        after_lines(raw_lines.push(raw_line) + others).cases.contains(
            Case {
                number,
                name: case_name(rest.take(line_status(rest)->0.start)),
                status: line_status(rest)->0.status,
                detail: case_detail(rest.skip(line_status(rest)->0.end)),
            },
        ),
{
    let p = after_lines(raw_lines);
    let w = match find(rest, " WARNING:"@) {
        Some(i) => i,
        None => rest.len() as int,
    };
    lemma_find(rest, " WARNING:"@);
    law_line_about_a_test(p, raw_line, number, rest, w);
    law_report_is_read_line_by_line(raw_lines, raw_line);
    law_nothing_is_added_to_settled_tests(raw_lines.push(raw_line), others);
    let mark = line_status(rest)->0;
    let case = Case {
        number,
        name: case_name(rest.take(mark.start)),
        status: mark.status,
        detail: case_detail(rest.skip(mark.end)),
    };
    let settled = with_case(p.cases, case);
    let at = p.cases.filter(|c: Case| c.number < case.number).len() as int;
    assert(settled[at] == case);
}

/// The statuses that can be in a baseline and their words stand for each other, one
/// for one.
pub proof fn law_words_and_statuses_match(word: Seq<char>, status: LitmusCaseStatus)
    ensures
        baseline_status(word) == Some(status) <==> status_word(status) == Some(word),
        status_word(LitmusCaseStatus::Failed) == Some("FAIL"@),
        status_word(LitmusCaseStatus::Skipped) == Some("SKIPPED"@),
        status_word(LitmusCaseStatus::Warning) == Some("WARNING"@),
        status_word(LitmusCaseStatus::Passed) is None,
        status_word(LitmusCaseStatus::ExpectedFailure) is None,
        baseline_status(word) is Some <==> word == "FAIL"@ || word == "SKIPPED"@ || word
            == "WARNING"@,
{
    reveal_strlit("FAIL");
    reveal_strlit("SKIPPED");
    reveal_strlit("WARNING");
    assert("FAIL"@.len() == 4 && "SKIPPED"@.len() == 7 && "WARNING"@.len() == 7);
    assert("SKIPPED"@[0] == 'S' && "WARNING"@[0] == 'W');
}

/// The fields of a line stand between its bars, without white space around them.
pub proof fn law_fields_stand_between_bars(field: Seq<char>, rest: Seq<char>)
    requires
        !field.contains('|'),
    ensures
        fields(field) == seq![trimmed(field)],
        fields(field + seq!['|'] + rest) == seq![trimmed(field)] + fields(rest),
{
    law_split_at_every_occurrence(field, '|', rest);
    assert(fields(field) =~= seq![trimmed(field)]);
    assert(fields(field + seq!['|'] + rest) =~= seq![trimmed(field)] + fields(rest));
}

/// A complaint about a line begins with its number.
pub open spec fn complains(
    outcome: Result<Seq<Known>, Seq<char>>,
    number: nat,
    what: Seq<char>,
) -> bool {
    outcome == Err::<Seq<Known>, Seq<char>>("Litmus baseline line "@ + decimal(number) + what)
}

/// A baseline is read line by line, and the first complaint ends it. An empty line
/// and a comment change nothing. Any other line has five fields, which are checked
/// in order; where there is nothing to complain of, the line is one entry more,
/// whose group, status word, test, issue and rationale are its fields.
pub proof fn law_baseline_is_read_line_by_line(raw_lines: Seq<Seq<char>>, raw_line: Seq<char>)
    ensures
        raw_lines.len() == 0 ==> baseline_of(raw_lines) == Ok::<Seq<Known>, Seq<char>>(
            Seq::empty(),
        ),
        baseline_of(raw_lines) is Err ==> baseline_of(raw_lines.push(raw_line)) == baseline_of(
            raw_lines,
        ),
        baseline_of(raw_lines) matches Ok(entries) ==> {
            let line = trimmed(raw_line);
            let f = fields(line);
            let number = raw_lines.len() + 1;
            let outcome = baseline_of(raw_lines.push(raw_line));
            if line.len() == 0 || line[0] == '#' {
                outcome == Ok::<Seq<Known>, Seq<char>>(entries)
            } else if f.len() != 5 {
                complains(outcome, number, " must have 5 pipe-separated fields"@)
            } else if !(f[0] == "basic"@ || f[0] == "copymove"@ || f[0] == "props"@ || f[0]
                == "locks"@ || f[0] == "http"@) {
                complains(outcome, number, " has unknown group `"@ + f[0] + "`"@)
            } else if !(f[1] == "FAIL"@ || f[1] == "SKIPPED"@ || f[1] == "WARNING"@) {
                complains(outcome, number, " has unsupported status `"@ + f[1] + "`"@)
            } else if f[2].len() == 0 || f[4].len() == 0 {
                complains(outcome, number, " requires a test name and rationale"@)
            } else if !"https://github.com/AsterCommunity/AsterDrive/issues/"@.is_prefix_of(f[3])
                || "/421"@.is_suffix_of(f[3]) {
                complains(outcome, number, " must reference an independent AsterDrive issue"@)
            } else if exists|i: int|
                0 <= i < entries.len() && (#[trigger] entries[i]).key.group == f[0] && status_word(
                    entries[i].key.status,
                ) == Some(f[1]) && entries[i].key.test == f[2] {
                complains(outcome, number, " duplicates "@ + f[0] + " "@ + f[1] + " "@ + f[2])
            } else {
                outcome matches Ok(more) && more.len() == entries.len() + 1 && more.drop_last()
                    == entries && more.last().key.group == f[0] && status_word(
                    more.last().key.status,
                ) == Some(f[1]) && more.last().key.test == f[2] && more.last().tracking_issue
                    == f[3] && more.last().rationale == f[4]
            }
        },
{
    assert(raw_lines.push(raw_line).drop_last() =~= raw_lines);
    if let Ok(entries) = baseline_of(raw_lines) {
        let f = fields(trimmed(raw_line));
        reveal_strlit("FAIL");
        reveal_strlit("SKIPPED");
        reveal_strlit("WARNING");
        if f.len() == 5 {
            if let Some(status) = baseline_status(f[1]) {
                let key = Difference { group: f[0], status, test: f[2] };
                law_words_and_statuses_match(f[1], status);
                assert forall|i: int|
                    0 <= i < entries.len() implies ((#[trigger] entries[i]).key == key <==> (
                entries[i].key.group == f[0] && status_word(entries[i].key.status) == Some(f[1])
                    && entries[i].key.test == f[2])) by {
                    law_words_and_statuses_match(f[1], entries[i].key.status);
                }
                let entry = Known { key, tracking_issue: f[3], rationale: f[4] };
                assert(entries.push(entry).drop_last() =~= entries);
            }
        }
    }
}

} // verus!
