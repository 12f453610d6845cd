//! The reports of the Litmus suite, which tests WebDAV servers.

use vstd::prelude::*;
use vstd::string::*;

use crate::numerals::{parse_unsigned, read_unsigned};
use crate::search::{find, find_text, lemma_find, lines, split_once, text_lines, text_split_once};
use crate::text::{
    after_last, only, starts_with, strs_view, text_after_last, trim, trim_end_char, trim_start_char,
    trimmed, without_leading, without_trailing,
};

verus! {

/// How a test of the suite went.
#[derive(Debug, Clone, Copy, PartialEq, Eq, Structural)]
pub enum LitmusCaseStatus {
    Passed,
    Failed,
    Skipped,
    ExpectedFailure,
    Warning,
}

/// What is said of a test of the suite.
#[derive(Debug, Clone, PartialEq, Eq)]
pub struct LitmusCaseResult {
    pub number: usize,
    pub name: String,
    pub status: LitmusCaseStatus,
    pub detail: String,
}

/// A warning that a test of the suite gave.
#[derive(Debug, Clone, PartialEq, Eq)]
pub struct LitmusWarning {
    pub test: String,
    pub message: String,
}

/// What a run of the suite said.
#[derive(Debug, Clone, PartialEq, Eq)]
pub struct ParsedLitmusOutput {
    pub cases: Vec<LitmusCaseResult>,
    pub warnings: Vec<LitmusWarning>,
}

/// What a `LitmusCaseResult` stands for.
pub struct Case {
    pub number: usize,
    pub name: Seq<char>,
    pub status: LitmusCaseStatus,
    pub detail: Seq<char>,
}

/// What a `LitmusWarning` stands for.
pub struct Caution {
    pub test: Seq<char>,
    pub message: Seq<char>,
}

impl View for LitmusCaseResult {
    type V = Case;

    open spec fn view(&self) -> Case {
        Case {
            number: self.number,
            name: self.name@,
            status: self.status,
            detail: self.detail@,
        }
    }
}

impl View for LitmusWarning {
    type V = Caution;

    open spec fn view(&self) -> Caution {
        Caution { test: self.test@, message: self.message@ }
    }
}

/// The cases that a list stands for.
pub open spec fn cases_view(cases: Seq<LitmusCaseResult>) -> Seq<Case> {
    cases.map_values(|case: LitmusCaseResult| case@)
}

/// The warnings that a list stands for.
pub open spec fn warnings_view(warnings: Seq<LitmusWarning>) -> Seq<Caution> {
    warnings.map_values(|warning: LitmusWarning| warning@)
}

/// The name of a test, without the dots that follow it.
pub open spec fn case_name(s: Seq<char>) -> Seq<char> {
    trimmed(without_trailing(trimmed(s), only('.')))
}

/// What follows the status of a test, without the brackets around it.
pub open spec fn case_detail(s: Seq<char>) -> Seq<char> {
    without_trailing(without_leading(trimmed(s), only('(')), only(')'))
}

/// A status on a line: where its marker starts, where it ends, and the status.
pub struct StatusMark {
    pub start: int,
    pub end: int,
    pub status: LitmusCaseStatus,
}

/// A status where its marker stands on a line for the first time.
pub open spec fn status_mark(
    line: Seq<char>,
    marker: Seq<char>,
    status: LitmusCaseStatus,
) -> Option<StatusMark> {
    match find(line, marker) {
        Some(i) => Some(StatusMark { start: i, end: i + marker.len(), status }),
        None => None,
    }
}

/// The mark that starts first.
pub open spec fn earlier(a: Option<StatusMark>, b: Option<StatusMark>) -> Option<StatusMark> {
    match (a, b) {
        (Some(m), Some(n)) => if n.start < m.start {
            b
        } else {
            a
        },
        (Some(m), None) => a,
        (None, _) => b,
    }
}

/// The first status on a line.
pub open spec fn line_status(line: Seq<char>) -> Option<StatusMark> {
    earlier(
        earlier(
            earlier(
                status_mark(line, " SKIPPED"@, LitmusCaseStatus::Skipped),
                status_mark(line, " XFAIL"@, LitmusCaseStatus::ExpectedFailure),
            ),
            status_mark(line, " FAIL"@, LitmusCaseStatus::Failed),
        ),
        status_mark(line, " pass"@, LitmusCaseStatus::Passed),
    )
}

/// A test that has been announced, and whose status is still to come.
pub struct Pending {
    pub number: usize,
    pub name: Seq<char>,
}

/// What a report has said up to a line: the last status of each test, in the order
/// of the tests, the warnings, and the test that the next line may be about.
pub struct Progress {
    pub cases: Seq<Case>,
    pub warnings: Seq<Caution>,
    pub pending: Option<Pending>,
}

/// The cases with one more, which takes the place of one with the same number.
pub open spec fn with_case(cases: Seq<Case>, case: Case) -> Seq<Case> {
    cases.filter(|c: Case| c.number < case.number) + seq![case] + cases.filter(
        |c: Case| c.number > case.number,
    )
}

/// The number and the rest of a line that is about a test.
pub open spec fn numbered(line: Seq<char>) -> Option<(usize, Seq<char>)> {
    match split_once(line, ". "@) {
        Some((head, rest)) => match parse_unsigned(trimmed(head), usize::MAX as nat) {
            Some(n) => Some((n as usize, rest)),
            None => None,
        },
        None => None,
    }
}

/// The progress once a test is announced: it is pending, unless it has no name.
pub open spec fn announced(p: Progress, number: usize, rest: Seq<char>) -> Progress {
    let name = case_name(
        match split_once(rest, " WARNING:"@) {
            Some((before, _)) => before,
            None => rest,
        },
    );
    Progress {
        pending: if name.len() > 0 {
            Some(Pending { number, name })
        } else {
            p.pending
        },
        ..p
    }
}

/// The progress once a warning was given, which belongs to the pending test.
pub open spec fn warned(p: Progress, message: Seq<char>) -> Progress {
    match p.pending {
        Some(test) => Progress {
            warnings: p.warnings.push(Caution { test: test.name, message: trimmed(message) }),
            ..p
        },
        None => p,
    }
}

/// The progress once a test has its status.
pub open spec fn concluded(
    p: Progress,
    test: Pending,
    line: Seq<char>,
    mark: StatusMark,
) -> Progress {
    Progress {
        cases: with_case(
            p.cases,
            Case {
                number: test.number,
                name: test.name,
                status: mark.status,
                detail: case_detail(line.skip(mark.end)),
            },
        ),
        warnings: p.warnings,
        pending: None,
    }
}

/// The progress once a line about a test was read.
pub open spec fn after_numbered(p: Progress, number: usize, rest: Seq<char>) -> Progress {
    let p1 = announced(p, number, rest);
    let p2 = match split_once(rest, " WARNING:"@) {
        Some((_, message)) => warned(p1, message),
        None => p1,
    };
    match line_status(rest) {
        Some(mark) => {
            let name = case_name(rest.take(mark.start));
            if name.len() > 0 {
                concluded(p2, Pending { number, name }, rest, mark)
            } else {
                p2
            }
        },
        None => p2,
    }
}

/// The progress once any other line was read.
pub open spec fn after_other(p: Progress, line: Seq<char>) -> Progress {
    if "WARNING:"@.is_prefix_of(line) && p.pending is Some {
        warned(p, line.skip("WARNING:"@.len() as int))
    } else {
        match (line_status(line), p.pending) {
            (Some(mark), Some(test)) => concluded(p, test, line, mark),
            _ => p,
        }
    }
}

/// What is left of a line once the terminal has shown it: what follows the last
/// carriage return, without white space around it.
pub open spec fn shown(raw_line: Seq<char>) -> Seq<char> {
    trimmed(after_last(raw_line, '\r'))
}

/// The progress once a line was read.
pub open spec fn after_line(p: Progress, raw_line: Seq<char>) -> Progress {
    let line = shown(raw_line);
    match numbered(line) {
        Some((number, rest)) => after_numbered(p, number, rest),
        None => after_other(p, line),
    }
}

/// The progress once all lines were read.
pub open spec fn after_lines(raw_lines: Seq<Seq<char>>) -> Progress
    decreases raw_lines.len(),
{
    if raw_lines.len() == 0 {
        Progress { cases: Seq::empty(), warnings: Seq::empty(), pending: None }
    } else {
        after_line(after_lines(raw_lines.drop_last()), raw_lines.last())
    }
}

/// The name of a test.
pub fn parse_litmus_case_name(value: &str) -> (name: String)
    ensures
        name@ == case_name(value@),
{
    trim(trim_end_char(trim(value), '.')).to_string()
}

/// What follows the status of a test that ends at index `end`, counted in
/// characters.
pub fn parse_litmus_detail(line: &str, end: usize) -> (detail: String)
    requires
        end <= line@.len(),
    ensures
        detail@ == case_detail(line@.skip(end as int)),
{
    let rest: &str = line.substring_char(end, line.unicode_len());
    assert(rest@ =~= line@.skip(end as int));
    trim_end_char(trim_start_char(trim(rest), '('), ')').to_string()
}

/// A status on a line, with indices counted in characters.
#[derive(Debug, Clone, Copy, PartialEq, Eq)]
pub struct LitmusStatus {
    pub start: usize,
    pub end: usize,
    pub status: LitmusCaseStatus,
}

/// What a status on a line stands for.
pub open spec fn mark_view(mark: Option<LitmusStatus>) -> Option<StatusMark> {
    match mark {
        Some(m) => Some(
            StatusMark { start: m.start as int, end: m.end as int, status: m.status },
        ),
        None => None,
    }
}

fn find_status(line: &str, marker: &str, status: LitmusCaseStatus) -> (mark: Option<LitmusStatus>)
    ensures
        mark_view(mark) == status_mark(line@, marker@, status),
{
    match find_text(line, marker) {
        Some(start) => {
            proof {
                lemma_find(line@, marker@);
            }
            let length: usize = line.unicode_len();
            let marker_length: usize = marker.unicode_len();
            assert(start + marker_length <= length);
            Some(LitmusStatus { start, end: start + marker_length, status })
        },
        None => None,
    }
}

fn first_mark(a: Option<LitmusStatus>, b: Option<LitmusStatus>) -> (first: Option<LitmusStatus>)
    ensures
        mark_view(first) == earlier(mark_view(a), mark_view(b)),
{
    match (a, b) {
        (Some(m), Some(n)) => if n.start < m.start {
            b
        } else {
            a
        },
        (Some(_), None) => a,
        (None, _) => b,
    }
}

/// The first status on a line.
pub fn parse_litmus_status(line: &str) -> (mark: Option<LitmusStatus>)
    ensures
        mark_view(mark) == line_status(line@),
        mark matches Some(m) ==> m.start <= m.end <= line@.len(),
{
    proof {
        lemma_find(line@, " SKIPPED"@);
        lemma_find(line@, " XFAIL"@);
        lemma_find(line@, " FAIL"@);
        lemma_find(line@, " pass"@);
    }
    first_mark(
        first_mark(
            first_mark(
                find_status(line, " SKIPPED", LitmusCaseStatus::Skipped),
                find_status(line, " XFAIL", LitmusCaseStatus::ExpectedFailure),
            ),
            find_status(line, " FAIL", LitmusCaseStatus::Failed),
        ),
        find_status(line, " pass", LitmusCaseStatus::Passed),
    )
}

/// Whether the cases are in the order of their numbers, each number once.
pub open spec fn is_ordered(cases: Seq<Case>) -> bool {
    forall|i: int, j: int|
        0 <= i < j < cases.len() ==> (#[trigger] cases[i]).number < (#[trigger] cases[j]).number
}

proof fn lemma_filter_all(cases: Seq<Case>, p: spec_fn(Case) -> bool)
    requires
        forall|i: int| 0 <= i < cases.len() ==> p(#[trigger] cases[i]),
    ensures
        cases.filter(p) == cases,
    decreases cases.len(),
{
    reveal(Seq::filter);
    if cases.len() > 0 {
        lemma_filter_all(cases.drop_last(), p);
        assert(p(cases[cases.len() - 1]));
        assert(cases.drop_last().push(cases.last()) =~= cases);
    }
}

proof fn lemma_filter_none(cases: Seq<Case>, p: spec_fn(Case) -> bool)
    requires
        forall|i: int| 0 <= i < cases.len() ==> !p(#[trigger] cases[i]),
    ensures
        cases.filter(p) == Seq::<Case>::empty(),
    decreases cases.len(),
{
    reveal(Seq::filter);
    if cases.len() > 0 {
        lemma_filter_none(cases.drop_last(), p);
        assert(!p(cases[cases.len() - 1]));
    }
}

/// A case stands between those with smaller and those with larger numbers.
pub proof fn lemma_with_case(cases: Seq<Case>, case: Case, below: int, above: int)
    requires
        0 <= below <= above <= cases.len(),
        forall|i: int| 0 <= i < below ==> (#[trigger] cases[i]).number < case.number,
        forall|i: int| below <= i < above ==> (#[trigger] cases[i]).number == case.number,
        forall|i: int| above <= i < cases.len() ==> (#[trigger] cases[i]).number > case.number,
    ensures
        with_case(cases, case) == cases.take(below) + seq![case] + cases.skip(above),
{
    let head = cases.take(below);
    let middle = cases.subrange(below, above);
    let tail = cases.skip(above);
    let less = |c: Case| c.number < case.number;
    let more = |c: Case| c.number > case.number;
    assert(cases =~= head + middle + tail);
    Seq::filter_distributes_over_add(head + middle, tail, less);
    Seq::filter_distributes_over_add(head, middle, less);
    Seq::filter_distributes_over_add(head + middle, tail, more);
    Seq::filter_distributes_over_add(head, middle, more);
    lemma_filter_all(head, less);
    lemma_filter_none(middle, less);
    lemma_filter_none(tail, less);
    lemma_filter_none(head, more);
    lemma_filter_none(middle, more);
    lemma_filter_all(tail, more);
    assert(cases.filter(less) =~= head);
    assert(cases.filter(more) =~= tail);
}

/// Puts a case into its place.
fn insert_case(cases: &mut Vec<LitmusCaseResult>, case: LitmusCaseResult)
    requires
        is_ordered(cases_view(old(cases)@)),
    ensures
        cases_view(final(cases)@) == with_case(cases_view(old(cases)@), case@),
        is_ordered(cases_view(final(cases)@)),
{
    let ghost before = cases_view(cases@);
    let ghost added = case@;
    let mut at: usize = 0;
    while at < cases.len() && cases[at].number < case.number
        invariant
            at <= cases@.len(),
            before == cases_view(cases@),
            forall|i: int| 0 <= i < at ==> (#[trigger] before[i]).number < case.number,
        decreases cases@.len() - at,
    {
        assert(before[at as int] == cases@[at as int]@);
        at = at + 1;
    }
    if at < cases.len() {
        assert(before[at as int] == cases@[at as int]@);
    }
    if at < cases.len() && cases[at].number == case.number {
        cases.set(at, case);
        proof {
            lemma_with_case(before, added, at as int, at + 1);
            assert(cases_view(cases@) =~= before.take(at as int) + seq![added] + before.skip(
                at + 1,
            ));
        }
    } else {
        cases.insert(at, case);
        proof {
            lemma_with_case(before, added, at as int, at as int);
            assert(cases_view(cases@) =~= before.take(at as int) + seq![added] + before.skip(
                at as int,
            ));
        }
    }
}

/// What a report has said up to a line.
struct LitmusReader {
    cases: Vec<LitmusCaseResult>,
    warnings: Vec<LitmusWarning>,
    pending: Option<(usize, String)>,
}

impl LitmusReader {
    spec fn progress(self) -> Progress {
        Progress {
            cases: cases_view(self.cases@),
            warnings: warnings_view(self.warnings@),
            pending: match self.pending {
                Some((number, name)) => Some(Pending { number, name: name@ }),
                None => None,
            },
        }
    }

    fn announce(&mut self, number: usize, rest: &str)
        requires
            is_ordered(old(self).progress().cases),
        ensures
            final(self).progress() == announced(old(self).progress(), number, rest@),
            is_ordered(final(self).progress().cases),
    {
        let name_source: &str = match text_split_once(rest, " WARNING:") {
            Some((before, _)) => before,
            None => rest,
        };
        let name: String = parse_litmus_case_name(name_source);
        if !name.as_str().is_empty() {
            self.pending = Some((number, name));
        }
    }

    fn warn(&mut self, message: &str)
        requires
            is_ordered(old(self).progress().cases),
        ensures
            final(self).progress() == warned(old(self).progress(), message@),
            is_ordered(final(self).progress().cases),
    {
        if let Some((_, name)) = &self.pending {
            let warning: LitmusWarning = LitmusWarning {
                test: name.clone(),
                message: trim(message).to_string(),
            };
            let ghost before = self.warnings@;
            self.warnings.push(warning);
            assert(warnings_view(self.warnings@) =~= warnings_view(before).push(warning@));
        }
    }

    fn conclude(&mut self, number: usize, name: String, line: &str, mark: LitmusStatus)
        requires
            is_ordered(old(self).progress().cases),
            mark.end <= line@.len(),
        ensures
            final(self).progress() == concluded(
                old(self).progress(),
                Pending { number, name: name@ },
                line@,
                mark_view(Some(mark))->0,
            ),
            is_ordered(final(self).progress().cases),
    {
        let detail: String = parse_litmus_detail(line, mark.end);
        insert_case(
            &mut self.cases,
            LitmusCaseResult { number, name, status: mark.status, detail },
        );
        self.pending = None;
    }

    fn read_numbered(&mut self, number: usize, rest: &str)
        requires
            is_ordered(old(self).progress().cases),
        ensures
            final(self).progress() == after_numbered(old(self).progress(), number, rest@),
            is_ordered(final(self).progress().cases),
    {
        self.announce(number, rest);
        if let Some((_, message)) = text_split_once(rest, " WARNING:") {
            self.warn(message);
        }
        if let Some(mark) = parse_litmus_status(rest) {
            let head: &str = rest.substring_char(0, mark.start);
            assert(head@ =~= rest@.take(mark.start as int));
            let name: String = parse_litmus_case_name(head);
            if !name.as_str().is_empty() {
                self.conclude(number, name, rest, mark);
            }
        }
    }

    fn read_other(&mut self, line: &str)
        requires
            is_ordered(old(self).progress().cases),
        ensures
            final(self).progress() == after_other(old(self).progress(), line@),
            is_ordered(final(self).progress().cases),
    {
        if self.pending.is_some() && starts_with(line, "WARNING:") {
            let marker: &str = "WARNING:";
            let message: &str = line.substring_char(marker.unicode_len(), line.unicode_len());
            assert(message@ =~= line@.skip(marker@.len() as int));
            self.warn(message);
            return ;
        }
        if let Some(mark) = parse_litmus_status(line) {
            match self.pending.take() {
                Some((number, name)) => {
                    self.conclude(number, name, line, mark);
                },
                None => {},
            }
        }
    }

    fn read_line(&mut self, raw_line: &str)
        requires
            is_ordered(old(self).progress().cases),
        ensures
            final(self).progress() == after_line(old(self).progress(), raw_line@),
            is_ordered(final(self).progress().cases),
    {
        let line: &str = trim(text_after_last(raw_line, '\r'));
        if let Some((head, rest)) = text_split_once(line, ". ") {
            if let Some(number) = read_unsigned(trim(head), usize::MAX as u64) {
                self.read_numbered(number as usize, rest);
                return ;
            }
        }
        self.read_other(line);
    }
}

/// Reads the report of a run of the suite.
pub fn parse_litmus_output(stdout: &str) -> (output: ParsedLitmusOutput)
    ensures
        cases_view(output.cases@) == after_lines(lines(stdout@)).cases,
        warnings_view(output.warnings@) == after_lines(lines(stdout@)).warnings,
        is_ordered(cases_view(output.cases@)),
{
    let raw_lines: Vec<&str> = text_lines(stdout);
    let ghost all = lines(stdout@);
    let mut reader: LitmusReader = LitmusReader {
        cases: Vec::new(),
        warnings: Vec::new(),
        pending: None,
    };
    assert(reader.progress().cases =~= after_lines(all.take(0)).cases);
    assert(reader.progress().warnings =~= after_lines(all.take(0)).warnings);
    for i in 0..raw_lines.len()
        invariant
            all == strs_view(raw_lines@),
            reader.progress() == after_lines(all.take(i as int)),
            is_ordered(reader.progress().cases),
    {
        assert(all.take(i + 1).drop_last() =~= all.take(i as int));
        reader.read_line(raw_lines[i]);
    }
    assert(all.take(all.len() as int) =~= all);
    ParsedLitmusOutput { cases: reader.cases, warnings: reader.warnings }
}

} // verus!
