//! The baseline of known differences: which tests of the Litmus suite are
//! expected not to pass, and the issue that tracks each.

use vstd::prelude::*;
use vstd::string::*;

use crate::litmus::LitmusCaseStatus;
use crate::numerals::{decimal, push_decimal};
use crate::search::{lines, split, text_lines, text_split};
use crate::text::{ends_with, same_text, starts_with, strs_view, trim, trimmed};

verus! {

/// The start of the address of every issue of the project.
pub const ISSUE_PREFIX: &'static str = "https://github.com/AsterCommunity/AsterDrive/issues/";

/// The end of the address of the issue that stands for the whole suite.
pub const UMBRELLA_ISSUE_SUFFIX: &'static str = "/421";

/// What a known difference is about.
#[derive(Debug, PartialEq, Eq)]
pub struct BaselineKey {
    pub group: String,
    pub status: LitmusCaseStatus,
    pub test: String,
}

/// A known difference, and why it is accepted.
#[derive(Debug, PartialEq, Eq)]
pub struct BaselineEntry {
    pub key: BaselineKey,
    pub tracking_issue: String,
    pub rationale: String,
}

/// What a `BaselineKey` stands for.
pub struct Difference {
    pub group: Seq<char>,
    pub status: LitmusCaseStatus,
    pub test: Seq<char>,
}

/// What a `BaselineEntry` stands for.
pub struct Known {
    pub key: Difference,
    pub tracking_issue: Seq<char>,
    pub rationale: Seq<char>,
}

impl View for BaselineKey {
    type V = Difference;

    open spec fn view(&self) -> Difference {
        Difference { group: self.group@, status: self.status, test: self.test@ }
    }
}

impl View for BaselineEntry {
    type V = Known;

    open spec fn view(&self) -> Known {
        Known {
            key: self.key@,
            tracking_issue: self.tracking_issue@,
            rationale: self.rationale@,
        }
    }
}

/// The entries that a list stands for.
pub open spec fn entries_view(entries: Seq<BaselineEntry>) -> Seq<Known> {
    entries.map_values(|entry: BaselineEntry| entry@)
}

/// The groups that the tests of the suite fall into.
pub open spec fn is_known_group(group: Seq<char>) -> bool {
    ||| group == "basic"@
    ||| group == "copymove"@
    ||| group == "props"@
    ||| group == "locks"@
    ||| group == "http"@
}

/// The status that a word of the baseline stands for.
pub open spec fn baseline_status(word: Seq<char>) -> Option<LitmusCaseStatus> {
    if word == "FAIL"@ {
        Some(LitmusCaseStatus::Failed)
    } else if word == "SKIPPED"@ {
        Some(LitmusCaseStatus::Skipped)
    } else if word == "WARNING"@ {
        Some(LitmusCaseStatus::Warning)
    } else {
        None
    }
}

/// The word of the baseline for a status.
pub open spec fn status_word(status: LitmusCaseStatus) -> Option<Seq<char>> {
    match status {
        LitmusCaseStatus::Failed => Some("FAIL"@),
        LitmusCaseStatus::Skipped => Some("SKIPPED"@),
        LitmusCaseStatus::Warning => Some("WARNING"@),
        LitmusCaseStatus::Passed => None,
        LitmusCaseStatus::ExpectedFailure => None,
    }
}

/// Whether an issue is one of the project, and not the one for the whole suite.
pub open spec fn is_independent_issue(issue: Seq<char>) -> bool {
    ISSUE_PREFIX@.is_prefix_of(issue) && !UMBRELLA_ISSUE_SUFFIX@.is_suffix_of(issue)
}

/// A complaint about a line.
pub open spec fn complaint(number: nat, what: Seq<char>) -> Seq<char> {
    "Litmus baseline line "@ + decimal(number) + what
}

/// The fields of a line.
pub open spec fn fields(line: Seq<char>) -> Seq<Seq<char>> {
    split(line, '|').map_values(|field: Seq<char>| trimmed(field))
}

/// Whether one of the entries is about a difference.
pub open spec fn lists(entries: Seq<Known>, key: Difference) -> bool {
    exists|i: int| 0 <= i < entries.len() && (#[trigger] entries[i]).key == key
}

/// The entry that five fields make, or what is wrong with it.
pub open spec fn entry_of(number: nat, f: Seq<Seq<char>>, earlier: Seq<Known>) -> Result<
    Known,
    Seq<char>,
> {
    if !is_known_group(f[0]) {
        Err(complaint(number, " has unknown group `"@ + f[0] + "`"@))
    } else if baseline_status(f[1]) is None {
        Err(complaint(number, " has unsupported status `"@ + f[1] + "`"@))
    } else if f[2].len() == 0 || f[4].len() == 0 {
        Err(complaint(number, " requires a test name and rationale"@))
    } else if !is_independent_issue(f[3]) {
        Err(complaint(number, " must reference an independent AsterDrive issue"@))
    } else {
        let key = Difference { group: f[0], status: baseline_status(f[1])->0, test: f[2] };
        if lists(earlier, key) {
            Err(complaint(number, " duplicates "@ + f[0] + " "@ + f[1] + " "@ + f[2]))
        } else {
            Ok(Known { key, tracking_issue: f[3], rationale: f[4] })
        }
    }
}

/// Whether a line holds no entry: it is empty, or a comment.
pub open spec fn is_skipped(line: Seq<char>) -> bool {
    line.len() == 0 || line[0] == '#'
}

/// The entries once a line was read.
pub open spec fn with_line(entries: Seq<Known>, number: nat, raw_line: Seq<char>) -> Result<
    Seq<Known>,
    Seq<char>,
> {
    let line = trimmed(raw_line);
    if is_skipped(line) {
        Ok(entries)
    } else if fields(line).len() != 5 {
        Err(complaint(number, " must have 5 pipe-separated fields"@))
    } else {
        match entry_of(number, fields(line), entries) {
            Ok(entry) => Ok(entries.push(entry)),
            Err(message) => Err(message),
        }
    }
}

/// The baseline that lines make, or what is wrong with the first line at fault.
pub open spec fn baseline_of(raw_lines: Seq<Seq<char>>) -> Result<Seq<Known>, Seq<char>>
    decreases raw_lines.len(),
{
    if raw_lines.len() == 0 {
        Ok(Seq::empty())
    } else {
        match baseline_of(raw_lines.drop_last()) {
            Ok(entries) => with_line(entries, raw_lines.len(), raw_lines.last()),
            Err(message) => Err(message),
        }
    }
}

impl LitmusCaseStatus {
    /// The word of the baseline for the status, if it can be in the baseline.
    pub fn baseline_name(self) -> (word: Option<&'static str>)
        ensures
            match word {
                Some(w) => status_word(self) == Some(w@),
                None => status_word(self) is None,
            },
    {
        match self {
            LitmusCaseStatus::Failed => Some("FAIL"),
            LitmusCaseStatus::Skipped => Some("SKIPPED"),
            LitmusCaseStatus::Warning => Some("WARNING"),
            LitmusCaseStatus::Passed => None,
            LitmusCaseStatus::ExpectedFailure => None,
        }
    }
}

fn known_group(group: &str) -> (known: bool)
    ensures
        known == is_known_group(group@),
{
    same_text(group, "basic") || same_text(group, "copymove") || same_text(group, "props")
        || same_text(group, "locks") || same_text(group, "http")
}

fn parse_status(word: &str) -> (status: Option<LitmusCaseStatus>)
    ensures
        status == baseline_status(word@),
{
    if same_text(word, "FAIL") {
        Some(LitmusCaseStatus::Failed)
    } else if same_text(word, "SKIPPED") {
        Some(LitmusCaseStatus::Skipped)
    } else if same_text(word, "WARNING") {
        Some(LitmusCaseStatus::Warning)
    } else {
        None
    }
}

fn complain(number: usize, what: &str) -> (message: String)
    ensures
        message@ == complaint(number as nat, what@),
{
    let mut message: String = "Litmus baseline line ".to_string();
    push_decimal(&mut message, number as u64);
    message.append(what);
    message
}

fn split_fields(line: &str) -> (parts: Vec<&str>)
    ensures
        strs_view(parts@) == fields(line@),
{
    let raw: Vec<&str> = text_split(line, '|');
    let mut parts: Vec<&str> = Vec::new();
    for i in 0..raw.len()
        invariant
            strs_view(raw@) == split(line@, '|'),
            parts@.len() == i,
            forall|j: int| 0 <= j < i ==> (#[trigger] parts@[j])@ == trimmed(raw@[j]@),
    {
        parts.push(trim(raw[i]));
    }
    assert(strs_view(raw@).len() == raw@.len());
    assert forall|j: int| 0 <= j < raw@.len() implies #[trigger] strs_view(parts@)[j] == fields(
        line@,
    )[j] by {
        assert(strs_view(raw@)[j] == raw@[j]@);
        assert(parts@[j]@ == trimmed(raw@[j]@));
    }
    assert(strs_view(parts@) =~= fields(line@));
    parts
}

fn has_key(entries: &Vec<BaselineEntry>, key: &BaselineKey) -> (has: bool)
    ensures
        has == lists(entries_view(entries@), key@),
{
    for i in 0..entries.len()
        invariant
            forall|j: int| 0 <= j < i ==> (#[trigger] entries_view(entries@)[j]).key != key@,
    {
        let entry: &BaselineEntry = &entries[i];
        assert(entries_view(entries@)[i as int] == entry@);
        if entry.key.status == key.status && same_text(
            entry.key.group.as_str(),
            key.group.as_str(),
        ) && same_text(entry.key.test.as_str(), key.test.as_str()) {
            assert(entries_view(entries@)[i as int].key == key@);
            return true;
        }
    }
    false
}

fn make_entry(number: usize, parts: &Vec<&str>, earlier: &Vec<BaselineEntry>) -> (entry: Result<
    BaselineEntry,
    String,
>)
    requires
        parts@.len() == 5,
    ensures
        match entry {
            Ok(e) => entry_of(number as nat, strs_view(parts@), entries_view(earlier@)) == Ok::<
                Known,
                Seq<char>,
            >(e@),
            Err(message) => entry_of(number as nat, strs_view(parts@), entries_view(earlier@))
                == Err::<Known, Seq<char>>(message@),
        },
{
    let group: &str = parts[0];
    let status_field: &str = parts[1];
    let test: &str = parts[2];
    let tracking_issue: &str = parts[3];
    let rationale: &str = parts[4];
    if !known_group(group) {
        let what: String = " has unknown group `".to_string().concat(group).concat("`");
        return Err(complain(number, what.as_str()));
    }
    let status: LitmusCaseStatus = match parse_status(status_field) {
        Some(status) => status,
        None => {
            let what: String = " has unsupported status `".to_string().concat(status_field).concat(
                "`",
            );
            return Err(complain(number, what.as_str()));
        },
    };
    if test.is_empty() || rationale.is_empty() {
        return Err(complain(number, " requires a test name and rationale"));
    }
    if !starts_with(tracking_issue, ISSUE_PREFIX) || ends_with(
        tracking_issue,
        UMBRELLA_ISSUE_SUFFIX,
    ) {
        return Err(complain(number, " must reference an independent AsterDrive issue"));
    }
    let key: BaselineKey = BaselineKey { group: group.to_string(), status, test: test.to_string() };
    if has_key(earlier, &key) {
        let what: String = " duplicates ".to_string().concat(group).concat(" ").concat(
            status_field,
        ).concat(" ").concat(test);
        return Err(complain(number, what.as_str()));
    }
    Ok(
        BaselineEntry {
            key,
            tracking_issue: tracking_issue.to_string(),
            rationale: rationale.to_string(),
        },
    )
}

fn is_comment(line: &str) -> (comment: bool)
    ensures
        comment == is_skipped(line@),
{
    line.is_empty() || line.get_char(0) == '#'
}

/// Reads a baseline.
pub fn parse_baseline(contents: &str) -> (baseline: Result<Vec<BaselineEntry>, String>)
    ensures
        match baseline {
            Ok(entries) => baseline_of(lines(contents@)) == Ok::<Seq<Known>, Seq<char>>(
                entries_view(entries@),
            ),
            Err(message) => baseline_of(lines(contents@)) == Err::<Seq<Known>, Seq<char>>(
                message@,
            ),
        },
{
    let raw_lines: Vec<&str> = text_lines(contents);
    let ghost all = lines(contents@);
    let mut entries: Vec<BaselineEntry> = Vec::new();
    assert(entries_view(entries@) =~= Seq::<Known>::empty());
    for i in 0..raw_lines.len()
        invariant
            all == lines(contents@),
            all == strs_view(raw_lines@),
            baseline_of(all.take(i as int)) == Ok::<Seq<Known>, Seq<char>>(
                entries_view(entries@),
            ),
    {
        let number: usize = i + 1;
        let line: &str = trim(raw_lines[i]);
        proof {
            assert(all.take(i + 1).drop_last() =~= all.take(i as int));
            assert(all.take(i + 1).last() == raw_lines@[i as int]@);
        }
        if !is_comment(line) {
            let parts: Vec<&str> = split_fields(line);
            assert(fields(line@).len() == parts@.len());
            if parts.len() != 5 {
                let message: String = complain(number, " must have 5 pipe-separated fields");
                proof {
                    assert(baseline_of(all.take(i + 1)) == Err::<Seq<Known>, Seq<char>>(message@));
                    lemma_fault_stays(all, i + 1);
                }
                return Err(message);
            }
            match make_entry(number, &parts, &entries) {
                Ok(entry) => {
                    let ghost before = entries@;
                    entries.push(entry);
                    assert(entries_view(entries@) =~= entries_view(before).push(entry@));
                },
                Err(message) => {
                    proof {
                        assert(baseline_of(all.take(i + 1)) == Err::<Seq<Known>, Seq<char>>(
                            message@,
                        ));
                        lemma_fault_stays(all, i + 1);
                    }
                    return Err(message);
                },
            }
        }
    }
    assert(all.take(all.len() as int) =~= all);
    Ok(entries)
}

/// The first line at fault decides.
proof fn lemma_fault_stays(raw_lines: Seq<Seq<char>>, n: int)
    requires
        0 <= n <= raw_lines.len(),
        baseline_of(raw_lines.take(n)) is Err,
    ensures
        baseline_of(raw_lines) == baseline_of(raw_lines.take(n)),
    decreases raw_lines.len() - n,
{
    if n < raw_lines.len() {
        assert(raw_lines.take(n + 1).drop_last() =~= raw_lines.take(n));
        lemma_fault_stays(raw_lines, n + 1);
    } else {
        assert(raw_lines.take(n) =~= raw_lines);
    }
}

/// The entries of a baseline are about different differences, each in a known
/// group, of a status that can be in the baseline, with a test name, a rationale,
/// and an issue of its own.
pub proof fn law_baseline_is_sound(raw_lines: Seq<Seq<char>>)
    ensures
        baseline_of(raw_lines) matches Ok(entries) ==> {
            &&& forall|i: int, j: int|
                0 <= i < j < entries.len() ==> (#[trigger] entries[i]).key != (
                #[trigger] entries[j]).key
            &&& forall|i: int|
                0 <= i < entries.len() ==> {
                    let entry = #[trigger] entries[i];
                    &&& is_known_group(entry.key.group)
                    &&& status_word(entry.key.status) is Some
                    &&& entry.key.test.len() > 0
                    &&& entry.rationale.len() > 0
                    &&& is_independent_issue(entry.tracking_issue)
                }
        },
    decreases raw_lines.len(),
{
    if raw_lines.len() > 0 {
        law_baseline_is_sound(raw_lines.drop_last());
    }
}

} // verus!
