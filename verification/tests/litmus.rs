use aster_drive::litmus::{
    parse_litmus_output, LitmusCaseResult, LitmusCaseStatus, LitmusWarning, ParsedLitmusOutput,
};
use aster_drive::litmus_baseline::parse_baseline;
use aster_drive::redaction::redact_bytes;

fn case(number: usize, name: &str, status: LitmusCaseStatus, detail: &str) -> LitmusCaseResult {
    LitmusCaseResult {
        number,
        name: name.to_string(),
        status,
        detail: detail.to_string(),
    }
}

#[test]
fn litmus_output_parser_distinguishes_all_statuses_and_carriage_returns() {
    let output = [
        "-> running `locks':\n",
        "\r 0. init.................... \r 0. init.................... pass\n",
        "\r 1. begin................... \r 1. begin................... FAIL (expected 200)\n",
        "\r 2. conditional............. \r 2. conditional............. SKIPPED (missing lock token)\n",
        "\r 3. known-bug............... \r 3. known-bug............... XFAIL\n",
        "\r 4. warning-case............ WARNING: legacy response\n",
        "    ...................... pass (with 1 warning)\n",
        "\r 5. detail-word............. FAIL (server reported pass after the failure)\n",
    ]
    .concat();

    assert_eq!(
        parse_litmus_output(&output),
        ParsedLitmusOutput {
            cases: vec![
                LitmusCaseResult {
                    number: 0,
                    name: "init".to_string(),
                    status: LitmusCaseStatus::Passed,
                    detail: String::new(),
                },
                LitmusCaseResult {
                    number: 1,
                    name: "begin".to_string(),
                    status: LitmusCaseStatus::Failed,
                    detail: "expected 200".to_string(),
                },
                LitmusCaseResult {
                    number: 2,
                    name: "conditional".to_string(),
                    status: LitmusCaseStatus::Skipped,
                    detail: "missing lock token".to_string(),
                },
                LitmusCaseResult {
                    number: 3,
                    name: "known-bug".to_string(),
                    status: LitmusCaseStatus::ExpectedFailure,
                    detail: String::new(),
                },
                LitmusCaseResult {
                    number: 4,
                    name: "warning-case".to_string(),
                    status: LitmusCaseStatus::Passed,
                    detail: "with 1 warning".to_string(),
                },
                LitmusCaseResult {
                    number: 5,
                    name: "detail-word".to_string(),
                    status: LitmusCaseStatus::Failed,
                    detail: "server reported pass after the failure".to_string(),
                },
            ],
            warnings: vec![LitmusWarning {
                test: "warning-case".to_string(),
                message: "legacy response".to_string(),
            }],
        }
    );
}

#[test]
fn litmus_cases_come_by_number_and_the_last_word_stands() {
    let output = " 7. late......... pass\n 2. early........ FAIL (first)\n 2. early........ pass\n";
    assert_eq!(
        parse_litmus_output(output).cases,
        vec![
            case(2, "early", LitmusCaseStatus::Passed, ""),
            case(7, "late", LitmusCaseStatus::Passed, ""),
        ]
    );
    assert_eq!(parse_litmus_output("").cases, Vec::new());
}

#[test]
fn litmus_baseline_requires_independent_tracking_issues() {
    let umbrella =
        "locks|FAIL|lockdiscovery|https://github.com/AsterCommunity/AsterDrive/issues/421|umbrella";
    let error = parse_baseline(umbrella).expect_err("umbrella issue should not satisfy baseline");
    assert!(error.contains("independent AsterDrive issue"));

    let child = "locks|FAIL|lockdiscovery|https://github.com/AsterCommunity/AsterDrive/issues/423|tracked gap";
    let parsed = parse_baseline(child).expect("child issue baseline should parse");
    assert_eq!(parsed.len(), 1);
}

#[test]
fn baseline_entries_are_read_field_by_field() {
    let contents = "# known differences\n\n  locks | WARNING | owner_modify | https://github.com/AsterCommunity/AsterDrive/issues/500 | kept as is \r\n";
    let parsed = parse_baseline(contents).expect("baseline");
    assert_eq!(parsed.len(), 1);
    assert_eq!(parsed[0].key.group, "locks");
    assert_eq!(parsed[0].key.status, LitmusCaseStatus::Warning);
    assert_eq!(parsed[0].key.test, "owner_modify");
    assert_eq!(
        parsed[0].tracking_issue,
        "https://github.com/AsterCommunity/AsterDrive/issues/500"
    );
    assert_eq!(parsed[0].rationale, "kept as is");
}

#[test]
fn baseline_complaints_are_exact() {
    let issue = "https://github.com/AsterCommunity/AsterDrive/issues/500";
    for (contents, complaint) in [
        (
            "# comment\nlocks|FAIL|a".to_string(),
            "Litmus baseline line 2 must have 5 pipe-separated fields",
        ),
        (
            format!("other|FAIL|a|{issue}|b"),
            "Litmus baseline line 1 has unknown group `other`",
        ),
        (
            format!("http|PASS|a|{issue}|b"),
            "Litmus baseline line 1 has unsupported status `PASS`",
        ),
        (
            format!("http|FAIL| |{issue}|b"),
            "Litmus baseline line 1 requires a test name and rationale",
        ),
        (
            format!("http|FAIL|a|{issue}|"),
            "Litmus baseline line 1 requires a test name and rationale",
        ),
        (
            "http|FAIL|a|https://example.com/issues/500|b".to_string(),
            "Litmus baseline line 1 must reference an independent AsterDrive issue",
        ),
        (
            format!("http|FAIL|a|{issue}|b\nhttp|SKIPPED|a|{issue}|b\nhttp|FAIL|a|{issue}|c"),
            "Litmus baseline line 3 duplicates http FAIL a",
        ),
    ] {
        assert_eq!(parse_baseline(&contents), Err(complaint.to_string()));
    }
}

#[test]
fn baseline_words_of_statuses() {
    assert_eq!(LitmusCaseStatus::Failed.baseline_name(), Some("FAIL"));
    assert_eq!(LitmusCaseStatus::Skipped.baseline_name(), Some("SKIPPED"));
    assert_eq!(LitmusCaseStatus::Warning.baseline_name(), Some("WARNING"));
    assert_eq!(LitmusCaseStatus::Passed.baseline_name(), None);
    assert_eq!(LitmusCaseStatus::ExpectedFailure.baseline_name(), None);
}

#[test]
fn litmus_artifact_redaction_preserves_non_utf8_bytes() {
    let redacted = redact_bytes(
        b"prefix\xffsecret\x00suffix".to_vec(),
        &[(b"secret".to_vec(), b"[redacted]".as_slice())],
    );
    assert_eq!(redacted, b"prefix\xff[redacted]\x00suffix");
}

#[test]
fn every_secret_is_redacted_everywhere() {
    let redacted = redact_bytes(
        b"aa user pw aaa".to_vec(),
        &[
            (b"aa".to_vec(), b"-".as_slice()),
            (b"pw".to_vec(), b"***".as_slice()),
            (Vec::new(), b"never".as_slice()),
        ],
    );
    assert_eq!(redacted, b"- user *** -a");
    assert_eq!(redact_bytes(b"plain".to_vec(), &[(b"x".to_vec(), b"y".as_slice())]), b"plain");
}
