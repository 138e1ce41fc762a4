use aprz::report_text::Risk;
use aprz::row_reader::StoredVersion;
use aprz::options::ConsoleOutputMode;
use aprz::run_summary::{
    failure_lines, outcome_risk, CrateFailure, FailedCrate,
    gather_failed_message, prints_console_report, report_console_mode, crate_not_found_message, format_suggestions, risk_gate, should_evaluate, unable_to_analyze_heading,
    version_not_found_message,
};

fn names(list: &[&str]) -> Vec<String> {
    list.iter().map(|s| (*s).to_string()).collect()
}

#[test]
fn one_two_and_many_suggestions() {
    assert_eq!(format_suggestions(&names(&["serde"])), "Did you mean 'serde'?");
    assert_eq!(format_suggestions(&names(&["serde", "serde_json"])), "Did you mean 'serde' or 'serde_json'?");
    assert_eq!(
        format_suggestions(&names(&["a", "b", "c", "d"])),
        "Did you mean 'a', 'b', 'c', or 'd'?"
    );
    assert_eq!(format_suggestions(&names(&["a", "b", "c"])), "Did you mean 'a', 'b', or 'c'?");
}

#[test]
fn crate_not_found_messages() {
    assert_eq!(crate_not_found_message("sedre", &[]), "  Could not find information on crate 'sedre'");
    assert_eq!(
        crate_not_found_message("sedre", &names(&["serde"])),
        "  Could not find information on crate 'sedre'. Did you mean 'serde'?"
    );
}

#[test]
fn version_not_found_names_the_version() {
    let v = StoredVersion { major: 1, minor: 2, patch: 3, pre: "rc.1".to_string(), build: String::new() };
    assert_eq!(
        version_not_found_message("tokio", &v),
        "  Could not find information on version 1.2.3-rc.1 of crate `tokio`"
    );
}

#[test]
fn heading_counts_crates() {
    assert_eq!(unable_to_analyze_heading(3), "\nUnable to analyze 3 crate(s)");
}

#[test]
fn evaluation_is_needed_for_expressions_or_risk_flags() {
    assert!(!should_evaluate(false, false, false, false));
    assert!(should_evaluate(true, false, false, false));
    assert!(should_evaluate(false, true, false, false));
    assert!(should_evaluate(false, false, true, false));
    assert!(should_evaluate(false, false, false, true));
}

#[test]
fn risk_gate_errors() {
    let risks = [Some(Risk::Low), None, Some(Risk::Medium)];
    assert_eq!(risk_gate(false, false, &risks), Ok(()));
    assert_eq!(risk_gate(false, true, &risks), Ok(()));
    assert_eq!(
        risk_gate(true, false, &risks),
        Err("one or more crates were flagged as medium or high risk".to_string())
    );
    let high = [Some(Risk::High)];
    assert_eq!(risk_gate(false, true, &high), Err("one or more crates were flagged as high risk".to_string()));
    assert_eq!(
        risk_gate(true, true, &high),
        Err("one or more crates were flagged as medium or high risk".to_string())
    );
    assert_eq!(risk_gate(true, true, &[None, Some(Risk::Low)]), Ok(()));
}

#[test]
fn gather_failure_line() {
    assert_eq!(
        gather_failed_message("serde@1.0.0", "timeout"),
        "  Could not gather information for crate 'serde@1.0.0': timeout"
    );
}

#[test]
fn console_shown_by_default_only_without_reports_or_risk_flags() {
    let full = ConsoleOutputMode { appraisal: true, reasons: true, metrics: true };
    let only_metrics = ConsoleOutputMode { appraisal: false, reasons: false, metrics: true };
    assert_eq!(report_console_mode(None, false, false), Some(full));
    assert_eq!(report_console_mode(None, true, false), None);
    assert_eq!(report_console_mode(None, false, true), None);
    assert_eq!(report_console_mode(Some(only_metrics), true, true), Some(only_metrics));
    assert!(prints_console_report(Some(full), 2));
    assert!(!prints_console_report(Some(full), 0));
    assert!(!prints_console_report(None, 3));
}

#[test]
fn failed_crates_are_listed_under_a_heading() {
    let v = |major, minor, patch| StoredVersion { major, minor, patch, pre: String::new(), build: String::new() };
    let failed = vec![
        FailedCrate {
            name: "serdee".to_string(),
            version: v(0, 0, 0),
            spec: "serdee".to_string(),
            failure: CrateFailure::CrateNotFound(vec!["serde".to_string(), "serde_json".to_string()]),
        },
        FailedCrate { name: "serde".to_string(), version: v(99, 99, 99), spec: "serde@99.99.99".to_string(), failure: CrateFailure::VersionNotFound },
        FailedCrate { name: "tokio".to_string(), version: v(1, 0, 0), spec: "tokio@1.0.0".to_string(), failure: CrateFailure::Error("timed out".to_string()) },
    ];
    assert_eq!(
        failure_lines(&failed),
        vec![
            "\nUnable to analyze 3 crate(s)",
            "  Could not find information on crate 'serdee'. Did you mean 'serde' or 'serde_json'?",
            "  Could not find information on version 99.99.99 of crate `serde`",
            "  Could not gather information for crate 'tokio@1.0.0': timed out",
        ]
    );
    assert!(failure_lines(&[]).is_empty());
}

#[test]
fn accepted_crates_are_low_risk() {
    assert_eq!(outcome_risk(true), Risk::Low);
    assert_eq!(outcome_risk(false), Risk::High);
}
