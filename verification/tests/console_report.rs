use aprz::evaluation::EvaluationOutcome;
use aprz::metrics::{Metric, MetricCategory, MetricDef, MetricKind, MetricValue};
use aprz::options::ConsoleOutputMode;
use aprz::reports::{console_report, ReportableCrate};
use aprz::row_reader::StoredVersion;

const NAME_DEF: MetricDef =
    MetricDef { name: "name", description: "Crate name", category: MetricCategory::Metadata, kind: MetricKind::Text };
const VERSION_DEF: MetricDef =
    MetricDef { name: "version", description: "Crate version", category: MetricCategory::Metadata, kind: MetricKind::Text };

const FULL: ConsoleOutputMode = ConsoleOutputMode { appraisal: true, reasons: true, metrics: true };

fn version(text: &str) -> StoredVersion {
    let parts: Vec<u64> = text.split('.').map(|p| p.parse().unwrap()).collect();
    StoredVersion { major: parts[0], minor: parts[1], patch: parts[2], pre: String::new(), build: String::new() }
}

fn create_test_crate(name: &str, v: &str, evaluation: Option<EvaluationOutcome>) -> ReportableCrate {
    let metrics = vec![
        Metric::with_value(NAME_DEF, MetricValue::String(name.into())),
        Metric::with_value(VERSION_DEF, MetricValue::String(v.into())),
    ];
    ReportableCrate::new(name.to_string(), version(v), metrics, evaluation)
}

fn generate(crates: &[ReportableCrate], use_colors: bool) -> String {
    let mut output = String::new();
    console_report(crates, FULL, use_colors, 80, &mut output);
    output
}

#[test]
fn console_test_generate_empty_crates() {
    let crates: Vec<ReportableCrate> = vec![];
    assert_eq!(generate(&crates, false), "");
}

#[test]
fn console_test_generate_single_crate_no_ranking() {
    let output = generate(&[create_test_crate("test_crate", "1.0.0", None)], false);
    assert!(!output.contains("Evaluation Result"));
    assert!(!output.contains("ACCEPTABLE"));
}

#[test]
fn test_generate_single_crate_with_ranking_accepted() {
    let eval = EvaluationOutcome { accepted: true, reasons: vec!["Good quality".to_string()] };
    let output = generate(&[create_test_crate("test_crate", "1.0.0", Some(eval))], false);
    assert!(output.contains("Evaluation Result"));
    assert!(output.contains("ACCEPTABLE"));
}

#[test]
fn test_generate_single_crate_with_ranking_denied() {
    let eval = EvaluationOutcome { accepted: false, reasons: vec!["Security issues".to_string()] };
    let output = generate(&[create_test_crate("test_crate", "1.0.0", Some(eval))], false);
    assert!(output.contains("Evaluation Result"));
    assert!(output.contains("NOT ACCEPTABLE"));
}

#[test]
fn console_test_generate_multiple_crates() {
    let crates = vec![create_test_crate("zebra", "1.0.0", None), create_test_crate("alpha", "2.0.0", None)];
    let output = generate(&crates, false);
    assert!(output.contains("═══════════════════════════════════════"));
}

#[test]
fn test_generate_color_mode_never() {
    let eval = EvaluationOutcome { accepted: true, reasons: vec![] };
    let output = generate(&[create_test_crate("test", "1.0.0", Some(eval))], false);
    assert!(!output.contains("\x1b["));
}

#[test]
fn console_whole_listing() {
    let eval = EvaluationOutcome { accepted: false, reasons: vec!["too new".to_string()] };
    let output = generate(&[create_test_crate("ab", "1.0.0", Some(eval))], true);
    assert_eq!(
        output,
        "Evaluation Result: \x1b[1m\x1b[31mNOT ACCEPTABLE\x1b[39m\x1b[0m\nReasons          :\n  - too new\n\n\x1b[1mMetadata\x1b[0m\n  name    : ab\n  version : 1.0.0\n"
    );
}

#[test]
fn console_sections_follow_the_mode() {
    let eval = EvaluationOutcome { accepted: true, reasons: vec!["fine".to_string()] };
    let mut output = String::new();
    let only_reasons = ConsoleOutputMode { appraisal: false, reasons: true, metrics: false };
    console_report(&[create_test_crate("x", "1.0.0", Some(eval))], only_reasons, false, 80, &mut output);
    assert_eq!(output, "Reasons          :\n  - fine\n");
}
