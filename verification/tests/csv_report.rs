use aprz::evaluation::EvaluationOutcome;
use aprz::metrics::{Metric, MetricCategory, MetricDef, MetricKind, MetricValue};
use aprz::reports::{csv_report, ReportableCrate};
use aprz::row_reader::StoredVersion;

const NAME_DEF: MetricDef =
    MetricDef { name: "name", description: "Crate name", category: MetricCategory::Metadata, kind: MetricKind::Text };
const VERSION_DEF: MetricDef =
    MetricDef { name: "version", description: "Crate version", category: MetricCategory::Metadata, kind: MetricKind::Text };

fn version(text: &str) -> StoredVersion {
    let parts: Vec<u64> = text.split('.').map(|p| p.parse().unwrap()).collect();
    StoredVersion { major: parts[0], minor: parts[1], patch: parts[2], pre: String::new(), build: String::new() }
}

fn create_test_crate(name: &str, v: &str, evaluation: Option<EvaluationOutcome>) -> ReportableCrate {
    let metrics = vec![
        Metric::with_value(NAME_DEF, MetricValue::String(name.into())),
        Metric::with_value(VERSION_DEF, MetricValue::String(v.into())),
    ];
    ReportableCrate::new(name.to_string(), version(v), metrics, evaluation)
}

fn generate(crates: &[ReportableCrate]) -> String {
    let mut output = String::new();
    csv_report(crates, &mut output);
    output
}

#[test]
fn csv_test_generate_empty_crates() {
    let crates: Vec<ReportableCrate> = vec![];
    let output = generate(&crates);
    // Should only have header
    assert_eq!(output, "Metric\n");
}

#[test]
fn csv_test_generate_single_crate_no_ranking() {
    let crates = vec![create_test_crate("test_crate", "1.2.3", None)];
    let output = generate(&crates);
    assert!(output.starts_with("Metric,test_crate v1.2.3"));
    assert!(!output.contains("Status,"));
    assert!(!output.contains("Reasons,"));
}

#[test]
fn test_generate_single_crate_with_ranking() {
    let eval = EvaluationOutcome { accepted: true, reasons: vec!["Good".to_string(), "Quality".to_string()] };
    let crates = vec![create_test_crate("test_crate", "1.0.0", Some(eval))];
    let output = generate(&crates);
    assert!(output.contains("Status,ACCEPTABLE"));
    assert!(output.contains("Reasons,Good; Quality"));
}

#[test]
fn csv_test_generate_multiple_crates() {
    let crates = vec![create_test_crate("crate_a", "1.0.0", None), create_test_crate("crate_b", "2.0.0", None)];
    let output = generate(&crates);
    assert!(output.contains("crate_a v1.0.0"));
    assert!(output.contains("crate_b v2.0.0"));
}

#[test]
fn test_generate_with_special_characters() {
    let eval = EvaluationOutcome { accepted: true, reasons: vec!["Reason with \"quotes\"".to_string()] };
    let crates = vec![create_test_crate("test,\"crate\"", "1.0.0", Some(eval))];
    let output = generate(&crates);
    assert!(output.contains("\"\"quotes\"\""));
}

#[test]
fn test_generate_denied_status() {
    let eval = EvaluationOutcome { accepted: false, reasons: vec!["Security issue".to_string()] };
    let crates = vec![create_test_crate("bad_crate", "1.0.0", Some(eval))];
    let output = generate(&crates);
    assert!(output.contains("Status,NOT ACCEPTABLE"));
}

#[test]
fn csv_whole_document() {
    let stars = MetricDef { name: "stars", description: "Stars", category: MetricCategory::Community, kind: MetricKind::UInt };
    let mut a = create_test_crate("a", "1.0.0", None);
    a.metrics.push(Metric::with_value(stars, MetricValue::UInt(5)));
    let b = create_test_crate("b,c", "0.1.0", Some(EvaluationOutcome { accepted: true, reasons: vec![] }));
    let output = generate(&[a, b]);
    assert_eq!(
        output,
        "Metric,a v1.0.0,\"b,c v0.1.0\"\nStatus,,ACCEPTABLE\nReasons,,\nname,a,\"b,c\"\nversion,1.0.0,0.1.0\nstars,5,\n"
    );
}
