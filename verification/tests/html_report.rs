use aprz::evaluation::EvaluationOutcome;
use aprz::html_report::html_report;
use aprz::metrics::{Metric, MetricCategory, MetricDef, MetricKind, MetricValue};
use aprz::reports::ReportableCrate;
use aprz::row_reader::StoredVersion;

const NAME_DEF: MetricDef =
    MetricDef { name: "name", description: "Crate name", category: MetricCategory::Metadata, kind: MetricKind::Text };
const VERSION_DEF: MetricDef =
    MetricDef { name: "version", description: "Crate version", category: MetricCategory::Metadata, kind: MetricKind::Text };
const KEYWORDS_DEF: MetricDef =
    MetricDef { name: "keywords", description: "Keywords", category: MetricCategory::Metadata, kind: MetricKind::Text };
const HOMEPAGE_DEF: MetricDef =
    MetricDef { name: "homepage", description: "Home page", category: MetricCategory::Metadata, kind: MetricKind::Text };
const STARS_DEF: MetricDef =
    MetricDef { name: "stars", description: "Stars & forks", category: MetricCategory::Community, kind: MetricKind::UInt };

fn version(text: &str) -> StoredVersion {
    let parts: Vec<u64> = text.split('.').map(|p| p.parse().unwrap()).collect();
    StoredVersion { major: parts[0], minor: parts[1], patch: parts[2], pre: String::new(), build: String::new() }
}

fn create_test_crate(name: &str, v: &str, evaluation: Option<EvaluationOutcome>) -> ReportableCrate {
    let metrics = vec![
        Metric::with_value(NAME_DEF, MetricValue::String(name.into())),
        Metric::with_value(VERSION_DEF, MetricValue::String(v.into())),
    ];
    ReportableCrate::new(name.to_string(), version(v), metrics, evaluation)
}

fn generate(crates: &[ReportableCrate]) -> String {
    let mut output = String::new();
    html_report(crates, "2024-01-15", &mut output);
    output
}

#[test]
fn html_test_generate_empty_crates() {
    let crates: Vec<ReportableCrate> = vec![];
    let output = generate(&crates);
    // Should still generate valid HTML structure
    assert!(output.contains("<!DOCTYPE html>"));
    assert!(output.contains("<html>"));
    assert!(output.contains("</html>"));
}

#[test]
fn test_generate_single_crate() {
    let crates = vec![create_test_crate("test_crate", "1.2.3", None)];
    let output = generate(&crates);
    assert!(output.contains("<!DOCTYPE html>"));
    assert!(output.contains("Crate Metrics"));
    assert!(output.contains("cargo-aprz"));
}

#[test]
fn test_generate_contains_ferris() {
    let crates = vec![create_test_crate("test", "1.0.0", None)];
    let output = generate(&crates);
    // Should contain Ferris SVG
    assert!(output.contains("<svg class=\"ferris\""));
}

#[test]
fn test_generate_contains_theme_toggle() {
    let crates = vec![create_test_crate("test", "1.0.0", None)];
    let output = generate(&crates);
    // Should contain theme toggle functionality
    assert!(output.contains("toggleTheme"));
    assert!(output.contains("dark"));
    assert!(output.contains("light"));
}

#[test]
fn test_generate_contains_css_styles() {
    let crates = vec![create_test_crate("test", "1.0.0", None)];
    let output = generate(&crates);
    // Should contain CSS styles
    assert!(output.contains("<style>"));
    assert!(output.contains("--bg-color"));
    assert!(output.contains("--text-color"));
}

#[test]
fn html_page_starts_and_ends_as_a_document() {
    let output = generate(&[]);
    assert!(output.starts_with("<!DOCTYPE html>\n<html>\n<head>\n"));
    assert!(output.contains("      <p class=\"subtitle\">Produced by cargo-aprz 0.1.0 on 2024-01-15</p>\n"));
    assert!(output.ends_with("  </script>\n</body>\n</html>\n"));
    // No crate: no evaluation rows, no category.
    assert!(!output.contains("Appraisals"));
    assert!(!output.contains("<tr class=\"category-header\">"));
}

#[test]
fn html_metric_rows_carry_tooltip_and_value() {
    let crates = vec![create_test_crate("serde", "1.0.200", None)];
    let output = generate(&crates);
    let expected = [
        "          <tr class=\"category-header\">\n",
        "            <td>Metadata</td>\n",
        "            <td></td>\n",
        "          </tr>\n",
        "          <tr class=\"metric-row\">\n",
        "            <td title=\"Crate name\">name</td>\n",
        "            <td title=\"serde v1.0.200\nname\nCrate name\">serde</td>\n",
        "          </tr>\n",
    ]
    .concat();
    assert!(output.contains(expected.as_str()));
}

#[test]
fn html_evaluation_rows_show_status_and_reasons() {
    let accepted = EvaluationOutcome { accepted: true, reasons: vec!["a < b".to_string(), "ok".to_string()] };
    let crates = vec![create_test_crate("one", "1.0.0", Some(accepted)), create_test_crate("two", "2.0.0", None)];
    let output = generate(&crates);
    let expected = [
        "          <tr class=\"metric-row\">\n",
        "            <td><strong>Appraisals</strong></td>\n",
        "            <td><span class=\"low-risk\">ACCEPTABLE</span></td>\n",
        "            <td><span class=\"na\">n/a</span></td>\n",
        "          </tr>\n",
        "          <tr class=\"metric-row\">\n",
        "            <td><strong>Reasons</strong></td>\n",
        "            <td><span>a &lt; b</span><br><span>ok</span></td>\n",
        "            <td><span class=\"na\">n/a</span></td>\n",
        "          </tr>\n",
        "          <tr class=\"category-spacer\">\n",
        "            <td></td>\n",
        "            <td></td>\n",
        "            <td></td>\n",
        "          </tr>\n",
    ]
    .concat();
    assert!(output.contains(expected.as_str()));
}

#[test]
fn html_denied_crate_is_marked_high_risk() {
    let denied = EvaluationOutcome { accepted: false, reasons: vec![] };
    let output = generate(&[create_test_crate("bad", "0.1.0", Some(denied))]);
    assert!(output.contains("<td><span class=\"high-risk\">NOT ACCEPTABLE</span></td>"));
    assert!(output.contains("<td><strong>Reasons</strong></td>\n            <td><span class=\"na\">n/a</span></td>"));
}

#[test]
fn html_values_are_linked_escaped_or_missing() {
    let first = ReportableCrate::new(
        "a".to_string(),
        version("1.0.0"),
        vec![
            Metric::with_value(KEYWORDS_DEF, MetricValue::String("rust, web".into())),
            Metric::with_value(HOMEPAGE_DEF, MetricValue::String("https://example.com/?a&b".into())),
            Metric::with_value(STARS_DEF, MetricValue::UInt(42)),
        ],
        None,
    );
    let second = ReportableCrate::new(
        "b".to_string(),
        version("2.0.0"),
        vec![Metric { def: STARS_DEF, value: None }],
        None,
    );
    let output = generate(&[first, second]);
    assert!(output.contains(
        "><a href=\"https://crates.io/keywords/rust\" target=\"_blank\" rel=\"noopener noreferrer\">#rust</a>, <a href=\"https://crates.io/keywords/web\" target=\"_blank\" rel=\"noopener noreferrer\">#web</a></td>"
    ));
    assert!(output.contains(
        "<a href=\"https://example.com/?a&amp;b\" target=\"_blank\" rel=\"noopener noreferrer\">https://example.com/?a&amp;b</a></td>"
    ));
    // The first crate's description, escaped, heads the row.
    assert!(output.contains("<td title=\"Stars &amp; forks\">stars</td>"));
    assert!(output.contains("\">42</td>"));
    // The second crate lacks the keywords and has no stars value.
    assert!(output.contains("<td title=\"b v2.0.0\nkeywords\nKeywords\"><span class=\"na\">n/a</span></td>"));
    assert!(output.contains("<td title=\"b v2.0.0\nstars\nStars &amp; forks\"><span class=\"na\">n/a</span></td>"));
    // A spacer separates the two categories.
    assert!(output.contains(
        "          <tr class=\"category-spacer\">\n            <td></td>\n            <td></td>\n            <td></td>\n          </tr>\n          <tr class=\"category-header\">\n            <td>Community</td>"
    ));
}
