use aprz::grouping::{group_all_metrics_by_category, group_metrics_by_category};
use aprz::metrics::{Metric, MetricCategory, MetricDef, MetricKind, MetricValue, Timestamp};
use aprz::report_text::{
    escape_csv, format_keywords_or_categories_with_prefix, format_metric_value, format_risk_status, html_escape,
    is_categories_metric, is_keywords_metric, is_url, Escaped, Risk,
};
use aprz::wrap::wrap_text;

const METRIC1_DEF: MetricDef = MetricDef { name: "metric1", description: "desc1", category: MetricCategory::Metadata, kind: MetricKind::UInt };
const METRIC2_DEF: MetricDef = MetricDef { name: "metric2", description: "desc2", category: MetricCategory::Metadata, kind: MetricKind::UInt };
const METADATA_METRIC_DEF: MetricDef =
    MetricDef { name: "metadata_metric", description: "desc", category: MetricCategory::Metadata, kind: MetricKind::UInt };
const STABILITY_METRIC_DEF: MetricDef =
    MetricDef { name: "stability_metric", description: "desc", category: MetricCategory::Stability, kind: MetricKind::UInt };

#[test]
fn test_format_metric_value_unsigned_integer() {
    assert_eq!(format_metric_value(&MetricValue::UInt(100)), "100");
    assert_eq!(format_metric_value(&MetricValue::UInt(0)), "0");
}

#[test]
fn test_format_metric_value_boolean() {
    assert_eq!(format_metric_value(&MetricValue::Boolean(true)), "true");
    assert_eq!(format_metric_value(&MetricValue::Boolean(false)), "false");
}

#[test]
fn test_format_metric_value_text() {
    assert_eq!(format_metric_value(&MetricValue::String("hello".into())), "hello");
    assert_eq!(format_metric_value(&MetricValue::String("".into())), "");
}

#[test]
fn test_format_metric_value_datetime() {
    // 2024-01-15T10:30:00Z
    let dt = Timestamp::from_seconds(1_705_314_600).unwrap();
    let formatted = format_metric_value(&MetricValue::DateTime(dt));
    assert_eq!(formatted, "2024-01-15");
}

#[test]
fn format_metric_value_list_joins_with_commas() {
    let list = MetricValue::List(vec![
        MetricValue::String("a".into()),
        MetricValue::UInt(7),
        MetricValue::List(vec![MetricValue::Boolean(true), MetricValue::Boolean(false)]),
    ]);
    assert_eq!(format_metric_value(&list), "a, 7, true, false");
    assert_eq!(format_metric_value(&MetricValue::List(vec![])), "");
    assert_eq!(format_metric_value(&MetricValue::UInt(u64::MAX)), "18446744073709551615");
}

#[test]
fn test_is_url() {
    assert!(is_url("http://example.com"));
    assert!(is_url("https://example.com"));
    assert!(is_url("https://github.com/user/repo"));
    assert!(!is_url("example.com"));
    assert!(!is_url("ftp://example.com"));
    assert!(!is_url(""));
}

#[test]
fn test_is_keywords_metric() {
    assert!(is_keywords_metric("keywords"));
    assert!(is_keywords_metric("Keywords"));
    assert!(is_keywords_metric("KEYWORDS"));
    assert!(is_keywords_metric("crate_keywords"));
    assert!(!is_keywords_metric("keys"));
    assert!(!is_keywords_metric(""));
}

#[test]
fn test_is_categories_metric() {
    assert!(is_categories_metric("categories"));
    assert!(is_categories_metric("Categories"));
    assert!(is_categories_metric("CATEGORIES"));
    assert!(is_categories_metric("crate_categories"));
    assert!(is_categories_metric("category"));
    assert!(!is_categories_metric("cats"));
    assert!(!is_categories_metric(""));
}

#[test]
fn test_format_keywords_or_categories_with_prefix() {
    assert_eq!(format_keywords_or_categories_with_prefix("rust"), "#rust");
    assert_eq!(format_keywords_or_categories_with_prefix("rust, cli, tool"), "#rust, #cli, #tool");
    assert_eq!(format_keywords_or_categories_with_prefix("rust,cli,tool"), "#rust, #cli, #tool");
    assert_eq!(format_keywords_or_categories_with_prefix("  rust  ,  cli  "), "#rust, #cli");
}

#[test]
fn test_format_keywords_or_categories_with_prefix_empty_input() {
    assert_eq!(format_keywords_or_categories_with_prefix(""), "");
}

#[test]
fn prefix_formatting_keeps_empty_items_and_trims_unicode_space() {
    assert_eq!(format_keywords_or_categories_with_prefix("a,,b"), "#a, #, #b");
    assert_eq!(format_keywords_or_categories_with_prefix("\u{3000}x\u{a0}"), "#x");
}

#[test]
fn test_format_risk_status() {
    assert_eq!(format_risk_status(Risk::Low), "LOW RISK");
    assert_eq!(format_risk_status(Risk::Medium), "MEDIUM RISK");
    assert_eq!(format_risk_status(Risk::High), "HIGH RISK");
}

#[test]
fn test_group_metrics_by_category_empty() {
    let metrics: Vec<Metric> = vec![];
    let grouped = group_metrics_by_category(&metrics);
    assert!(grouped.is_empty());
}

#[test]
fn test_group_metrics_by_category_single_category() {
    let metrics = vec![
        Metric::with_value(METRIC1_DEF, MetricValue::UInt(1)),
        Metric::with_value(METRIC2_DEF, MetricValue::UInt(2)),
    ];
    let grouped = group_metrics_by_category(&metrics);
    assert_eq!(grouped.len(), 1);
    assert_eq!(grouped.get(MetricCategory::Metadata).unwrap().len(), 2);
}

#[test]
fn test_group_metrics_by_category_multiple_categories() {
    let metrics = vec![
        Metric::with_value(METADATA_METRIC_DEF, MetricValue::UInt(1)),
        Metric::with_value(STABILITY_METRIC_DEF, MetricValue::UInt(2)),
    ];
    let grouped = group_metrics_by_category(&metrics);
    assert_eq!(grouped.len(), 2);
    assert!(grouped.contains_key(MetricCategory::Metadata));
    assert!(grouped.contains_key(MetricCategory::Stability));
}

#[test]
fn group_all_keeps_each_name_once_in_first_order() {
    let first = vec![
        Metric::with_value(METRIC2_DEF, MetricValue::UInt(1)),
        Metric::with_value(STABILITY_METRIC_DEF, MetricValue::UInt(2)),
    ];
    let second = vec![
        Metric::with_value(METRIC1_DEF, MetricValue::UInt(3)),
        Metric::with_value(METRIC2_DEF, MetricValue::UInt(4)),
    ];
    let crates: Vec<&[Metric]> = vec![&first, &second];
    let grouped = group_all_metrics_by_category(&crates);
    assert_eq!(grouped.len(), 2);
    let metadata = grouped.get(MetricCategory::Metadata).unwrap();
    assert_eq!(metadata, &vec!["metric2".to_string(), "metric1".to_string()]);
    assert_eq!(grouped.get(MetricCategory::Stability).unwrap(), &vec!["stability_metric".to_string()]);
    assert!(grouped.get(MetricCategory::Usage).is_none());
}

#[test]
fn test_wrap_text_short() {
    let text = "short text";
    let lines = wrap_text(text, 80, 10);
    assert_eq!(lines.len(), 1);
    assert_eq!(lines[0], "short text");
}

#[test]
fn test_wrap_text_long() {
    let text = "This is a very long text that should be wrapped at word boundaries when it exceeds the specified width";
    let lines = wrap_text(text, 40, 10);
    assert!(lines.len() > 1);
    // First line should not be indented
    assert!(!lines[0].starts_with(' '));
    // Continuation lines should be indented
    if lines.len() > 1 {
        assert!(lines[1].starts_with("          ")); // 10 spaces
    }
}

#[test]
fn test_wrap_text_exact_fit() {
    let text = "word1 word2 word3";
    let lines = wrap_text(text, 17, 5);
    assert_eq!(lines.len(), 1);
}

#[test]
fn test_wrap_text_empty() {
    let text = "";
    let lines = wrap_text(text, 80, 10);
    assert_eq!(lines.len(), 1);
    assert_eq!(lines[0], "");
}

#[test]
fn wrap_text_exact_lines() {
    let lines = wrap_text("aa bb cc dd", 7, 2);
    assert_eq!(lines, vec!["aa bb".to_string(), "  cc dd".to_string()]);
    let lines = wrap_text("a  b", 2, 2);
    assert_eq!(lines, vec!["a  b".to_string()]);
    let lines = wrap_text("toolongword x", 4, 1);
    assert_eq!(lines, vec!["toolongword".to_string(), " x".to_string()]);
}

#[test]
fn test_escape_csv_no_special_chars() {
    let result = escape_csv("hello world");
    assert_eq!(result.as_str(), "hello world");
    assert!(matches!(result, Escaped::Borrowed(_)));
}

#[test]
fn test_escape_csv_with_quotes() {
    let result = escape_csv("hello \"world\"");
    assert_eq!(result.as_str(), "\"hello \"\"world\"\"\"");
    assert!(matches!(result, Escaped::Owned(_)));
}

#[test]
fn test_escape_csv_with_comma() {
    let result = escape_csv("hello,world");
    assert_eq!(result.as_str(), "\"hello,world\"");
    assert!(matches!(result, Escaped::Owned(_)));
}

#[test]
fn test_escape_csv_with_newline() {
    let result = escape_csv("hello\nworld");
    assert_eq!(result.as_str(), "\"hello\nworld\"");
    assert!(matches!(result, Escaped::Owned(_)));
}

#[test]
fn test_escape_csv_empty() {
    let result = escape_csv("");
    assert_eq!(result.as_str(), "");
    assert!(matches!(result, Escaped::Borrowed(_)));
}

#[test]
fn escape_csv_quotes_carriage_return() {
    assert_eq!(escape_csv("a\rb").as_str(), "\"a\rb\"");
}

#[test]
fn test_html_escape_basic() {
    assert_eq!(html_escape("hello"), "hello");
}

#[test]
fn test_html_escape_ampersand() {
    assert_eq!(html_escape("A & B"), "A &amp; B");
}

#[test]
fn test_html_escape_less_than() {
    assert_eq!(html_escape("<script>"), "&lt;script&gt;");
}

#[test]
fn test_html_escape_quotes() {
    assert_eq!(html_escape("\"quoted\" and 'single'"), "&quot;quoted&quot; and &#39;single&#39;");
}

#[test]
fn test_html_escape_all_special_chars() {
    assert_eq!(html_escape("<>&\"'"), "&lt;&gt;&amp;&quot;&#39;");
}

#[test]
fn test_html_escape_empty() {
    assert_eq!(html_escape(""), "");
}

#[test]
fn wrapped_lines_fit_unless_one_long_word() {
    let lines = wrap_text("alpha beta averyveryverylongword gamma delta epsilon", 14, 3);
    for (k, line) in lines.iter().enumerate() {
        let body = if k == 0 { line.as_str() } else { &line[3..] };
        assert!(line.len() <= 14 || !body.contains(char::is_whitespace), "{line:?}");
        if k > 0 {
            assert!(line.starts_with("   "));
        }
    }
    assert_eq!(lines, vec!["alpha beta", "   averyveryverylongword", "   gamma delta", "   epsilon"]);
}
