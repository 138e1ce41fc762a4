use aprz::metric_catalogue::calculate_recent_downloads;
use aprz::metric_catalogue::{metric_definitions, METRIC_COUNT};
use aprz::metrics::{MetricCategory, MetricDefault, MetricKind, MetricValue};

#[test]
fn test_all_metrics_have_default_values() {
    for metric_def in metric_definitions() {
        let default = metric_def.default_value();
        assert!(default.is_some(), "Metric '{}' does not have a default value", metric_def.name);
    }
}

#[test]
fn test_all_metric_names_are_unique() {
    let mut names = std::collections::HashSet::new();
    for metric_def in metric_definitions() {
        assert!(names.insert(metric_def.name), "Duplicate metric name found: '{}'", metric_def.name);
    }
}

#[test]
fn test_all_metrics_have_descriptions() {
    for metric_def in metric_definitions() {
        assert!(!metric_def.description.is_empty(), "Metric '{}' has an empty description", metric_def.name);
    }
}

#[test]
fn catalogue_has_its_stated_size_and_order() {
    let defs = metric_definitions();
    assert_eq!(defs.len(), METRIC_COUNT);
    assert_eq!(defs[0].name, "crate.name");
    assert_eq!(defs[0].category, MetricCategory::Metadata);
    assert_eq!(defs[METRIC_COUNT - 1].name, "trust.code_coverage_percentage");
    assert_eq!(defs[METRIC_COUNT - 1].category, MetricCategory::Trustworthiness);
}

#[test]
fn default_values_follow_the_kind() {
    let defs = metric_definitions();
    for def in &defs {
        match (def.kind, def.default_value()) {
            (MetricKind::UInt, Some(MetricDefault::Value(MetricValue::UInt(0)))) => {}
            (MetricKind::Fraction, Some(MetricDefault::ZeroFraction)) => {}
            (MetricKind::Boolean, Some(MetricDefault::Value(MetricValue::Boolean(false)))) => {}
            (MetricKind::Text, Some(MetricDefault::Value(MetricValue::String(s)))) => assert!(s.is_empty()),
            (MetricKind::Instant, Some(MetricDefault::Value(MetricValue::DateTime(t)))) => assert_eq!(t.as_seconds(), 0),
            (MetricKind::List, Some(MetricDefault::Value(MetricValue::List(v)))) => assert!(v.is_empty()),
            _ => panic!("unexpected default for '{}'", def.name),
        }
    }
}

#[test]
fn recent_downloads_are_the_last_three_months() {
    assert_eq!(calculate_recent_downloads(&[(1, 5), (2, 10), (3, 20), (4, 40)]), 70);
    assert_eq!(calculate_recent_downloads(&[(1, 5), (2, 10)]), 15);
    assert_eq!(calculate_recent_downloads(&[]), 0);
}
