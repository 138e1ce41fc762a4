use aprz::cache::{cache_is_fresh, default_cache_ttl, reuse_cached, EnvelopePayload};
use aprz::options::{
    console_output_mode, log_filter, log_shows_target, progress_delay_millis, should_process, use_colors, ColorMode,
    ConsoleSection, DependencyType, LogLevel,
};

const NANOS: i128 = 1_000_000_000;

#[test]
fn envelope_payload_accessors() {
    let data: EnvelopePayload<u32> = EnvelopePayload::Data(7);
    assert!(!data.is_no_data());
    assert_eq!(data.into_data(), Some(7));
    let none: EnvelopePayload<u32> = EnvelopePayload::NoData("gone".to_string());
    assert!(none.is_no_data());
    assert_eq!(none.into_data(), None);
}

#[test]
fn default_ttl_is_one_week() {
    assert_eq!(default_cache_ttl(), 7 * 24 * 3600);
}

#[test]
fn fresh_within_ttl_and_expired_at_the_boundary() {
    let stored = 1_000 * NANOS;
    assert!(cache_is_fresh(stored, stored + 59 * NANOS, 60, 0));
    assert!(!cache_is_fresh(stored, stored + 60 * NANOS, 60, 0));
    assert!(!cache_is_fresh(stored, stored + 61 * NANOS, 60, 0));
}

#[test]
fn future_timestamps_count_as_fresh() {
    let stored = 1_000 * NANOS;
    assert!(cache_is_fresh(stored, stored - 5 * NANOS, 0, 0));
    assert!(cache_is_fresh(stored, stored - NANOS / 2, 3600, 0));
    assert!(cache_is_fresh(stored, stored - 1, 0, 0));
}

#[test]
fn option_decisions() {
    assert!(use_colors(ColorMode::Always, false));
    assert!(!use_colors(ColorMode::Never, true));
    assert!(use_colors(ColorMode::Auto, true));
    assert!(!use_colors(ColorMode::Auto, false));
    assert_eq!(log_filter(LogLevel::Off), None);
    assert_eq!(log_filter(LogLevel::Warn), Some("warn"));
    assert!(log_shows_target(LogLevel::Trace));
    assert!(!log_shows_target(LogLevel::Info));
    assert_eq!(progress_delay_millis(LogLevel::Off), 300);
    assert_eq!(progress_delay_millis(LogLevel::Error), 365 * 24 * 3600 * 1000);
    let mode = console_output_mode(&[ConsoleSection::Metrics, ConsoleSection::Appraisal]);
    assert!(mode.appraisal && mode.metrics && !mode.reasons);
    assert!(should_process(None, DependencyType::Dev));
    assert!(should_process(Some(&[]), DependencyType::Dev));
    assert!(should_process(Some(&[DependencyType::Build, DependencyType::Dev]), DependencyType::Dev));
    assert!(!should_process(Some(&[DependencyType::Standard]), DependencyType::Build));
}

#[test]
fn cached_documents_are_reused_only_when_all_are_fresh() {
    assert_eq!(reuse_cached(vec![Some(1), Some(2), Some(3)]), Some(vec![1, 2, 3]));
    assert_eq!(reuse_cached(vec![Some(1), None, Some(3)]), None);
    assert_eq!(reuse_cached::<u8>(vec![]), Some(vec![]));
}
