use aprz::config::{is_allowed, parse_duration, span_to_duration, AllowListEntry};
use aprz::row_reader::StoredVersion;

fn version(major: u64, minor: u64, patch: u64) -> StoredVersion {
    StoredVersion { major, minor, patch, pre: String::new(), build: String::new() }
}

fn entry(name: &str, req: &str) -> AllowListEntry {
    AllowListEntry::new(name.to_string(), req.to_string()).unwrap()
}

#[test]
fn test_allow_list_entry_matches_exact_version() {
    let entry = entry("foo", "=1.2.3");
    assert!(entry.matches("foo", &version(1, 2, 3)));
    assert!(!entry.matches("foo", &version(1, 2, 4)));
    assert!(!entry.matches("bar", &version(1, 2, 3)));
}

#[test]
fn test_allow_list_entry_matches_caret_range() {
    let entry = entry("foo", "^1.0");
    assert!(entry.matches("foo", &version(1, 0, 0)));
    assert!(entry.matches("foo", &version(1, 9, 9)));
    assert!(!entry.matches("foo", &version(2, 0, 0)));
}

#[test]
fn test_allow_list_entry_matches_wildcard() {
    let entry = entry("foo", "*");
    assert!(entry.matches("foo", &version(0, 0, 1)));
    assert!(entry.matches("foo", &version(99, 99, 99)));
    assert!(!entry.matches("bar", &version(1, 0, 0)));
}

#[test]
fn test_is_allowed_matches() {
    let allow_list = vec![entry("foo", "^1.0")];
    assert!(is_allowed(&allow_list, "foo", &version(1, 2, 3)));
    assert!(!is_allowed(&allow_list, "foo", &version(2, 0, 0)));
    assert!(!is_allowed(&allow_list, "bar", &version(1, 0, 0)));
}

#[test]
fn test_is_allowed_empty_list() {
    assert!(!is_allowed(&[], "foo", &version(1, 0, 0)));
}

#[test]
fn invalid_requirement_is_rejected() {
    assert!(AllowListEntry::new("foo".to_string(), "not a req".to_string()).is_none());
}

#[test]
fn prerelease_versions_follow_semver_matching() {
    let entry = entry("foo", ">=1.0.0");
    let pre = StoredVersion { major: 1, minor: 1, patch: 0, pre: "beta.1".to_string(), build: String::new() };
    assert!(!entry.matches("foo", &pre));
}

#[test]
fn durations_from_spans() {
    assert_eq!(parse_duration("7d"), Ok((7 * 86_400, 0)));
    assert_eq!(parse_duration("1 week"), Ok((7 * 86_400, 0)));
    assert_eq!(parse_duration("P1D"), Ok((86_400, 0)));
    assert_eq!(parse_duration("1y 1mo"), Ok((395 * 86_400, 0)));
    assert_eq!(parse_duration("1s 500ms"), Ok((1, 500_000_000)));
    assert_eq!(parse_duration("-1d"), Err("duration must not be negative".to_string()));
    assert!(parse_duration("not a duration").is_err());
}

#[test]
fn test_invalid_duration_format() {
    assert!(parse_duration("7 fortnights").is_err());
}

#[test]
fn span_conversion_limits() {
    assert_eq!(span_to_duration((0, 0, 0, 0, 0, 0, 0, 0, 0, 1)), Ok((0, 1)));
    assert_eq!(
        span_to_duration((0, 0, 0, 0, 0, 0, i64::MAX, i64::MAX, 0, 0)),
        Ok(((i64::MAX as u64) + (i64::MAX as u64) / 1000, (i64::MAX % 1000) as u32 * 1_000_000))
    );
}
