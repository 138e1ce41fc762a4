use aprz::crate_ref::CrateRef;
use aprz::row_reader::StoredVersion;

#[test]
fn name_only_specifier() {
    let c = CrateRef::from_str("serde").unwrap();
    assert_eq!(c.name(), "serde");
    assert!(c.version().is_none());
    assert_eq!(c.to_text(), "serde");
}

#[test]
fn name_and_version_specifier() {
    let c = CrateRef::from_str("tokio@1.38.0").unwrap();
    assert_eq!(c.name(), "tokio");
    let v = c.version().unwrap();
    assert_eq!((v.major, v.minor, v.patch), (1, 38, 0));
    assert_eq!(c.to_text(), "tokio@1.38.0");
}

#[test]
fn prerelease_and_build_are_kept() {
    let c = CrateRef::from_str("foo@2.0.0-beta.1+abc").unwrap();
    let v = c.version().unwrap();
    assert_eq!(v.pre, "beta.1");
    assert_eq!(v.build, "abc");
    assert_eq!(c.to_text(), "foo@2.0.0-beta.1+abc");
}

#[test]
fn only_the_first_at_splits() {
    let err = CrateRef::from_str("a@b@1.0.0").unwrap_err();
    assert!(err.starts_with("invalid version 'b@1.0.0' in crate specifier 'a@b@1.0.0': "), "{err}");
}

#[test]
fn invalid_version_is_reported() {
    let err = CrateRef::from_str("serde@not-a-version").unwrap_err();
    assert!(err.starts_with("invalid version 'not-a-version' in crate specifier 'serde@not-a-version': "), "{err}");
    assert!(err.len() > "invalid version 'not-a-version' in crate specifier 'serde@not-a-version': ".len());
}

#[test]
fn empty_version_is_an_error() {
    assert!(CrateRef::from_str("serde@").is_err());
}

#[test]
fn new_and_text() {
    let v = StoredVersion { major: 0, minor: 4, patch: 45, pre: String::new(), build: String::new() };
    let c = CrateRef::new("chrono", Some(v));
    assert_eq!(c.name(), "chrono");
    assert_eq!(c.to_text(), "chrono@0.4.45");
    assert_eq!(CrateRef::new("x", None).to_text(), "x");
}
