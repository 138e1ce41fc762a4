use aprz::report_order::sort_for_report;
use aprz::reports::ReportableCrate;
use aprz::row_reader::StoredVersion;

fn version(major: u64, minor: u64, patch: u64, pre: &str) -> StoredVersion {
    StoredVersion { major, minor, patch, pre: pre.to_string(), build: String::new() }
}

fn krate(name: &str, v: StoredVersion) -> ReportableCrate {
    ReportableCrate::new(name.to_string(), v, vec![], None)
}

fn titles(crates: &[ReportableCrate]) -> Vec<String> {
    crates
        .iter()
        .map(|c| {
            let v = &c.version;
            if v.pre.is_empty() {
                format!("{} {}.{}.{}", c.name, v.major, v.minor, v.patch)
            } else {
                format!("{} {}.{}.{}-{}", c.name, v.major, v.minor, v.patch, v.pre)
            }
        })
        .collect()
}

#[test]
fn crates_are_sorted_by_name_then_version() {
    let crates = vec![
        krate("zebra", version(1, 0, 0, "")),
        krate("alpha", version(2, 0, 0, "")),
        krate("alpha", version(1, 10, 0, "")),
        krate("alpha", version(1, 2, 0, "")),
        krate("alpha", version(1, 0, 0, "")),
        krate("alpha", version(1, 0, 0, "beta")),
    ];
    let sorted = sort_for_report(crates);
    assert_eq!(
        titles(&sorted),
        vec!["alpha 1.0.0-beta", "alpha 1.0.0", "alpha 1.2.0", "alpha 1.10.0", "alpha 2.0.0", "zebra 1.0.0"]
    );
}

#[test]
fn names_compare_by_their_bytes() {
    let crates = vec![krate("serde_json", version(1, 0, 0, "")), krate("serde", version(1, 0, 0, "")), krate("Serde", version(1, 0, 0, ""))];
    let sorted = sort_for_report(crates);
    assert_eq!(titles(&sorted), vec!["Serde 1.0.0", "serde 1.0.0", "serde_json 1.0.0"]);
}

#[test]
fn sorting_nothing_gives_nothing() {
    assert!(sort_for_report(vec![]).is_empty());
}
