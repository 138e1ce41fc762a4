//! The catalogue of metrics: each metric's name, description, category and
//! kind of value.

use crate::metrics::{MetricCategory, MetricDef, MetricKind};
use vstd::prelude::*;

verus! {

/// The number of metrics in the catalogue.
pub const METRIC_COUNT: usize = 74;

/// The catalogue: the definition of each metric, in order.
pub open spec fn metric_catalogue() -> Seq<MetricDef> {
    seq![
        MetricDef { name: "crate.name", description: "Name of the crate", category: MetricCategory::Metadata, kind: MetricKind::Text },
        MetricDef { name: "crate.version", description: "Semantic version of the crate", category: MetricCategory::Metadata, kind: MetricKind::Text },
        MetricDef { name: "crate.description", description: "Description of the crate's purpose and use", category: MetricCategory::Metadata, kind: MetricKind::Text },
        MetricDef { name: "crate.license", description: "SPDX license identifier constraining use of the crate", category: MetricCategory::Metadata, kind: MetricKind::Text },
        MetricDef { name: "crate.categories", description: "Crate categories", category: MetricCategory::Metadata, kind: MetricKind::List },
        MetricDef { name: "crate.keywords", description: "Crate keywords", category: MetricCategory::Metadata, kind: MetricKind::List },
        MetricDef { name: "crate.features", description: "Available crate features", category: MetricCategory::Metadata, kind: MetricKind::List },
        MetricDef { name: "crate.repository", description: "URL to the crate's source code repository", category: MetricCategory::Metadata, kind: MetricKind::Text },
        MetricDef { name: "crate.homepage", description: "URL to the crate's homepage", category: MetricCategory::Metadata, kind: MetricKind::Text },
        MetricDef { name: "crate.minimum_rust", description: "Minimum Rust version (MSRV) required to compile this crate", category: MetricCategory::Metadata, kind: MetricKind::Text },
        MetricDef { name: "crate.rust_edition", description: "Rust edition this crate targets", category: MetricCategory::Metadata, kind: MetricKind::Text },
        MetricDef { name: "docs.documentation", description: "URL to the crate's documentation", category: MetricCategory::Documentation, kind: MetricKind::Text },
        MetricDef { name: "docs.public_api_elements", description: "Number of public API elements (functions, structs, etc.)", category: MetricCategory::Documentation, kind: MetricKind::UInt },
        MetricDef { name: "docs.undocumented_public_api_elements", description: "Number of public API elements without documentation", category: MetricCategory::Documentation, kind: MetricKind::UInt },
        MetricDef { name: "docs.public_api_coverage_percentage", description: "Percentage of public API elements with documentation", category: MetricCategory::Documentation, kind: MetricKind::Fraction },
        MetricDef { name: "docs.crate_level_docs_present", description: "Whether crate-level documentation exists", category: MetricCategory::Documentation, kind: MetricKind::Boolean },
        MetricDef { name: "docs.broken_links", description: "Number of broken links in documentation", category: MetricCategory::Documentation, kind: MetricKind::UInt },
        MetricDef { name: "docs.examples_in_docs", description: "Number of code examples in documentation", category: MetricCategory::Documentation, kind: MetricKind::UInt },
        MetricDef { name: "docs.standalone_examples", description: "Number of standalone example programs in the codebase", category: MetricCategory::Documentation, kind: MetricKind::UInt },
        MetricDef { name: "usage.total_downloads", description: "Crate downloads across all versions", category: MetricCategory::Usage, kind: MetricKind::UInt },
        MetricDef { name: "usage.total_downloads_last_90_days", description: "Crate downloads across all versions in the last 90 days", category: MetricCategory::Usage, kind: MetricKind::UInt },
        MetricDef { name: "usage.version_downloads", description: "Crate downloads of this specific version", category: MetricCategory::Usage, kind: MetricKind::UInt },
        MetricDef { name: "usage.version_downloads_last_90_days", description: "Crate downloads of this specific version in the last 90 days", category: MetricCategory::Usage, kind: MetricKind::UInt },
        MetricDef { name: "usage.dependent_crates", description: "Number of unique crates that depend on this crate", category: MetricCategory::Usage, kind: MetricKind::UInt },
        MetricDef { name: "stability.crate_created_at", description: "When the crate was first published to crates.io", category: MetricCategory::Stability, kind: MetricKind::Instant },
        MetricDef { name: "stability.crate_updated_at", description: "When the crate's metadata was last updated on crates.io", category: MetricCategory::Stability, kind: MetricKind::Instant },
        MetricDef { name: "stability.version_created_at", description: "When this version was first published to crates.io", category: MetricCategory::Stability, kind: MetricKind::Instant },
        MetricDef { name: "stability.version_updated_at", description: "When this version's metadata was last updated on crates.io", category: MetricCategory::Stability, kind: MetricKind::Instant },
        MetricDef { name: "stability.yanked", description: "Whether this version has been yanked from crates.io", category: MetricCategory::Stability, kind: MetricKind::Boolean },
        MetricDef { name: "stability.versions_last_90_days", description: "Number of versions published in the last 90 days", category: MetricCategory::Stability, kind: MetricKind::UInt },
        MetricDef { name: "crate.owners", description: "List of owner usernames", category: MetricCategory::Metadata, kind: MetricKind::List },
        MetricDef { name: "community.repo_stars", description: "Number of stars on the repository", category: MetricCategory::Community, kind: MetricKind::UInt },
        MetricDef { name: "community.repo_forks", description: "Number of forks of the repository", category: MetricCategory::Community, kind: MetricKind::UInt },
        MetricDef { name: "community.repo_subscribers", description: "Number of users watching/subscribing to the repository", category: MetricCategory::Community, kind: MetricKind::UInt },
        MetricDef { name: "community.repo_contributors", description: "Number of contributors to the repository", category: MetricCategory::Community, kind: MetricKind::UInt },
        MetricDef { name: "activity.commits_last_90_days", description: "Number of commits to the repository in the last 90 days", category: MetricCategory::Activity, kind: MetricKind::UInt },
        MetricDef { name: "activity.commits_last_365_days", description: "Number of commits to the repository in the last 365 days", category: MetricCategory::Activity, kind: MetricKind::UInt },
        MetricDef { name: "activity.commit_count", description: "Total number of commits in the repository", category: MetricCategory::Activity, kind: MetricKind::UInt },
        MetricDef { name: "activity.last_commit_at", description: "Timestamp of the most recent commit in the repository", category: MetricCategory::Activity, kind: MetricKind::Instant },
        MetricDef { name: "activity.open_issues", description: "Number of currently open issues", category: MetricCategory::Activity, kind: MetricKind::UInt },
        MetricDef { name: "activity.closed_issues", description: "Total number of issues that have been closed (all time)", category: MetricCategory::Activity, kind: MetricKind::UInt },
        MetricDef { name: "activity.avg_open_issue_age_days", description: "Average age in days of open issues", category: MetricCategory::Activity, kind: MetricKind::UInt },
        MetricDef { name: "activity.median_open_issue_age_days", description: "Median age in days of open issues (50th percentile)", category: MetricCategory::Activity, kind: MetricKind::UInt },
        MetricDef { name: "activity.p90_open_issue_age_days", description: "90th percentile age in days of open issues", category: MetricCategory::Activity, kind: MetricKind::UInt },
        MetricDef { name: "activity.open_pull_requests", description: "Number of currently open pull requests", category: MetricCategory::Activity, kind: MetricKind::UInt },
        MetricDef { name: "activity.closed_pull_requests", description: "Total number of pull requests that have been closed (all time)", category: MetricCategory::Activity, kind: MetricKind::UInt },
        MetricDef { name: "activity.avg_open_pull_request_age_days", description: "Average age in days of open pull requests", category: MetricCategory::Activity, kind: MetricKind::UInt },
        MetricDef { name: "activity.median_open_pull_request_age_days", description: "Median age in days of open pull requests (50th percentile)", category: MetricCategory::Activity, kind: MetricKind::UInt },
        MetricDef { name: "activity.p90_open_pull_request_age_days", description: "90th percentile age in days of open pull requests", category: MetricCategory::Activity, kind: MetricKind::UInt },
        MetricDef { name: "advisories.total_low_severity_vulnerabilities", description: "Number of low severity vulnerabilities across all versions", category: MetricCategory::Advisories, kind: MetricKind::UInt },
        MetricDef { name: "advisories.total_medium_severity_vulnerabilities", description: "Number of medium severity vulnerabilities across all versions", category: MetricCategory::Advisories, kind: MetricKind::UInt },
        MetricDef { name: "advisories.total_high_severity_vulnerabilities", description: "Number of high severity vulnerabilities across all versions", category: MetricCategory::Advisories, kind: MetricKind::UInt },
        MetricDef { name: "advisories.total_critical_severity_vulnerabilities", description: "Number of critical severity vulnerabilities across all versions", category: MetricCategory::Advisories, kind: MetricKind::UInt },
        MetricDef { name: "advisories.total_notice_warnings", description: "Number of notice warnings across all versions", category: MetricCategory::Advisories, kind: MetricKind::UInt },
        MetricDef { name: "advisories.total_unmaintained_warnings", description: "Number of unmaintained warnings across all versions", category: MetricCategory::Advisories, kind: MetricKind::UInt },
        MetricDef { name: "advisories.total_unsound_warnings", description: "Number of unsound warnings across all versions", category: MetricCategory::Advisories, kind: MetricKind::UInt },
        MetricDef { name: "advisories.version_low_severity_vulnerabilities", description: "Number of low severity vulnerabilities in this version", category: MetricCategory::Advisories, kind: MetricKind::UInt },
        MetricDef { name: "advisories.version_medium_severity_vulnerabilities", description: "Number of medium severity vulnerabilities in this version", category: MetricCategory::Advisories, kind: MetricKind::UInt },
        MetricDef { name: "advisories.version_high_severity_vulnerabilities", description: "Number of high severity vulnerabilities in this version", category: MetricCategory::Advisories, kind: MetricKind::UInt },
        MetricDef { name: "advisories.version_critical_severity_vulnerabilities", description: "Number of critical severity vulnerabilities in this version", category: MetricCategory::Advisories, kind: MetricKind::UInt },
        MetricDef { name: "advisories.version_notice_warnings", description: "Number of notice warnings for this version", category: MetricCategory::Advisories, kind: MetricKind::UInt },
        MetricDef { name: "advisories.version_unmaintained_warnings", description: "Number of unmaintained warnings for this version", category: MetricCategory::Advisories, kind: MetricKind::UInt },
        MetricDef { name: "advisories.version_unsound_warnings", description: "Number of unsound warnings for this version", category: MetricCategory::Advisories, kind: MetricKind::UInt },
        MetricDef { name: "code.source_files", description: "Number of source files", category: MetricCategory::Codebase, kind: MetricKind::UInt },
        MetricDef { name: "code.source_files_with_errors", description: "Number of source files that had analysis errors", category: MetricCategory::Codebase, kind: MetricKind::UInt },
        MetricDef { name: "code.code_lines", description: "Number of lines of production code (excluding tests)", category: MetricCategory::Codebase, kind: MetricKind::UInt },
        MetricDef { name: "code.test_lines", description: "Number of lines of test code", category: MetricCategory::Codebase, kind: MetricKind::UInt },
        MetricDef { name: "code.comment_lines", description: "Number of comment lines in the codebase", category: MetricCategory::Codebase, kind: MetricKind::UInt },
        MetricDef { name: "code.transitive_dependencies", description: "Number of transitive dependencies", category: MetricCategory::Codebase, kind: MetricKind::UInt },
        MetricDef { name: "trust.unsafe_blocks", description: "Number of unsafe blocks in the codebase", category: MetricCategory::Trustworthiness, kind: MetricKind::UInt },
        MetricDef { name: "trust.ci_workflows", description: "Whether CI/CD workflows were detected in the repository", category: MetricCategory::Trustworthiness, kind: MetricKind::Boolean },
        MetricDef { name: "trust.miri_usage", description: "Whether Miri is used in CI", category: MetricCategory::Trustworthiness, kind: MetricKind::Boolean },
        MetricDef { name: "trust.clippy_usage", description: "Whether Clippy is used in CI", category: MetricCategory::Trustworthiness, kind: MetricKind::Boolean },
        MetricDef { name: "trust.code_coverage_percentage", description: "Percentage of code covered by tests", category: MetricCategory::Trustworthiness, kind: MetricKind::Fraction }
    ]
}

/// The definitions of all metrics, in catalogue order.
pub fn metric_definitions() -> (r: Vec<MetricDef>)
    ensures
        r@ == metric_catalogue(),
        r@.len() == METRIC_COUNT,
{
    let r = vec![
        MetricDef { name: "crate.name", description: "Name of the crate", category: MetricCategory::Metadata, kind: MetricKind::Text },
        MetricDef { name: "crate.version", description: "Semantic version of the crate", category: MetricCategory::Metadata, kind: MetricKind::Text },
        MetricDef { name: "crate.description", description: "Description of the crate's purpose and use", category: MetricCategory::Metadata, kind: MetricKind::Text },
        MetricDef { name: "crate.license", description: "SPDX license identifier constraining use of the crate", category: MetricCategory::Metadata, kind: MetricKind::Text },
        MetricDef { name: "crate.categories", description: "Crate categories", category: MetricCategory::Metadata, kind: MetricKind::List },
        MetricDef { name: "crate.keywords", description: "Crate keywords", category: MetricCategory::Metadata, kind: MetricKind::List },
        MetricDef { name: "crate.features", description: "Available crate features", category: MetricCategory::Metadata, kind: MetricKind::List },
        MetricDef { name: "crate.repository", description: "URL to the crate's source code repository", category: MetricCategory::Metadata, kind: MetricKind::Text },
        MetricDef { name: "crate.homepage", description: "URL to the crate's homepage", category: MetricCategory::Metadata, kind: MetricKind::Text },
        MetricDef { name: "crate.minimum_rust", description: "Minimum Rust version (MSRV) required to compile this crate", category: MetricCategory::Metadata, kind: MetricKind::Text },
        MetricDef { name: "crate.rust_edition", description: "Rust edition this crate targets", category: MetricCategory::Metadata, kind: MetricKind::Text },
        MetricDef { name: "docs.documentation", description: "URL to the crate's documentation", category: MetricCategory::Documentation, kind: MetricKind::Text },
        MetricDef { name: "docs.public_api_elements", description: "Number of public API elements (functions, structs, etc.)", category: MetricCategory::Documentation, kind: MetricKind::UInt },
        MetricDef { name: "docs.undocumented_public_api_elements", description: "Number of public API elements without documentation", category: MetricCategory::Documentation, kind: MetricKind::UInt },
        MetricDef { name: "docs.public_api_coverage_percentage", description: "Percentage of public API elements with documentation", category: MetricCategory::Documentation, kind: MetricKind::Fraction },
        MetricDef { name: "docs.crate_level_docs_present", description: "Whether crate-level documentation exists", category: MetricCategory::Documentation, kind: MetricKind::Boolean },
        MetricDef { name: "docs.broken_links", description: "Number of broken links in documentation", category: MetricCategory::Documentation, kind: MetricKind::UInt },
        MetricDef { name: "docs.examples_in_docs", description: "Number of code examples in documentation", category: MetricCategory::Documentation, kind: MetricKind::UInt },
        MetricDef { name: "docs.standalone_examples", description: "Number of standalone example programs in the codebase", category: MetricCategory::Documentation, kind: MetricKind::UInt },
        MetricDef { name: "usage.total_downloads", description: "Crate downloads across all versions", category: MetricCategory::Usage, kind: MetricKind::UInt },
        MetricDef { name: "usage.total_downloads_last_90_days", description: "Crate downloads across all versions in the last 90 days", category: MetricCategory::Usage, kind: MetricKind::UInt },
        MetricDef { name: "usage.version_downloads", description: "Crate downloads of this specific version", category: MetricCategory::Usage, kind: MetricKind::UInt },
        MetricDef { name: "usage.version_downloads_last_90_days", description: "Crate downloads of this specific version in the last 90 days", category: MetricCategory::Usage, kind: MetricKind::UInt },
        MetricDef { name: "usage.dependent_crates", description: "Number of unique crates that depend on this crate", category: MetricCategory::Usage, kind: MetricKind::UInt },
        MetricDef { name: "stability.crate_created_at", description: "When the crate was first published to crates.io", category: MetricCategory::Stability, kind: MetricKind::Instant },
        MetricDef { name: "stability.crate_updated_at", description: "When the crate's metadata was last updated on crates.io", category: MetricCategory::Stability, kind: MetricKind::Instant },
        MetricDef { name: "stability.version_created_at", description: "When this version was first published to crates.io", category: MetricCategory::Stability, kind: MetricKind::Instant },
        MetricDef { name: "stability.version_updated_at", description: "When this version's metadata was last updated on crates.io", category: MetricCategory::Stability, kind: MetricKind::Instant },
        MetricDef { name: "stability.yanked", description: "Whether this version has been yanked from crates.io", category: MetricCategory::Stability, kind: MetricKind::Boolean },
        MetricDef { name: "stability.versions_last_90_days", description: "Number of versions published in the last 90 days", category: MetricCategory::Stability, kind: MetricKind::UInt },
        MetricDef { name: "crate.owners", description: "List of owner usernames", category: MetricCategory::Metadata, kind: MetricKind::List },
        MetricDef { name: "community.repo_stars", description: "Number of stars on the repository", category: MetricCategory::Community, kind: MetricKind::UInt },
        MetricDef { name: "community.repo_forks", description: "Number of forks of the repository", category: MetricCategory::Community, kind: MetricKind::UInt },
        MetricDef { name: "community.repo_subscribers", description: "Number of users watching/subscribing to the repository", category: MetricCategory::Community, kind: MetricKind::UInt },
        MetricDef { name: "community.repo_contributors", description: "Number of contributors to the repository", category: MetricCategory::Community, kind: MetricKind::UInt },
        MetricDef { name: "activity.commits_last_90_days", description: "Number of commits to the repository in the last 90 days", category: MetricCategory::Activity, kind: MetricKind::UInt },
        MetricDef { name: "activity.commits_last_365_days", description: "Number of commits to the repository in the last 365 days", category: MetricCategory::Activity, kind: MetricKind::UInt },
        MetricDef { name: "activity.commit_count", description: "Total number of commits in the repository", category: MetricCategory::Activity, kind: MetricKind::UInt },
        MetricDef { name: "activity.last_commit_at", description: "Timestamp of the most recent commit in the repository", category: MetricCategory::Activity, kind: MetricKind::Instant },
        MetricDef { name: "activity.open_issues", description: "Number of currently open issues", category: MetricCategory::Activity, kind: MetricKind::UInt },
        MetricDef { name: "activity.closed_issues", description: "Total number of issues that have been closed (all time)", category: MetricCategory::Activity, kind: MetricKind::UInt },
        MetricDef { name: "activity.avg_open_issue_age_days", description: "Average age in days of open issues", category: MetricCategory::Activity, kind: MetricKind::UInt },
        MetricDef { name: "activity.median_open_issue_age_days", description: "Median age in days of open issues (50th percentile)", category: MetricCategory::Activity, kind: MetricKind::UInt },
        MetricDef { name: "activity.p90_open_issue_age_days", description: "90th percentile age in days of open issues", category: MetricCategory::Activity, kind: MetricKind::UInt },
        MetricDef { name: "activity.open_pull_requests", description: "Number of currently open pull requests", category: MetricCategory::Activity, kind: MetricKind::UInt },
        MetricDef { name: "activity.closed_pull_requests", description: "Total number of pull requests that have been closed (all time)", category: MetricCategory::Activity, kind: MetricKind::UInt },
        MetricDef { name: "activity.avg_open_pull_request_age_days", description: "Average age in days of open pull requests", category: MetricCategory::Activity, kind: MetricKind::UInt },
        MetricDef { name: "activity.median_open_pull_request_age_days", description: "Median age in days of open pull requests (50th percentile)", category: MetricCategory::Activity, kind: MetricKind::UInt },
        MetricDef { name: "activity.p90_open_pull_request_age_days", description: "90th percentile age in days of open pull requests", category: MetricCategory::Activity, kind: MetricKind::UInt },
        MetricDef { name: "advisories.total_low_severity_vulnerabilities", description: "Number of low severity vulnerabilities across all versions", category: MetricCategory::Advisories, kind: MetricKind::UInt },
        MetricDef { name: "advisories.total_medium_severity_vulnerabilities", description: "Number of medium severity vulnerabilities across all versions", category: MetricCategory::Advisories, kind: MetricKind::UInt },
        MetricDef { name: "advisories.total_high_severity_vulnerabilities", description: "Number of high severity vulnerabilities across all versions", category: MetricCategory::Advisories, kind: MetricKind::UInt },
        MetricDef { name: "advisories.total_critical_severity_vulnerabilities", description: "Number of critical severity vulnerabilities across all versions", category: MetricCategory::Advisories, kind: MetricKind::UInt },
        MetricDef { name: "advisories.total_notice_warnings", description: "Number of notice warnings across all versions", category: MetricCategory::Advisories, kind: MetricKind::UInt },
        MetricDef { name: "advisories.total_unmaintained_warnings", description: "Number of unmaintained warnings across all versions", category: MetricCategory::Advisories, kind: MetricKind::UInt },
        MetricDef { name: "advisories.total_unsound_warnings", description: "Number of unsound warnings across all versions", category: MetricCategory::Advisories, kind: MetricKind::UInt },
        MetricDef { name: "advisories.version_low_severity_vulnerabilities", description: "Number of low severity vulnerabilities in this version", category: MetricCategory::Advisories, kind: MetricKind::UInt },
        MetricDef { name: "advisories.version_medium_severity_vulnerabilities", description: "Number of medium severity vulnerabilities in this version", category: MetricCategory::Advisories, kind: MetricKind::UInt },
        MetricDef { name: "advisories.version_high_severity_vulnerabilities", description: "Number of high severity vulnerabilities in this version", category: MetricCategory::Advisories, kind: MetricKind::UInt },
        MetricDef { name: "advisories.version_critical_severity_vulnerabilities", description: "Number of critical severity vulnerabilities in this version", category: MetricCategory::Advisories, kind: MetricKind::UInt },
        MetricDef { name: "advisories.version_notice_warnings", description: "Number of notice warnings for this version", category: MetricCategory::Advisories, kind: MetricKind::UInt },
        MetricDef { name: "advisories.version_unmaintained_warnings", description: "Number of unmaintained warnings for this version", category: MetricCategory::Advisories, kind: MetricKind::UInt },
        MetricDef { name: "advisories.version_unsound_warnings", description: "Number of unsound warnings for this version", category: MetricCategory::Advisories, kind: MetricKind::UInt },
        MetricDef { name: "code.source_files", description: "Number of source files", category: MetricCategory::Codebase, kind: MetricKind::UInt },
        MetricDef { name: "code.source_files_with_errors", description: "Number of source files that had analysis errors", category: MetricCategory::Codebase, kind: MetricKind::UInt },
        MetricDef { name: "code.code_lines", description: "Number of lines of production code (excluding tests)", category: MetricCategory::Codebase, kind: MetricKind::UInt },
        MetricDef { name: "code.test_lines", description: "Number of lines of test code", category: MetricCategory::Codebase, kind: MetricKind::UInt },
        MetricDef { name: "code.comment_lines", description: "Number of comment lines in the codebase", category: MetricCategory::Codebase, kind: MetricKind::UInt },
        MetricDef { name: "code.transitive_dependencies", description: "Number of transitive dependencies", category: MetricCategory::Codebase, kind: MetricKind::UInt },
        MetricDef { name: "trust.unsafe_blocks", description: "Number of unsafe blocks in the codebase", category: MetricCategory::Trustworthiness, kind: MetricKind::UInt },
        MetricDef { name: "trust.ci_workflows", description: "Whether CI/CD workflows were detected in the repository", category: MetricCategory::Trustworthiness, kind: MetricKind::Boolean },
        MetricDef { name: "trust.miri_usage", description: "Whether Miri is used in CI", category: MetricCategory::Trustworthiness, kind: MetricKind::Boolean },
        MetricDef { name: "trust.clippy_usage", description: "Whether Clippy is used in CI", category: MetricCategory::Trustworthiness, kind: MetricKind::Boolean },
        MetricDef { name: "trust.code_coverage_percentage", description: "Percentage of code covered by tests", category: MetricCategory::Trustworthiness, kind: MetricKind::Fraction },
    ];
    assert(r@ =~= metric_catalogue());
    r
}

/// For the name of a metric of the catalogue, its position: the names are
/// told apart by their length and at most one of their characters.
spec fn catalogue_position(s: Seq<char>) -> int {
    if s.len() == 10 {
        0
    } else if s.len() == 13 && s[6] == 'v' {
        1
    } else if s.len() == 17 && s[1] == 'r' {
        2
    } else if s.len() == 13 && s[6] == 'l' {
        3
    } else if s.len() == 16 && s[6] == 'c' {
        4
    } else if s.len() == 14 && s[6] == 'k' {
        5
    } else if s.len() == 14 && s[6] == 'f' {
        6
    } else if s.len() == 16 && s[6] == 'r' {
        7
    } else if s.len() == 14 && s[6] == 'h' {
        8
    } else if s.len() == 18 && s[6] == 'm' {
        9
    } else if s.len() == 18 && s[6] == 'r' {
        10
    } else if s.len() == 18 && s[0] == 'd' {
        11
    } else if s.len() == 24 && s[5] == 'p' {
        12
    } else if s.len() == 37 {
        13
    } else if s.len() == 35 && s[0] == 'd' {
        14
    } else if s.len() == 29 && s[0] == 'd' {
        15
    } else if s.len() == 17 && s[0] == 'd' {
        16
    } else if s.len() == 21 && s[0] == 'd' {
        17
    } else if s.len() == 24 && s[5] == 's' {
        18
    } else if s.len() == 21 && s[0] == 'u' {
        19
    } else if s.len() == 34 && s[0] == 'u' {
        20
    } else if s.len() == 23 && s[0] == 'u' {
        21
    } else if s.len() == 36 {
        22
    } else if s.len() == 22 && s[0] == 'u' {
        23
    } else if s.len() == 26 && s[16] == 'c' {
        24
    } else if s.len() == 26 && s[17] == 'p' {
        25
    } else if s.len() == 28 && s[18] == 'c' {
        26
    } else if s.len() == 28 && s[18] == 'u' {
        27
    } else if s.len() == 16 && s[0] == 's' {
        28
    } else if s.len() == 31 {
        29
    } else if s.len() == 12 {
        30
    } else if s.len() == 20 && s[16] == 't' {
        31
    } else if s.len() == 20 && s[15] == 'f' {
        32
    } else if s.len() == 26 && s[0] == 'c' {
        33
    } else if s.len() == 27 && s[0] == 'c' {
        34
    } else if s.len() == 29 && s[10] == 'o' {
        35
    } else if s.len() == 30 && s[0] == 'a' {
        36
    } else if s.len() == 21 && s[0] == 'a' {
        37
    } else if s.len() == 23 && s[0] == 'a' {
        38
    } else if s.len() == 20 && s[0] == 'a' {
        39
    } else if s.len() == 22 && s[0] == 'a' {
        40
    } else if s.len() == 32 && s[9] == 'a' {
        41
    } else if s.len() == 35 && s[1] == 'c' {
        42
    } else if s.len() == 32 && s[9] == 'p' {
        43
    } else if s.len() == 27 && s[0] == 'a' {
        44
    } else if s.len() == 29 && s[10] == 'l' {
        45
    } else if s.len() == 39 && s[9] == 'a' {
        46
    } else if s.len() == 42 {
        47
    } else if s.len() == 39 && s[9] == 'p' {
        48
    } else if s.len() == 45 {
        49
    } else if s.len() == 48 && s[11] == 't' {
        50
    } else if s.len() == 46 {
        51
    } else if s.len() == 50 && s[11] == 't' {
        52
    } else if s.len() == 32 && s[1] == 'd' {
        53
    } else if s.len() == 38 {
        54
    } else if s.len() == 33 {
        55
    } else if s.len() == 47 {
        56
    } else if s.len() == 50 && s[11] == 'v' {
        57
    } else if s.len() == 48 && s[11] == 'v' {
        58
    } else if s.len() == 52 {
        59
    } else if s.len() == 34 && s[0] == 'a' {
        60
    } else if s.len() == 40 {
        61
    } else if s.len() == 35 && s[1] == 'd' {
        62
    } else if s.len() == 17 && s[2] == 'd' {
        63
    } else if s.len() == 29 && s[0] == 'c' {
        64
    } else if s.len() == 15 && s[5] == 'c' {
        65
    } else if s.len() == 15 && s[5] == 't' {
        66
    } else if s.len() == 18 && s[2] == 'd' {
        67
    } else if s.len() == 28 && s[0] == 'c' {
        68
    } else if s.len() == 19 {
        69
    } else if s.len() == 18 && s[8] == '_' {
        70
    } else if s.len() == 16 && s[0] == 't' {
        71
    } else if s.len() == 18 && s[7] == 'l' {
        72
    } else if s.len() == 30 && s[0] == 't' {
        73
    } else {
        -1
    }
}

/// No two metrics of the catalogue have the same name.
pub proof fn lemma_metric_names_unique()
    ensures
        forall|i: int, j: int| 0 <= i < j < METRIC_COUNT ==> metric_catalogue()[i].name@ != metric_catalogue()[j].name@,
{
    reveal_strlit("crate.name");
    reveal_strlit("crate.version");
    reveal_strlit("crate.description");
    reveal_strlit("crate.license");
    reveal_strlit("crate.categories");
    reveal_strlit("crate.keywords");
    reveal_strlit("crate.features");
    reveal_strlit("crate.repository");
    reveal_strlit("crate.homepage");
    reveal_strlit("crate.minimum_rust");
    reveal_strlit("crate.rust_edition");
    reveal_strlit("docs.documentation");
    reveal_strlit("docs.public_api_elements");
    reveal_strlit("docs.undocumented_public_api_elements");
    reveal_strlit("docs.public_api_coverage_percentage");
    reveal_strlit("docs.crate_level_docs_present");
    reveal_strlit("docs.broken_links");
    reveal_strlit("docs.examples_in_docs");
    reveal_strlit("docs.standalone_examples");
    reveal_strlit("usage.total_downloads");
    reveal_strlit("usage.total_downloads_last_90_days");
    reveal_strlit("usage.version_downloads");
    reveal_strlit("usage.version_downloads_last_90_days");
    reveal_strlit("usage.dependent_crates");
    reveal_strlit("stability.crate_created_at");
    reveal_strlit("stability.crate_updated_at");
    reveal_strlit("stability.version_created_at");
    reveal_strlit("stability.version_updated_at");
    reveal_strlit("stability.yanked");
    reveal_strlit("stability.versions_last_90_days");
    reveal_strlit("crate.owners");
    reveal_strlit("community.repo_stars");
    reveal_strlit("community.repo_forks");
    reveal_strlit("community.repo_subscribers");
    reveal_strlit("community.repo_contributors");
    reveal_strlit("activity.commits_last_90_days");
    reveal_strlit("activity.commits_last_365_days");
    reveal_strlit("activity.commit_count");
    reveal_strlit("activity.last_commit_at");
    reveal_strlit("activity.open_issues");
    reveal_strlit("activity.closed_issues");
    reveal_strlit("activity.avg_open_issue_age_days");
    reveal_strlit("activity.median_open_issue_age_days");
    reveal_strlit("activity.p90_open_issue_age_days");
    reveal_strlit("activity.open_pull_requests");
    reveal_strlit("activity.closed_pull_requests");
    reveal_strlit("activity.avg_open_pull_request_age_days");
    reveal_strlit("activity.median_open_pull_request_age_days");
    reveal_strlit("activity.p90_open_pull_request_age_days");
    reveal_strlit("advisories.total_low_severity_vulnerabilities");
    reveal_strlit("advisories.total_medium_severity_vulnerabilities");
    reveal_strlit("advisories.total_high_severity_vulnerabilities");
    reveal_strlit("advisories.total_critical_severity_vulnerabilities");
    reveal_strlit("advisories.total_notice_warnings");
    reveal_strlit("advisories.total_unmaintained_warnings");
    reveal_strlit("advisories.total_unsound_warnings");
    reveal_strlit("advisories.version_low_severity_vulnerabilities");
    reveal_strlit("advisories.version_medium_severity_vulnerabilities");
    reveal_strlit("advisories.version_high_severity_vulnerabilities");
    reveal_strlit("advisories.version_critical_severity_vulnerabilities");
    reveal_strlit("advisories.version_notice_warnings");
    reveal_strlit("advisories.version_unmaintained_warnings");
    reveal_strlit("advisories.version_unsound_warnings");
    reveal_strlit("code.source_files");
    reveal_strlit("code.source_files_with_errors");
    reveal_strlit("code.code_lines");
    reveal_strlit("code.test_lines");
    reveal_strlit("code.comment_lines");
    reveal_strlit("code.transitive_dependencies");
    reveal_strlit("trust.unsafe_blocks");
    reveal_strlit("trust.ci_workflows");
    reveal_strlit("trust.miri_usage");
    reveal_strlit("trust.clippy_usage");
    reveal_strlit("trust.code_coverage_percentage");
    assert forall|i: int| 0 <= i < METRIC_COUNT implies catalogue_position(#[trigger] metric_catalogue()[i].name@) == i by {}
}

/// Every metric of the catalogue has a description.
pub proof fn lemma_metric_descriptions_present()
    ensures
        forall|i: int| 0 <= i < METRIC_COUNT ==> (#[trigger] metric_catalogue()[i]).description@.len() > 0,
{
    reveal_strlit("Name of the crate");
    reveal_strlit("Semantic version of the crate");
    reveal_strlit("Description of the crate's purpose and use");
    reveal_strlit("SPDX license identifier constraining use of the crate");
    reveal_strlit("Crate categories");
    reveal_strlit("Crate keywords");
    reveal_strlit("Available crate features");
    reveal_strlit("URL to the crate's source code repository");
    reveal_strlit("URL to the crate's homepage");
    reveal_strlit("Minimum Rust version (MSRV) required to compile this crate");
    reveal_strlit("Rust edition this crate targets");
    reveal_strlit("URL to the crate's documentation");
    reveal_strlit("Number of public API elements (functions, structs, etc.)");
    reveal_strlit("Number of public API elements without documentation");
    reveal_strlit("Percentage of public API elements with documentation");
    reveal_strlit("Whether crate-level documentation exists");
    reveal_strlit("Number of broken links in documentation");
    reveal_strlit("Number of code examples in documentation");
    reveal_strlit("Number of standalone example programs in the codebase");
    reveal_strlit("Crate downloads across all versions");
    reveal_strlit("Crate downloads across all versions in the last 90 days");
    reveal_strlit("Crate downloads of this specific version");
    reveal_strlit("Crate downloads of this specific version in the last 90 days");
    reveal_strlit("Number of unique crates that depend on this crate");
    reveal_strlit("When the crate was first published to crates.io");
    reveal_strlit("When the crate's metadata was last updated on crates.io");
    reveal_strlit("When this version was first published to crates.io");
    reveal_strlit("When this version's metadata was last updated on crates.io");
    reveal_strlit("Whether this version has been yanked from crates.io");
    reveal_strlit("Number of versions published in the last 90 days");
    reveal_strlit("List of owner usernames");
    reveal_strlit("Number of stars on the repository");
    reveal_strlit("Number of forks of the repository");
    reveal_strlit("Number of users watching/subscribing to the repository");
    reveal_strlit("Number of contributors to the repository");
    reveal_strlit("Number of commits to the repository in the last 90 days");
    reveal_strlit("Number of commits to the repository in the last 365 days");
    reveal_strlit("Total number of commits in the repository");
    reveal_strlit("Timestamp of the most recent commit in the repository");
    reveal_strlit("Number of currently open issues");
    reveal_strlit("Total number of issues that have been closed (all time)");
    reveal_strlit("Average age in days of open issues");
    reveal_strlit("Median age in days of open issues (50th percentile)");
    reveal_strlit("90th percentile age in days of open issues");
    reveal_strlit("Number of currently open pull requests");
    reveal_strlit("Total number of pull requests that have been closed (all time)");
    reveal_strlit("Average age in days of open pull requests");
    reveal_strlit("Median age in days of open pull requests (50th percentile)");
    reveal_strlit("90th percentile age in days of open pull requests");
    reveal_strlit("Number of low severity vulnerabilities across all versions");
    reveal_strlit("Number of medium severity vulnerabilities across all versions");
    reveal_strlit("Number of high severity vulnerabilities across all versions");
    reveal_strlit("Number of critical severity vulnerabilities across all versions");
    reveal_strlit("Number of notice warnings across all versions");
    reveal_strlit("Number of unmaintained warnings across all versions");
    reveal_strlit("Number of unsound warnings across all versions");
    reveal_strlit("Number of low severity vulnerabilities in this version");
    reveal_strlit("Number of medium severity vulnerabilities in this version");
    reveal_strlit("Number of high severity vulnerabilities in this version");
    reveal_strlit("Number of critical severity vulnerabilities in this version");
    reveal_strlit("Number of notice warnings for this version");
    reveal_strlit("Number of unmaintained warnings for this version");
    reveal_strlit("Number of unsound warnings for this version");
    reveal_strlit("Number of source files");
    reveal_strlit("Number of source files that had analysis errors");
    reveal_strlit("Number of lines of production code (excluding tests)");
    reveal_strlit("Number of lines of test code");
    reveal_strlit("Number of comment lines in the codebase");
    reveal_strlit("Number of transitive dependencies");
    reveal_strlit("Number of unsafe blocks in the codebase");
    reveal_strlit("Whether CI/CD workflows were detected in the repository");
    reveal_strlit("Whether Miri is used in CI");
    reveal_strlit("Whether Clippy is used in CI");
    reveal_strlit("Percentage of code covered by tests");
}

/// The sum of the counts of the last `k` months (all of them when there are
/// fewer).
pub open spec fn last_months_sum(months: Seq<(i32, u64)>, k: nat) -> nat
    decreases months.len(),
{
    if months.len() == 0 || k == 0 {
        0
    } else {
        months.last().1 as nat + last_months_sum(months.drop_last(), (k - 1) as nat)
    }
}

/// The recent downloads of a crate: the downloads of its last three months,
/// given as (day, count) pairs oldest first.
pub fn calculate_recent_downloads(monthly_downloads: &[(i32, u64)]) -> (r: u64)
    requires
        last_months_sum(monthly_downloads@, 3) <= u64::MAX,
    ensures
        r == last_months_sum(monthly_downloads@, 3),
{
    let n = monthly_downloads.len();
    let mut total: u64 = 0;
    let mut k: usize = 0;
    assert(monthly_downloads@.take(n as int) =~= monthly_downloads@);
    while k < 3 && k < n
        invariant
            k <= 3,
            k <= n,
            n == monthly_downloads@.len(),
            last_months_sum(monthly_downloads@, 3) <= u64::MAX,
            total + last_months_sum(monthly_downloads@.take(n - k), (3 - k) as nat) == last_months_sum(monthly_downloads@, 3),
        decreases 3 - k,
    {
        let ghost rest = monthly_downloads@.take(n - k);
        assert(rest.drop_last() =~= monthly_downloads@.take(n - k - 1));
        assert(rest.last() == monthly_downloads@[n - k - 1]);
        total = total + monthly_downloads[n - k - 1].1;
        k = k + 1;
    }
    proof {
        let rest = monthly_downloads@.take(n - k);
        if k < 3 {
            assert(rest.len() == 0);
        }
    }
    total
}

} // verus!
