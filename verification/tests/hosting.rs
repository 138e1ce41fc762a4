use aprz::hosting::{
    supported_host,
    after_issue_page, has_next_page, issues_page_url, repo_url, PageStep, ISSUE_PAGE_SIZE, MAX_ISSUE_PAGES,
    classify_status, closed_age_seconds, compute_all_stats, hosting_data, increment_window, merged_pr_age_seconds,
    most_conservative, next_retry_action, rate_limit_from_headers, repository_counts, AgeStats, ApiStatus, Cutoffs,
    Issue, IssueState, PullRequestMarker, RateLimitInfo, Repository, RetryAction, TimeWindowStats,
};

const NANOS: i128 = 1_000_000_000;
const DAY: i128 = 86_400 * NANOS;

fn now() -> i128 {
    chrono::Utc::now().timestamp_nanos_opt().unwrap() as i128
}

fn rfc3339(s: &str) -> i128 {
    chrono::DateTime::parse_from_rfc3339(s).unwrap().timestamp_nanos_opt().unwrap() as i128
}

fn cutoffs(now: i128) -> Cutoffs {
    Cutoffs { days_90: now - 90 * DAY, days_180: now - 180 * DAY, days_365: now - 365 * DAY }
}

#[test]
fn test_closed_age_seconds_with_closed_at() {
    let issue = Issue {
        created_at: rfc3339("2024-01-01T00:00:00Z"),
        closed_at: Some(rfc3339("2024-01-02T00:00:00Z")),
        state: IssueState::Closed,
        pull_request: None,
    };
    let age = closed_age_seconds(&issue).unwrap();
    assert!(((age as f64) - 86400.0).abs() < 1.0);
}

#[test]
fn test_closed_age_seconds_without_closed_at() {
    let issue =
        Issue { created_at: rfc3339("2024-01-01T00:00:00Z"), closed_at: None, state: IssueState::Open, pull_request: None };
    assert!(closed_age_seconds(&issue).is_none());
}

#[test]
fn test_merged_pr_age_seconds_merged() {
    let merged = rfc3339("2024-01-03T00:00:00Z");
    let issue = Issue {
        created_at: rfc3339("2024-01-01T00:00:00Z"),
        closed_at: Some(merged),
        state: IssueState::Closed,
        pull_request: Some(PullRequestMarker { merged_at: Some(merged) }),
    };
    let age = merged_pr_age_seconds(&issue).unwrap();
    assert!(((age as f64) - 172_800.0).abs() < 1.0);
}

#[test]
fn test_merged_pr_age_seconds_not_merged() {
    let issue = Issue {
        created_at: rfc3339("2024-01-01T00:00:00Z"),
        closed_at: None,
        state: IssueState::Open,
        pull_request: Some(PullRequestMarker { merged_at: None }),
    };
    assert!(merged_pr_age_seconds(&issue).is_none());
}

#[test]
fn test_merged_pr_age_seconds_not_a_pr() {
    let issue =
        Issue { created_at: rfc3339("2024-01-01T00:00:00Z"), closed_at: None, state: IssueState::Open, pull_request: None };
    assert!(merged_pr_age_seconds(&issue).is_none());
}

#[test]
fn test_increment_window_recent() {
    let now = now();
    let mut stats = TimeWindowStats::default();
    increment_window(&mut stats, now - 10 * DAY, cutoffs(now));
    assert_eq!(stats.total, 1);
    assert_eq!(stats.last_90_days, 1);
    assert_eq!(stats.last_180_days, 1);
    assert_eq!(stats.last_365_days, 1);
}

#[test]
fn test_increment_window_old() {
    let now = now();
    let mut stats = TimeWindowStats::default();
    increment_window(&mut stats, now - 200 * DAY, cutoffs(now));
    assert_eq!(stats.total, 1);
    assert_eq!(stats.last_90_days, 0);
    assert_eq!(stats.last_180_days, 0);
    assert_eq!(stats.last_365_days, 1);
}

#[test]
fn test_increment_window_very_old() {
    let now = now();
    let mut stats = TimeWindowStats::default();
    increment_window(&mut stats, now - 400 * DAY, cutoffs(now));
    assert_eq!(stats.total, 1);
    assert_eq!(stats.last_90_days, 0);
    assert_eq!(stats.last_180_days, 0);
    assert_eq!(stats.last_365_days, 0);
}

#[test]
fn test_compute_all_stats_empty() {
    let stats = compute_all_stats(&[], now());
    assert_eq!(stats.open_issues, 0);
    assert_eq!(stats.open_prs, 0);
    assert_eq!(stats.issues_opened.total, 0);
    assert_eq!(stats.prs_opened.total, 0);
}

#[test]
fn test_compute_all_stats_mixed_issues_and_prs() {
    let now = now();
    let day_ago = now - DAY;
    let week_ago = now - 7 * DAY;
    let two_days_ago = now - 2 * DAY;

    let issues = vec![
        Issue { created_at: week_ago, closed_at: None, state: IssueState::Open, pull_request: None },
        Issue { created_at: week_ago, closed_at: Some(day_ago), state: IssueState::Closed, pull_request: None },
        Issue {
            created_at: two_days_ago,
            closed_at: None,
            state: IssueState::Open,
            pull_request: Some(PullRequestMarker { merged_at: None }),
        },
        Issue {
            created_at: week_ago,
            closed_at: Some(two_days_ago),
            state: IssueState::Closed,
            pull_request: Some(PullRequestMarker { merged_at: Some(two_days_ago) }),
        },
    ];

    let stats = compute_all_stats(&issues, now);
    assert_eq!(stats.open_issues, 1);
    assert_eq!(stats.open_prs, 1);
    assert_eq!(stats.issues_opened.total, 2);
    assert_eq!(stats.issues_closed.total, 1);
    assert_eq!(stats.prs_opened.total, 2);
    assert_eq!(stats.prs_merged.total, 1);
    assert_eq!(stats.prs_closed.total, 1);
}

#[test]
fn compute_all_stats_ages_in_whole_seconds() {
    let now = 1_000 * DAY + NANOS / 2;
    let issues = vec![
        Issue { created_at: now - 3 * DAY, closed_at: None, state: IssueState::Open, pull_request: None },
        Issue {
            created_at: now - 400 * DAY,
            closed_at: Some(now - 100 * DAY),
            state: IssueState::Closed,
            pull_request: None,
        },
        Issue {
            created_at: now - 10 * DAY,
            closed_at: None,
            state: IssueState::Open,
            pull_request: Some(PullRequestMarker { merged_at: Some(now - 5 * DAY) }),
        },
        Issue {
            created_at: now - 300 * DAY,
            closed_at: Some(now - 200 * DAY),
            state: IssueState::Closed,
            pull_request: Some(PullRequestMarker { merged_at: Some(now - 200 * DAY) }),
        },
    ];
    let stats = compute_all_stats(&issues, now);
    assert_eq!(stats.open_issue_ages, vec![3 * 86_400]);
    assert_eq!(stats.closed_issue_ages, vec![300 * 86_400]);
    assert!(stats.closed_issue_ages_last_90_days.is_empty());
    assert_eq!(stats.closed_issue_ages_last_180_days, vec![300 * 86_400]);
    assert_eq!(stats.merged_pr_ages, vec![5 * 86_400, 100 * 86_400]);
    assert_eq!(stats.merged_pr_ages_last_90_days, vec![5 * 86_400]);
    assert_eq!(stats.merged_pr_ages_last_365_days, vec![5 * 86_400, 100 * 86_400]);
    assert_eq!(stats.prs_merged, TimeWindowStats { total: 2, last_365_days: 2, last_180_days: 1, last_90_days: 1 });
}

#[test]
fn negative_spans_truncate_toward_zero() {
    let issue = Issue {
        created_at: 10 * NANOS,
        closed_at: Some(8 * NANOS + NANOS / 2),
        state: IssueState::Closed,
        pull_request: None,
    };
    assert_eq!(closed_age_seconds(&issue), Some(-1));
}

#[test]
fn repository_counts_use_defaults_and_watchers() {
    let repo = Repository { stargazers_count: Some(5), forks_count: None, subscribers_count: Some(-3), watchers_count: Some(9) };
    let github = repository_counts(&repo, false);
    assert_eq!((github.stars, github.forks, github.subscribers), (5, 0, 0));
    let codeberg = repository_counts(&repo, true);
    assert_eq!(codeberg.subscribers, 9);
}

#[test]
fn test_extract_rate_limit_from_headers() {
    let info = rate_limit_from_headers(Some("42"), Some("1700000000")).unwrap();
    assert_eq!(info, RateLimitInfo { remaining: 42, reset_at: 1_700_000_000 * NANOS });
}

#[test]
fn test_extract_rate_limit_missing_headers() {
    assert!(rate_limit_from_headers(None, Some("1700000000")).is_none());
    assert!(rate_limit_from_headers(Some("1"), None).is_none());
}

#[test]
fn test_extract_rate_limit_invalid_remaining() {
    assert!(rate_limit_from_headers(Some("not-a-number"), Some("1700000000")).is_none());
    assert!(rate_limit_from_headers(Some("-1"), Some("1700000000")).is_none());
}

#[test]
fn test_extract_rate_limit_invalid_reset() {
    assert!(rate_limit_from_headers(Some("1"), Some("invalid")).is_none());
    assert!(rate_limit_from_headers(Some("1"), Some("9223372036854775807")).is_none());
    assert_eq!(rate_limit_from_headers(Some("+1"), Some("-5")).unwrap().reset_at, -5 * NANOS);
}

#[test]
fn status_classification_and_retry() {
    let now = 1_000 * NANOS;
    assert_eq!(classify_status(200, None, now), ApiStatus::Success(None));
    assert_eq!(
        classify_status(429, None, now),
        ApiStatus::RateLimited(RateLimitInfo { remaining: 0, reset_at: now + 3600 * NANOS })
    );
    assert_eq!(classify_status(404, None, now), ApiStatus::NotFound(None));
    assert_eq!(classify_status(500, None, now), ApiStatus::Failed(None));
    assert_eq!(next_retry_action(false, None, now), RetryAction::Finish);
    let soon = RateLimitInfo { remaining: 0, reset_at: now + 10 * NANOS };
    assert_eq!(next_retry_action(true, Some(soon), now), RetryAction::PauseThenRetry(10 * NANOS));
    let late = RateLimitInfo { remaining: 0, reset_at: now + 7200 * NANOS };
    assert_eq!(next_retry_action(true, Some(late), now), RetryAction::PauseThenRetry(3600 * NANOS));
    let past = RateLimitInfo { remaining: 0, reset_at: now - NANOS };
    assert_eq!(next_retry_action(true, Some(past), now), RetryAction::Retry);
    let a = RateLimitInfo { remaining: 5, reset_at: 0 };
    let b = RateLimitInfo { remaining: 5, reset_at: 1 };
    assert_eq!(most_conservative(Some(a), Some(b)), Some(a));
    assert_eq!(most_conservative(None, Some(b)), Some(b));
}

#[test]
fn hosting_data_takes_counts_windows_and_ages() {
    let now = 1_000 * DAY;
    let issues = vec![
        Issue { created_at: now - 3 * DAY, closed_at: None, state: IssueState::Open, pull_request: None },
        Issue {
            created_at: now - 10 * DAY,
            closed_at: None,
            state: IssueState::Open,
            pull_request: Some(PullRequestMarker { merged_at: None }),
        },
    ];
    let stats = compute_all_stats(&issues, now);
    let repo = Repository { stargazers_count: Some(7), forks_count: Some(2), subscribers_count: Some(4), watchers_count: None };
    let counts = repository_counts(&repo, false);
    let mut ages = [AgeStats::default(); 10];
    for (i, a) in ages.iter_mut().enumerate() {
        let v = i as u32 + 1;
        *a = AgeStats { avg: v, p50: v, p75: v, p90: v, p95: v * 10 };
    }
    let d = hosting_data(counts, &stats, ages);
    assert_eq!((d.stars, d.forks, d.subscribers), (7, 2, 4));
    assert_eq!((d.open_issues, d.open_prs), (1, 1));
    assert_eq!(d.issues_opened.total, 1);
    assert_eq!(d.prs_opened.total, 1);
    assert_eq!(d.open_issue_age.avg, 1);
    assert_eq!(d.open_pr_age.avg, 2);
    assert_eq!(d.closed_issue_age.avg, 3);
    assert_eq!(d.closed_issue_age_last_365_days.avg, 6);
    assert_eq!(d.merged_pr_age.avg, 7);
    assert_eq!(d.merged_pr_age_last_365_days.p95, 100);
}

#[test]
fn age_stats_default_is_zero() {
    assert_eq!(AgeStats::default(), AgeStats { avg: 0, p50: 0, p75: 0, p90: 0, p95: 0 });
}

#[test]
fn test_repo_url() {
    let base_url = "https://api.github.com";

    let url = repo_url(base_url, "tokio-rs", "tokio", "");
    assert_eq!(url, "https://api.github.com/repos/tokio-rs/tokio");

    let url_with_suffix = repo_url(base_url, "tokio-rs", "tokio", "/commits");
    assert_eq!(url_with_suffix, "https://api.github.com/repos/tokio-rs/tokio/commits");
}

#[test]
fn issues_page_url_lists_all_states_a_hundred_per_page() {
    let url = issues_page_url("https://codeberg.org/api/v1", "o", "r", "2015-01-01T00:00:00Z", 3);
    assert_eq!(url, "https://codeberg.org/api/v1/repos/o/r/issues?state=all&since=2015-01-01T00:00:00Z&per_page=100&page=3");
    assert_eq!(ISSUE_PAGE_SIZE, 100);
}

#[test]
fn next_page_link_detection() {
    assert!(has_next_page(Some(r#"<https://x/issues?page=2>; rel="next", <https://x/issues?page=5>; rel="last""#)));
    assert!(!has_next_page(Some(r#"<https://x/issues?page=1>; rel="prev""#)));
    assert!(!has_next_page(None));
}

#[test]
fn issue_pagination_steps() {
    assert_eq!(after_issue_page(1, 0, true, false), PageStep::Done);
    assert_eq!(after_issue_page(1, 100, false, false), PageStep::Done);
    assert_eq!(after_issue_page(1, 100, true, true), PageStep::RateLimited);
    assert_eq!(after_issue_page(1, 100, true, false), PageStep::Fetch(2));
    assert_eq!(after_issue_page(MAX_ISSUE_PAGES - 1, 100, true, false), PageStep::Fetch(MAX_ISSUE_PAGES));
    assert_eq!(after_issue_page(MAX_ISSUE_PAGES, 100, true, false), PageStep::Done);
    assert_eq!(after_issue_page(u32::MAX, 1, true, false), PageStep::Done);
}

#[test]
fn test_rate_limit_info_copy() {
    let info1 = RateLimitInfo { remaining: 5000, reset_at: 1_234_567_890 * NANOS };

    let info2 = info1;

    assert_eq!(info1.remaining, 5000);
    assert_eq!(info2.remaining, 5000);
}

#[test]
fn test_rate_limit_info_fields() {
    let reset_time = 1_704_067_200 * NANOS;
    let info = RateLimitInfo { remaining: 100, reset_at: reset_time };

    assert_eq!(info.remaining, 100);
    assert_eq!(info.reset_at / NANOS, 1_704_067_200);
}

#[test]
fn supported_hosts_and_the_others() {
    let github = supported_host("github.com").unwrap();
    assert_eq!(github.base_url, "https://api.github.com");
    assert_eq!(github.display_name, "GitHub");
    assert!(!github.use_watchers_for_subscribers);
    let codeberg = supported_host("codeberg.org").unwrap();
    assert_eq!(codeberg.base_url, "https://codeberg.org/api/v1");
    assert!(codeberg.use_watchers_for_subscribers);
    assert_eq!(supported_host("gitlab.com").unwrap_err(), "unsupported hosting provider: gitlab.com");
}
