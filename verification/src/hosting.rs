//! Repository statistics from a code hosting service: star, fork and
//! subscriber counts, and the issue and pull-request activity.
//!
//! Instants are nanoseconds since the epoch, as `chrono` keeps them; ages are
//! whole seconds, truncated toward zero as `chrono::TimeDelta::num_seconds`
//! does.

use crate::cache::{whole_seconds, NANOS_PER_SECOND};
use crate::numbers::{parse_signed, parse_signed_chars, parse_unsigned, parse_unsigned_chars};
use crate::row_reader::chrono_timestamp_valid;
use crate::reports::same_text;
use crate::text::{contains_seq, contains_text, decimal, push_str, u64_to_decimal};
use vstd::prelude::*;

verus! {

/// Issue state: open or closed.
#[derive(Debug, Clone, Copy, PartialEq, Eq, Structural)]
pub enum IssueState {
    Open,
    Closed,
}

/// The counts a hosting service reports for a repository.
#[derive(Debug, Clone, Copy)]
pub struct Repository {
    pub stargazers_count: Option<u32>,
    pub forks_count: Option<u32>,
    pub subscribers_count: Option<i64>,
    /// Some services report watchers in place of subscribers.
    pub watchers_count: Option<i64>,
}

/// A repository's star, fork and subscriber counts.
#[derive(Debug, Clone, Copy)]
pub struct RepositoryCounts {
    pub stars: u64,
    pub forks: u64,
    pub subscribers: u64,
}

/// The counts of a repository: missing counts are zero, and subscribers come
/// from the watchers count where the service reports that instead; a
/// negative subscriber count is zero.
pub fn repository_counts(repo: &Repository, use_watchers_for_subscribers: bool) -> (r: RepositoryCounts)
    ensures
        r.stars == match repo.stargazers_count { Some(n) => n as u64, None => 0 },
        r.forks == match repo.forks_count { Some(n) => n as u64, None => 0 },
        r.subscribers == match (if use_watchers_for_subscribers { repo.watchers_count } else { repo.subscribers_count }) {
            Some(n) => if n >= 0 { n as u64 } else { 0 },
            None => 0,
        },
{
    let subscribers_source = if use_watchers_for_subscribers { repo.watchers_count } else { repo.subscribers_count };
    let subscribers: u64 = match subscribers_source {
        Some(n) => if n >= 0 { n as u64 } else { 0 },
        None => 0,
    };
    let stars: u64 = match repo.stargazers_count { Some(n) => n as u64, None => 0 };
    let forks: u64 = match repo.forks_count { Some(n) => n as u64, None => 0 };
    RepositoryCounts { stars, forks, subscribers }
}

/// Counts of events in total and within the last 365, 180 and 90 days.
#[derive(Debug, Clone, Copy, Default, PartialEq, Eq, Structural)]
pub struct TimeWindowStats {
    pub total: u64,
    pub last_365_days: u64,
    pub last_180_days: u64,
    pub last_90_days: u64,
}

/// The cut-off instants of the three windows.
#[derive(Debug, Clone, Copy)]
pub struct Cutoffs {
    pub days_90: i128,
    pub days_180: i128,
    pub days_365: i128,
}

/// The counts after one more event at `ts`: it counts in the 365-day window
/// when at or after its cut-off, in the 180-day window when it also is at or
/// after that one, and in the 90-day window when it is after all three.
pub open spec fn counted(s: TimeWindowStats, ts: int, c: Cutoffs) -> TimeWindowStats {
    let in_365 = ts >= c.days_365;
    let in_180 = in_365 && ts >= c.days_180;
    let in_90 = in_180 && ts >= c.days_90;
    TimeWindowStats {
        total: (s.total + 1) as u64,
        last_365_days: if in_365 { (s.last_365_days + 1) as u64 } else { s.last_365_days },
        last_180_days: if in_180 { (s.last_180_days + 1) as u64 } else { s.last_180_days },
        last_90_days: if in_90 { (s.last_90_days + 1) as u64 } else { s.last_90_days },
    }
}

/// Adds one event at `ts` to the window counts.
pub fn increment_window(stats: &mut TimeWindowStats, ts: i128, cutoffs: Cutoffs)
    requires
        old(stats).total < u64::MAX,
        old(stats).last_365_days <= old(stats).total,
        old(stats).last_180_days <= old(stats).total,
        old(stats).last_90_days <= old(stats).total,
    ensures
        *final(stats) == counted(*old(stats), ts as int, cutoffs),
{
    stats.total = stats.total + 1;
    if ts >= cutoffs.days_365 {
        stats.last_365_days = stats.last_365_days + 1;
        if ts >= cutoffs.days_180 {
            stats.last_180_days = stats.last_180_days + 1;
            if ts >= cutoffs.days_90 {
                stats.last_90_days = stats.last_90_days + 1;
            }
        }
    }
}

/// The window counts of a sequence of event instants.
pub open spec fn window_stats(ts: Seq<int>, c: Cutoffs) -> TimeWindowStats
    decreases ts.len(),
{
    if ts.len() == 0 {
        TimeWindowStats { total: 0, last_365_days: 0, last_180_days: 0, last_90_days: 0 }
    } else {
        counted(window_stats(ts.drop_last(), c), ts.last(), c)
    }
}

/// Each window count is at most the total, and the total is the number of
/// events.
proof fn lemma_window_bounds(ts: Seq<int>, c: Cutoffs)
    requires
        ts.len() <= u64::MAX,
    ensures
        window_stats(ts, c).total == ts.len(),
        window_stats(ts, c).last_365_days <= window_stats(ts, c).total,
        window_stats(ts, c).last_180_days <= window_stats(ts, c).total,
        window_stats(ts, c).last_90_days <= window_stats(ts, c).total,
    decreases ts.len(),
{
    if ts.len() > 0 {
        lemma_window_bounds(ts.drop_last(), c);
    }
}

/// The window counts of the event instants.
pub fn window_counts(ts: &Vec<i128>, cutoffs: Cutoffs) -> (r: TimeWindowStats)
    requires
        ts@.len() <= u64::MAX,
    ensures
        r == window_stats(ts@.map_values(|t: i128| t as int), cutoffs),
{
    let ghost tv = ts@.map_values(|t: i128| t as int);
    let mut stats = TimeWindowStats { total: 0, last_365_days: 0, last_180_days: 0, last_90_days: 0 };
    let mut i: usize = 0;
    while i < ts.len()
        invariant
            i <= ts@.len(),
            ts@.len() <= u64::MAX,
            tv == ts@.map_values(|t: i128| t as int),
            stats == window_stats(tv.take(i as int), cutoffs),
        decreases ts@.len() - i,
    {
        proof {
            lemma_window_bounds(tv.take(i as int), cutoffs);
            assert(tv.take(i + 1).drop_last() =~= tv.take(i as int));
        }
        increment_window(&mut stats, ts[i], cutoffs);
        i = i + 1;
    }
    assert(tv.take(ts@.len() as int) =~= tv);
    stats
}

/// Marks an issue as a pull request; `merged_at` is set when it was merged.
#[derive(Debug, Clone, Copy)]
pub struct PullRequestMarker {
    pub merged_at: Option<i128>,
}

/// The issue or pull request fields the statistics use.
#[derive(Debug, Clone, Copy)]
pub struct Issue {
    pub created_at: i128,
    pub closed_at: Option<i128>,
    pub state: IssueState,
    pub pull_request: Option<PullRequestMarker>,
}

/// Instants within the range `chrono` can represent, with room to spare.
pub open spec fn in_time_range(t: int) -> bool {
    -0x1_0000_0000_0000_0000_0000 < t < 0x1_0000_0000_0000_0000_0000
}

/// All the instants of an issue are in range.
pub open spec fn issue_in_range(i: Issue) -> bool {
    &&& in_time_range(i.created_at as int)
    &&& (i.closed_at matches Some(c) ==> in_time_range(c as int))
    &&& (i.pull_request matches Some(p) ==> (p.merged_at matches Some(m) ==> in_time_range(m as int)))
}

/// An instant of an issue that the statistics select.
#[derive(Debug, Clone, Copy, PartialEq, Eq, Structural)]
pub enum Event {
    /// Creation of an issue that is not a pull request.
    IssueOpened,
    /// Closing of an issue that is not a pull request.
    IssueClosed,
    /// Creation of a pull request.
    PrOpened,
    /// Closing of a pull request.
    PrClosed,
    /// Merging of a pull request.
    PrMerged,
}

/// The instant of the event in `i`, when `i` has it.
pub open spec fn event_of(i: Issue, e: Event) -> Option<int> {
    let is_pr = i.pull_request is Some;
    match e {
        Event::IssueOpened => if !is_pr { Some(i.created_at as int) } else { None },
        Event::IssueClosed => if !is_pr { match i.closed_at { Some(c) => Some(c as int), None => None } } else { None },
        Event::PrOpened => if is_pr { Some(i.created_at as int) } else { None },
        Event::PrClosed => if is_pr { match i.closed_at { Some(c) => Some(c as int), None => None } } else { None },
        Event::PrMerged => match i.pull_request {
            Some(p) => match p.merged_at { Some(m) => Some(m as int), None => None },
            None => None,
        },
    }
}

/// The instants of an event over the issues, in order.
pub open spec fn events(issues: Seq<Issue>, e: Event) -> Seq<int>
    decreases issues.len(),
{
    if issues.len() == 0 {
        Seq::empty()
    } else {
        match event_of(issues.last(), e) {
            Some(t) => events(issues.drop_last(), e).push(t),
            None => events(issues.drop_last(), e),
        }
    }
}

/// Collects the instants of an event over the issues, in order.
fn collect_events(issues: &[Issue], e: Event) -> (r: Vec<i128>)
    ensures
        r@.map_values(|t: i128| t as int) == events(issues@, e),
        r@.len() <= issues@.len(),
{
    let mut out: Vec<i128> = Vec::new();
    let mut i: usize = 0;
    while i < issues.len()
        invariant
            i <= issues@.len(),
            out@.len() <= i,
            out@.map_values(|t: i128| t as int) == events(issues@.take(i as int), e),
        decreases issues@.len() - i,
    {
        let issue = &issues[i];
        let is_pr = issue.pull_request.is_some();
        let picked: Option<i128> = match e {
            Event::IssueOpened => if !is_pr { Some(issue.created_at) } else { None },
            Event::IssueClosed => if !is_pr { issue.closed_at } else { None },
            Event::PrOpened => if is_pr { Some(issue.created_at) } else { None },
            Event::PrClosed => if is_pr { issue.closed_at } else { None },
            Event::PrMerged => match issue.pull_request {
                Some(p) => p.merged_at,
                None => None,
            },
        };
        let ghost before = out@;
        match picked {
            Some(t) => out.push(t),
            None => {},
        }
        proof {
            assert(issues@.take(i + 1).drop_last() =~= issues@.take(i as int));
            assert(issues@.take(i + 1).last() == *issue);
            if picked is Some {
                assert(out@.map_values(|t: i128| t as int) =~= before.map_values(|t: i128| t as int).push(picked->0 as int));
            }
        }
        i = i + 1;
    }
    assert(issues@.take(issues@.len() as int) =~= issues@);
    out
}

/// An age the statistics select: the age of an open issue or pull request,
/// of a closed issue, or of a merged pull request, the last two optionally
/// only where the closing or merging is at or after a cut-off.
#[derive(Debug, Clone, Copy, PartialEq, Eq, Structural)]
pub enum AgeOf {
    /// Open issues, from creation to now.
    OpenIssue,
    /// Open pull requests, from creation to now.
    OpenPr,
    /// Closed issues, from creation to closing.
    ClosedIssue,
    /// Pull requests (open or closed as given), from creation to merging.
    MergedPr(IssueState),
}

/// The age in `i` that `a` selects (whole seconds), when `i` has it and the
/// instant it ends at is at or after `since`.
pub open spec fn age_of(i: Issue, a: AgeOf, now: int, since: Option<int>) -> Option<int> {
    let is_pr = i.pull_request is Some;
    let is_open = i.state == IssueState::Open;
    let after = |t: int| match since { Some(c) => t >= c, None => true };
    match a {
        AgeOf::OpenIssue => if !is_pr && is_open { Some(whole_seconds(now - i.created_at)) } else { None },
        AgeOf::OpenPr => if is_pr && is_open { Some(whole_seconds(now - i.created_at)) } else { None },
        AgeOf::ClosedIssue => if !is_pr && !is_open {
            match i.closed_at {
                Some(c) => if after(c as int) { Some(whole_seconds(c - i.created_at)) } else { None },
                None => None,
            }
        } else {
            None
        },
        AgeOf::MergedPr(state) => match i.pull_request {
            Some(p) => if i.state == state {
                match p.merged_at {
                    Some(m) => if after(m as int) { Some(whole_seconds(m - i.created_at)) } else { None },
                    None => None,
                }
            } else {
                None
            },
            None => None,
        },
    }
}

/// The ages that `a` selects over the issues, in order.
pub open spec fn ages(issues: Seq<Issue>, a: AgeOf, now: int, since: Option<int>) -> Seq<int>
    decreases issues.len(),
{
    if issues.len() == 0 {
        Seq::empty()
    } else {
        match age_of(issues.last(), a, now, since) {
            Some(t) => ages(issues.drop_last(), a, now, since).push(t),
            None => ages(issues.drop_last(), a, now, since),
        }
    }
}

/// The whole seconds of a span of nanoseconds, truncated toward zero.
fn span_seconds(span: i128) -> (r: i64)
    requires
        -0x2_0000_0000_0000_0000_0000 < span < 0x2_0000_0000_0000_0000_0000,
    ensures
        r == whole_seconds(span as int),
{
    let s: i128 = if span >= 0 { span / NANOS_PER_SECOND } else { -((-span) / NANOS_PER_SECOND) };
    s as i64
}

/// The time from an issue's creation to its closing, in whole seconds, when
/// it was closed.
pub fn closed_age_seconds(issue: &Issue) -> (r: Option<i64>)
    requires
        issue_in_range(*issue),
    ensures
        r == match issue.closed_at {
            Some(c) => Some(whole_seconds(c - issue.created_at) as i64),
            None => None::<i64>,
        },
        r matches Some(v) ==> v == whole_seconds(issue.closed_at->0 - issue.created_at),
{
    match issue.closed_at {
        Some(c) => Some(span_seconds(c - issue.created_at)),
        None => None,
    }
}

/// The time from a pull request's creation to its merging, in whole
/// seconds, when it is a merged pull request.
pub fn merged_pr_age_seconds(issue: &Issue) -> (r: Option<i64>)
    requires
        issue_in_range(*issue),
    ensures
        r == match issue.pull_request {
            Some(p) => match p.merged_at {
                Some(m) => Some(whole_seconds(m - issue.created_at) as i64),
                None => None::<i64>,
            },
            None => None::<i64>,
        },
        r matches Some(v) ==> v == whole_seconds(issue.pull_request->0.merged_at->0 - issue.created_at),
{
    match issue.pull_request {
        Some(p) => match p.merged_at {
            Some(m) => Some(span_seconds(m - issue.created_at)),
            None => None,
        },
        None => None,
    }
}

/// Collects the ages that `a` selects over the issues, in order.
fn collect_ages(issues: &[Issue], a: AgeOf, now: i128, since: Option<i128>) -> (r: Vec<i64>)
    requires
        in_time_range(now as int),
        forall|k: int| 0 <= k < issues@.len() ==> issue_in_range(#[trigger] issues@[k]),
    ensures
        r@.map_values(|t: i64| t as int) == ages(issues@, a, now as int, match since { Some(c) => Some(c as int), None => None }),
{
    let ghost sv = match since { Some(c) => Some(c as int), None => None::<int> };
    let mut out: Vec<i64> = Vec::new();
    let mut i: usize = 0;
    while i < issues.len()
        invariant
            i <= issues@.len(),
            in_time_range(now as int),
            forall|k: int| 0 <= k < issues@.len() ==> issue_in_range(#[trigger] issues@[k]),
            sv == match since { Some(c) => Some(c as int), None => None::<int> },
            out@.map_values(|t: i64| t as int) == ages(issues@.take(i as int), a, now as int, sv),
        decreases issues@.len() - i,
    {
        let issue = &issues[i];
        assert(issue_in_range(issues@[i as int]));
        let is_pr = issue.pull_request.is_some();
        let is_open = issue.state == IssueState::Open;
        let picked: Option<i64> = match a {
            AgeOf::OpenIssue => if !is_pr && is_open { Some(span_seconds(now - issue.created_at)) } else { None },
            AgeOf::OpenPr => if is_pr && is_open { Some(span_seconds(now - issue.created_at)) } else { None },
            AgeOf::ClosedIssue => if !is_pr && !is_open {
                match issue.closed_at {
                    Some(c) => {
                        let after = match since { Some(cut) => c >= cut, None => true };
                        if after { Some(span_seconds(c - issue.created_at)) } else { None }
                    },
                    None => None,
                }
            } else {
                None
            },
            AgeOf::MergedPr(state) => match issue.pull_request {
                Some(p) => if issue.state == state {
                    match p.merged_at {
                        Some(m) => {
                            let after = match since { Some(cut) => m >= cut, None => true };
                            if after { Some(span_seconds(m - issue.created_at)) } else { None }
                        },
                        None => None,
                    }
                } else {
                    None
                },
                None => None,
            },
        };
        let ghost before = out@;
        match picked {
            Some(t) => out.push(t),
            None => {},
        }
        proof {
            assert(issues@.take(i + 1).drop_last() =~= issues@.take(i as int));
            assert(issues@.take(i + 1).last() == *issue);
            assert(picked matches Some(t) ==> age_of(*issue, a, now as int, sv) == Some(t as int));
            assert(picked is None ==> age_of(*issue, a, now as int, sv) is None);
            if picked is Some {
                assert(out@.map_values(|t: i64| t as int) =~= before.map_values(|t: i64| t as int).push(picked->0 as int));
            }
        }
        i = i + 1;
    }
    assert(issues@.take(issues@.len() as int) =~= issues@);
    out
}

/// The issue and pull-request statistics that are whole numbers: counts,
/// window counts, and the ages (whole seconds) from which the age statistics
/// are computed.
pub struct IssueAndPullCounts {
    pub open_issues: u64,
    pub open_prs: u64,
    pub issues_opened: TimeWindowStats,
    pub issues_closed: TimeWindowStats,
    pub prs_opened: TimeWindowStats,
    pub prs_merged: TimeWindowStats,
    pub prs_closed: TimeWindowStats,
    pub open_issue_ages: Vec<i64>,
    pub open_pr_ages: Vec<i64>,
    pub closed_issue_ages: Vec<i64>,
    pub closed_issue_ages_last_90_days: Vec<i64>,
    pub closed_issue_ages_last_180_days: Vec<i64>,
    pub closed_issue_ages_last_365_days: Vec<i64>,
    pub merged_pr_ages: Vec<i64>,
    pub merged_pr_ages_last_90_days: Vec<i64>,
    pub merged_pr_ages_last_180_days: Vec<i64>,
    pub merged_pr_ages_last_365_days: Vec<i64>,
}

/// The number of seconds in a day.
pub const SECONDS_PER_DAY: i128 = 86400;

/// The cut-offs `days` days before `now`.
pub open spec fn cutoffs_at(now: int) -> Cutoffs {
    Cutoffs {
        days_90: (now - 90 * SECONDS_PER_DAY * NANOS_PER_SECOND) as i128,
        days_180: (now - 180 * SECONDS_PER_DAY * NANOS_PER_SECOND) as i128,
        days_365: (now - 365 * SECONDS_PER_DAY * NANOS_PER_SECOND) as i128,
    }
}

/// The view of a list of ages.
pub open spec fn age_values(v: Vec<i64>) -> Seq<int> {
    v@.map_values(|t: i64| t as int)
}

/// The ages of the merged pull requests, those still open first, ending at
/// or after `since` when given.
pub open spec fn merged_ages(issues: Seq<Issue>, now: int, since: Option<int>) -> Seq<int> {
    ages(issues, AgeOf::MergedPr(IssueState::Open), now, since) + ages(issues, AgeOf::MergedPr(IssueState::Closed), now, since)
}

/// Computes the issue and pull-request statistics at `now`: open counts,
/// window counts of openings, closings and mergings, and the ages of open,
/// closed and merged items, each also restricted to the windows. Merged
/// pull requests are listed with the open ones first.
pub fn compute_all_stats(all_issues: &[Issue], now: i128) -> (r: IssueAndPullCounts)
    requires
        in_time_range(now as int),
        forall|k: int| 0 <= k < all_issues@.len() ==> issue_in_range(#[trigger] all_issues@[k]),
    ensures
        ({
            let s = all_issues@;
            let n = now as int;
            let c = cutoffs_at(n);
            &&& r.open_issues == ages(s, AgeOf::OpenIssue, n, None).len()
            &&& r.open_prs == ages(s, AgeOf::OpenPr, n, None).len()
            &&& r.issues_opened == window_stats(events(s, Event::IssueOpened), c)
            &&& r.issues_closed == window_stats(events(s, Event::IssueClosed), c)
            &&& r.prs_opened == window_stats(events(s, Event::PrOpened), c)
            &&& r.prs_closed == window_stats(events(s, Event::PrClosed), c)
            &&& r.prs_merged == window_stats(events(s, Event::PrMerged), c)
            &&& age_values(r.open_issue_ages) == ages(s, AgeOf::OpenIssue, n, None)
            &&& age_values(r.open_pr_ages) == ages(s, AgeOf::OpenPr, n, None)
            &&& age_values(r.closed_issue_ages) == ages(s, AgeOf::ClosedIssue, n, None)
            &&& age_values(r.closed_issue_ages_last_90_days) == ages(s, AgeOf::ClosedIssue, n, Some(c.days_90 as int))
            &&& age_values(r.closed_issue_ages_last_180_days) == ages(s, AgeOf::ClosedIssue, n, Some(c.days_180 as int))
            &&& age_values(r.closed_issue_ages_last_365_days) == ages(s, AgeOf::ClosedIssue, n, Some(c.days_365 as int))
            &&& age_values(r.merged_pr_ages) == merged_ages(s, n, None)
            &&& age_values(r.merged_pr_ages_last_90_days) == merged_ages(s, n, Some(c.days_90 as int))
            &&& age_values(r.merged_pr_ages_last_180_days) == merged_ages(s, n, Some(c.days_180 as int))
            &&& age_values(r.merged_pr_ages_last_365_days) == merged_ages(s, n, Some(c.days_365 as int))
        }),
{
    let n_issues = all_issues.len();
    assert(all_issues@.len() <= u64::MAX);
    let day: i128 = SECONDS_PER_DAY * NANOS_PER_SECOND;
    let cutoffs = Cutoffs { days_90: now - 90 * day, days_180: now - 180 * day, days_365: now - 365 * day };
    let issue_opened = collect_events(all_issues, Event::IssueOpened);
    let issue_closed = collect_events(all_issues, Event::IssueClosed);
    let pr_opened = collect_events(all_issues, Event::PrOpened);
    let pr_closed = collect_events(all_issues, Event::PrClosed);
    let pr_merged = collect_events(all_issues, Event::PrMerged);
    let open_issue_ages = collect_ages(all_issues, AgeOf::OpenIssue, now, None);
    let open_pr_ages = collect_ages(all_issues, AgeOf::OpenPr, now, None);
    let merged = |since: Option<i128>| -> (v: Vec<i64>)
        requires
            in_time_range(now as int),
            forall|k: int| 0 <= k < all_issues@.len() ==> issue_in_range(#[trigger] all_issues@[k]),
        ensures
            age_values(v) == merged_ages(all_issues@, now as int, match since { Some(c) => Some(c as int), None => None }),
    {
        let mut open = collect_ages(all_issues, AgeOf::MergedPr(IssueState::Open), now, since);
        let mut closed = collect_ages(all_issues, AgeOf::MergedPr(IssueState::Closed), now, since);
        let ghost a = open@;
        let ghost b = closed@;
        open.append(&mut closed);
        assert(open@ =~= a + b);
        assert(age_values(open) =~= a.map_values(|t: i64| t as int) + b.map_values(|t: i64| t as int));
        open
    };
    let r = IssueAndPullCounts {
        open_issues: open_issue_ages.len() as u64,
        open_prs: open_pr_ages.len() as u64,
        issues_opened: window_counts(&issue_opened, cutoffs),
        issues_closed: window_counts(&issue_closed, cutoffs),
        prs_opened: window_counts(&pr_opened, cutoffs),
        prs_merged: window_counts(&pr_merged, cutoffs),
        prs_closed: window_counts(&pr_closed, cutoffs),
        open_issue_ages,
        open_pr_ages,
        closed_issue_ages: collect_ages(all_issues, AgeOf::ClosedIssue, now, None),
        closed_issue_ages_last_90_days: collect_ages(all_issues, AgeOf::ClosedIssue, now, Some(cutoffs.days_90)),
        closed_issue_ages_last_180_days: collect_ages(all_issues, AgeOf::ClosedIssue, now, Some(cutoffs.days_180)),
        closed_issue_ages_last_365_days: collect_ages(all_issues, AgeOf::ClosedIssue, now, Some(cutoffs.days_365)),
        merged_pr_ages: merged(None),
        merged_pr_ages_last_90_days: merged(Some(cutoffs.days_90)),
        merged_pr_ages_last_180_days: merged(Some(cutoffs.days_180)),
        merged_pr_ages_last_365_days: merged(Some(cutoffs.days_365)),
    };
    r
}

/// The average and percentiles of a set of ages, in whole days.
#[derive(Debug, Clone, Copy, PartialEq, Eq, Structural)]
pub struct AgeStats {
    pub avg: u32,
    pub p50: u32,
    pub p75: u32,
    pub p90: u32,
    pub p95: u32,
}

impl Default for AgeStats {
    /// The statistics of no ages: all zero.
    fn default() -> (r: AgeStats)
        ensures
            r == (AgeStats { avg: 0, p50: 0, p75: 0, p90: 0, p95: 0 }),
    {
        AgeStats { avg: 0, p50: 0, p75: 0, p90: 0, p95: 0 }
    }
}

/// Counts and ages of open and closed items of one kind.
#[derive(Debug, Clone, Copy)]
pub struct IssueStats {
    pub open_count: u64,
    pub closed_count: u64,
    pub open_age: AgeStats,
    pub closed_age: AgeStats,
}

/// Everything the hosting service tells of a repository: its counts, and
/// the activity of its issues and pull requests.
#[derive(Debug, Clone, Copy)]
pub struct HostingData {
    pub stars: u64,
    pub forks: u64,
    pub subscribers: u64,
    pub open_issues: u64,
    pub open_issue_age: AgeStats,
    pub issues_opened: TimeWindowStats,
    pub issues_closed: TimeWindowStats,
    pub closed_issue_age: AgeStats,
    pub closed_issue_age_last_90_days: AgeStats,
    pub closed_issue_age_last_180_days: AgeStats,
    pub closed_issue_age_last_365_days: AgeStats,
    pub open_prs: u64,
    pub open_pr_age: AgeStats,
    pub prs_opened: TimeWindowStats,
    pub prs_merged: TimeWindowStats,
    pub prs_closed: TimeWindowStats,
    pub merged_pr_age: AgeStats,
    pub merged_pr_age_last_90_days: AgeStats,
    pub merged_pr_age_last_180_days: AgeStats,
    pub merged_pr_age_last_365_days: AgeStats,
}

/// The hosting data of a repository from its counts, the issue and
/// pull-request statistics, and the age statistics of the ten age lists
/// of `stats`, given in the order in which `IssueAndPullCounts` declares them
/// (open issues, open pull requests, closed issues in all time and in the
/// last 90, 180 and 365 days, merged pull requests likewise).
pub fn hosting_data(counts: RepositoryCounts, stats: &IssueAndPullCounts, ages: [AgeStats; 10]) -> (r: HostingData)
    ensures
        r.stars == counts.stars,
        r.forks == counts.forks,
        r.subscribers == counts.subscribers,
        r.open_issues == stats.open_issues,
        r.open_prs == stats.open_prs,
        r.issues_opened == stats.issues_opened,
        r.issues_closed == stats.issues_closed,
        r.prs_opened == stats.prs_opened,
        r.prs_merged == stats.prs_merged,
        r.prs_closed == stats.prs_closed,
        r.open_issue_age == ages@[0],
        r.open_pr_age == ages@[1],
        r.closed_issue_age == ages@[2],
        r.closed_issue_age_last_90_days == ages@[3],
        r.closed_issue_age_last_180_days == ages@[4],
        r.closed_issue_age_last_365_days == ages@[5],
        r.merged_pr_age == ages@[6],
        r.merged_pr_age_last_90_days == ages@[7],
        r.merged_pr_age_last_180_days == ages@[8],
        r.merged_pr_age_last_365_days == ages@[9],
{
    HostingData {
        stars: counts.stars,
        forks: counts.forks,
        subscribers: counts.subscribers,
        open_issues: stats.open_issues,
        open_issue_age: ages[0],
        issues_opened: stats.issues_opened,
        issues_closed: stats.issues_closed,
        closed_issue_age: ages[2],
        closed_issue_age_last_90_days: ages[3],
        closed_issue_age_last_180_days: ages[4],
        closed_issue_age_last_365_days: ages[5],
        open_prs: stats.open_prs,
        open_pr_age: ages[1],
        prs_opened: stats.prs_opened,
        prs_merged: stats.prs_merged,
        prs_closed: stats.prs_closed,
        merged_pr_age: ages[6],
        merged_pr_age_last_90_days: ages[7],
        merged_pr_age_last_180_days: ages[8],
        merged_pr_age_last_365_days: ages[9],
    }
}

/// The rate limit a hosting service reports: requests left and when the
/// limit resets.
#[derive(Debug, Clone, Copy, PartialEq, Eq, Structural)]
pub struct RateLimitInfo {
    pub remaining: usize,
    /// Nanoseconds since the epoch.
    pub reset_at: i128,
}

/// The rate limit that the `x-ratelimit-remaining` and `x-ratelimit-reset`
/// header values give: a count and a Unix time in seconds that `chrono`
/// represents.
pub open spec fn header_rate_limit(remaining: Option<Seq<char>>, reset: Option<Seq<char>>) -> Option<RateLimitInfo> {
    match (remaining, reset) {
        (Some(a), Some(b)) => match (parse_unsigned(a, usize::MAX as int), parse_signed(b)) {
            (Some(n), Some(t)) => if chrono_timestamp_valid(t as i64) {
                Some(RateLimitInfo { remaining: n as usize, reset_at: (t * NANOS_PER_SECOND) as i128 })
            } else {
                None
            },
            _ => None,
        },
        _ => None,
    }
}

/// Reads the rate limit from the text of the two rate-limit headers (absent
/// when a header is missing or not text).
pub fn rate_limit_from_headers(remaining: Option<&str>, reset: Option<&str>) -> (r: Option<RateLimitInfo>)
    ensures
        r == header_rate_limit(
            match remaining { Some(a) => Some(a@), None => None::<Seq<char>> },
            match reset { Some(b) => Some(b@), None => None::<Seq<char>> },
        ),
{
    let a = match remaining {
        Some(a) => a,
        None => return None,
    };
    let b = match reset {
        Some(b) => b,
        None => return None,
    };
    let ac = crate::text::chars_of(a);
    let bc = crate::text::chars_of(b);
    let n = match parse_unsigned_chars(&ac, usize::MAX as u64) {
        Some(n) => n,
        None => return None,
    };
    let t = match parse_signed_chars(&bc) {
        Some(t) => t,
        None => return None,
    };
    if !crate::row_reader::timestamp_valid(t) {
        return None;
    }
    Some(RateLimitInfo { remaining: n as usize, reset_at: t as i128 * NANOS_PER_SECOND })
}

/// How a hosting API call went, by its status code.
#[derive(Debug, Clone, Copy, PartialEq, Eq, Structural)]
pub enum ApiStatus {
    /// The request succeeded.
    Success(Option<RateLimitInfo>),
    /// Rate limited: retry after the reset.
    RateLimited(RateLimitInfo),
    /// The resource does not exist.
    NotFound(Option<RateLimitInfo>),
    /// Any other error: do not retry.
    Failed(Option<RateLimitInfo>),
}

/// Classifies a response: success for 2xx; rate limited for 403 and 429
/// (waiting an hour from `now` when the headers give no limit); not found
/// for 404; failed otherwise.
pub fn classify_status(status: u16, rate_limit: Option<RateLimitInfo>, now: i128) -> (r: ApiStatus)
    requires
        in_time_range(now as int),
    ensures
        r == if 200 <= status <= 299 {
            ApiStatus::Success(rate_limit)
        } else if status == 403 || status == 429 {
            ApiStatus::RateLimited(match rate_limit {
                Some(rl) => rl,
                None => RateLimitInfo { remaining: 0, reset_at: (now + 3600 * NANOS_PER_SECOND) as i128 },
            })
        } else if status == 404 {
            ApiStatus::NotFound(rate_limit)
        } else {
            ApiStatus::Failed(rate_limit)
        },
{
    if 200 <= status && status <= 299 {
        ApiStatus::Success(rate_limit)
    } else if status == 403 || status == 429 {
        ApiStatus::RateLimited(match rate_limit {
            Some(rl) => rl,
            None => RateLimitInfo { remaining: 0, reset_at: now + 3600 * NANOS_PER_SECOND },
        })
    } else if status == 404 {
        ApiStatus::NotFound(rate_limit)
    } else {
        ApiStatus::Failed(rate_limit)
    }
}

/// The longest wait for a rate limit to reset, in seconds.
pub const MAX_RATE_LIMIT_WAIT_SECS: i128 = 3600;

/// What to do after an attempt to fetch a repository's data.
#[derive(Debug, Clone, Copy, PartialEq, Eq, Structural)]
pub enum RetryAction {
    /// The attempt is final: count the request as complete.
    Finish,
    /// Pause all requests for this many nanoseconds, then try again.
    PauseThenRetry(i128),
    /// Try again at once.
    Retry,
}

/// The action after an attempt: a rate-limited attempt is retried, after a
/// pause until the reset (at most an hour from now) when that lies ahead;
/// any other attempt is final.
pub open spec fn retry_action(rate_limited: bool, rate_limit: Option<RateLimitInfo>, now: int) -> RetryAction {
    if !rate_limited {
        RetryAction::Finish
    } else {
        match rate_limit {
            Some(rl) => {
                let cap = now + MAX_RATE_LIMIT_WAIT_SECS * NANOS_PER_SECOND;
                let until = if rl.reset_at < cap { rl.reset_at as int } else { cap };
                if until > now {
                    RetryAction::PauseThenRetry((until - now) as i128)
                } else {
                    RetryAction::Retry
                }
            },
            None => RetryAction::Retry,
        }
    }
}

/// Decides what follows an attempt to fetch a repository's data.
pub fn next_retry_action(rate_limited: bool, rate_limit: Option<RateLimitInfo>, now: i128) -> (r: RetryAction)
    requires
        in_time_range(now as int),
        rate_limit matches Some(rl) ==> in_time_range(rl.reset_at as int),
    ensures
        r == retry_action(rate_limited, rate_limit, now as int),
{
    if !rate_limited {
        return RetryAction::Finish;
    }
    match rate_limit {
        Some(rl) => {
            let cap = now + MAX_RATE_LIMIT_WAIT_SECS * NANOS_PER_SECOND;
            let until = if rl.reset_at < cap { rl.reset_at } else { cap };
            if until > now {
                RetryAction::PauseThenRetry(until - now)
            } else {
                RetryAction::Retry
            }
        },
        None => RetryAction::Retry,
    }
}

/// Of the rate limits of a repository's two requests, the one with the
/// fewest requests left (the issues request's on a tie).
pub fn most_conservative(issues: Option<RateLimitInfo>, repo: Option<RateLimitInfo>) -> (r: Option<RateLimitInfo>)
    ensures
        r == match (issues, repo) {
            (Some(a), Some(b)) => if b.remaining < a.remaining { Some(b) } else { Some(a) },
            (Some(a), None) => Some(a),
            (None, b) => b,
        },
{
    match (issues, repo) {
        (Some(a), Some(b)) => if b.remaining < a.remaining { Some(b) } else { Some(a) },
        (Some(a), None) => Some(a),
        (None, b) => b,
    }
}

/// The number of issues asked for per page.
pub const ISSUE_PAGE_SIZE: u8 = 100;

/// The most pages of issues fetched for one repository.
pub const MAX_ISSUE_PAGES: u32 = 10;

/// The address of a repository's resource on a hosting service's API:
/// `{base_url}/repos/{owner}/{repo}{suffix}`.
pub fn repo_url(base_url: &str, owner: &str, repo: &str, suffix: &str) -> (r: String)
    ensures
        r@ == base_url@ + "/repos/"@ + owner@ + "/"@ + repo@ + suffix@,
{
    let mut r = String::new();
    push_str(&mut r, base_url);
    push_str(&mut r, "/repos/");
    push_str(&mut r, owner);
    push_str(&mut r, "/");
    push_str(&mut r, repo);
    push_str(&mut r, suffix);
    r
}

/// The address of one page of a repository's issues and pull requests,
/// all states, updated since `since`, `ISSUE_PAGE_SIZE` per page.
pub fn issues_page_url(base_url: &str, owner: &str, repo: &str, since: &str, page: u32) -> (r: String)
    ensures
        r@ == base_url@ + "/repos/"@ + owner@ + "/"@ + repo@ + "/issues?state=all&since="@ + since@
            + "&per_page="@ + decimal(ISSUE_PAGE_SIZE as nat) + "&page="@ + decimal(page as nat),
{
    let mut r = repo_url(base_url, owner, repo, "/issues?state=all&since=");
    push_str(&mut r, since);
    push_str(&mut r, "&per_page=");
    let size_text = u64_to_decimal(ISSUE_PAGE_SIZE as u64);
    push_str(&mut r, size_text.as_str());
    push_str(&mut r, "&page=");
    let page_text = u64_to_decimal(page as u64);
    push_str(&mut r, page_text.as_str());
    r
}

/// Whether a `Link` header announces a next page: its text holds
/// `rel="next"`. A header that is absent, or not visible ASCII text, is
/// passed as `None`.
pub fn has_next_page(link: Option<&str>) -> (r: bool)
    ensures
        r == match link {
            Some(l) => contains_seq(l@, "rel=\"next\""@),
            None => false,
        },
{
    match link {
        Some(l) => contains_text(l, "rel=\"next\""),
        None => false,
    }
}

/// What to do after a page of issues arrived.
#[derive(Debug, Clone, Copy, PartialEq, Eq, Structural)]
pub enum PageStep {
    /// All pages wanted are in.
    Done,
    /// Another request met the rate limit: stop and report it.
    RateLimited,
    /// Fetch this page next.
    Fetch(u32),
}

/// The step after page `page` arrived with `page_len` issues: an empty page
/// or one without a next page ends the listing; then a paused throttle
/// stops it as rate limited; then the listing ends after the page limit;
/// else the next page follows.
pub fn after_issue_page(page: u32, page_len: usize, has_next: bool, paused: bool) -> (r: PageStep)
    ensures
        r == (if page_len == 0 || !has_next {
            PageStep::Done
        } else if paused {
            PageStep::RateLimited
        } else if page >= MAX_ISSUE_PAGES {
            PageStep::Done
        } else {
            PageStep::Fetch((page + 1) as u32)
        }),
{
    if page_len == 0 || !has_next {
        PageStep::Done
    } else if paused {
        PageStep::RateLimited
    } else if page >= MAX_ISSUE_PAGES {
        PageStep::Done
    } else {
        PageStep::Fetch(page + 1)
    }
}

/// The window counts are nested: events in the last 90 days are among
/// those in the last 180, which are among those in the last 365, which are
/// among all; the total is the number of events.
pub proof fn lemma_window_nested(ts: Seq<int>, c: Cutoffs)
    requires
        ts.len() <= u64::MAX,
    ensures
        window_stats(ts, c).last_90_days <= window_stats(ts, c).last_180_days,
        window_stats(ts, c).last_180_days <= window_stats(ts, c).last_365_days,
        window_stats(ts, c).last_365_days <= window_stats(ts, c).total,
        window_stats(ts, c).total == ts.len(),
    decreases ts.len(),
{
    if ts.len() > 0 {
        lemma_window_nested(ts.drop_last(), c);
    }
}

/// The number of instants among `ts` at or after `cut`.
pub open spec fn at_or_after(ts: Seq<int>, cut: int) -> nat
    decreases ts.len(),
{
    if ts.len() == 0 {
        0
    } else {
        at_or_after(ts.drop_last(), cut) + if ts.last() >= cut { 1nat } else { 0nat }
    }
}

/// One more event counts once in the total, and in a window exactly when
/// it is at or after that window's cut-off (the cut-offs being those of the
/// last 365, 180 and 90 days, each later than the one before): an event
/// before the 90-day cut-off never counts in the 90-day window, nor one
/// before the 180-day cut-off in the 180-day window.
pub proof fn lemma_event_counts_in_its_windows(s: TimeWindowStats, ts: int, c: Cutoffs)
    requires
        c.days_365 <= c.days_180 <= c.days_90,
        s.total < u64::MAX,
        s.last_365_days < u64::MAX,
        s.last_180_days < u64::MAX,
        s.last_90_days < u64::MAX,
    ensures
        counted(s, ts, c).total == s.total + 1,
        counted(s, ts, c).last_365_days == s.last_365_days + (if ts >= c.days_365 { 1int } else { 0int }),
        counted(s, ts, c).last_180_days == s.last_180_days + (if ts >= c.days_180 { 1int } else { 0int }),
        counted(s, ts, c).last_90_days == s.last_90_days + (if ts >= c.days_90 { 1int } else { 0int }),
{
}

/// The window counts of a sequence of events: the total is the number of
/// events, and each window counts exactly the events at or after its
/// cut-off (for cut-offs of the last 365, 180 and 90 days, each later than
/// the one before).
pub proof fn lemma_window_counts(ts: Seq<int>, c: Cutoffs)
    requires
        ts.len() <= u64::MAX,
        c.days_365 <= c.days_180 <= c.days_90,
    ensures
        window_stats(ts, c).total == ts.len(),
        window_stats(ts, c).last_365_days == at_or_after(ts, c.days_365 as int),
        window_stats(ts, c).last_180_days == at_or_after(ts, c.days_180 as int),
        window_stats(ts, c).last_90_days == at_or_after(ts, c.days_90 as int),
    decreases ts.len(),
{
    if ts.len() > 0 {
        lemma_window_counts(ts.drop_last(), c);
        lemma_at_or_after_bound(ts.drop_last(), c.days_90 as int);
        lemma_at_or_after_bound(ts.drop_last(), c.days_180 as int);
        lemma_at_or_after_bound(ts.drop_last(), c.days_365 as int);
    }
}

/// At most every instant is at or after a cut-off.
proof fn lemma_at_or_after_bound(ts: Seq<int>, cut: int)
    ensures
        at_or_after(ts, cut) <= ts.len(),
    decreases ts.len(),
{
    if ts.len() > 0 {
        lemma_at_or_after_bound(ts.drop_last(), cut);
    }
}

/// A hosting provider whose API the hosting data is fetched from.
#[derive(Debug, Clone, Copy)]
pub struct HostingProvider {
    /// The host's domain, as in repository URLs.
    pub host_domain: &'static str,
    /// The base URL of its API.
    pub base_url: &'static str,
    /// Its name in messages.
    pub display_name: &'static str,
    /// Whether its watchers count stands for the subscribers count.
    pub use_watchers_for_subscribers: bool,
}

/// The provider of a host domain: GitHub for `github.com`, Codeberg for
/// `codeberg.org`; any other host is unsupported, with the reason given for
/// its crates.
pub fn supported_host(host_domain: &str) -> (r: Result<HostingProvider, String>)
    ensures
        host_domain@ == "github.com"@ ==> (r matches Ok(h) && h.host_domain@ == "github.com"@
            && h.base_url@ == "https://api.github.com"@ && h.display_name@ == "GitHub"@ && !h.use_watchers_for_subscribers),
        host_domain@ == "codeberg.org"@ ==> (r matches Ok(h) && h.host_domain@ == "codeberg.org"@
            && h.base_url@ == "https://codeberg.org/api/v1"@ && h.display_name@ == "Codeberg"@ && h.use_watchers_for_subscribers),
        host_domain@ != "github.com"@ && host_domain@ != "codeberg.org"@
            ==> (r matches Err(m) && m@ == "unsupported hosting provider: "@ + host_domain@),
{
    proof {
        reveal_strlit("github.com");
        reveal_strlit("codeberg.org");
    }
    if same_text(host_domain, "github.com") {
        Ok(HostingProvider {
            host_domain: "github.com",
            base_url: "https://api.github.com",
            display_name: "GitHub",
            use_watchers_for_subscribers: false,
        })
    } else if same_text(host_domain, "codeberg.org") {
        Ok(HostingProvider {
            host_domain: "codeberg.org",
            base_url: "https://codeberg.org/api/v1",
            display_name: "Codeberg",
            use_watchers_for_subscribers: true,
        })
    } else {
        let mut m = String::new();
        push_str(&mut m, "unsupported hosting provider: ");
        push_str(&mut m, host_domain);
        Err(m)
    }
}

} // verus!
