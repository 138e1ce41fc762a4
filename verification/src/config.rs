//! Configuration values: durations written in friendly or ISO form, and the
//! allow list of crates exempt from the error exit codes.

use crate::row_reader::StoredVersion;
use vstd::prelude::*;

verus! {

/// The components of a `jiff::Span` as its getters give them: years,
/// months, weeks, days, hours, minutes, seconds, milliseconds, microseconds
/// and nanoseconds.
pub type SpanParts = (i16, i32, i32, i32, i32, i64, i64, i64, i64, i64);

/// What parsing `s` as a `jiff::Span` (ISO 8601 or jiff's friendly format)
/// gives: the components, or the text of the parse error.
pub uninterp spec fn jiff_span(s: Seq<char>) -> Result<(i16, i32, i32, i32, i32, i64, i64, i64, i64, i64), Seq<char>>;

/// Parses a span with `str::parse::<jiff::Span>` and reads its components
/// with the `get_*` methods; on failure keeps the error's text. The contract
/// names the outcome, which depends on the text alone.
#[verifier::external_body]
fn parse_span(s: &str) -> (r: Result<(i16, i32, i32, i32, i32, i64, i64, i64, i64, i64), String>)
    ensures
        match (r, jiff_span(s@)) {
            (Ok(p), Ok(q)) => p == q,
            (Err(e), Err(t)) => e@ == t,
            _ => false,
        },
{
    match s.parse::<jiff::Span>() {
        Ok(span) => Ok((
            span.get_years(),
            span.get_months(),
            span.get_weeks(),
            span.get_days(),
            span.get_hours(),
            span.get_minutes(),
            span.get_seconds(),
            span.get_milliseconds(),
            span.get_microseconds(),
            span.get_nanoseconds(),
        )),
        Err(e) => Err(e.to_string()),
    }
}

pub const NANOS_PER_DAY: i128 = 86_400_000_000_000;

/// The length of a span in nanoseconds, counting a year as 365 days and a
/// month as 30.
pub open spec fn span_nanos(p: SpanParts) -> int {
    p.0 as int * 365 * NANOS_PER_DAY + p.1 as int * 30 * NANOS_PER_DAY + p.2 as int * 7 * NANOS_PER_DAY
        + p.3 as int * NANOS_PER_DAY + p.4 as int * 3_600_000_000_000 + p.5 as int * 60_000_000_000
        + p.6 as int * 1_000_000_000 + p.7 as int * 1_000_000 + p.8 as int * 1_000 + p.9 as int
}

/// The error for a negative span.
pub open spec fn negative_text() -> Seq<char> {
    "duration must not be negative"@
}

/// The error for a span whose seconds do not fit in a `u64`.
pub open spec fn overflow_text() -> Seq<char> {
    "duration overflow"@
}

/// A span as a duration: whole seconds and the nanoseconds beyond them;
/// negative spans and spans too long for the seconds are errors.
pub open spec fn span_duration(p: SpanParts) -> Result<(u64, u32), Seq<char>> {
    let total = span_nanos(p);
    if total < 0 {
        Err(negative_text())
    } else if total / 1_000_000_000 > u64::MAX {
        Err(overflow_text())
    } else {
        Ok(((total / 1_000_000_000) as u64, (total % 1_000_000_000) as u32))
    }
}

/// Converts a span into a duration (whole seconds, nanoseconds).
pub fn span_to_duration(span: SpanParts) -> (r: Result<(u64, u32), String>)
    ensures
        match (r, span_duration(span)) {
            (Ok(d), Ok(e)) => d == e,
            (Err(m), Err(t)) => m@ == t,
            _ => false,
        },
{
    let day: i128 = NANOS_PER_DAY;
    let total: i128 = span.0 as i128 * 365 * day + span.1 as i128 * 30 * day + span.2 as i128 * 7 * day
        + span.3 as i128 * day + span.4 as i128 * 3_600_000_000_000 + span.5 as i128 * 60_000_000_000
        + span.6 as i128 * 1_000_000_000 + span.7 as i128 * 1_000_000 + span.8 as i128 * 1_000 + span.9 as i128;
    if total < 0 {
        proof { reveal_strlit("duration must not be negative"); }
        return Err("duration must not be negative".to_owned());
    }
    let secs: i128 = total / 1_000_000_000;
    let nanos: i128 = total % 1_000_000_000;
    if secs > u64::MAX as i128 {
        proof { reveal_strlit("duration overflow"); }
        return Err("duration overflow".to_owned());
    }
    Ok((secs as u64, nanos as u32))
}

/// The duration a configuration value stands for.
pub open spec fn duration_of(s: Seq<char>) -> Result<(u64, u32), Seq<char>> {
    match jiff_span(s) {
        Ok(p) => span_duration(p),
        Err(e) => Err(e),
    }
}

/// Parses a duration written as a span (`"7d"`, `"1 week"`, `"P1D"`).
pub fn parse_duration(s: &str) -> (r: Result<(u64, u32), String>)
    ensures
        match (r, duration_of(s@)) {
            (Ok(d), Ok(e)) => d == e,
            (Err(m), Err(t)) => m@ == t,
            _ => false,
        },
{
    match parse_span(s) {
        Ok(p) => span_to_duration(p),
        Err(e) => Err(e),
    }
}

/// Whether `semver` reads `req` as a version requirement that the version
/// with these components matches (`VersionReq::matches`); nothing when the
/// requirement does not parse or the components are no version.
pub uninterp spec fn semver_req_matches(req: Seq<char>, v: (u64, u64, u64, Seq<char>, Seq<char>)) -> Option<bool>;

/// Parses a requirement with `VersionReq::parse`, builds the version from
/// its components (`Prerelease::new`, `BuildMetadata::new`) and asks
/// `VersionReq::matches`. The contract names the outcome.
#[verifier::external_body]
fn req_matches(req: &str, v: &StoredVersion) -> (r: Option<bool>)
    ensures
        r == semver_req_matches(req@, v.parts()),
{
    let parsed = semver::VersionReq::parse(req).ok()?;
    let pre = semver::Prerelease::new(&v.pre).ok()?;
    let build = semver::BuildMetadata::new(&v.build).ok()?;
    let version = semver::Version { major: v.major, minor: v.minor, patch: v.patch, pre, build };
    Some(parsed.matches(&version))
}

/// Whether `semver` reads `req` as a version requirement.
pub uninterp spec fn semver_req_parses(req: Seq<char>) -> bool;

/// Checks a requirement with `VersionReq::parse`. The contract names the
/// outcome.
#[verifier::external_body]
fn req_parses(req: &str) -> (r: bool)
    ensures
        r == semver_req_parses(req@),
{
    semver::VersionReq::parse(req).is_ok()
}

/// An entry in the allow list, which exempts matching crate versions from
/// the error exit codes.
pub struct AllowListEntry {
    /// The crate name to allow.
    pub name: String,
    /// A semver version requirement (e.g. `^1.0`, `>=2.0, <3.0`, `=1.2.3`, `*`).
    pub version: String,
}

impl AllowListEntry {
    /// An entry; fails when the requirement does not parse.
    pub fn new(name: String, version: String) -> (r: Option<AllowListEntry>)
        ensures
            r is Some <==> semver_req_parses(version@),
            r matches Some(e) ==> e.name@ == name@ && e.version@ == version@,
    {
        if req_parses(version.as_str()) {
            Some(AllowListEntry { name, version })
        } else {
            None
        }
    }

    /// Whether the entry names this crate and its requirement matches the
    /// version.
    pub open spec fn spec_matches(&self, name: Seq<char>, v: (u64, u64, u64, Seq<char>, Seq<char>)) -> bool {
        self.name@ == name && semver_req_matches(self.version@, v) == Some(true)
    }

    /// Checks whether this entry matches the given crate name and version.
    pub fn matches(&self, name: &str, version: &StoredVersion) -> (r: bool)
        ensures
            r == self.spec_matches(name@, version.parts()),
    {
        let same = self.name.as_str().to_owned() == name.to_owned();
        if !same {
            return false;
        }
        match req_matches(self.version.as_str(), version) {
            Some(b) => b,
            None => false,
        }
    }
}

/// Whether a crate version is on the allow list: some entry matches it.
pub fn is_allowed(allow_list: &[AllowListEntry], name: &str, version: &StoredVersion) -> (r: bool)
    ensures
        r == exists|i: int| 0 <= i < allow_list@.len() && #[trigger] allow_list@[i].spec_matches(name@, version.parts()),
{
    let mut i: usize = 0;
    while i < allow_list.len()
        invariant
            i <= allow_list@.len(),
            forall|j: int| 0 <= j < i ==> !#[trigger] allow_list@[j].spec_matches(name@, version.parts()),
        decreases allow_list@.len() - i,
    {
        if allow_list[i].matches(name, version) {
            return true;
        }
        i = i + 1;
    }
    false
}

} // verus!
