//! Interpretation of the textual cells of the crates.io database dump:
//! booleans, array literals, timestamps, dates, URLs and versions.
//!
//! Timestamps, dates, URLs and versions are parsed by `chrono`, `url` and
//! `semver`; their results are named here and the library's own rules
//! (fallbacks, clamping, the `https://` retry) are stated over those names.

use crate::text::{lemma_split_on_nonempty, split_on};
use vstd::prelude::*;

verus! {

/// The instant, in seconds since the Unix epoch, that `chrono` parses from `s`
/// with the format string `fmt`, if it parses.
pub uninterp spec fn chrono_datetime_from_format(s: Seq<char>, fmt: Seq<char>) -> Option<i64>;

/// The instant, in seconds since the Unix epoch, that `chrono` parses from the
/// RFC 3339 text `s`, if it parses.
pub uninterp spec fn chrono_datetime_from_rfc3339(s: Seq<char>) -> Option<i64>;

/// The day, counted from 1970-01-01, that `chrono` parses from `s` with the
/// format string `fmt`, if it parses.
pub uninterp spec fn chrono_date_from_format(s: Seq<char>, fmt: Seq<char>) -> Option<i32>;

/// Whether `url` accepts `s` as an absolute URL.
pub uninterp spec fn url_parses(s: Seq<char>) -> bool;

/// What `semver` parses from `s`: the major, minor and patch numbers and the
/// pre-release and build texts of the version, or the text of the error.
pub uninterp spec fn semver_parse(s: Seq<char>) -> Result<(u64, u64, u64, Seq<char>, Seq<char>), Seq<char>>;

/// The parts of the version `semver` parses from `s`, if it parses.
pub open spec fn semver_parts(s: Seq<char>) -> Option<(u64, u64, u64, Seq<char>, Seq<char>)> {
    match semver_parse(s) {
        Ok(v) => Some(v),
        Err(_) => None,
    }
}

/// Calls `chrono::DateTime::parse_from_str(s, fmt)` and keeps the parsed
/// instant as seconds since the epoch (`DateTime::timestamp`). The contract
/// names the result and adds that a parsed instant is one `chrono` can
/// represent again from its seconds (a `DateTime` always holds an in-range
/// UTC date and time).
#[verifier::external_body]
fn datetime_from_format(s: &str, fmt: &str) -> (r: Option<i64>)
    ensures
        r == chrono_datetime_from_format(s@, fmt@),
        r matches Some(t) ==> crate::row_reader::chrono_timestamp_valid(t),
{
    match chrono::DateTime::parse_from_str(s, fmt) {
        Ok(d) => Some(d.timestamp()),
        Err(_) => None,
    }
}

/// Calls `chrono::DateTime::parse_from_rfc3339(s)` and keeps the parsed
/// instant as seconds since the epoch. The contract names the result and adds
/// that a parsed instant is one `chrono` can represent again from its seconds.
#[verifier::external_body]
fn datetime_from_rfc3339(s: &str) -> (r: Option<i64>)
    ensures
        r == chrono_datetime_from_rfc3339(s@),
        r matches Some(t) ==> crate::row_reader::chrono_timestamp_valid(t),
{
    match chrono::DateTime::parse_from_rfc3339(s) {
        Ok(d) => Some(d.timestamp()),
        Err(_) => None,
    }
}

/// Calls `chrono::NaiveDate::parse_from_str(s, fmt)` and keeps the parsed
/// date as days since 1970-01-01 (`NaiveDate::to_epoch_days`). The contract
/// only names the result.
#[verifier::external_body]
fn date_from_format(s: &str, fmt: &str) -> (r: Option<i32>)
    ensures
        r == chrono_date_from_format(s@, fmt@),
{
    match chrono::NaiveDate::parse_from_str(s, fmt) {
        Ok(d) => Some(d.to_epoch_days()),
        Err(_) => None,
    }
}

/// Calls `url::Url::parse(s)` and keeps whether it succeeded. The contract
/// only names the result.
#[verifier::external_body]
pub(crate) fn url_is_valid(s: &str) -> (r: bool)
    ensures
        r == url_parses(s@),
{
    url::Url::parse(s).is_ok()
}

/// A parsed version, or an error text, as plain values.
pub open spec fn parsed_version_view(r: Result<(u64, u64, u64, String, String), String>) -> Result<(u64, u64, u64, Seq<char>, Seq<char>), Seq<char>> {
    match r {
        Ok((a, b, c, p, m)) => Ok((a, b, c, p@, m@)),
        Err(e) => Err(e@),
    }
}

/// Calls `semver::Version::parse(s)` and keeps the version's numbers and its
/// pre-release and build texts (`Prerelease::as_str`, `BuildMetadata::as_str`),
/// or the error's text (`Display`). The contract only names the result.
#[verifier::external_body]
pub(crate) fn semver_version_parse(s: &str) -> (r: Result<(u64, u64, u64, String, String), String>)
    ensures
        semver_parse(s@) == parsed_version_view(r),
{
    match semver::Version::parse(s) {
        Ok(v) => Ok((v.major, v.minor, v.patch, v.pre.as_str().to_string(), v.build.as_str().to_string())),
        Err(e) => Err(e.to_string()),
    }
}

/// The `chrono` format of PostgreSQL's text form of a `timestamptz`.
pub open spec fn pg_timestamp_format() -> Seq<char> {
    "%Y-%m-%d %H:%M:%S%.f%#z"@
}

/// The `chrono` format of a `YYYY-MM-DD` date.
pub open spec fn pg_date_format() -> Seq<char> {
    "%Y-%m-%d"@
}

/// The stored form of a timestamp cell: the PostgreSQL form is tried first,
/// then RFC 3339; instants before the epoch are stored as zero.
pub open spec fn pg_timestamp(s: Seq<char>) -> Option<u64> {
    let parsed = match chrono_datetime_from_format(s, pg_timestamp_format()) {
        Some(t) => Some(t),
        None => chrono_datetime_from_rfc3339(s),
    };
    match parsed {
        Some(t) => Some(if t < 0 { 0u64 } else { t as u64 }),
        None => None,
    }
}

/// The stored form of a date cell: days since 1970-01-01, dates before the
/// epoch stored as zero.
pub open spec fn pg_date(s: Seq<char>) -> Option<u64> {
    match chrono_date_from_format(s, pg_date_format()) {
        Some(d) => Some(if d < 0 { 0u64 } else { d as u64 }),
        None => None,
    }
}

/// Parses a timestamp cell into seconds since the epoch, clamped at zero.
pub fn parse_pg_timestamp(s: &str) -> (r: Option<u64>)
    ensures
        r == pg_timestamp(s@),
        r matches Some(t) ==> crate::row_reader::datetime_ok(t),
{
    let parsed = match datetime_from_format(s, "%Y-%m-%d %H:%M:%S%.f%#z") {
        Some(t) => Some(t),
        None => datetime_from_rfc3339(s),
    };
    match parsed {
        Some(t) => Some(if t < 0 { 0u64 } else { t as u64 }),
        None => None,
    }
}

/// Parses a `YYYY-MM-DD` date cell into days since 1970-01-01, clamped at zero.
pub fn parse_pg_date(s: &str) -> (r: Option<u64>)
    ensures
        r == pg_date(s@),
{
    match date_from_format(s, "%Y-%m-%d") {
        Some(d) => Some(if d < 0 { 0u64 } else { d as u64 }),
        None => None,
    }
}

/// The text stored for a URL cell: empty text and valid URLs are kept, a text
/// that becomes valid with `https://` in front is stored with that prefix,
/// anything else is rejected.
pub open spec fn pg_url(s: Seq<char>) -> Option<Seq<char>> {
    if s.len() == 0 || url_parses(s) {
        Some(s)
    } else if url_parses("https://"@ + s) {
        Some("https://"@ + s)
    } else {
        None
    }
}

/// Normalises a URL cell (see `pg_url`).
pub fn normalize_url(s: &str) -> (r: Option<String>)
    ensures
        r matches Some(t) ==> pg_url(s@) == Some(t@),
        r is None ==> pg_url(s@) is None,
{
    if s.is_empty() || url_is_valid(s) {
        return Some(s.to_owned());
    }
    let mut with_https = String::new();
    crate::text::push_str(&mut with_https, "https://");
    crate::text::push_str(&mut with_https, s);
    if url_is_valid(with_https.as_str()) {
        Some(with_https)
    } else {
        None
    }
}

/// The parts of a version cell.
pub open spec fn pg_version(s: Seq<char>) -> Option<(u64, u64, u64, Seq<char>, Seq<char>)> {
    semver_parts(s)
}

/// Parses a version cell into its numbers and its pre-release and build texts.
pub fn parse_version(s: &str) -> (r: Option<(u64, u64, u64, String, String)>)
    ensures
        r matches Some((a, b, c, p, m)) ==> pg_version(s@) == Some((a, b, c, p@, m@)),
        r is None ==> pg_version(s@) is None,
{
    match semver_version_parse(s) {
        Ok(v) => Some(v),
        Err(_) => None,
    }
}

/// The value of a boolean cell: `t` and `true` are true; `f`, `false` and the
/// empty text are false.
pub open spec fn pg_bool(s: Seq<char>) -> Option<bool> {
    if s == seq!['t'] || s == seq!['t', 'r', 'u', 'e'] {
        Some(true)
    } else if s == seq!['f'] || s == seq!['f', 'a', 'l', 's', 'e'] || s.len() == 0 {
        Some(false)
    } else {
        None
    }
}

fn chars_equal(a: &Vec<char>, b: &[char]) -> (r: bool)
    ensures
        r == (a@ == b@),
{
    if a.len() != b.len() {
        return false;
    }
    let mut i: usize = 0;
    while i < a.len()
        invariant
            i <= a.len(),
            a.len() == b.len(),
            forall|k: int| 0 <= k < i ==> a@[k] == b@[k],
        decreases a.len() - i,
    {
        if a[i] != b[i] {
            return false;
        }
        i = i + 1;
    }
    assert(a@ =~= b@);
    true
}

/// Parses a boolean cell (see `pg_bool`).
pub fn parse_pg_bool(s: &str) -> (r: Option<bool>)
    ensures
        r == pg_bool(s@),
{
    let c = crate::text::chars_of(s);
    if chars_equal(&c, &['t']) || chars_equal(&c, &['t', 'r', 'u', 'e']) {
        proof {
            assert(['t']@ =~= seq!['t']);
            assert(['t', 'r', 'u', 'e']@ =~= seq!['t', 'r', 'u', 'e']);
        }
        Some(true)
    } else if chars_equal(&c, &['f']) || chars_equal(&c, &['f', 'a', 'l', 's', 'e']) || c.len() == 0 {
        proof {
            assert(['t']@ =~= seq!['t']);
            assert(['t', 'r', 'u', 'e']@ =~= seq!['t', 'r', 'u', 'e']);
            assert(['f']@ =~= seq!['f']);
            assert(['f', 'a', 'l', 's', 'e']@ =~= seq!['f', 'a', 'l', 's', 'e']);
        }
        Some(false)
    } else {
        proof {
            assert(['t']@ =~= seq!['t']);
            assert(['t', 'r', 'u', 'e']@ =~= seq!['t', 'r', 'u', 'e']);
            assert(['f']@ =~= seq!['f']);
            assert(['f', 'a', 'l', 's', 'e']@ =~= seq!['f', 'a', 'l', 's', 'e']);
        }
        None
    }
}

/// The text between the braces of an array literal `{...}`.
pub open spec fn pg_array_inner(s: Seq<char>) -> Option<Seq<char>> {
    if s.len() >= 2 && s[0] == '{' && s.last() == '}' {
        Some(s.subrange(1, s.len() - 1))
    } else {
        None
    }
}

/// The elements of an array literal: none for `{}`, otherwise the pieces
/// between the commas of the text inside the braces.
pub open spec fn pg_array(s: Seq<char>) -> Option<Seq<Seq<char>>> {
    match pg_array_inner(s) {
        None => None,
        Some(inner) => if inner.len() == 0 {
            Some(Seq::<Seq<char>>::empty())
        } else {
            Some(split_on(inner, ','))
        },
    }
}

/// Builds a `String` from characters (`String::from_iter`).
#[verifier::external_body]
pub(crate) fn string_from_chars(c: &[char]) -> (r: String)
    ensures
        r@ == c@,
{
    c.iter().collect()
}

/// Splits an array literal cell into its elements (see `pg_array`).
pub fn parse_pg_array(s: &str) -> (r: Option<Vec<String>>)
    ensures
        r matches Some(v) ==> pg_array(s@) matches Some(p)
            && v@.len() == p.len()
            && forall|i: int| 0 <= i < p.len() ==> #[trigger] v@[i]@ == p[i],
        r is None ==> pg_array(s@) is None,
{
    let c = crate::text::chars_of(s);
    if !(c.len() >= 2 && c[0] == '{' && c[c.len() - 1] == '}') {
        return None;
    }
    let ghost inner = c@.subrange(1, c.len() - 1);
    let mut pieces: Vec<String> = Vec::new();
    if c.len() == 2 {
        return Some(pieces);
    }
    let mut current: Vec<char> = Vec::new();
    let mut i: usize = 1;
    let end = c.len() - 1;
    while i < end
        invariant
            1 <= i <= end,
            end == c.len() - 1,
            inner == c@.subrange(1, end as int),
            split_on(c@.subrange(1, i as int), ',').len() == pieces@.len() + 1,
            forall|k: int| 0 <= k < pieces@.len() ==>
                #[trigger] pieces@[k]@ == split_on(c@.subrange(1, i as int), ',')[k],
            current@ == split_on(c@.subrange(1, i as int), ',').last(),
        decreases end - i,
    {
        let ghost before = c@.subrange(1, i as int);
        let ghost after = c@.subrange(1, i + 1);
        assert(after.drop_last() =~= before);
        proof { lemma_split_on_nonempty(before, ','); }
        if c[i] == ',' {
            let piece = string_from_chars(current.as_slice());
            pieces.push(piece);
            current = Vec::new();
        } else {
            current.push(c[i]);
        }
        i = i + 1;
    }
    let last = string_from_chars(current.as_slice());
    pieces.push(last);
    proof {
        let whole = c@.subrange(1, end as int);
        assert forall|k: int| 0 <= k < pieces@.len() implies #[trigger] pieces@[k]@ == split_on(whole, ',')[k] by {
        }
    }
    Some(pieces)
}

} // verus!
