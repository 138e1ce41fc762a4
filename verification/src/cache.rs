//! Cached documents: a payload that is either data or the reason why there
//! is none, kept with the time it was stored and trusted for a time to live.

use vstd::prelude::*;

verus! {

/// The payload within a cache envelope.
#[derive(Debug, Clone)]
pub enum EnvelopePayload<T> {
    /// Actual cached data.
    Data(T),
    /// Data is not available, with a reason explaining why.
    NoData(String),
}

impl<T> EnvelopePayload<T> {
    /// The data, when this is a `Data` payload.
    pub fn into_data(self) -> (r: Option<T>)
        ensures
            match self {
                EnvelopePayload::Data(d) => r == Some(d),
                EnvelopePayload::NoData(_) => r is None,
            },
    {
        match self {
            EnvelopePayload::Data(data) => Some(data),
            EnvelopePayload::NoData(_) => None,
        }
    }

    /// Whether this is a `NoData` payload.
    pub fn is_no_data(&self) -> (r: bool)
        ensures
            r == self is NoData,
    {
        match self {
            EnvelopePayload::Data(_) => false,
            EnvelopePayload::NoData(_) => true,
        }
    }
}

/// Nanoseconds in a second.
pub const NANOS_PER_SECOND: i128 = 1_000_000_000;

/// The default time to live of cached documents, in seconds: one week.
pub fn default_cache_ttl() -> (r: u64)
    ensures
        r == 7 * 24 * 3600,
{
    7 * 24 * 3600
}

/// The whole seconds of a span of nanoseconds, truncated toward zero.
pub open spec fn whole_seconds(nanos: int) -> int {
    if nanos >= 0 {
        nanos / NANOS_PER_SECOND as int
    } else {
        -((-nanos) / NANOS_PER_SECOND as int)
    }
}

/// Whether a document stored at `stored` (nanoseconds since the epoch) is
/// still fresh at `now` for a time to live of `ttl_secs` seconds and
/// `ttl_nanos` nanoseconds: a document stored in the future is fresh (clock
/// skew); otherwise it is fresh while its age is below the time to live (an
/// age of exactly the time to live is expired).
pub open spec fn is_fresh(stored: int, now: int, ttl_secs: u64, ttl_nanos: u32) -> bool {
    stored > now || now - stored < ttl_secs as int * NANOS_PER_SECOND as int + ttl_nanos as int
}

/// Decides whether a cached document is still fresh (see `is_fresh`).
/// Instants are nanoseconds since the epoch, as `chrono` keeps them.
pub fn cache_is_fresh(stored: i128, now: i128, ttl_secs: u64, ttl_nanos: u32) -> (r: bool)
    requires
        -0x1_0000_0000_0000_0000_0000_0000_0000 < stored < 0x1_0000_0000_0000_0000_0000_0000_0000,
        -0x1_0000_0000_0000_0000_0000_0000_0000 < now < 0x1_0000_0000_0000_0000_0000_0000_0000,
    ensures
        r == is_fresh(stored as int, now as int, ttl_secs, ttl_nanos),
        stored > now ==> r,
{
    if stored > now {
        return true;
    }
    let age: i128 = now - stored;
    let ttl: i128 = ttl_secs as i128 * NANOS_PER_SECOND + ttl_nanos as i128;
    age < ttl
}

/// A document fresh for a time to live is fresh for any longer one.
pub proof fn lemma_fresh_for_longer_ttl(stored: int, now: int, s1: u64, n1: u32, s2: u64, n2: u32)
    requires
        s1 as int * NANOS_PER_SECOND + n1 <= s2 as int * NANOS_PER_SECOND + n2,
        is_fresh(stored, now, s1, n1),
    ensures
        is_fresh(stored, now, s2, n2),
{
}

/// Whether every crate of a repository found a fresh cached document.
pub open spec fn all_cached<T>(cached: Seq<Option<T>>) -> bool {
    forall|i: int| 0 <= i < cached.len() ==> (#[trigger] cached[i]) is Some
}

/// The documents of the crates of a repository, when each has one.
pub open spec fn cached_documents<T>(cached: Seq<Option<T>>) -> Seq<T> {
    cached.map_values(|c: Option<T>| c->0)
}

/// The reuse decision for the crates of one repository: their cached
/// documents, in order, when every crate has a fresh one; nothing when one
/// of them lacks it, and then all the crates of the repository are analyzed
/// again so that they stay consistent.
pub fn reuse_cached<T>(cached: Vec<Option<T>>) -> (r: Option<Vec<T>>)
    ensures
        r is Some <==> all_cached(cached@),
        r matches Some(v) ==> v@ == cached_documents(cached@),
{
    let ghost all = cached@;
    let mut rest = cached;
    let mut found: Vec<T> = Vec::new();
    while rest.len() > 0
        invariant
            all == cached@,
            all.len() == found@.len() + rest@.len(),
            forall|k: int| 0 <= k < rest@.len() ==> rest@[k] == all[found@.len() + k],
            forall|k: int| 0 <= k < found@.len() ==> all[k] == Some(#[trigger] found@[k]),
        decreases rest@.len(),
    {
        let ghost n = found@.len();
        match rest.remove(0) {
            Some(doc) => found.push(doc),
            None => {
                assert(all[n as int] is None);
                return None;
            },
        }
    }
    assert forall|i: int| 0 <= i < all.len() implies (#[trigger] all[i]) is Some by {
        assert(all[i] == Some(found@[i]));
    }
    assert(found@ =~= cached_documents(all));
    Some(found)
}

} // verus!
