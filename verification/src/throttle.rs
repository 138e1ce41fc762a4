//! The pause schedule of the request throttle: any task may pause the
//! dispatch of new work for a while; when several pauses overlap the longest
//! one wins. Instants are nanoseconds on a monotonic clock; the sleeping and
//! waking is done by the caller.

use vstd::prelude::*;

verus! {

/// The least amount, in nanoseconds, by which a new pause must outlast the
/// active one to replace it (one second).
pub const MIN_PAUSE_EXTENSION: u64 = 1_000_000_000;

/// When the active pause ends, if one is active.
#[derive(Debug, Clone, Copy, PartialEq, Eq, Structural)]
pub struct PauseSchedule {
    resume_at: Option<u64>,
}

/// Whether a pause until `until` replaces the active one: it does unless
/// the active pause already lasts, give or take the minimum extension, as
/// long.
pub open spec fn replaces(active: Option<u64>, until: int) -> bool {
    !(active matches Some(e) && e + MIN_PAUSE_EXTENSION >= until)
}

/// The schedule after asking, at `now`, for a pause of `duration`.
pub open spec fn paused_until(active: Option<u64>, now: int, duration: int) -> Option<u64> {
    if replaces(active, now + duration) { Some((now + duration) as u64) } else { active }
}

impl View for PauseSchedule {
    type V = Option<u64>;

    closed spec fn view(&self) -> Option<u64> {
        self.resume_at
    }
}

impl PauseSchedule {
    /// A schedule with no pause.
    pub fn new() -> (r: PauseSchedule)
        ensures
            r@ is None,
    {
        PauseSchedule { resume_at: None }
    }

    /// Whether dispatch is paused.
    pub fn is_paused(&self) -> (r: bool)
        ensures
            r == self@ is Some,
    {
        self.resume_at.is_some()
    }

    /// Asks, at `now`, for a pause of `duration`; returns whether a new pause
    /// was established. An active pause that lasts as long, or less than the
    /// minimum extension shorter, stays and the call does nothing.
    pub fn pause_for(&mut self, now: u64, duration: u64) -> (r: bool)
        requires
            now + duration <= u64::MAX,
        ensures
            r == replaces(old(self)@, now + duration),
            final(self)@ == paused_until(old(self)@, now as int, duration as int),
    {
        let until = now + duration;
        match self.resume_at {
            Some(existing) => {
                if existing as u128 + MIN_PAUSE_EXTENSION as u128 >= until as u128 {
                    return false;
                }
            },
            None => {},
        }
        self.resume_at = Some(until);
        true
    }

    /// Called when a pause's sleep ended, at `now`: when the active pause is
    /// due it ends and dispatch resumes (returns true); a longer pause that
    /// was scheduled since stays.
    pub fn resume_if_due(&mut self, now: u64) -> (r: bool)
        ensures
            r == (old(self)@ matches Some(t) && now >= t),
            final(self)@ == (if r { None } else { old(self)@ }),
    {
        match self.resume_at {
            Some(t) => {
                if now >= t {
                    self.resume_at = None;
                    true
                } else {
                    false
                }
            },
            None => false,
        }
    }
}

/// The longest pause wins: after asking for a pause the schedule is paused
/// at least until the requested end, less the minimum extension, and never
/// ends earlier than it did before.
pub proof fn lemma_longest_pause_wins(active: Option<u64>, now: int, duration: int)
    requires
        0 <= now,
        0 <= duration,
        now + duration <= u64::MAX,
    ensures
        paused_until(active, now, duration) matches Some(t) && t + MIN_PAUSE_EXTENSION >= now + duration,
        active matches Some(e) ==> paused_until(active, now, duration) matches Some(t) && t >= e,
{
}

/// Of two overlapping requests, in either order, the schedule ends up
/// paused at least until the later requested end, less the minimum
/// extension.
pub proof fn lemma_pause_order(active: Option<u64>, now1: int, d1: int, now2: int, d2: int)
    requires
        0 <= now1,
        0 <= d1,
        0 <= now2,
        0 <= d2,
        now1 + d1 <= u64::MAX,
        now2 + d2 <= u64::MAX,
    ensures
        ({
            let after = paused_until(paused_until(active, now1, d1), now2, d2);
            &&& after matches Some(t)
            &&& t + MIN_PAUSE_EXTENSION >= now1 + d1
            &&& t + MIN_PAUSE_EXTENSION >= now2 + d2
        }),
{
    lemma_longest_pause_wins(active, now1, d1);
    lemma_longest_pause_wins(paused_until(active, now1, d1), now2, d2);
}

} // verus!
