//! A process-wide latch that disables a backend once it throttles us.
//!
//! The latch is monotonic: once tripped it stays tripped for the life of
//! the process. The first observation that trips it also asks the caller
//! to fire the one-shot user callback.

use vstd::prelude::*;

verus! {

/// The HTTP status the backend answers with when it throttles a caller.
pub const THROTTLED_STATUS: u16 = 429;

pub struct CircuitBreaker {
    tripped: bool,
}

impl CircuitBreaker {
    /// Is the breaker tripped?
    pub closed spec fn is_tripped(self) -> bool {
        self.tripped
    }

    /// A fresh breaker is not tripped.
    pub fn new() -> (r: CircuitBreaker)
        ensures
            !r.is_tripped(),
    {
        CircuitBreaker { tripped: false }
    }

    pub fn tripped(&self) -> (r: bool)
        ensures
            r == self.is_tripped(),
    {
        self.tripped
    }

    /// Observes the status of a backend response. Trips the breaker on a
    /// throttling status; the result says whether the caller must fire the
    /// one-shot callback, which is exactly on the flip from untripped to
    /// tripped.
    pub fn observe(&mut self, status: u16) -> (fire: bool)
        ensures
            final(self).is_tripped() == (old(self).is_tripped() || status == THROTTLED_STATUS),
            fire == (!old(self).is_tripped() && status == THROTTLED_STATUS),
    {
        if status == THROTTLED_STATUS {
            let was = self.tripped;
            self.tripped = true;
            !was
        } else {
            false
        }
    }
}

/// The breaker state after observing a sequence of response statuses.
pub open spec fn breaker_after(init: bool, statuses: Seq<u16>) -> bool
    decreases statuses.len(),
{
    if statuses.len() == 0 {
        init
    } else {
        breaker_after(init, statuses.drop_last()) || statuses.last() == THROTTLED_STATUS
    }
}

/// How many of the observations of `statuses` fire the callback, starting
/// from breaker state `init`.
pub open spec fn fires_in(init: bool, statuses: Seq<u16>) -> nat
    decreases statuses.len(),
{
    if statuses.len() == 0 {
        0
    } else {
        fires_in(init, statuses.drop_last()) + if !breaker_after(init, statuses.drop_last())
            && statuses.last() == THROTTLED_STATUS {
            1nat
        } else {
            0nat
        }
    }
}

/// Tripping is monotonic: once tripped, the breaker stays tripped under
/// any further observations.
pub proof fn lemma_breaker_monotonic(init: bool, statuses: Seq<u16>)
    requires
        init,
    ensures
        breaker_after(init, statuses),
    decreases statuses.len(),
{
    if statuses.len() > 0 {
        lemma_breaker_monotonic(init, statuses.drop_last());
    }
}

/// The one-shot callback fires at most once over any sequence of
/// observations, and never once the breaker is already tripped.
pub proof fn lemma_callback_fires_at_most_once(init: bool, statuses: Seq<u16>)
    ensures
        fires_in(init, statuses) <= 1,
        init ==> fires_in(init, statuses) == 0,
    decreases statuses.len(),
{
    if statuses.len() > 0 {
        lemma_callback_fires_at_most_once(init, statuses.drop_last());
        if init {
            lemma_breaker_monotonic(init, statuses.drop_last());
        }
        if fires_in(init, statuses.drop_last()) >= 1 {
            lemma_fired_means_tripped(init, statuses.drop_last());
        }
    }
}

/// If a fire has happened, the breaker is tripped afterwards.
proof fn lemma_fired_means_tripped(init: bool, statuses: Seq<u16>)
    requires
        fires_in(init, statuses) >= 1,
    ensures
        breaker_after(init, statuses),
    decreases statuses.len(),
{
    if statuses.len() > 0 {
        if !breaker_after(init, statuses.drop_last()) && statuses.last() == THROTTLED_STATUS {
        } else {
            lemma_fired_means_tripped(init, statuses.drop_last());
        }
    }
}

} // verus!
