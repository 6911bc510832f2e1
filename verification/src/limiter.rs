//! A token-bucket rate limiter: at most `permits` grants per window of
//! `per_ms` milliseconds. One limiter instance is shared by every worker using
//! the layer it sits in; a denied call is meant to suspend and try again, not
//! to fail.

use vstd::prelude::*;
use crate::envelope::{MAX_BACKOFF_BASE_MS, MAX_TIME_MS};

verus! {

/// The limiter: its configuration and the window it is currently counting in.
#[derive(Clone, Copy)]
pub struct RateLimiter {
    /// Grants allowed per window.
    pub permits: u32,
    /// Window length in milliseconds.
    pub per_ms: i64,
    /// When the current window opened.
    pub window_start: i64,
    /// Grants handed out in the current window.
    pub used: u32,
}

impl RateLimiter {
    /// Well-formedness: the configuration is in range and the window count
    /// never exceeds the permit budget.
    pub open spec fn wf(self) -> bool {
        &&& 1 <= self.permits
        &&& 1 <= self.per_ms <= MAX_BACKOFF_BASE_MS
        &&& 0 <= self.window_start <= MAX_TIME_MS
        &&& self.used <= self.permits
    }

    /// A fresh limiter whose first window opened at time zero with no grants.
    pub fn new(permits: u32, per_ms: i64) -> (r: RateLimiter)
        requires
            1 <= permits,
            1 <= per_ms <= MAX_BACKOFF_BASE_MS,
        ensures
            r.wf(),
            r == (RateLimiter { permits, per_ms, window_start: 0, used: 0 }),
    {
        RateLimiter { permits, per_ms, window_start: 0, used: 0 }
    }

    /// What one acquire attempt at time `now` does: once the current window has
    /// elapsed a new one opens at `now` with this grant as its first; inside
    /// the window a grant is handed out while the budget lasts; otherwise the
    /// call is denied and nothing changes.
    pub open spec fn acquire_spec(self, now: i64) -> (RateLimiter, bool) {
        if now >= self.window_start + self.per_ms {
            (RateLimiter { window_start: now, used: 1, ..self }, true)
        } else if self.used < self.permits {
            (RateLimiter { used: (self.used + 1) as u32, ..self }, true)
        } else {
            (self, false)
        }
    }

    /// Tries to take one permit at time `now`; decides exactly `acquire_spec`.
    /// A denial changes nothing and happens only with the window budget spent.
    pub fn try_acquire(&mut self, now: i64) -> (granted: bool)
        requires
            old(self).wf(),
            0 <= now <= MAX_TIME_MS,
        ensures
            final(self).wf(),
            (*final(self), granted) == old(self).acquire_spec(now),
            !granted ==> *final(self) == *old(self) && old(self).used == old(self).permits,
    {
        if now >= self.window_start + self.per_ms {
            self.window_start = now;
            self.used = 1;
            true
        } else if self.used < self.permits {
            self.used = self.used + 1;
            true
        } else {
            false
        }
    }

    /// When the current window closes: the earliest time an acquire is sure to
    /// be granted again. A denied caller waits until then.
    pub fn window_end(&self) -> (r: i64)
        requires
            self.wf(),
        ensures
            r == self.window_start + self.per_ms,
    {
        self.window_start + self.per_ms
    }
}

/// How many of the acquire attempts at the given times are granted, starting
/// from limiter state `st`.
pub open spec fn grants(st: RateLimiter, times: Seq<i64>) -> int
    decreases times.len(),
{
    if times.len() == 0 {
        0
    } else {
        let step = st.acquire_spec(times[0]);
        (if step.1 {
            1int
        } else {
            0int
        }) + grants(step.0, times.subrange(1, times.len() as int))
    }
}

/// The rate limit law: attempts that all fall inside the limiter's current
/// window are granted at most `permits` times in total — however many callers
/// issue them — since each grant spends one permit of the window's budget and
/// a spent budget denies every further call until the window closes.
pub proof fn lemma_window_grants_bounded(st: RateLimiter, times: Seq<i64>)
    requires
        st.wf(),
        forall|i: int|
            0 <= i < times.len() ==> st.window_start <= #[trigger] times[i] < st.window_start
                + st.per_ms,
    ensures
        grants(st, times) + st.used <= st.permits,
    decreases times.len(),
{
    if times.len() > 0 {
        let step = st.acquire_spec(times[0]);
        let rest = times.subrange(1, times.len() as int);
        assert(times[0] < st.window_start + st.per_ms);
        assert forall|i: int|
            0 <= i < rest.len() implies step.0.window_start <= #[trigger] rest[i]
            < step.0.window_start + step.0.per_ms by {
            assert(rest[i] == times[i + 1]);
        }
        lemma_window_grants_bounded(step.0, rest);
    }
}

} // verus!
