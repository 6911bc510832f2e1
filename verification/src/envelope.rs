//! The persisted record of one job instance: its state, scheduling metadata and
//! claim lock, together with the state-machine vocabulary the storage
//! operations are specified with.

use vstd::prelude::*;
use crate::job::Job;

verus! {

/// Latest clock reading (in milliseconds) the engine accepts; keeps every
/// schedule computation far away from `i64` overflow.
pub const MAX_TIME_MS: i64 = 4_000_000_000_000_000;

/// Largest configurable attempt ceiling for one job.
pub const MAX_ATTEMPTS_CEIL: u32 = 1_000_000;

/// Largest configurable retry backoff base (one day, in milliseconds).
pub const MAX_BACKOFF_BASE_MS: i64 = 86_400_000;

/// Largest value `run_at` can take: the latest clock reading plus the largest
/// possible backoff (`MAX_BACKOFF_BASE_MS * MAX_ATTEMPTS_CEIL`).
pub const MAX_RUN_AT_MS: i64 = 4_000_000_000_000_000 + 86_400_000 * 1_000_000;

/// The lifecycle state of a job envelope.
#[derive(Clone, Copy, Debug, PartialEq, Eq, Structural)]
pub enum JobState {
    /// Waiting to be claimed once `run_at` has passed.
    Pending,
    /// Claimed by a worker that holds an active lock on it.
    Running,
    /// Finished successfully; terminal.
    Done,
    /// Recorded as failed by a backend policy; terminal.
    Failed,
    /// Gave up, either on request or after exhausting attempts; terminal.
    Killed,
}

/// Whether a state is terminal: once reached, no storage operation leaves it.
pub open spec fn is_terminal(s: JobState) -> bool {
    s == JobState::Done || s == JobState::Failed || s == JobState::Killed
}

/// The persisted unit: a job payload wrapped with identity, state, scheduling
/// and claim-lock metadata.
#[derive(Debug, PartialEq, Eq)]
pub struct JobEnvelope {
    /// Unique identifier, assigned at enqueue time, immutable thereafter.
    pub id: u64,
    /// Stable name of the job type.
    pub name: String,
    /// Encoded job payload, carried uninterpreted.
    pub payload: String,
    /// Current lifecycle state.
    pub state: JobState,
    /// Timestamp (ms) before which the envelope must not be claimed.
    pub run_at: i64,
    /// Number of execution attempts so far; incremented on each claim.
    pub attempts: u32,
    /// Ceiling on attempts; a failure at the ceiling kills the job.
    pub max_attempts: u32,
    /// Worker currently holding the claim, if any.
    pub lock_by: Option<u64>,
    /// Time (ms) the current claim was taken or last renewed, if any.
    pub lock_at: Option<i64>,
}

impl Clone for JobEnvelope {
    fn clone(&self) -> (res: Self)
        ensures
            res == *self,
    {
        JobEnvelope {
            id: self.id,
            name: self.name.clone(),
            payload: self.payload.clone(),
            state: self.state,
            run_at: self.run_at,
            attempts: self.attempts,
            max_attempts: self.max_attempts,
            lock_by: self.lock_by,
            lock_at: self.lock_at,
        }
    }
}

impl JobEnvelope {
    /// Well-formedness of one envelope: the attempt counter respects its
    /// ceiling, lock fields agree with the state, and every timestamp stays in
    /// the range the engine schedules within.
    pub open spec fn wf(self) -> bool {
        &&& 1 <= self.max_attempts <= MAX_ATTEMPTS_CEIL
        &&& self.attempts <= self.max_attempts
        &&& 0 <= self.run_at <= MAX_RUN_AT_MS
        &&& (self.state == JobState::Pending ==> {
            &&& self.attempts < self.max_attempts
            &&& self.lock_by is None
        })
        &&& (self.state == JobState::Running ==> {
            &&& self.lock_by is Some
            &&& self.lock_at is Some
            &&& self.attempts >= 1
        })
        &&& (self.lock_at is Some ==> 0 <= self.lock_at.unwrap() <= MAX_TIME_MS)
    }

    /// Whether the claim lock has gone stale: taken (or last renewed) at least
    /// `lock_timeout_ms` before `now`.
    pub open spec fn lock_expired(self, now: i64, lock_timeout_ms: i64) -> bool {
        self.lock_at is Some && self.lock_at.unwrap() + lock_timeout_ms <= now
    }

    /// Runtime claim check; decides exactly the spec-level `claimable`.
    pub fn is_claimable(&self, now: i64, lock_timeout_ms: i64) -> (r: bool)
        requires
            self.wf(),
            0 <= now,
            0 <= lock_timeout_ms <= MAX_BACKOFF_BASE_MS,
        ensures
            r == self.claimable(now, lock_timeout_ms),
    {
        if self.run_at <= now {
            match self.state {
                JobState::Pending => true,
                JobState::Running => match self.lock_at {
                    Some(la) => la + lock_timeout_ms <= now && self.attempts < self.max_attempts,
                    None => false,
                },
                _ => false,
            }
        } else {
            false
        }
    }

    /// Whether a worker may claim this envelope at time `now`: it is due
    /// (`run_at <= now`) and is either pending, or running under a lock that
    /// has expired while attempts remain.
    pub open spec fn claimable(self, now: i64, lock_timeout_ms: i64) -> bool {
        &&& self.run_at <= now
        &&& {
            ||| self.state == JobState::Pending
            ||| (self.state == JobState::Running && self.lock_expired(now, lock_timeout_ms)
                && self.attempts < self.max_attempts)
        }
    }
}

/// The envelope `enqueue`/`schedule` persists for `job`: pending, unclaimed,
/// zero attempts, due at `run_at`.
pub open spec fn pending_env(job: Job, id: u64, run_at: i64, max_attempts: u32) -> JobEnvelope {
    JobEnvelope {
        id,
        name: job.name,
        payload: job.payload,
        state: JobState::Pending,
        run_at,
        attempts: 0,
        max_attempts,
        lock_by: None,
        lock_at: None,
    }
}

/// The envelope after `fetch_next` claims `env` for `worker_id` at `now`:
/// running, one more attempt, locked by that worker since `now`.
pub open spec fn claimed_env(env: JobEnvelope, worker_id: u64, now: i64) -> JobEnvelope {
    JobEnvelope {
        state: JobState::Running,
        attempts: (env.attempts + 1) as u32,
        lock_by: Some(worker_id),
        lock_at: Some(now),
        ..env
    }
}

/// The retry backoff: how far past `now` the next attempt of a job with
/// `attempts` finished attempts is scheduled. Linear in the attempt count, so
/// it is monotonically non-decreasing in `attempts`.
pub open spec fn backoff_ms(base: int, attempts: int) -> int {
    base * attempts
}

/// The envelope after `ack`: done, lock released.
pub open spec fn done_env(env: JobEnvelope) -> JobEnvelope {
    JobEnvelope { state: JobState::Done, lock_by: None, lock_at: None, ..env }
}

/// The envelope after `kill`, or after a retry that exhausted the attempt
/// ceiling: killed, lock released.
pub open spec fn killed_env(env: JobEnvelope) -> JobEnvelope {
    JobEnvelope { state: JobState::Killed, lock_by: None, lock_at: None, ..env }
}

/// The envelope after a retry with attempts to spare: pending again, due after
/// the backoff for its attempt count, lock released.
pub open spec fn retried_env(env: JobEnvelope, now: i64, base: i64) -> JobEnvelope {
    JobEnvelope {
        state: JobState::Pending,
        run_at: (now + backoff_ms(base as int, env.attempts as int)) as i64,
        lock_by: None,
        lock_at: None,
        ..env
    }
}

/// The envelope after `heartbeat` at `now`: the lock is renewed, nothing else
/// changes.
pub open spec fn heartbeat_env(env: JobEnvelope, now: i64) -> JobEnvelope {
    JobEnvelope { lock_at: Some(now), ..env }
}

/// A well-formed pending envelope is claimable from its due time on: it can
/// wait, but never becomes unclaimable — so a live worker's next poll at or
/// after `run_at` picks it up (`fetch_next` returns an envelope exactly when
/// one is claimable).
pub proof fn lemma_due_pending_is_claimable(env: JobEnvelope, now: i64, lock_timeout_ms: i64)
    requires
        env.wf(),
        env.state == JobState::Pending,
        env.run_at <= now,
    ensures
        env.claimable(now, lock_timeout_ms),
{
}

/// A terminal envelope is never claimable: termination is final.
pub proof fn lemma_terminal_not_claimable(env: JobEnvelope, now: i64, lock_timeout_ms: i64)
    requires
        is_terminal(env.state),
    ensures
        !env.claimable(now, lock_timeout_ms),
{
}

/// Each claim raises the attempt counter by exactly one.
pub proof fn lemma_claim_increments_attempts(env: JobEnvelope, worker_id: u64, now: i64)
    requires
        env.attempts < env.max_attempts,
    ensures
        claimed_env(env, worker_id, now).attempts == env.attempts + 1,
{
}

/// The retry backoff is monotonically non-decreasing in the attempt count, for
/// a fixed backoff base.
pub proof fn lemma_backoff_monotone(base: int, a1: int, a2: int)
    requires
        0 <= base,
        0 <= a1 <= a2,
    ensures
        backoff_ms(base, a1) <= backoff_ms(base, a2),
{
    assert(base * a1 <= base * a2) by (nonlinear_arith)
        requires
            0 <= base,
            0 <= a1 <= a2,
    ;
}

} // verus!
