//! An in-memory storage backend: the reference implementation of the storage
//! port. It owns the envelopes, assigns ids, and performs every state
//! transition of the job state machine with the atomicity the port demands
//! (one caller at a time holds the handle mutably).

use vstd::prelude::*;
use crate::envelope::{
    JobEnvelope, JobState, MAX_ATTEMPTS_CEIL, MAX_BACKOFF_BASE_MS, MAX_TIME_MS, claimed_env,
    done_env, heartbeat_env, is_terminal, killed_env, pending_env, retried_env,
};
use crate::error::StorageError;
use crate::job::Job;

verus! {

/// The in-memory backend: a sequence of envelopes plus the scheduling policy
/// configuration (lock timeout, retry backoff base, attempt ceiling).
pub struct MemoryStorage {
    /// Every envelope ever enqueued; the core never deletes one.
    pub jobs: Vec<JobEnvelope>,
    /// The id the next enqueued envelope receives.
    pub next_id: u64,
    /// How long (ms) a claim may go unrenewed before it is reclaimable.
    pub lock_timeout_ms: i64,
    /// Base (ms) of the linear retry backoff.
    pub backoff_base_ms: i64,
    /// Attempt ceiling stamped on every envelope this backend enqueues.
    pub max_attempts: u32,
}

/// A timestamp clamped into the range the engine schedules within.
pub open spec fn clamp_time(t: i64) -> i64 {
    if t < 0 {
        0
    } else if t > MAX_TIME_MS {
        MAX_TIME_MS
    } else {
        t
    }
}

/// The policy configuration of two storage values is the same.
pub open spec fn same_config(a: MemoryStorage, b: MemoryStorage) -> bool {
    &&& a.lock_timeout_ms == b.lock_timeout_ms
    &&& a.backoff_base_ms == b.backoff_base_ms
    &&& a.max_attempts == b.max_attempts
}

impl MemoryStorage {
    /// Well-formedness: the configuration is in range, every envelope is
    /// well-formed, ids are unique and below the id counter.
    pub open spec fn wf(self) -> bool {
        &&& 1 <= self.lock_timeout_ms <= MAX_BACKOFF_BASE_MS
        &&& 0 <= self.backoff_base_ms <= MAX_BACKOFF_BASE_MS
        &&& 1 <= self.max_attempts <= MAX_ATTEMPTS_CEIL
        &&& forall|i: int| 0 <= i < self.jobs@.len() ==> (#[trigger] self.jobs@[i]).wf()
        &&& forall|i: int| 0 <= i < self.jobs@.len() ==> (#[trigger] self.jobs@[i]).id < self.next_id
        &&& forall|i: int, j: int|
            0 <= i < j < self.jobs@.len() ==> (#[trigger] self.jobs@[i]).id != (#[trigger] self.jobs@[j]).id
    }

    /// An empty backend with the given policy configuration.
    pub fn new(lock_timeout_ms: i64, backoff_base_ms: i64, max_attempts: u32) -> (r: MemoryStorage)
        requires
            1 <= lock_timeout_ms <= MAX_BACKOFF_BASE_MS,
            0 <= backoff_base_ms <= MAX_BACKOFF_BASE_MS,
            1 <= max_attempts <= MAX_ATTEMPTS_CEIL,
        ensures
            r.wf(),
            r.jobs@.len() == 0,
            r.next_id == 0,
            r.lock_timeout_ms == lock_timeout_ms,
            r.backoff_base_ms == backoff_base_ms,
            r.max_attempts == max_attempts,
    {
        MemoryStorage { jobs: Vec::new(), next_id: 0, lock_timeout_ms, backoff_base_ms, max_attempts }
    }

    /// Idempotently prepares backend resources. The in-memory backend has none
    /// to provision, so setup always succeeds and changes nothing.
    pub fn setup(&self) -> (r: Result<(), StorageError>)
        ensures
            r is Ok,
    {
        Ok(())
    }

    /// The index of the envelope carrying `id`, if one exists.
    pub fn find_index(&self, id: u64) -> (r: Option<usize>)
        ensures
            match r {
                Some(i) => i < self.jobs@.len() && self.jobs@[i as int].id == id,
                None => forall|j: int|
                    0 <= j < self.jobs@.len() ==> (#[trigger] self.jobs@[j]).id != id,
            },
    {
        let n = self.jobs.len();
        let mut i: usize = 0;
        while i < n
            invariant
                n == self.jobs@.len(),
                0 <= i <= n,
                forall|j: int| 0 <= j < i ==> (#[trigger] self.jobs@[j]).id != id,
            decreases n - i,
        {
            if self.jobs[i].id == id {
                return Some(i);
            }
            i += 1;
        }
        None
    }

    /// Persists a new pending envelope for `job`, due at `run_at`, and returns
    /// its freshly assigned id.
    pub fn schedule_at(&mut self, job: Job, run_at: i64) -> (id: u64)
        requires
            old(self).wf(),
            0 <= run_at <= MAX_TIME_MS,
            old(self).next_id < u64::MAX,
        ensures
            final(self).wf(),
            same_config(*old(self), *final(self)),
            id == old(self).next_id,
            final(self).next_id == old(self).next_id + 1,
            final(self).jobs@ == old(self).jobs@.push(
                pending_env(job, id, run_at, old(self).max_attempts),
            ),
    {
        let id = self.next_id;
        let env = JobEnvelope {
            id,
            name: job.name,
            payload: job.payload,
            state: JobState::Pending,
            run_at,
            attempts: 0,
            max_attempts: self.max_attempts,
            lock_by: None,
            lock_at: None,
        };
        self.jobs.push(env);
        self.next_id = id + 1;
        proof {
            lemma_push_preserves_wf(*old(self), *self, pending_env(job, id, run_at, old(self).max_attempts));
        }
        id
    }

    /// Persists a new pending envelope for `job`, due now (by the wall clock),
    /// and returns its freshly assigned id.
    pub fn enqueue(&mut self, job: Job) -> (id: u64)
        requires
            old(self).wf(),
            old(self).next_id < u64::MAX,
        ensures
            final(self).wf(),
            same_config(*old(self), *final(self)),
            id == old(self).next_id,
            final(self).next_id == old(self).next_id + 1,
            exists|t: i64|
                0 <= t <= MAX_TIME_MS && final(self).jobs@ == old(self).jobs@.push(
                    #[trigger] pending_env(job, id, t, old(self).max_attempts),
                ),
    {
        let now = crate::clock::now_clamped();
        self.schedule_at(job, now)
    }

    /// Persists a new pending envelope for `job`, due at `run_at` (clamped into
    /// the engine's time range), and returns its freshly assigned id. The job
    /// is not claimable before that time.
    pub fn schedule(&mut self, job: Job, run_at: i64) -> (id: u64)
        requires
            old(self).wf(),
            old(self).next_id < u64::MAX,
        ensures
            final(self).wf(),
            same_config(*old(self), *final(self)),
            id == old(self).next_id,
            final(self).next_id == old(self).next_id + 1,
            final(self).jobs@ == old(self).jobs@.push(
                pending_env(job, id, clamp_time(run_at), old(self).max_attempts),
            ),
    {
        let at = if run_at < 0 {
            0
        } else if run_at > MAX_TIME_MS {
            MAX_TIME_MS
        } else {
            run_at
        };
        self.schedule_at(job, at)
    }

    /// Atomically claims the claimable envelope with the earliest `run_at`
    /// (first index wins a tie) for `worker_id` at time `now`: it becomes
    /// running with one more attempt, locked by that worker since `now`.
    /// Returns the claimed envelope, or nothing exactly when no envelope is
    /// claimable — which is not an error.
    pub fn fetch_next(&mut self, worker_id: u64, now: i64) -> (r: Option<JobEnvelope>)
        requires
            old(self).wf(),
            0 <= now <= MAX_TIME_MS,
        ensures
            final(self).wf(),
            same_config(*old(self), *final(self)),
            final(self).next_id == old(self).next_id,
            match r {
                None => {
                    &&& *final(self) == *old(self)
                    &&& forall|j: int|
                        0 <= j < old(self).jobs@.len() ==> !(#[trigger] old(self).jobs@[j]).claimable(
                            now,
                            old(self).lock_timeout_ms,
                        )
                },
                Some(env) => {
                    &&& env.state == JobState::Running
                    &&& env.run_at <= now
                    &&& env.lock_by == Some(worker_id)
                    &&& env.lock_at == Some(now)
                    &&& exists|i: int|
                        {
                            &&& 0 <= i < old(self).jobs@.len()
                            &&& (#[trigger] old(self).jobs@[i]).claimable(
                                now,
                                old(self).lock_timeout_ms,
                            )
                            &&& env == claimed_env(old(self).jobs@[i], worker_id, now)
                            &&& final(self).jobs@ == old(self).jobs@.update(
                                i,
                                claimed_env(old(self).jobs@[i], worker_id, now),
                            )
                            &&& forall|j: int|
                                0 <= j < old(self).jobs@.len() && (#[trigger] old(
                                    self,
                                ).jobs@[j]).claimable(now, old(self).lock_timeout_ms)
                                    ==> old(self).jobs@[i].run_at <= old(self).jobs@[j].run_at
                        }
                },
            },
            // Terminal envelopes are untouched.
            forall|j: int|
                0 <= j < old(self).jobs@.len() && is_terminal(old(self).jobs@[j].state)
                    ==> final(self).jobs@[j] == old(self).jobs@[j],
    {
        let ghost pre = *self;
        let to = self.lock_timeout_ms;
        let n = self.jobs.len();
        let mut best: Option<usize> = None;
        let mut i: usize = 0;
        while i < n
            invariant
                *self == pre,
                pre.wf(),
                0 <= now <= MAX_TIME_MS,
                to == self.lock_timeout_ms,
                n == self.jobs@.len(),
                0 <= i <= n,
                match best {
                    None => forall|j: int|
                        0 <= j < i ==> !(#[trigger] self.jobs@[j]).claimable(now, to),
                    Some(b) => {
                        &&& (b as int) < (i as int)
                        &&& self.jobs@[b as int].claimable(now, to)
                        &&& forall|j: int|
                            0 <= j < i && (#[trigger] self.jobs@[j]).claimable(now, to)
                                ==> self.jobs@[b as int].run_at <= self.jobs@[j].run_at
                    },
                },
            decreases n - i,
        {
            if self.jobs[i].is_claimable(now, to) {
                let take = match best {
                    None => true,
                    Some(b) => self.jobs[i].run_at < self.jobs[b].run_at,
                };
                if take {
                    best = Some(i);
                }
            }
            i += 1;
        }
        match best {
            None => None,
            Some(b) => {
                let mut env = self.jobs[b].clone();
                env.state = JobState::Running;
                env.attempts = env.attempts + 1;
                env.lock_by = Some(worker_id);
                env.lock_at = Some(now);
                let out = env.clone();
                self.jobs[b] = env;
                proof {
                    let k = b as int;
                    assert(out == claimed_env(pre.jobs@[k], worker_id, now));
                    assert(self.jobs@ == pre.jobs@.update(k, claimed_env(pre.jobs@[k], worker_id, now)));
                    lemma_update_preserves_wf(pre, *self, k, claimed_env(pre.jobs@[k], worker_id, now));
                    assert forall|j: int|
                        0 <= j < pre.jobs@.len() && is_terminal(pre.jobs@[j].state)
                            implies self.jobs@[j] == pre.jobs@[j] by {
                        // Only index k changed, and what was claimable there
                        // was not terminal.
                        assert(pre.jobs@[k].claimable(now, to));
                    }
                }
                Some(out)
            },
        }
    }

    /// Transitions the running envelope carrying `id` to Done and releases its
    /// lock. Succeeds exactly when such an envelope exists; anything else is a
    /// stale transition that changes nothing.
    pub fn ack(&mut self, id: u64) -> (r: Result<(), StorageError>)
        requires
            old(self).wf(),
        ensures
            final(self).wf(),
            same_config(*old(self), *final(self)),
            final(self).next_id == old(self).next_id,
            (r is Ok) <==> exists|i: int|
                0 <= i < old(self).jobs@.len() && (#[trigger] old(self).jobs@[i]).id == id
                    && old(self).jobs@[i].state == JobState::Running,
            r is Ok ==> exists|i: int|
                {
                    &&& 0 <= i < old(self).jobs@.len()
                    &&& (#[trigger] old(self).jobs@[i]).id == id
                    &&& old(self).jobs@[i].state == JobState::Running
                    &&& final(self).jobs@ == old(self).jobs@.update(i, done_env(old(self).jobs@[i]))
                },
            r is Err ==> *final(self) == *old(self) && r == Err::<(), StorageError>(
                StorageError::StaleTransition,
            ),
            forall|j: int|
                0 <= j < old(self).jobs@.len() && is_terminal(old(self).jobs@[j].state)
                    ==> final(self).jobs@[j] == old(self).jobs@[j],
    {
        let ghost pre = *self;
        match self.find_index(id) {
            Some(i) => {
                if self.jobs[i].state == JobState::Running {
                    let mut env = self.jobs[i].clone();
                    env.state = JobState::Done;
                    env.lock_by = None;
                    env.lock_at = None;
                    self.jobs[i] = env;
                    proof {
                        let k = i as int;
                        assert(self.jobs@ == pre.jobs@.update(k, done_env(pre.jobs@[k])));
                        lemma_update_preserves_wf(pre, *self, k, done_env(pre.jobs@[k]));
                    }
                    Ok(())
                } else {
                    proof {
                        lemma_no_other_running(pre, i as int, id);
                    }
                    Err(StorageError::StaleTransition)
                }
            },
            None => Err(StorageError::StaleTransition),
        }
    }

    /// Retries the running envelope carrying `id`: while attempts remain it
    /// becomes pending again, due after the backoff for its attempt count;
    /// at the attempt ceiling it is killed instead (and then its attempt
    /// counter equals the ceiling). Succeeds exactly when a running envelope
    /// carries `id`; anything else is a stale transition that changes nothing.
    pub fn retry(&mut self, id: u64, now: i64) -> (r: Result<(), StorageError>)
        requires
            old(self).wf(),
            0 <= now <= MAX_TIME_MS,
        ensures
            final(self).wf(),
            same_config(*old(self), *final(self)),
            final(self).next_id == old(self).next_id,
            (r is Ok) <==> exists|i: int|
                0 <= i < old(self).jobs@.len() && (#[trigger] old(self).jobs@[i]).id == id
                    && old(self).jobs@[i].state == JobState::Running,
            r is Ok ==> exists|i: int|
                {
                    &&& 0 <= i < old(self).jobs@.len()
                    &&& (#[trigger] old(self).jobs@[i]).id == id
                    &&& old(self).jobs@[i].state == JobState::Running
                    &&& if old(self).jobs@[i].attempts < old(self).jobs@[i].max_attempts {
                        final(self).jobs@ == old(self).jobs@.update(
                            i,
                            retried_env(old(self).jobs@[i], now, old(self).backoff_base_ms),
                        )
                    } else {
                        &&& final(self).jobs@ == old(self).jobs@.update(
                            i,
                            killed_env(old(self).jobs@[i]),
                        )
                        &&& old(self).jobs@[i].attempts == old(self).jobs@[i].max_attempts
                    }
                },
            r is Err ==> *final(self) == *old(self) && r == Err::<(), StorageError>(
                StorageError::StaleTransition,
            ),
            forall|j: int|
                0 <= j < old(self).jobs@.len() && is_terminal(old(self).jobs@[j].state)
                    ==> final(self).jobs@[j] == old(self).jobs@[j],
    {
        let ghost pre = *self;
        match self.find_index(id) {
            Some(i) => {
                if self.jobs[i].state == JobState::Running {
                    let mut env = self.jobs[i].clone();
                    env.lock_by = None;
                    env.lock_at = None;
                    if env.attempts < env.max_attempts {
                        let base = self.backoff_base_ms;
                        let att = env.attempts;
                        proof {
                            assert(0 <= (base as int) * (att as int) <= 86_400_000 * 1_000_000)
                                by (nonlinear_arith)
                                requires
                                    0 <= base <= 86_400_000,
                                    0 <= att <= 1_000_000,
                            ;
                        }
                        let delta: i64 = base * (att as i64);
                        env.state = JobState::Pending;
                        env.run_at = now + delta;
                        self.jobs[i] = env;
                        proof {
                            let k = i as int;
                            assert(self.jobs@ == pre.jobs@.update(
                                k,
                                retried_env(pre.jobs@[k], now, pre.backoff_base_ms),
                            ));
                            lemma_update_preserves_wf(
                                pre,
                                *self,
                                k,
                                retried_env(pre.jobs@[k], now, pre.backoff_base_ms),
                            );
                        }
                    } else {
                        env.state = JobState::Killed;
                        self.jobs[i] = env;
                        proof {
                            let k = i as int;
                            assert(self.jobs@ == pre.jobs@.update(k, killed_env(pre.jobs@[k])));
                            lemma_update_preserves_wf(pre, *self, k, killed_env(pre.jobs@[k]));
                        }
                    }
                    Ok(())
                } else {
                    proof {
                        lemma_no_other_running(pre, i as int, id);
                    }
                    Err(StorageError::StaleTransition)
                }
            },
            None => Err(StorageError::StaleTransition),
        }
    }

    /// Force-kills the running envelope carrying `id`, regardless of its
    /// attempt count, and releases its lock. Succeeds exactly when a running
    /// envelope carries `id`; anything else is a stale transition that changes
    /// nothing.
    pub fn kill(&mut self, id: u64) -> (r: Result<(), StorageError>)
        requires
            old(self).wf(),
        ensures
            final(self).wf(),
            same_config(*old(self), *final(self)),
            final(self).next_id == old(self).next_id,
            (r is Ok) <==> exists|i: int|
                0 <= i < old(self).jobs@.len() && (#[trigger] old(self).jobs@[i]).id == id
                    && old(self).jobs@[i].state == JobState::Running,
            r is Ok ==> exists|i: int|
                {
                    &&& 0 <= i < old(self).jobs@.len()
                    &&& (#[trigger] old(self).jobs@[i]).id == id
                    &&& old(self).jobs@[i].state == JobState::Running
                    &&& final(self).jobs@ == old(self).jobs@.update(i, killed_env(old(self).jobs@[i]))
                },
            r is Err ==> *final(self) == *old(self) && r == Err::<(), StorageError>(
                StorageError::StaleTransition,
            ),
            forall|j: int|
                0 <= j < old(self).jobs@.len() && is_terminal(old(self).jobs@[j].state)
                    ==> final(self).jobs@[j] == old(self).jobs@[j],
    {
        let ghost pre = *self;
        match self.find_index(id) {
            Some(i) => {
                if self.jobs[i].state == JobState::Running {
                    let mut env = self.jobs[i].clone();
                    env.state = JobState::Killed;
                    env.lock_by = None;
                    env.lock_at = None;
                    self.jobs[i] = env;
                    proof {
                        let k = i as int;
                        assert(self.jobs@ == pre.jobs@.update(k, killed_env(pre.jobs@[k])));
                        lemma_update_preserves_wf(pre, *self, k, killed_env(pre.jobs@[k]));
                    }
                    Ok(())
                } else {
                    proof {
                        lemma_no_other_running(pre, i as int, id);
                    }
                    Err(StorageError::StaleTransition)
                }
            },
            None => Err(StorageError::StaleTransition),
        }
    }

    /// Renews the claim lock of the running envelope carrying `id`, provided
    /// `worker_id` is the holder; the state and every other field stay as they
    /// are. Succeeds exactly when a running envelope carries `id` with
    /// `worker_id` holding its lock; anything else is a stale transition that
    /// changes nothing.
    pub fn heartbeat(&mut self, worker_id: u64, id: u64, now: i64) -> (r: Result<
        (),
        StorageError,
    >)
        requires
            old(self).wf(),
            0 <= now <= MAX_TIME_MS,
        ensures
            final(self).wf(),
            same_config(*old(self), *final(self)),
            final(self).next_id == old(self).next_id,
            (r is Ok) <==> exists|i: int|
                0 <= i < old(self).jobs@.len() && (#[trigger] old(self).jobs@[i]).id == id
                    && old(self).jobs@[i].state == JobState::Running
                    && old(self).jobs@[i].lock_by == Some(worker_id),
            r is Ok ==> exists|i: int|
                {
                    &&& 0 <= i < old(self).jobs@.len()
                    &&& (#[trigger] old(self).jobs@[i]).id == id
                    &&& old(self).jobs@[i].state == JobState::Running
                    &&& old(self).jobs@[i].lock_by == Some(worker_id)
                    &&& final(self).jobs@ == old(self).jobs@.update(
                        i,
                        heartbeat_env(old(self).jobs@[i], now),
                    )
                },
            r is Err ==> *final(self) == *old(self) && r == Err::<(), StorageError>(
                StorageError::StaleTransition,
            ),
            forall|j: int|
                0 <= j < old(self).jobs@.len() && is_terminal(old(self).jobs@[j].state)
                    ==> final(self).jobs@[j] == old(self).jobs@[j],
    {
        let ghost pre = *self;
        match self.find_index(id) {
            Some(i) => {
                let held = self.jobs[i].state == JobState::Running && match self.jobs[i].lock_by {
                    Some(w) => w == worker_id,
                    None => false,
                };
                if held {
                    let mut env = self.jobs[i].clone();
                    env.lock_at = Some(now);
                    self.jobs[i] = env;
                    proof {
                        let k = i as int;
                        assert(self.jobs@ == pre.jobs@.update(k, heartbeat_env(pre.jobs@[k], now)));
                        lemma_update_preserves_wf(pre, *self, k, heartbeat_env(pre.jobs@[k], now));
                    }
                    Ok(())
                } else {
                    proof {
                        lemma_no_other_held(pre, i as int, id, worker_id);
                    }
                    Err(StorageError::StaleTransition)
                }
            },
            None => Err(StorageError::StaleTransition),
        }
    }
}

/// If the envelope at `k` carries `id` but the stale check failed there, no
/// index anywhere carries a running envelope with `id` (ids are unique).
proof fn lemma_no_other_running(pre: MemoryStorage, k: int, id: u64)
    requires
        pre.wf(),
        0 <= k < pre.jobs@.len(),
        pre.jobs@[k].id == id,
        pre.jobs@[k].state != JobState::Running,
    ensures
        !exists|i: int|
            0 <= i < pre.jobs@.len() && (#[trigger] pre.jobs@[i]).id == id && pre.jobs@[i].state
                == JobState::Running,
{
    assert forall|i: int|
        0 <= i < pre.jobs@.len() && (#[trigger] pre.jobs@[i]).id == id implies pre.jobs@[i].state
        != JobState::Running by {
        if i < k {
            assert(pre.jobs@[i].id != pre.jobs@[k].id);
        } else if i > k {
            assert(pre.jobs@[k].id != pre.jobs@[i].id);
        }
    }
}

/// Same, for the heartbeat check: `id` sits at `k` but is not running under
/// `worker_id`'s lock, so no index holds such an envelope.
proof fn lemma_no_other_held(pre: MemoryStorage, k: int, id: u64, worker_id: u64)
    requires
        pre.wf(),
        0 <= k < pre.jobs@.len(),
        pre.jobs@[k].id == id,
        !(pre.jobs@[k].state == JobState::Running && pre.jobs@[k].lock_by == Some(worker_id)),
    ensures
        !exists|i: int|
            0 <= i < pre.jobs@.len() && (#[trigger] pre.jobs@[i]).id == id && pre.jobs@[i].state
                == JobState::Running && pre.jobs@[i].lock_by == Some(worker_id),
{
    assert forall|i: int|
        0 <= i < pre.jobs@.len() && (#[trigger] pre.jobs@[i]).id == id implies !(pre.jobs@[i].state
        == JobState::Running && pre.jobs@[i].lock_by == Some(worker_id)) by {
        if i < k {
            assert(pre.jobs@[i].id != pre.jobs@[k].id);
        } else if i > k {
            assert(pre.jobs@[k].id != pre.jobs@[i].id);
        }
    }
}

/// Appending a well-formed envelope with the fresh id keeps the store
/// well-formed.
proof fn lemma_push_preserves_wf(pre: MemoryStorage, post: MemoryStorage, env: JobEnvelope)
    requires
        pre.wf(),
        env.wf(),
        env.id == pre.next_id,
        post.jobs@ == pre.jobs@.push(env),
        post.next_id == pre.next_id + 1,
        same_config(pre, post),
    ensures
        post.wf(),
{
    let n = pre.jobs@.len() as int;
    assert forall|i: int| 0 <= i < post.jobs@.len() implies (#[trigger] post.jobs@[i]).wf() by {
        if i < n {
            assert(post.jobs@[i] == pre.jobs@[i]);
        }
    }
    assert forall|i: int| 0 <= i < post.jobs@.len() implies (#[trigger] post.jobs@[i]).id
        < post.next_id by {
        if i < n {
            assert(post.jobs@[i] == pre.jobs@[i]);
        }
    }
    assert forall|i: int, j: int| 0 <= i < j < post.jobs@.len() implies (#[trigger] post.jobs@[i]).id
        != (#[trigger] post.jobs@[j]).id by {
        if j < n {
            assert(post.jobs@[i] == pre.jobs@[i]);
            assert(post.jobs@[j] == pre.jobs@[j]);
        } else {
            assert(post.jobs@[j] == env);
            assert(post.jobs@[i] == pre.jobs@[i]);
            assert(pre.jobs@[i].id < pre.next_id);
        }
    }
}

/// Replacing one envelope by a well-formed one with the same id keeps the
/// store well-formed.
proof fn lemma_update_preserves_wf(pre: MemoryStorage, post: MemoryStorage, k: int, env: JobEnvelope)
    requires
        pre.wf(),
        env.wf(),
        0 <= k < pre.jobs@.len(),
        env.id == pre.jobs@[k].id,
        post.jobs@ == pre.jobs@.update(k, env),
        post.next_id == pre.next_id,
        same_config(pre, post),
    ensures
        post.wf(),
{
    assert forall|i: int| 0 <= i < post.jobs@.len() implies (#[trigger] post.jobs@[i]).wf() by {
        if i != k {
            assert(post.jobs@[i] == pre.jobs@[i]);
        }
    }
    assert forall|i: int| 0 <= i < post.jobs@.len() implies (#[trigger] post.jobs@[i]).id
        < post.next_id by {
        if i != k {
            assert(post.jobs@[i] == pre.jobs@[i]);
        } else {
            assert(pre.jobs@[k].id < pre.next_id);
        }
    }
    assert forall|i: int, j: int| 0 <= i < j < post.jobs@.len() implies (#[trigger] post.jobs@[i]).id
        != (#[trigger] post.jobs@[j]).id by {
        assert(post.jobs@[i].id == pre.jobs@[i].id);
        assert(post.jobs@[j].id == pre.jobs@[j].id);
    }
}

} // verus!
