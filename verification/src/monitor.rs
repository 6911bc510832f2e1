//! The monitor: owns a set of workers, registers them in groups, relays events
//! to them, and carries the process-wide shutdown signal. A host's run loop
//! drives each registered worker with `step_worker` until `all_stopped`.

use vstd::prelude::*;
use crate::worker::{WorkerAction, WorkerEvent, WorkerPhase, WorkerState, step_spec};

verus! {

/// The supervisor of a worker pool.
pub struct Monitor {
    /// The supervised workers, in registration order.
    pub workers: Vec<WorkerState>,
    /// Whether a process-wide shutdown was signalled.
    pub shutdown: bool,
}

impl Monitor {
    /// A monitor with no workers and no shutdown signalled.
    pub fn new() -> (r: Monitor)
        ensures
            r.workers@.len() == 0,
            !r.shutdown,
    {
        Monitor { workers: Vec::new(), shutdown: false }
    }

    /// Registers one pre-built worker.
    pub fn register(&mut self, worker: WorkerState)
        ensures
            final(self).workers@ == old(self).workers@.push(worker),
            final(self).shutdown == old(self).shutdown,
    {
        self.workers.push(worker);
    }

    /// Registers `count` fresh workers sharing `poll_interval_ms`; each gets
    /// its registration index as worker id, so ids stay distinct across calls.
    #[verifier::loop_isolation(false)]
    pub fn register_with_count(&mut self, count: usize, poll_interval_ms: u64)
        requires
            old(self).workers@.len() + count <= usize::MAX,
        ensures
            final(self).shutdown == old(self).shutdown,
            final(self).workers@.len() == old(self).workers@.len() + count,
            forall|i: int|
                0 <= i < old(self).workers@.len() ==> final(self).workers@[i] == old(
                    self,
                ).workers@[i],
            forall|i: int|
                old(self).workers@.len() <= i < final(self).workers@.len()
                    ==> final(self).workers@[i] == (WorkerState {
                    worker_id: i as u64,
                    poll_interval_ms,
                    shutdown_requested: false,
                    phase: WorkerPhase::Idle,
                }),
    {
        let base = self.workers.len();
        let mut k: usize = 0;
        while k < count
            invariant
                0 <= k <= count,
                self.workers@.len() == base + k,
                self.shutdown == old(self).shutdown,
                forall|i: int|
                    0 <= i < base ==> self.workers@[i] == old(self).workers@[i],
                forall|i: int|
                    base <= i < base + k ==> self.workers@[i] == (WorkerState {
                        worker_id: i as u64,
                        poll_interval_ms,
                        shutdown_requested: false,
                        phase: WorkerPhase::Idle,
                    }),
            decreases count - k,
        {
            let id = (base + k) as u64;
            self.workers.push(WorkerState::new(id, poll_interval_ms));
            k += 1;
        }
    }

    /// Signals shutdown: every worker is told to claim nothing new; in-flight
    /// work is left to finish.
    #[verifier::loop_isolation(false)]
    pub fn signal_shutdown(&mut self)
        ensures
            final(self).shutdown,
            final(self).workers@.len() == old(self).workers@.len(),
            forall|i: int|
                0 <= i < old(self).workers@.len() ==> final(self).workers@[i] == (WorkerState {
                    shutdown_requested: true,
                    ..old(self).workers@[i]
                }),
    {
        self.shutdown = true;
        let n = self.workers.len();
        let mut k: usize = 0;
        while k < n
            invariant
                0 <= k <= n,
                self.workers@.len() == n,
                self.shutdown,
                forall|i: int|
                    0 <= i < k ==> self.workers@[i] == (WorkerState {
                        shutdown_requested: true,
                        ..old(self).workers@[i]
                    }),
                forall|i: int| k <= i < n ==> self.workers@[i] == old(self).workers@[i],
            decreases n - k,
        {
            let mut w = self.workers[k];
            w.shutdown_requested = true;
            self.workers[k] = w;
            k += 1;
        }
    }

    /// Whether every supervised worker has stopped; `run` loops until then.
    #[verifier::loop_isolation(false)]
    pub fn all_stopped(&self) -> (r: bool)
        ensures
            r == forall|i: int|
                0 <= i < self.workers@.len() ==> (#[trigger] self.workers@[i]).phase
                    is Stopped,
    {
        let n = self.workers.len();
        let mut k: usize = 0;
        while k < n
            invariant
                0 <= k <= n,
                forall|i: int| 0 <= i < k ==> (#[trigger] self.workers@[i]).phase is Stopped,
            decreases n - k,
        {
            match self.workers[k].phase {
                WorkerPhase::Stopped => {},
                _ => {
                    return false;
                },
            }
            k += 1;
        }
        true
    }

    /// Relays `event` to worker `k` and hands its decided action back to the
    /// host: one turn of the run loop.
    pub fn step_worker(&mut self, k: usize, event: WorkerEvent) -> (action: WorkerAction)
        requires
            k < old(self).workers@.len(),
        ensures
            final(self).shutdown == old(self).shutdown,
            final(self).workers@ == old(self).workers@.update(
                k as int,
                step_spec(old(self).workers@[k as int], event).0,
            ),
            action == step_spec(old(self).workers@[k as int], event).1,
    {
        let w = self.workers[k];
        let (w2, action) = w.step(event);
        self.workers[k] = w2;
        action
    }
}

} // verus!
