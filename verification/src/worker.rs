//! The worker decision core: one worker is a state machine from (state, event)
//! to (state, action). A host drives it in a loop — it performs each action
//! (claim, sleep, run the handler through the layer chain, call the storage
//! port) and hands the result back as the next event. Everything the worker
//! decides is here and verified; the host only executes.

use vstd::prelude::*;
use crate::envelope::JobEnvelope;
use crate::job::JobResult;

verus! {

/// Where one worker stands in its claim–execute–report loop.
#[derive(Clone, Copy, Debug, PartialEq, Eq, Structural)]
pub enum WorkerPhase {
    /// Between jobs: free to claim.
    Idle,
    /// Executing the claimed envelope with this id.
    Executing(u64),
    /// Stopped for good after a shutdown.
    Stopped,
}

/// The per-worker state a host drives.
#[derive(Clone, Copy, Debug, PartialEq, Eq, Structural)]
pub struct WorkerState {
    /// Identifies this worker's claims in storage.
    pub worker_id: u64,
    /// How long to sleep when nothing is claimable (ms).
    pub poll_interval_ms: u64,
    /// A shutdown was signalled: claim nothing new, finish what runs.
    pub shutdown_requested: bool,
    /// Where the loop stands.
    pub phase: WorkerPhase,
}

/// What happened since the last action.
#[derive(Debug, PartialEq, Eq)]
pub enum WorkerEvent {
    /// `fetch_next` claimed this envelope.
    Claimed(JobEnvelope),
    /// `fetch_next` found nothing claimable (not an error).
    NothingClaimable,
    /// The storage call failed transiently; back off and go on.
    ClaimFailed,
    /// The handler finished and reported this outcome.
    HandlerDone(JobResult),
    /// The handler raised an unexpected fault.
    HandlerFault,
    /// The handler exceeded its execution deadline (treated as a fault).
    HandlerTimeout,
    /// A shutdown was signalled.
    Shutdown,
}

/// What the host must do next.
#[derive(Debug, PartialEq, Eq)]
pub enum WorkerAction {
    /// Call `fetch_next` now.
    Poll,
    /// Sleep this many milliseconds, then poll again.
    Sleep(u64),
    /// Run the handler for this envelope (through the layer chain).
    Run(JobEnvelope),
    /// Call `ack` on this envelope: the attempt succeeded.
    CallAck(u64),
    /// Call `retry` on this envelope: retry later or kill at the ceiling.
    CallRetry(u64),
    /// Call `kill` on this envelope: the handler asked for it.
    CallKill(u64),
    /// Keep waiting for the running handler to finish.
    Await,
    /// The worker is stopped; leave the loop.
    Halt,
}

/// Whether an action is a terminal storage call for an attempt.
pub open spec fn is_terminal_action(a: WorkerAction) -> bool {
    a is CallAck || a is CallRetry || a is CallKill
}

/// Whether an event reports how a handler invocation ended.
pub open spec fn is_handler_outcome(e: WorkerEvent) -> bool {
    e is HandlerDone || e is HandlerFault || e is HandlerTimeout
}

/// The worker transition function. From `Idle` it claims (or sleeps, or stops
/// once a shutdown was requested); from `Executing` it maps the handler's end —
/// success to `ack`, an asked-for retry or any fault or timeout to `retry`
/// (storage kills at the attempt ceiling), an asked-for kill to `kill` — and
/// issues exactly one such terminal call per attempt; a shutdown stops new
/// claims at once and lets the running handler finish.
pub open spec fn step_spec(s: WorkerState, e: WorkerEvent) -> (WorkerState, WorkerAction) {
    match s.phase {
        WorkerPhase::Stopped => (s, WorkerAction::Halt),
        WorkerPhase::Idle => match e {
            WorkerEvent::Shutdown => (
                WorkerState { shutdown_requested: true, phase: WorkerPhase::Stopped, ..s },
                WorkerAction::Halt,
            ),
            WorkerEvent::Claimed(env) => (
                WorkerState { phase: WorkerPhase::Executing(env.id), ..s },
                WorkerAction::Run(env),
            ),
            WorkerEvent::NothingClaimable => if s.shutdown_requested {
                (WorkerState { phase: WorkerPhase::Stopped, ..s }, WorkerAction::Halt)
            } else {
                (s, WorkerAction::Sleep(s.poll_interval_ms))
            },
            WorkerEvent::ClaimFailed => if s.shutdown_requested {
                (WorkerState { phase: WorkerPhase::Stopped, ..s }, WorkerAction::Halt)
            } else {
                (s, WorkerAction::Sleep(s.poll_interval_ms))
            },
            _ => if s.shutdown_requested {
                (WorkerState { phase: WorkerPhase::Stopped, ..s }, WorkerAction::Halt)
            } else {
                (s, WorkerAction::Poll)
            },
        },
        WorkerPhase::Executing(id) => {
            let after = WorkerState {
                phase: if s.shutdown_requested {
                    WorkerPhase::Stopped
                } else {
                    WorkerPhase::Idle
                },
                ..s
            };
            match e {
                WorkerEvent::HandlerDone(JobResult::Success) => (after, WorkerAction::CallAck(id)),
                WorkerEvent::HandlerDone(JobResult::Retry) => (after, WorkerAction::CallRetry(id)),
                WorkerEvent::HandlerDone(JobResult::Kill) => (after, WorkerAction::CallKill(id)),
                WorkerEvent::HandlerFault => (after, WorkerAction::CallRetry(id)),
                WorkerEvent::HandlerTimeout => (after, WorkerAction::CallRetry(id)),
                WorkerEvent::Shutdown => (
                    WorkerState { shutdown_requested: true, ..s },
                    WorkerAction::Await,
                ),
                _ => (s, WorkerAction::Await),
            }
        },
    }
}

impl WorkerState {
    /// A fresh idle worker.
    pub fn new(worker_id: u64, poll_interval_ms: u64) -> (r: WorkerState)
        ensures
            r == (WorkerState {
                worker_id,
                poll_interval_ms,
                shutdown_requested: false,
                phase: WorkerPhase::Idle,
            }),
    {
        WorkerState { worker_id, poll_interval_ms, shutdown_requested: false, phase: WorkerPhase::Idle }
    }

    /// One step of the worker loop: decides exactly `step_spec`, and with it —
    /// a terminal storage call is issued exactly when a handler outcome arrives
    /// for the executing envelope (one per attempt, addressed to its id), new
    /// claims are never requested once a shutdown was seen, and the worker
    /// identity and poll interval never change.
    pub fn step(self, event: WorkerEvent) -> (r: (WorkerState, WorkerAction))
        ensures
            r == step_spec(self, event),
            is_terminal_action(r.1) <==> (self.phase is Executing && is_handler_outcome(event)),
            is_terminal_action(r.1) ==> (match (self.phase, r.1) {
                (WorkerPhase::Executing(id), WorkerAction::CallAck(a)) => a == id,
                (WorkerPhase::Executing(id), WorkerAction::CallRetry(a)) => a == id,
                (WorkerPhase::Executing(id), WorkerAction::CallKill(a)) => a == id,
                _ => false,
            }),
            (self.shutdown_requested || event is Shutdown) ==> !(r.1 is Poll),
            r.0.worker_id == self.worker_id && r.0.poll_interval_ms == self.poll_interval_ms,
    {
        match self.phase {
            WorkerPhase::Stopped => (self, WorkerAction::Halt),
            WorkerPhase::Idle => match event {
                WorkerEvent::Shutdown => (
                    WorkerState {
                        shutdown_requested: true,
                        phase: WorkerPhase::Stopped,
                        ..self
                    },
                    WorkerAction::Halt,
                ),
                WorkerEvent::Claimed(env) => {
                    let id = env.id;
                    (
                        WorkerState { phase: WorkerPhase::Executing(id), ..self },
                        WorkerAction::Run(env),
                    )
                },
                WorkerEvent::NothingClaimable => if self.shutdown_requested {
                    (WorkerState { phase: WorkerPhase::Stopped, ..self }, WorkerAction::Halt)
                } else {
                    (self, WorkerAction::Sleep(self.poll_interval_ms))
                },
                WorkerEvent::ClaimFailed => if self.shutdown_requested {
                    (WorkerState { phase: WorkerPhase::Stopped, ..self }, WorkerAction::Halt)
                } else {
                    (self, WorkerAction::Sleep(self.poll_interval_ms))
                },
                _ => if self.shutdown_requested {
                    (WorkerState { phase: WorkerPhase::Stopped, ..self }, WorkerAction::Halt)
                } else {
                    (self, WorkerAction::Poll)
                },
            },
            WorkerPhase::Executing(id) => {
                let after = WorkerState {
                    phase: if self.shutdown_requested {
                        WorkerPhase::Stopped
                    } else {
                        WorkerPhase::Idle
                    },
                    ..self
                };
                match event {
                    WorkerEvent::HandlerDone(JobResult::Success) => (
                        after,
                        WorkerAction::CallAck(id),
                    ),
                    WorkerEvent::HandlerDone(JobResult::Retry) => (
                        after,
                        WorkerAction::CallRetry(id),
                    ),
                    WorkerEvent::HandlerDone(JobResult::Kill) => (
                        after,
                        WorkerAction::CallKill(id),
                    ),
                    WorkerEvent::HandlerFault => (after, WorkerAction::CallRetry(id)),
                    WorkerEvent::HandlerTimeout => (after, WorkerAction::CallRetry(id)),
                    WorkerEvent::Shutdown => (
                        WorkerState { shutdown_requested: true, ..self },
                        WorkerAction::Await,
                    ),
                    _ => (self, WorkerAction::Await),
                }
            },
        }
    }
}

} // verus!
