//! The middleware chain around one handler invocation. Layers are declared in
//! wrapping order: the first declared layer is outermost, observes the call
//! first (`enter` walks the chain front to back) and the result last (`exit`
//! walks it back to front). A trace layer records structured start/end events
//! and never alters the outcome; a rate-limit layer spends a permit of its
//! shared limiter or suspends the call until its window closes.

use vstd::prelude::*;
use crate::envelope::MAX_TIME_MS;
use crate::job::JobResult;
use crate::limiter::RateLimiter;

verus! {

/// Which end of an invocation a trace event marks.
#[derive(Clone, Copy, Debug, PartialEq, Eq, Structural)]
pub enum TracePhase {
    /// The invocation is about to enter the inner stages.
    Start,
    /// The invocation finished with the recorded outcome.
    End,
}

/// A structured trace event: job id, job name, when, how long, and (for an end
/// event) the outcome, which the trace layer reports but never alters.
pub struct TraceEvent {
    /// The id of the envelope being executed.
    pub job_id: u64,
    /// The name of the job type.
    pub name: String,
    /// Start or end of the invocation.
    pub phase: TracePhase,
    /// When the event was recorded (ms).
    pub at: i64,
    /// For an end event: how long the invocation ran (ms); zero for a start.
    pub duration_ms: i64,
    /// For an end event: the outcome being passed back unaltered.
    pub outcome: Option<JobResult>,
}

/// One composable wrapper around the execution pipeline.
#[derive(Clone, Copy)]
pub enum Layer {
    /// Spends a permit per invocation from a limiter shared by every worker
    /// using this chain instance.
    RateLimit(RateLimiter),
    /// Records start and end events around the invocation.
    Trace,
}

/// Well-formedness of one layer.
pub open spec fn layer_wf(l: Layer) -> bool {
    match l {
        Layer::RateLimit(rl) => rl.wf(),
        Layer::Trace => true,
    }
}

/// A layer after the invocation entered through it at time `now`.
pub open spec fn entered_layer(l: Layer, now: i64) -> Layer {
    match l {
        Layer::RateLimit(rl) => Layer::RateLimit(rl.acquire_spec(now).0),
        Layer::Trace => Layer::Trace,
    }
}

/// Whether a layer lets the invocation pass at time `now`.
pub open spec fn layer_granted(l: Layer, now: i64) -> bool {
    match l {
        Layer::RateLimit(rl) => rl.acquire_spec(now).1,
        Layer::Trace => true,
    }
}

/// The start event a trace layer records at time `now`.
pub open spec fn start_event(job_id: u64, name: String, now: i64) -> TraceEvent {
    TraceEvent { job_id, name, phase: TracePhase::Start, at: now, duration_ms: 0, outcome: None }
}

/// The end event a trace layer records: duration since `started_at`, outcome
/// carried verbatim.
pub open spec fn end_event(
    job_id: u64,
    name: String,
    started_at: i64,
    now: i64,
    outcome: JobResult,
) -> TraceEvent {
    TraceEvent {
        job_id,
        name,
        phase: TracePhase::End,
        at: now,
        duration_ms: (now - started_at) as i64,
        outcome: Some(outcome),
    }
}

/// The start events recorded while entering through the first `k` layers, in
/// the order the layers are declared (outermost first).
pub open spec fn start_events(
    layers: Seq<Layer>,
    k: int,
    job_id: u64,
    name: String,
    now: i64,
) -> Seq<TraceEvent>
    decreases k,
{
    if k <= 0 {
        Seq::empty()
    } else {
        let rest = start_events(layers, k - 1, job_id, name, now);
        match layers[k - 1] {
            Layer::Trace => rest.push(start_event(job_id, name, now)),
            _ => rest,
        }
    }
}

/// The end events recorded while leaving through the last `k` layers, in the
/// order they observe the result (innermost first, outermost last).
pub open spec fn exit_events(
    layers: Seq<Layer>,
    k: int,
    job_id: u64,
    name: String,
    started_at: i64,
    now: i64,
    outcome: JobResult,
) -> Seq<TraceEvent>
    decreases k,
{
    if k <= 0 {
        Seq::empty()
    } else {
        let prev = exit_events(layers, k - 1, job_id, name, started_at, now, outcome);
        match layers[layers.len() - k] {
            Layer::Trace => prev.push(end_event(job_id, name, started_at, now, outcome)),
            _ => prev,
        }
    }
}

/// Whether the invocation may proceed, or must suspend until a time.
#[derive(Clone, Copy, Debug, PartialEq, Eq, Structural)]
pub enum Directive {
    /// Every layer let the invocation pass: run the handler.
    Proceed,
    /// A rate limit is spent: suspend (do not fail) and enter again once the
    /// carried time has been reached.
    Wait(i64),
}

/// An ordered chain of layers, composed at worker-build time.
pub struct LayerChain {
    /// The layers, outermost (first declared) first.
    pub layers: Vec<Layer>,
}

impl LayerChain {
    /// Well-formedness: every limiter in the chain is well-formed.
    pub open spec fn wf(self) -> bool {
        forall|i: int| 0 <= i < self.layers@.len() ==> layer_wf(#[trigger] self.layers@[i])
    }

    /// An empty chain: the handler runs bare.
    pub fn new() -> (r: LayerChain)
        ensures
            r.wf(),
            r.layers@.len() == 0,
    {
        LayerChain { layers: Vec::new() }
    }

    /// Appends `layer` as the innermost stage so far; declared order is the
    /// wrapping order.
    pub fn push(&mut self, layer: Layer)
        requires
            old(self).wf(),
            layer_wf(layer),
        ensures
            final(self).wf(),
            final(self).layers@ == old(self).layers@.push(layer),
    {
        self.layers.push(layer);
    }

    /// Walks the chain front to back ahead of one handler invocation: each
    /// trace layer records a start event, each rate-limit layer spends a
    /// permit. At the first denied limiter the walk stops with `Wait` (the
    /// denied limiter and everything after it untouched); otherwise every
    /// layer was entered and the invocation proceeds.
    #[verifier::loop_isolation(false)]
    pub fn enter(&mut self, job_id: u64, name: &String, now: i64) -> (r: (
        Directive,
        Vec<TraceEvent>,
    ))
        requires
            old(self).wf(),
            0 <= now <= MAX_TIME_MS,
        ensures
            final(self).wf(),
            final(self).layers@.len() == old(self).layers@.len(),
            match r.0 {
                Directive::Proceed => {
                    &&& forall|j: int|
                        0 <= j < old(self).layers@.len() ==> layer_granted(
                            #[trigger] old(self).layers@[j],
                            now,
                        ) && final(self).layers@[j] == entered_layer(old(self).layers@[j], now)
                    &&& r.1@ == start_events(
                        old(self).layers@,
                        old(self).layers@.len() as int,
                        job_id,
                        *name,
                        now,
                    )
                },
                Directive::Wait(until) => exists|k: int|
                    {
                        &&& 0 <= k < old(self).layers@.len()
                        &&& !layer_granted(#[trigger] old(self).layers@[k], now)
                        &&& (old(self).layers@[k] matches Layer::RateLimit(rl) && until
                            == rl.window_start + rl.per_ms)
                        &&& forall|j: int|
                            0 <= j < k ==> layer_granted(#[trigger] old(self).layers@[j], now)
                                && final(self).layers@[j] == entered_layer(
                                old(self).layers@[j],
                                now,
                            )
                        &&& forall|j: int|
                            k <= j < old(self).layers@.len() ==> final(self).layers@[j] == old(
                                self,
                            ).layers@[j]
                        &&& r.1@ == start_events(old(self).layers@, k, job_id, *name, now)
                    },
            },
    {
        let ghost l0 = self.layers@;
        let n = self.layers.len();
        let mut events: Vec<TraceEvent> = Vec::new();
        let mut k: usize = 0;
        while k < n
            invariant
                0 <= k <= n,
                self.layers@.len() == n,
                forall|j: int|
                    0 <= j < k ==> layer_granted(#[trigger] l0[j], now) && self.layers@[j]
                        == entered_layer(l0[j], now),
                forall|j: int| k <= j < n ==> self.layers@[j] == l0[j],
                forall|j: int| 0 <= j < n ==> layer_wf(#[trigger] self.layers@[j]),
                events@ == start_events(l0, k as int, job_id, *name, now),
            decreases n - k,
        {
            let layer = self.layers[k];
            proof {
                assert(layer_wf(self.layers@[k as int]));
            }
            match layer {
                Layer::Trace => {
                    events.push(
                        TraceEvent {
                            job_id,
                            name: name.clone(),
                            phase: TracePhase::Start,
                            at: now,
                            duration_ms: 0,
                            outcome: None,
                        },
                    );
                },
                Layer::RateLimit(mut rl) => {
                    let granted = rl.try_acquire(now);
                    if !granted {
                        let until = rl.window_end();
                        proof {
                            let kk = k as int;
                            assert(old(self).layers@[kk] == l0[kk]);
                            assert(self.layers@[kk] == l0[kk]);
                            assert(l0[kk] matches Layer::RateLimit(r0) && r0 == rl);
                            assert(!layer_granted(old(self).layers@[kk], now));
                            assert(events@ == start_events(old(self).layers@, kk, job_id, *name, now));
                        }
                        return (Directive::Wait(until), events);
                    }
                    self.layers[k] = Layer::RateLimit(rl);
                },
            }
            k += 1;
        }
        (Directive::Proceed, events)
    }

    /// Walks the chain back to front after the handler returned: each trace
    /// layer records an end event carrying the outcome. The outcome itself is
    /// handed back exactly as it came in — no layer alters it.
    #[verifier::loop_isolation(false)]
    pub fn exit(&self, job_id: u64, name: &String, started_at: i64, now: i64, outcome: JobResult)
        -> (r: (JobResult, Vec<TraceEvent>))
        requires
            self.wf(),
            0 <= started_at <= now <= MAX_TIME_MS,
        ensures
            r.0 == outcome,
            r.1@ == exit_events(
                self.layers@,
                self.layers@.len() as int,
                job_id,
                *name,
                started_at,
                now,
                outcome,
            ),
    {
        let n = self.layers.len();
        let mut events: Vec<TraceEvent> = Vec::new();
        let mut m: usize = 0;
        while m < n
            invariant
                0 <= m <= n,
                events@ == exit_events(
                    self.layers@,
                    m as int,
                    job_id,
                    *name,
                    started_at,
                    now,
                    outcome,
                ),
            decreases n - m,
        {
            let i = n - 1 - m;
            match self.layers[i] {
                Layer::Trace => {
                    events.push(
                        TraceEvent {
                            job_id,
                            name: name.clone(),
                            phase: TracePhase::End,
                            at: now,
                            duration_ms: now - started_at,
                            outcome: Some(outcome),
                        },
                    );
                },
                Layer::RateLimit(_) => {},
            }
            m += 1;
        }
        (outcome, events)
    }
}

} // verus!
