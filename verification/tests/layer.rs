//! The rate limiter and the layer chain around one invocation.

use jobq::job::JobResult;
use jobq::layer::{Directive, Layer, LayerChain, TracePhase};
use jobq::limiter::RateLimiter;

#[test]
fn two_permits_per_window() {
    // Permits = 2 per 100 ms: of 10 calls racing inside one window, exactly two
    // complete; the rest must wait for the window to close.
    let mut rl = RateLimiter::new(2, 100);
    let mut granted = 0;
    for call in 0..10i64 {
        if rl.try_acquire(100 + call * 3) {
            granted += 1;
        }
    }
    assert_eq!(granted, 2);
    // The next window hands out fresh permits.
    assert!(rl.try_acquire(230));
    assert!(rl.try_acquire(231));
    assert!(!rl.try_acquire(232));
}

#[test]
fn ten_concurrent_calls_complete_two_per_window() {
    // Ten callers race for permits (2 per 100 ms), each retrying every tick
    // until granted; bucketing the completion times by window shows no more
    // than two completions per 100 ms.
    let mut rl = RateLimiter::new(2, 100);
    let mut waiting = 10;
    let mut grant_times: Vec<i64> = Vec::new();
    let mut now: i64 = 0;
    while waiting > 0 {
        assert!(now < 10_000, "callers starved outright");
        let mut caller = 0;
        while caller < waiting {
            if rl.try_acquire(now) {
                grant_times.push(now);
                waiting -= 1;
            } else {
                caller += 1;
            }
        }
        now += 1;
    }
    assert_eq!(grant_times.len(), 10);
    for t in &grant_times {
        let bucket = t / 100;
        let in_bucket = grant_times.iter().filter(|u| **u / 100 == bucket).count();
        assert!(in_bucket <= 2, "{} completions in window {}", in_bucket, bucket);
    }
    // Five windows of two permits: the last caller finishes in the fifth.
    assert!(*grant_times.last().unwrap() <= 500);
}

#[test]
fn denial_changes_nothing_and_names_the_window_end() {
    let mut rl = RateLimiter::new(1, 100);
    assert!(rl.try_acquire(250));
    let end = rl.window_end();
    assert_eq!(end, 350);
    assert!(!rl.try_acquire(300));
    assert_eq!(rl.window_end(), end);
    assert!(rl.try_acquire(end));
}

#[test]
fn trace_layer_records_and_never_alters() {
    let mut chain = LayerChain::new();
    chain.push(Layer::Trace);
    let name = String::from("email");
    let (directive, events) = chain.enter(5, &name, 1000);
    assert_eq!(directive, Directive::Proceed);
    assert_eq!(events.len(), 1);
    assert_eq!(events[0].job_id, 5);
    assert_eq!(events[0].name, "email");
    assert_eq!(events[0].phase, TracePhase::Start);
    assert_eq!(events[0].at, 1000);
    let (outcome, events) = chain.exit(5, &name, 1000, 1250, JobResult::Retry);
    assert_eq!(outcome, JobResult::Retry);
    assert_eq!(events.len(), 1);
    assert_eq!(events[0].phase, TracePhase::End);
    assert_eq!(events[0].duration_ms, 250);
    assert_eq!(events[0].outcome, Some(JobResult::Retry));
}

#[test]
fn outer_trace_observes_before_an_exhausted_limiter() {
    let mut chain = LayerChain::new();
    chain.push(Layer::Trace);
    chain.push(Layer::RateLimit(RateLimiter::new(1, 100)));
    let name = String::from("t");
    let (d1, e1) = chain.enter(1, &name, 0);
    assert_eq!(d1, Directive::Proceed);
    assert_eq!(e1.len(), 1);
    // Second call inside the window: the outer trace layer still observed the
    // attempt (declared order is wrapping order), then the limiter suspends it.
    let (d2, e2) = chain.enter(2, &name, 10);
    assert_eq!(d2, Directive::Wait(100));
    assert_eq!(e2.len(), 1);
    assert_eq!(e2[0].job_id, 2);
    // Once the window has closed the call passes.
    let (d3, _) = chain.enter(2, &name, 100);
    assert_eq!(d3, Directive::Proceed);
}

#[test]
fn limiter_first_blocks_before_any_trace() {
    let mut chain = LayerChain::new();
    chain.push(Layer::RateLimit(RateLimiter::new(1, 100)));
    chain.push(Layer::Trace);
    let name = String::from("t");
    let (d1, e1) = chain.enter(1, &name, 0);
    assert_eq!(d1, Directive::Proceed);
    assert_eq!(e1.len(), 1);
    let (d2, e2) = chain.enter(2, &name, 10);
    assert_eq!(d2, Directive::Wait(100));
    // The inner trace layer never saw the suspended call.
    assert_eq!(e2.len(), 0);
}
