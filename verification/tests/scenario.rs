//! End-to-end scenarios driving workers, storage, the layer chain and the
//! tracker together against a simulated clock.

use jobq::context::{JobContext, JobReport, JobTracker, ReportKind};
use jobq::envelope::JobState;
use jobq::job::{Job, JobResult};
use jobq::layer::{Directive, Layer, LayerChain};
use jobq::limiter::RateLimiter;
use jobq::storage::MemoryStorage;
use jobq::worker::{WorkerAction, WorkerEvent, WorkerState};

fn job(name: &str) -> Job {
    Job { name: String::from(name), payload: String::new() }
}

/// A hundred jobs due at now + i for i in 0..100, five workers sharing one
/// rate-limited chain: every job reaches Done with exactly one attempt, within
/// a bounded window past the latest due time.
#[test]
fn hundred_scheduled_jobs_all_done_once() {
    let mut st = MemoryStorage::new(1_000_000, 100, 3);
    for i in 0..100i64 {
        st.schedule(job("batch"), i);
    }
    let mut chain = LayerChain::new();
    chain.push(Layer::RateLimit(RateLimiter::new(10, 10)));
    let deadline: i64 = 100 + 1000;
    let mut now: i64 = 0;
    // Claimed executions suspended by the limiter, with their wake time: the
    // worker keeps the claim and the call waits, it is not given back.
    let mut suspended: Vec<(jobq::envelope::JobEnvelope, i64)> = Vec::new();
    while now < deadline {
        let mut still = Vec::new();
        for (env, wake) in suspended.into_iter() {
            if wake <= now {
                match chain.enter(env.id, &env.name, now).0 {
                    Directive::Proceed => {
                        let (outcome, _) =
                            chain.exit(env.id, &env.name, now, now, JobResult::Success);
                        assert_eq!(outcome, JobResult::Success);
                        assert!(st.ack(env.id).is_ok());
                    }
                    Directive::Wait(until) => still.push((env, until)),
                }
            } else {
                still.push((env, wake));
            }
        }
        suspended = still;
        // Five workers: as many concurrent executions at most.
        while suspended.len() < 5 {
            let worker_id = suspended.len() as u64;
            let Some(env) = st.fetch_next(worker_id, now) else { break };
            match chain.enter(env.id, &env.name, now).0 {
                Directive::Proceed => {
                    let (outcome, _) = chain.exit(env.id, &env.name, now, now, JobResult::Success);
                    assert_eq!(outcome, JobResult::Success);
                    assert!(st.ack(env.id).is_ok());
                }
                Directive::Wait(until) => suspended.push((env, until)),
            }
        }
        now += 1;
    }
    assert_eq!(st.jobs.len(), 100);
    for env in st.jobs.iter() {
        assert_eq!(env.state, JobState::Done);
        assert_eq!(env.attempts, 1, "job {} took {} attempts", env.id, env.attempts);
    }
}

/// A handler that always requests kill: the job ends Killed with one attempt.
#[test]
fn kill_requesting_handler_ends_killed_after_one_attempt() {
    let mut st = MemoryStorage::new(1000, 100, 3);
    let id = st.schedule(job("kill-me"), 0);
    let w = WorkerState::new(0, 50);
    let env = st.fetch_next(0, 0).expect("claimable");
    let (w, action) = w.step(WorkerEvent::Claimed(env));
    assert!(matches!(action, WorkerAction::Run(_)));
    // The handler asks for a kill.
    let mut ctx: JobContext<u8> = JobContext::new();
    let outcome = ctx.kill();
    let (_, action) = w.step(WorkerEvent::HandlerDone(outcome));
    assert_eq!(action, WorkerAction::CallKill(id));
    assert!(st.kill(id).is_ok());
    assert_eq!(st.jobs[0].state, JobState::Killed);
    assert_eq!(st.jobs[0].attempts, 1);
}

/// A handler that fails twice, then succeeds, with max_attempts = 3: the job
/// ends Done with exactly three attempts.
#[test]
fn fails_twice_then_succeeds_ends_done_in_three_attempts() {
    let mut st = MemoryStorage::new(1000, 0, 3);
    let id = st.schedule(job("flaky"), 0);
    let mut w = WorkerState::new(0, 50);
    let mut failures_left = 2;
    let mut now: i64 = 0;
    loop {
        let Some(env) = st.fetch_next(0, now) else {
            now += 1;
            assert!(now < 10_000, "job never finished");
            continue;
        };
        let attempts = env.attempts;
        let (w2, action) = w.step(WorkerEvent::Claimed(env));
        assert!(matches!(action, WorkerAction::Run(_)));
        let event = if failures_left > 0 {
            failures_left -= 1;
            WorkerEvent::HandlerFault
        } else {
            WorkerEvent::HandlerDone(JobResult::Success)
        };
        let (w3, action) = w2.step(event);
        w = w3;
        match action {
            WorkerAction::CallAck(a) => {
                assert_eq!(a, id);
                assert!(st.ack(a).is_ok());
                assert_eq!(attempts, 3);
                break;
            }
            WorkerAction::CallRetry(a) => {
                assert_eq!(a, id);
                assert!(st.retry(a, now).is_ok());
            }
            other => panic!("unexpected action {:?}", other),
        }
    }
    assert_eq!(st.jobs[0].state, JobState::Done);
    assert_eq!(st.jobs[0].attempts, 3);
}

/// An execution with a bound tracker reports progress to the observer.
#[test]
fn progress_reports_reach_the_observer() {
    let mut st = MemoryStorage::new(1000, 100, 3);
    let id = st.schedule(job("observed"), 0);
    let env = st.fetch_next(0, 0).expect("claimable");
    let (tx, rx) = std::sync::mpsc::channel::<JobReport>();
    let mut ctx: JobContext<u8> = JobContext::new();
    ctx.set_tracker(JobTracker::new(env.id, tx));
    // The handler reports twice, then succeeds.
    ctx.update_progress(40);
    ctx.update_progress(80);
    assert!(st.ack(id).is_ok());
    assert_eq!(rx.recv().unwrap(), JobReport { job_id: id, kind: ReportKind::Progress(40) });
    assert_eq!(rx.recv().unwrap(), JobReport { job_id: id, kind: ReportKind::Progress(80) });
}
