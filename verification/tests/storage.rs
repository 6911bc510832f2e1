//! The storage port on the in-memory backend: claims, transitions, locks and
//! backoff, all against a simulated clock.

use jobq::envelope::JobState;
use jobq::error::StorageError;
use jobq::job::Job;
use jobq::storage::MemoryStorage;

fn job(name: &str) -> Job {
    Job { name: String::from(name), payload: String::from("{}") }
}

#[test]
fn setup_always_succeeds() {
    let st = MemoryStorage::new(1000, 100, 3);
    assert!(st.setup().is_ok());
    assert!(st.setup().is_ok());
}

#[test]
fn fetch_respects_run_at() {
    let mut st = MemoryStorage::new(1000, 100, 3);
    let id = st.schedule(job("later"), 100);
    // Before its due time the envelope must not be claimed.
    assert!(st.fetch_next(1, 50).is_none());
    let env = st.fetch_next(1, 150).expect("due envelope should be claimed");
    assert_eq!(env.id, id);
    assert_eq!(env.state, JobState::Running);
    assert_eq!(env.attempts, 1);
    assert_eq!(env.lock_by, Some(1));
    assert_eq!(env.lock_at, Some(150));
    assert!(env.run_at <= 150);
}

#[test]
fn fetch_prefers_earliest_run_at() {
    let mut st = MemoryStorage::new(1000, 100, 3);
    let late = st.schedule(job("late"), 200);
    let early = st.schedule(job("early"), 100);
    let first = st.fetch_next(1, 300).expect("claimable");
    assert_eq!(first.id, early);
    let second = st.fetch_next(1, 300).expect("claimable");
    assert_eq!(second.id, late);
}

#[test]
fn no_second_claim_while_lock_is_fresh() {
    let mut st = MemoryStorage::new(1000, 100, 3);
    st.schedule(job("one"), 0);
    assert!(st.fetch_next(1, 10).is_some());
    // Another worker races for it while the lock is unexpired: nothing to claim.
    assert!(st.fetch_next(2, 20).is_none());
}

#[test]
fn stalled_claim_becomes_reclaimable() {
    let mut st = MemoryStorage::new(1000, 100, 3);
    let id = st.schedule(job("stall"), 0);
    let first = st.fetch_next(1, 0).expect("claimable");
    assert_eq!(first.attempts, 1);
    // Not yet stale.
    assert!(st.fetch_next(2, 999).is_none());
    // Lock taken at 0 with timeout 1000: stale from 1000 on.
    let second = st.fetch_next(2, 1000).expect("stalled claim is reclaimable");
    assert_eq!(second.id, id);
    assert_eq!(second.attempts, 2);
    assert_eq!(second.lock_by, Some(2));
}

#[test]
fn ack_marks_done_and_releases_the_lock() {
    let mut st = MemoryStorage::new(1000, 100, 3);
    let id = st.schedule(job("ok"), 0);
    st.fetch_next(1, 0).expect("claimable");
    assert!(st.ack(id).is_ok());
    assert_eq!(st.jobs[0].state, JobState::Done);
    assert_eq!(st.jobs[0].lock_by, None);
    assert_eq!(st.jobs[0].attempts, 1);
    // Done is terminal: nothing is claimable any more.
    assert!(st.fetch_next(1, 10_000).is_none());
}

#[test]
fn transitions_on_wrong_state_are_stale() {
    let mut st = MemoryStorage::new(1000, 100, 3);
    let id = st.schedule(job("pending"), 0);
    // Not running yet: every transition is stale and changes nothing.
    assert_eq!(st.ack(id), Err(StorageError::StaleTransition));
    assert_eq!(st.retry(id, 0), Err(StorageError::StaleTransition));
    assert_eq!(st.kill(id), Err(StorageError::StaleTransition));
    assert_eq!(st.heartbeat(1, id, 0), Err(StorageError::StaleTransition));
    assert_eq!(st.jobs[0].state, JobState::Pending);
    // Unknown id: stale as well.
    assert_eq!(st.ack(999), Err(StorageError::StaleTransition));
}

#[test]
fn retry_backoff_is_monotone_in_attempts() {
    let mut st = MemoryStorage::new(86_400_000, 1000, 10);
    let id = st.schedule(job("flaky"), 0);
    st.fetch_next(1, 0).expect("claimable");
    assert!(st.retry(id, 0).is_ok());
    let first_delay = st.jobs[0].run_at; // backoff after attempt 1
    assert_eq!(first_delay, 1000);
    st.fetch_next(1, first_delay).expect("due again");
    assert!(st.retry(id, first_delay).is_ok());
    let second_delay = st.jobs[0].run_at - first_delay; // backoff after attempt 2
    assert_eq!(second_delay, 2000);
    assert!(first_delay <= second_delay);
}

#[test]
fn retry_at_the_ceiling_kills_with_exact_attempts() {
    let mut st = MemoryStorage::new(1000, 0, 3);
    let id = st.schedule(job("doomed"), 0);
    for attempt in 1..=3u32 {
        let env = st.fetch_next(1, 0).expect("claimable");
        assert_eq!(env.attempts, attempt);
        assert!(st.retry(id, 0).is_ok());
    }
    // Killed via the attempt ceiling: attempts equals max_attempts exactly.
    assert_eq!(st.jobs[0].state, JobState::Killed);
    assert_eq!(st.jobs[0].attempts, 3);
    assert!(st.fetch_next(1, 10_000).is_none());
}

#[test]
fn kill_is_unconditional_on_a_running_job() {
    let mut st = MemoryStorage::new(1000, 100, 5);
    let id = st.schedule(job("victim"), 0);
    st.fetch_next(1, 0).expect("claimable");
    assert!(st.kill(id).is_ok());
    assert_eq!(st.jobs[0].state, JobState::Killed);
    assert_eq!(st.jobs[0].attempts, 1);
}

#[test]
fn heartbeat_renews_only_the_holder() {
    let mut st = MemoryStorage::new(1000, 100, 3);
    let id = st.schedule(job("slow"), 0);
    st.fetch_next(1, 0).expect("claimable");
    assert!(st.heartbeat(1, id, 500).is_ok());
    assert_eq!(st.jobs[0].lock_at, Some(500));
    // Another worker cannot renew a lock it does not hold.
    assert_eq!(st.heartbeat(2, id, 600), Err(StorageError::StaleTransition));
    assert_eq!(st.jobs[0].lock_at, Some(500));
    // A renewed lock pushes the reclaim horizon out.
    assert!(st.fetch_next(2, 1400).is_none());
    assert!(st.fetch_next(2, 1500).is_some());
}

#[test]
fn enqueue_uses_the_wall_clock() {
    let mut st = MemoryStorage::new(1000, 100, 3);
    let id = st.enqueue(job("now"));
    assert_eq!(st.jobs[0].state, JobState::Pending);
    assert_eq!(st.jobs[0].attempts, 0);
    // Due at enqueue time: claimable by the time we look again.
    let now = jobq::clock::now_clamped();
    let env = st.fetch_next(1, now).expect("claimable at the current time");
    assert_eq!(env.id, id);
}

#[test]
fn schedule_clamps_out_of_range_times() {
    let mut st = MemoryStorage::new(1000, 100, 3);
    st.schedule(job("past"), -50);
    assert_eq!(st.jobs[0].run_at, 0);
    assert!(st.fetch_next(1, 0).is_some());
}

#[test]
fn error_messages_name_the_failure() {
    assert_eq!(StorageError::Init.message(), "storage setup failed");
    assert_eq!(StorageError::Claim.message(), "storage temporarily unavailable");
    assert_eq!(StorageError::StaleTransition.message(), "stale state transition");
}

#[test]
fn schedule_assigns_fresh_ids() {
    let mut st = MemoryStorage::new(1000, 100, 3);
    let a = st.schedule(job("a"), 0);
    let b = st.schedule(job("b"), 0);
    let c = st.schedule(job("c"), 0);
    assert_eq!((a, b, c), (0, 1, 2));
    assert_eq!(st.jobs.len(), 3);
}
