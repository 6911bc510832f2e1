//! The execution context: extension data round-trips, tracker wiring, and the
//! handler's disposition affordances.

use jobq::context::{JobContext, JobReport, JobTracker, ReportKind};
use jobq::job::JobResult;

#[test]
fn insert_get_round_trip() {
    let mut ctx: JobContext<i64> = JobContext::new();
    assert!(ctx.data_opt(1).is_none());
    assert!(ctx.insert(1, 5).is_none());
    assert!(ctx.insert(2, 4).is_none());
    assert_eq!(ctx.data_opt(1), Some(&5));
    assert_eq!(ctx.data_opt(2), Some(&4));
}

#[test]
fn second_insert_returns_previous() {
    let mut ctx: JobContext<i64> = JobContext::new();
    assert!(ctx.insert(1, 5).is_none());
    assert_eq!(ctx.insert(1, 9), Some(5));
    assert_eq!(ctx.data_opt(1), Some(&9));
    assert_eq!(ctx.insert(1, 11), Some(9));
    assert_eq!(ctx.data_opt(1), Some(&11));
}

#[test]
fn update_progress_without_tracker_is_a_no_op() {
    let ctx: JobContext<u8> = JobContext::new();
    assert!(ctx.get_tracker().is_none());
    // No tracker bound: must neither panic nor error.
    ctx.update_progress(0);
    ctx.update_progress(50);
    ctx.update_progress(100);
}

#[test]
fn update_progress_reaches_the_observer() {
    let (tx, rx) = std::sync::mpsc::channel::<JobReport>();
    let mut ctx: JobContext<u8> = JobContext::new();
    ctx.set_tracker(JobTracker::new(7, tx));
    ctx.update_progress(42);
    let got = rx.recv().expect("a report should have been sent");
    assert_eq!(got, JobReport { job_id: 7, kind: ReportKind::Progress(42) });
}

#[test]
fn dropped_observer_is_tolerated() {
    let (tx, rx) = std::sync::mpsc::channel::<JobReport>();
    drop(rx);
    let mut ctx: JobContext<u8> = JobContext::new();
    ctx.set_tracker(JobTracker::new(7, tx));
    // The receiving end is gone: the send is dropped, the handler unharmed.
    ctx.update_progress(99);
}

#[test]
fn clone_rebuilds_data_but_keeps_the_tracker() {
    let (tx, _rx) = std::sync::mpsc::channel::<JobReport>();
    let mut ctx: JobContext<i64> = JobContext::new();
    ctx.insert(1, 5);
    ctx.set_tracker(JobTracker::new(3, tx));
    let copy = ctx.clone();
    assert!(copy.data_opt(1).is_none());
    assert!(copy.get_tracker().is_some());
}

#[test]
fn default_context_is_fresh() {
    let ctx: JobContext<i64> = JobContext::default();
    assert!(ctx.data_opt(0).is_none());
    assert!(ctx.get_tracker().is_none());
}

#[test]
fn disposition_affordances() {
    let mut ctx: JobContext<u8> = JobContext::new();
    assert_eq!(ctx.ack(), JobResult::Success);
    assert_eq!(ctx.retry(), JobResult::Retry);
    assert_eq!(ctx.kill(), JobResult::Kill);
}

#[test]
fn report_constructors() {
    assert_eq!(
        JobReport::progress(1, 10),
        JobReport { job_id: 1, kind: ReportKind::Progress(10) }
    );
    assert_eq!(JobReport::completed(2), JobReport { job_id: 2, kind: ReportKind::Completed });
    assert_eq!(JobReport::failed(3), JobReport { job_id: 3, kind: ReportKind::Failed });
}
