//! The per-execution context a handler runs with: a key-addressed, single-slot
//! data bag plus an optional progress-tracking handle, and the report channel
//! the tracker sends on.
//!
//! The bag holds at most one value per key; a key stands for one kind of
//! extension data, so a second insert under the same key replaces the value and
//! hands the previous one back.

use vstd::prelude::*;
use crate::job::JobResult;

verus! {

/// Keys of a slot sequence never repeat.
pub open spec fn keys_unique<D>(s: Seq<(u64, D)>) -> bool {
    forall|i: int, j: int| 0 <= i < j < s.len() ==> (#[trigger] s[i]).0 != (#[trigger] s[j]).0
}

/// Some slot carries key `k`.
pub open spec fn seq_has_key<D>(s: Seq<(u64, D)>, k: u64) -> bool {
    exists|i: int| 0 <= i < s.len() && (#[trigger] s[i]).0 == k
}

/// The index of the slot carrying key `k` (unique when keys are unique).
pub open spec fn seq_key_index<D>(s: Seq<(u64, D)>, k: u64) -> int {
    choose|i: int| 0 <= i < s.len() && (#[trigger] s[i]).0 == k
}

/// The map a slot sequence denotes: each present key to the value beside it.
pub open spec fn view_of<D>(s: Seq<(u64, D)>) -> Map<u64, D> {
    Map::new(|k: u64| seq_has_key(s, k), |k: u64| s[seq_key_index(s, k)].1)
}

/// With unique keys, the slot at `i` is what the denoted map holds at its key.
proof fn lemma_key_at<D>(s: Seq<(u64, D)>, i: int)
    requires
        keys_unique(s),
        0 <= i < s.len(),
    ensures
        seq_has_key(s, s[i].0),
        seq_key_index(s, s[i].0) == i,
        view_of(s).contains_key(s[i].0),
        view_of(s)[s[i].0] == s[i].1,
{
    let k = s[i].0;
    assert(seq_has_key(s, k));
    let j = seq_key_index(s, k);
    assert(0 <= j < s.len() && s[j].0 == k);
    if i < j {
        assert(s[i].0 != s[j].0);
    } else if j < i {
        assert(s[j].0 != s[i].0);
    }
}

/// A key no slot carries is absent from the denoted map.
proof fn lemma_key_absent<D>(s: Seq<(u64, D)>, k: u64)
    requires
        forall|i: int| 0 <= i < s.len() ==> (#[trigger] s[i]).0 != k,
    ensures
        !seq_has_key(s, k),
        !view_of(s).contains_key(k),
{
    if seq_has_key(s, k) {
        let w = choose|i: int| 0 <= i < s.len() && (#[trigger] s[i]).0 == k;
        assert(s[w].0 != k);
    }
}

/// Appending a fresh key extends the denoted map by exactly that binding.
proof fn lemma_view_push<D>(s: Seq<(u64, D)>, k: u64, d: D)
    requires
        keys_unique(s),
        !seq_has_key(s, k),
    ensures
        keys_unique(s.push((k, d))),
        view_of(s.push((k, d))) == view_of(s).insert(k, d),
{
    let s2 = s.push((k, d));
    let n = s.len() as int;
    assert forall|i: int, j: int| 0 <= i < j < s2.len() implies (#[trigger] s2[i]).0
        != (#[trigger] s2[j]).0 by {
        if j < n {
            assert(s2[i] == s[i]);
            assert(s2[j] == s[j]);
        } else {
            assert(s2[i] == s[i]);
            if s[i].0 == k {
                assert(seq_has_key(s, k));
            }
        }
    }
    assert forall|q: u64| #[trigger] view_of(s2).contains_key(q) implies view_of(s).insert(
        k,
        d,
    ).contains_key(q) && view_of(s2)[q] == view_of(s).insert(k, d)[q] by {
        let w = seq_key_index(s2, q);
        assert(0 <= w < s2.len() && s2[w].0 == q);
        lemma_key_at(s2, w);
        if w == n {
            assert(s2[w] == (k, d));
        } else {
            assert(s2[w] == s[w]);
            lemma_key_at(s, w);
            if q == k {
                assert(seq_has_key(s, k));
            }
        }
    }
    assert forall|q: u64| #[trigger] view_of(s).insert(k, d).contains_key(q) implies view_of(
        s2,
    ).contains_key(q) by {
        if q == k {
            assert(s2[n].0 == k);
            assert(seq_has_key(s2, q));
        } else {
            let w = seq_key_index(s, q);
            assert(0 <= w < s.len() && s[w].0 == q);
            assert(s2[w] == s[w]);
            assert(seq_has_key(s2, q));
        }
    }
    assert(view_of(s2) =~= view_of(s).insert(k, d));
}

/// Removing the slot at `i` removes exactly its key from the denoted map.
proof fn lemma_view_remove<D>(s: Seq<(u64, D)>, i: int)
    requires
        keys_unique(s),
        0 <= i < s.len(),
    ensures
        keys_unique(s.remove(i)),
        !seq_has_key(s.remove(i), s[i].0),
        view_of(s.remove(i)) == view_of(s).remove(s[i].0),
{
    let k = s[i].0;
    let sr = s.remove(i);
    assert forall|a: int, b: int| 0 <= a < b < sr.len() implies (#[trigger] sr[a]).0
        != (#[trigger] sr[b]).0 by {
        let a2: int = if a < i { a } else { a + 1 };
        let b2: int = if b < i { b } else { b + 1 };
        assert(sr[a] == s[a2]);
        assert(sr[b] == s[b2]);
    }
    assert forall|j: int| 0 <= j < sr.len() implies (#[trigger] sr[j]).0 != k by {
        let j2: int = if j < i { j } else { j + 1 };
        assert(sr[j] == s[j2]);
        if j2 < i {
            assert(s[j2].0 != s[i].0);
        } else {
            assert(s[i].0 != s[j2].0);
        }
    }
    lemma_key_absent(sr, k);
    assert forall|q: u64| #[trigger] view_of(sr).contains_key(q) implies view_of(s).remove(
        k,
    ).contains_key(q) && view_of(sr)[q] == view_of(s).remove(k)[q] by {
        let w = seq_key_index(sr, q);
        assert(0 <= w < sr.len() && sr[w].0 == q);
        lemma_key_at(sr, w);
        let w2: int = if w < i { w } else { w + 1 };
        assert(sr[w] == s[w2]);
        lemma_key_at(s, w2);
    }
    assert forall|q: u64| #[trigger] view_of(s).remove(k).contains_key(q) implies view_of(
        sr,
    ).contains_key(q) by {
        let w = seq_key_index(s, q);
        assert(0 <= w < s.len() && s[w].0 == q);
        if w < i {
            assert(sr[w] == s[w]);
            assert(seq_has_key(sr, q));
        } else {
            assert(w != i);
            assert(sr[w - 1] == s[w]);
            assert(seq_has_key(sr, q));
        }
    }
    assert(view_of(sr) =~= view_of(s).remove(k));
}

/// A key-addressed, single-slot data bag: at most one value per key.
pub struct Extensions<D> {
    slots: Vec<(u64, D)>,
}

impl<D> View for Extensions<D> {
    type V = Map<u64, D>;

    closed spec fn view(&self) -> Map<u64, D> {
        view_of(self.slots@)
    }
}

impl<D> Extensions<D> {
    /// Well-formedness: no key occupies two slots.
    pub closed spec fn wf(&self) -> bool {
        keys_unique(self.slots@)
    }

    /// An empty bag.
    pub fn new() -> (r: Extensions<D>)
        ensures
            r.wf(),
            r@ == Map::<u64, D>::empty(),
    {
        let r = Extensions { slots: Vec::new() };
        proof {
            assert(r@ =~= Map::<u64, D>::empty());
        }
        r
    }

    /// The slot holding `key`, if one does.
    fn find_slot(&self, key: u64) -> (r: Option<usize>)
        ensures
            match r {
                Some(i) => i < self.slots@.len() && self.slots@[i as int].0 == key,
                None => forall|j: int|
                    0 <= j < self.slots@.len() ==> (#[trigger] self.slots@[j]).0 != key,
            },
    {
        let n = self.slots.len();
        let mut i: usize = 0;
        while i < n
            invariant
                n == self.slots@.len(),
                0 <= i <= n,
                forall|j: int| 0 <= j < i ==> (#[trigger] self.slots@[j]).0 != key,
            decreases n - i,
        {
            if self.slots[i].0 == key {
                return Some(i);
            }
            i += 1;
        }
        None
    }

    /// The value stored under `key`, if any.
    pub fn get(&self, key: u64) -> (r: Option<&D>)
        requires
            self.wf(),
        ensures
            match r {
                Some(v) => self@.contains_key(key) && *v == self@[key],
                None => !self@.contains_key(key),
            },
    {
        match self.find_slot(key) {
            Some(i) => {
                proof {
                    lemma_key_at(self.slots@, i as int);
                }
                Some(&self.slots[i].1)
            },
            None => {
                proof {
                    lemma_key_absent(self.slots@, key);
                }
                None
            },
        }
    }

    /// Stores `data` under `key`. If the bag already held a value under that
    /// key, the new value replaces it and the previous one is returned.
    pub fn insert(&mut self, key: u64, data: D) -> (r: Option<D>)
        requires
            old(self).wf(),
        ensures
            final(self).wf(),
            final(self)@ == old(self)@.insert(key, data),
            r == if old(self)@.contains_key(key) {
                Some(old(self)@[key])
            } else {
                None::<D>
            },
    {
        let ghost s0 = self.slots@;
        match self.find_slot(key) {
            Some(i) => {
                proof {
                    lemma_key_at(s0, i as int);
                    lemma_view_remove(s0, i as int);
                }
                let prev = self.slots.remove(i);
                proof {
                    lemma_view_push(s0.remove(i as int), key, data);
                }
                self.slots.push((key, data));
                proof {
                    assert(view_of(s0).remove(key).insert(key, data) =~= view_of(s0).insert(
                        key,
                        data,
                    ));
                }
                Some(prev.1)
            },
            None => {
                proof {
                    lemma_key_absent(s0, key);
                    lemma_view_push(s0, key, data);
                }
                self.slots.push((key, data));
                None
            },
        }
    }
}

/// The round-trip law of the extension bag, at the level of its view: a stored
/// value is found unchanged under its key, a store under one key leaves every
/// other key as it was, and a second store under the same key replaces the
/// value (`insert`'s contract returns the previous one at that point).
pub proof fn lemma_extensions_round_trip<D>(m: Map<u64, D>, k: u64, k2: u64, v: D, w: D)
    requires
        k2 != k,
    ensures
        m.insert(k, v).contains_key(k),
        m.insert(k, v)[k] == v,
        m.insert(k, v).contains_key(k2) == m.contains_key(k2),
        m.contains_key(k2) ==> m.insert(k, v)[k2] == m[k2],
        m.insert(k, v).insert(k, w)[k] == w,
        m.insert(k, v).insert(k, w) == m.insert(k, w),
{
    assert(m.insert(k, v).insert(k, w) =~= m.insert(k, w));
}

/// What a job report announces.
#[derive(Clone, Copy, Debug, PartialEq, Eq, Structural)]
pub enum ReportKind {
    /// The handler reports being this many percent done.
    Progress(u8),
    /// The execution completed.
    Completed,
    /// The execution failed.
    Failed,
}

/// An event an in-flight job emits over the tracker channel; the engine
/// delivers it without interpreting it.
#[derive(Clone, Copy, Debug, PartialEq, Eq, Structural)]
pub struct JobReport {
    /// The id of the envelope the report is about.
    pub job_id: u64,
    /// What is being announced.
    pub kind: ReportKind,
}

impl JobReport {
    /// A progress report for `job_id`.
    pub fn progress(job_id: u64, percent: u8) -> (r: JobReport)
        ensures
            r == (JobReport { job_id, kind: ReportKind::Progress(percent) }),
    {
        JobReport { job_id, kind: ReportKind::Progress(percent) }
    }

    /// A completion report for `job_id`.
    pub fn completed(job_id: u64) -> (r: JobReport)
        ensures
            r == (JobReport { job_id, kind: ReportKind::Completed }),
    {
        JobReport { job_id, kind: ReportKind::Completed }
    }

    /// A failure report for `job_id`.
    pub fn failed(job_id: u64) -> (r: JobReport)
        ensures
            r == (JobReport { job_id, kind: ReportKind::Failed }),
    {
        JobReport { job_id, kind: ReportKind::Failed }
    }
}

#[verifier::external_type_specification]
#[verifier::external_body]
#[verifier::reject_recursive_types(T)]
pub struct ExSender<T>(std::sync::mpsc::Sender<T>);

/// Relies on `std::sync::mpsc::Sender::send`: queues `report` for the observer
/// holding the receiving end, or drops it if that end is gone; returns at once
/// either way. Fire-and-forget with best-effort delivery, so nothing is
/// promised of the outcome.
#[verifier::external_body]
fn send_report(addr: &std::sync::mpsc::Sender<JobReport>, report: JobReport) {
    let _ = addr.send(report);
}

/// Relies on `std::sync::mpsc::Sender::clone`: another sending handle to the
/// same channel; the handle is opaque, so nothing is stated of it.
#[verifier::external_body]
fn clone_sender(addr: &std::sync::mpsc::Sender<JobReport>) -> std::sync::mpsc::Sender<JobReport> {
    addr.clone()
}

/// A handle an in-flight job reports progress through: the job's id bound to
/// the sending end of the observer's report channel.
pub struct JobTracker {
    job_id: u64,
    addr: std::sync::mpsc::Sender<JobReport>,
}

impl JobTracker {
    /// The id of the job this tracker is bound to.
    pub closed spec fn spec_job_id(&self) -> u64 {
        self.job_id
    }

    /// A tracker for the envelope carrying `job_id`, reporting to `addr`.
    pub fn new(job_id: u64, addr: std::sync::mpsc::Sender<JobReport>) -> (r: JobTracker)
        ensures
            r.spec_job_id() == job_id,
    {
        JobTracker { job_id, addr }
    }

    /// Emits a progress report for the bound job; fire-and-forget.
    fn update_progress(&self, progress: u8) {
        let report = JobReport::progress(self.job_id, progress);
        send_report(&self.addr, report);
    }
}

impl Clone for JobTracker {
    /// Another handle to the same observer, bound to the same job.
    fn clone(&self) -> (res: Self)
        ensures
            res.spec_job_id() == self.spec_job_id(),
    {
        JobTracker { job_id: self.job_id, addr: clone_sender(&self.addr) }
    }
}

/// The context one execution of one job runs with: extension data scoped to
/// this attempt, and an optional progress-tracking handle.
pub struct JobContext<D> {
    data: Extensions<D>,
    job_tracker: Option<JobTracker>,
}

impl<D> View for JobContext<D> {
    type V = Map<u64, D>;

    /// A context is viewed as its extension data.
    closed spec fn view(&self) -> Map<u64, D> {
        self.data@
    }
}

impl<D> JobContext<D> {
    /// Well-formedness: the extension bag holds at most one value per key.
    pub closed spec fn wf(&self) -> bool {
        self.data.wf()
    }

    /// The tracker bound to this context, if any.
    pub closed spec fn spec_tracker(&self) -> Option<JobTracker> {
        self.job_tracker
    }

    /// A fresh context: no extension data, no tracker bound.
    pub fn new() -> (r: JobContext<D>)
        ensures
            r.wf(),
            r@ == Map::<u64, D>::empty(),
            r.spec_tracker() is None,
    {
        JobContext { data: Extensions::new(), job_tracker: None }
    }

    /// The extension value stored under `key`, if any.
    pub fn data_opt(&self, key: u64) -> (r: Option<&D>)
        requires
            self.wf(),
        ensures
            match r {
                Some(v) => self@.contains_key(key) && *v == self@[key],
                None => !self@.contains_key(key),
            },
    {
        self.data.get(key)
    }

    /// Stores extension data under `key` for this execution; a value already
    /// stored under that key is replaced and returned.
    pub fn insert(&mut self, key: u64, data: D) -> (r: Option<D>)
        requires
            old(self).wf(),
        ensures
            final(self).wf(),
            final(self)@ == old(self)@.insert(key, data),
            final(self).spec_tracker() == old(self).spec_tracker(),
            r == if old(self)@.contains_key(key) {
                Some(old(self)@[key])
            } else {
                None::<D>
            },
    {
        self.data.insert(key, data)
    }

    /// Binds a tracker, through which `update_progress` will report.
    pub fn set_tracker(&mut self, tracker: JobTracker)
        ensures
            final(self)@ == old(self)@,
            final(self).wf() == old(self).wf(),
            final(self).spec_tracker() == Some(tracker),
    {
        self.job_tracker = Some(tracker);
    }

    /// The tracker bound to this context, if any.
    pub fn get_tracker(&self) -> (r: &Option<JobTracker>)
        ensures
            *r == self.spec_tracker(),
    {
        &self.job_tracker
    }

    /// Emits a progress report for this job if a tracker is bound; a safe
    /// no-op otherwise. Never blocks on the observer and never fails the
    /// handler.
    pub fn update_progress(&self, progress: u8) {
        match &self.job_tracker {
            Some(tracker) => {
                tracker.update_progress(progress);
            },
            None => {},
        }
    }

    /// The handler's way to declare this attempt succeeded.
    pub fn ack(&mut self) -> (r: JobResult)
        ensures
            *final(self) == *old(self),
            r == JobResult::Success,
    {
        JobResult::Success
    }

    /// The handler's way to ask for the attempt to be retried.
    pub fn retry(&mut self) -> (r: JobResult)
        ensures
            *final(self) == *old(self),
            r == JobResult::Retry,
    {
        JobResult::Retry
    }

    /// The handler's way to ask for the job to be killed.
    pub fn kill(&mut self) -> (r: JobResult)
        ensures
            *final(self) == *old(self),
            r == JobResult::Kill,
    {
        JobResult::Kill
    }
}

impl<D> Default for JobContext<D> {
    /// The default context is the fresh one.
    fn default() -> (r: Self)
        ensures
            r.wf(),
            r@ == Map::<u64, D>::empty(),
            r.spec_tracker() is None,
    {
        JobContext::new()
    }
}

impl<D> Clone for JobContext<D> {
    /// A context for a fresh attempt of the same job: extension data is scoped
    /// to one execution and so starts empty (it is reloaded by layers), while
    /// the tracker handle carries over to the same observer.
    fn clone(&self) -> (res: Self)
        ensures
            res.wf(),
            res@ == Map::<u64, D>::empty(),
            res.spec_tracker() is Some <==> self.spec_tracker() is Some,
            res.spec_tracker() is Some ==> res.spec_tracker().unwrap().spec_job_id()
                == self.spec_tracker().unwrap().spec_job_id(),
    {
        JobContext {
            data: Extensions::new(),
            job_tracker: match &self.job_tracker {
                Some(t) => Some(t.clone()),
                None => None,
            },
        }
    }
}

} // verus!
