//! The job model: a named, serialized unit of work, and the outcome a handler
//! reports for one execution attempt.

use vstd::prelude::*;

verus! {

/// A named, serializable unit of work. The name identifies the job type and is
/// stable across versions; the payload is the job's data, already encoded by a
/// codec the caller supplies.
pub struct Job {
    /// Stable identifier of the job type.
    pub name: String,
    /// Encoded payload; the engine carries it without interpreting it.
    pub payload: String,
}

/// The disposition a handler reports for one execution attempt.
#[derive(Clone, Copy, Debug, PartialEq, Eq, Structural)]
pub enum JobResult {
    /// The attempt succeeded; the envelope is acknowledged as Done.
    Success,
    /// The handler asks for the attempt to be retried later.
    Retry,
    /// The handler asks for the job to be killed outright.
    Kill,
}

} // verus!
