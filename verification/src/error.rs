//! The error taxonomy of the engine. Every per-job error is contained at the
//! worker boundary and surfaced as a state transition; only a setup failure may
//! abort a host process. Handler faults and execution timeouts are not errors
//! of the storage port: they arrive as worker events
//! ([`crate::worker::WorkerEvent::HandlerFault`],
//! [`crate::worker::WorkerEvent::HandlerTimeout`]) and are mapped to the retry
//! path, which kills at the attempt ceiling.

use vstd::prelude::*;

verus! {

/// Errors a storage backend may report.
#[derive(Clone, Copy, Debug, PartialEq, Eq, Structural)]
pub enum StorageError {
    /// Unrecoverable provisioning failure during `setup`; fatal at startup.
    Init,
    /// Transient backend unavailability; the worker backs off and goes on.
    Claim,
    /// A transition was attempted on an envelope not in the expected state (or
    /// unknown to the backend); reported and treated as a no-op, never fatal.
    StaleTransition,
}

impl StorageError {
    /// A short human-readable description, for a host's logs.
    pub fn message(&self) -> (r: &'static str)
        ensures
            self == StorageError::Init ==> r@ == "storage setup failed"@,
            self == StorageError::Claim ==> r@ == "storage temporarily unavailable"@,
            self == StorageError::StaleTransition ==> r@ == "stale state transition"@,
    {
        match self {
            StorageError::Init => "storage setup failed",
            StorageError::Claim => "storage temporarily unavailable",
            StorageError::StaleTransition => "stale state transition",
        }
    }
}

} // verus!
