//! A background job processing engine: typed units of work are enqueued into a
//! durable queue, claimed and executed by a pool of workers, and driven through
//! a verified job-state machine with retry, kill and progress reporting.
//!
//! The pieces, leaves first: the job model ([`job`]), the persisted envelope
//! and its state machine ([`envelope`]), the storage port on an in-memory
//! backend ([`storage`]), the per-execution context and tracker channel
//! ([`context`]), the rate limiter ([`limiter`]) and the middleware chain
//! ([`layer`]) around each invocation, the worker decision core ([`worker`]),
//! and the supervising monitor ([`monitor`]). A host drives the workers: it
//! performs each decided action (claim, sleep, run a handler, call storage)
//! and hands the result back as the next event, so all outside work — waiting,
//! I/O inside handlers — stays with the host while every decision is verified.

pub mod clock;
pub mod context;
pub mod envelope;
pub mod error;
pub mod job;
pub mod layer;
pub mod limiter;
pub mod monitor;
pub mod storage;
pub mod worker;
