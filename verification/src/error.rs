//! The failures the pool reports to its callers.

use vstd::prelude::*;

verus! {

/// A pool was requested with no workers.
#[derive(Clone, Copy, Debug, PartialEq, Eq, Structural)]
pub struct ConfigError;

/// A job could not be admitted because the queue no longer delivers; the
/// job is handed back to the submitter.
#[derive(Debug, PartialEq, Eq)]
pub struct SendError<J>(pub J);

/// Why a receive attempt produced no job.
#[derive(Clone, Copy, Debug, PartialEq, Eq, Structural)]
pub enum TryReceiveError {
    /// No job is queued, but the producer may still submit one.
    Empty,
    /// No job is queued and none will ever arrive.
    Disconnected,
}

/// A job failed while a worker ran it. The failure stays with that worker,
/// which goes on to its next job.
#[derive(Clone, Copy, Debug, PartialEq, Eq, Structural)]
pub struct ExecutionError {
    /// The ordinal of the worker that ran the job.
    pub worker: usize,
}

/// A worker step that does not fit the worker's place in its loop.
#[derive(Clone, Copy, Debug, PartialEq, Eq, Structural)]
pub enum ProtocolError {
    /// The pool has no worker with that ordinal.
    UnknownWorker,
    /// Only an idle worker may fetch a job.
    NotIdle,
    /// Only an executing worker may finish a job.
    NotExecuting,
}

} // verus!
