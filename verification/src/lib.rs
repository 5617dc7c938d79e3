//! A fixed-size worker pool as a verified, sequential core.
//!
//! The pool is a state machine: jobs are admitted to a first-in first-out
//! hand-off queue, each worker claims the oldest job while it is idle, and a
//! closed, drained queue stops the workers. Every decision the pool takes is
//! made here and carries a contract; threads, locks and sockets belong to the
//! program around the library, which performs what the pool decides.

pub mod error;
pub mod queue;
pub mod worker;
pub mod pool;
pub mod trace;
pub mod schedule;
pub mod http;

pub use error::{ConfigError, ExecutionError, ProtocolError, SendError, TryReceiveError};
pub use pool::ThreadPool;
pub use queue::HandoffQueue;
pub use worker::{Claim, JobOutcome, Worker, WorkerState};
