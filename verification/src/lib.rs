//! A fixed-size worker pool, reduced to the decisions it makes.
//!
//! The pool owns a FIFO dispatch channel and a fixed set of workers. Callers submit jobs;
//! each job is handed to exactly one idle worker; shutting the pool down queues one
//! terminate signal per worker and then yields the workers' thread handles in the order
//! in which they are to be joined.
//!
//! Everything here is sequential and deterministic: every operation is one atomic step
//! of the pool's protocol. A threaded front end serialises the steps (for instance behind
//! a lock), spawns one thread per worker, runs the jobs that [`ThreadPool::dispatch`]
//! hands out, and joins the handles that [`ThreadPool::next_join`] returns.
pub mod channel;
pub mod laws;
pub mod message;
pub mod model;
pub mod pool;
pub mod worker;

pub use channel::Channel;
pub use message::{Dispatch, Message, PoolError};
pub use pool::ThreadPool;
pub use worker::{Worker, WorkerState};
