//! The values that cross the pool's boundaries: queued messages, what a worker is told to
//! do next, and the ways an operation can fail.
use vstd::prelude::*;

verus! {

/// What travels on the dispatch channel.
#[derive(Debug, PartialEq, Eq)]
pub enum Message<J> {
    /// A unit of work for whichever worker dequeues it.
    NewJob(J),
    /// Tells the worker that dequeues it to leave its loop.
    Terminate,
}

/// What a worker that asked for its next message has to do.
#[derive(Debug, PartialEq, Eq)]
pub enum Dispatch<J> {
    /// Run this job to completion, then report back.
    Run(J),
    /// Leave the loop: the worker has consumed its terminate signal.
    Exit,
    /// Nothing is queued: block until something is sent.
    Wait,
    /// The caller is not an idle worker of this pool: nothing was handed out.
    Refused,
}

/// The fatal conditions of the pool.
#[derive(Debug, PartialEq, Eq, Clone, Copy)]
pub enum PoolError {
    /// A pool was requested with no workers.
    InvalidPoolSize,
    /// A receive found the channel empty with its sending side gone.
    ChannelClosed,
}

impl PoolError {
    /// A one-line description, for diagnostics.
    pub fn message(&self) -> (text: &'static str)
        ensures
            text@ == (match *self {
                PoolError::InvalidPoolSize => "pool size must be at least 1"@,
                PoolError::ChannelClosed => "dispatch channel closed while a worker was receiving"@,
            }),
    {
        match self {
            PoolError::InvalidPoolSize => "pool size must be at least 1",
            PoolError::ChannelClosed => "dispatch channel closed while a worker was receiving",
        }
    }
}

} // verus!
