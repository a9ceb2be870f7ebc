//! One worker of the pool: its identity, where it stands in its loop, and the slot that
//! holds its thread handle until the pool joins it.
use crate::message::{Dispatch, Message};
use vstd::prelude::*;

verus! {

/// Where a worker stands in its loop.
///
/// A worker moves `Idle -> Executing -> Idle -> ..` and leaves the loop only from `Idle`,
/// by consuming a terminate signal. A job that does not return takes its worker with it:
/// the worker is `Crashed`, consumes nothing more and is never replaced.
#[derive(Debug, Clone, Copy, PartialEq, Eq, Structural)]
pub enum WorkerState {
    /// Waiting for the next message.
    Idle,
    /// Running the one job it was handed.
    Executing,
    /// Left the loop after consuming a terminate signal.
    Terminated,
    /// Lost to a job that did not return.
    Crashed,
}

/// A worker record. `H` is the type of the handle by which its thread is joined.
pub struct Worker<H> {
    id: usize,
    state: WorkerState,
    thread: Option<H>,
}

impl<H> Worker<H> {
    /// The worker's index within its pool.
    pub closed spec fn spec_id(&self) -> usize {
        self.id
    }

    /// Where the worker stands in its loop.
    pub closed spec fn spec_state(&self) -> WorkerState {
        self.state
    }

    /// The content of the thread slot.
    pub closed spec fn spec_thread(&self) -> Option<H> {
        self.thread
    }

    /// A worker that waits for its first message and has no thread attached yet.
    pub fn new(id: usize) -> (worker: Self)
        ensures
            worker.spec_id() == id,
            worker.spec_state() == WorkerState::Idle,
            worker.spec_thread() == None::<H>,
    {
        Worker { id, state: WorkerState::Idle, thread: None }
    }

    /// The worker's index within its pool.
    pub fn id(&self) -> (id: usize)
        ensures
            id == self.spec_id(),
    {
        self.id
    }

    /// Where the worker stands in its loop.
    pub fn state(&self) -> (state: WorkerState)
        ensures
            state == self.spec_state(),
    {
        self.state
    }

    /// Whether a thread handle is waiting in the slot.
    pub fn has_thread(&self) -> (populated: bool)
        ensures
            populated == self.spec_thread().is_some(),
    {
        self.thread.is_some()
    }

    /// The decision at the head of the worker's loop.
    ///
    /// An idle worker that dequeued a job starts executing it; one that dequeued a
    /// terminate signal leaves the loop. A worker that is not idle takes no message: it
    /// gets `message` back and stays as it is.
    pub fn on_message<J>(&mut self, message: Message<J>) -> (outcome: Result<
        Dispatch<J>,
        Message<J>,
    >)
        ensures
            final(self).spec_id() == old(self).spec_id(),
            final(self).spec_thread() == old(self).spec_thread(),
            match outcome {
                Ok(action) => {
                    &&& old(self).spec_state() == WorkerState::Idle
                    &&& match message {
                        Message::NewJob(job) => {
                            &&& action == Dispatch::Run(job)
                            &&& final(self).spec_state() == WorkerState::Executing
                        },
                        Message::Terminate => {
                            &&& action == Dispatch::<J>::Exit
                            &&& final(self).spec_state() == WorkerState::Terminated
                        },
                    }
                },
                Err(returned) => {
                    &&& old(self).spec_state() != WorkerState::Idle
                    &&& returned == message
                    &&& final(self).spec_state() == old(self).spec_state()
                },
            },
    {
        match self.state {
            WorkerState::Idle => match message {
                Message::NewJob(job) => {
                    self.state = WorkerState::Executing;
                    Ok(Dispatch::Run(job))
                },
                Message::Terminate => {
                    self.state = WorkerState::Terminated;
                    Ok(Dispatch::Exit)
                },
            },
            _ => Err(message),
        }
    }

    /// The job in hand returned: an executing worker is idle again. Returns whether the
    /// worker was executing; otherwise nothing changes.
    pub fn on_job_done(&mut self) -> (was_executing: bool)
        ensures
            was_executing == (old(self).spec_state() == WorkerState::Executing),
            final(self).spec_state() == (if was_executing {
                WorkerState::Idle
            } else {
                old(self).spec_state()
            }),
            final(self).spec_id() == old(self).spec_id(),
            final(self).spec_thread() == old(self).spec_thread(),
    {
        match self.state {
            WorkerState::Executing => {
                self.state = WorkerState::Idle;
                true
            },
            _ => false,
        }
    }

    /// The job in hand did not return: an executing worker is lost. Returns whether the
    /// worker was executing; otherwise nothing changes.
    pub fn on_job_fault(&mut self) -> (was_executing: bool)
        ensures
            was_executing == (old(self).spec_state() == WorkerState::Executing),
            final(self).spec_state() == (if was_executing {
                WorkerState::Crashed
            } else {
                old(self).spec_state()
            }),
            final(self).spec_id() == old(self).spec_id(),
            final(self).spec_thread() == old(self).spec_thread(),
    {
        match self.state {
            WorkerState::Executing => {
                self.state = WorkerState::Crashed;
                true
            },
            _ => false,
        }
    }

    /// Puts `thread` into an empty slot and returns `None`. A populated slot keeps what
    /// it holds and `thread` is handed back.
    pub fn attach(&mut self, thread: H) -> (rejected: Option<H>)
        ensures
            final(self).spec_id() == old(self).spec_id(),
            final(self).spec_state() == old(self).spec_state(),
            match rejected {
                None => {
                    &&& old(self).spec_thread().is_none()
                    &&& final(self).spec_thread() == Some(thread)
                },
                Some(returned) => {
                    &&& old(self).spec_thread().is_some()
                    &&& returned == thread
                    &&& final(self).spec_thread() == old(self).spec_thread()
                },
            },
    {
        if self.thread.is_some() {
            Some(thread)
        } else {
            self.thread = Some(thread);
            None
        }
    }

    /// Moves the thread handle out of the slot. The slot is empty afterwards, so a handle
    /// comes out at most once.
    pub fn take_thread(&mut self) -> (thread: Option<H>)
        ensures
            thread == old(self).spec_thread(),
            final(self).spec_thread() == None::<H>,
            final(self).spec_id() == old(self).spec_id(),
            final(self).spec_state() == old(self).spec_state(),
    {
        self.thread.take()
    }
}

} // verus!
