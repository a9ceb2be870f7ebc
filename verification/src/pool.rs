//! The pool: a fixed set of workers, the dispatch channel that feeds them, and the
//! bookkeeping of shutdown.
use crate::channel::Channel;
use crate::message::{Dispatch, Message, PoolError};
use crate::model::{signals, PoolState, Step};
use crate::worker::{Worker, WorkerState};
use vstd::prelude::*;

verus! {

/// A pool of a fixed number of workers.
///
/// `J` is the type of a job, `H` the type of the handle by which a worker's thread is
/// joined. The pool's view is its [`PoolState`]; `threads()` lists the thread slots.
pub struct ThreadPool<J, H> {
    workers: Vec<Worker<H>>,
    channel: Channel<J>,
    stopping: bool,
    state: Ghost<PoolState<J>>,
}

impl<J, H> View for ThreadPool<J, H> {
    type V = PoolState<J>;

    closed spec fn view(&self) -> PoolState<J> {
        self.state@
    }
}

impl<J, H> ThreadPool<J, H> {
    /// The content of each worker's thread slot, by worker id.
    pub closed spec fn threads(&self) -> Seq<Option<H>> {
        Seq::new(self.workers@.len(), |i: int| self.workers@[i].spec_thread())
    }

    /// Whether `id` names a worker whose thread slot is empty.
    pub open spec fn has_empty_slot(&self, id: int) -> bool {
        0 <= id < self.threads().len() && self.threads()[id].is_none()
    }

    /// The stored workers, channel and flag are the ones that the view describes.
    pub closed spec fn consistent(&self) -> bool {
        &&& self.workers@.len() == self@.workers.len()
        &&& forall|i: int|
            0 <= i < self.workers@.len() ==> (#[trigger] self.workers@[i]).spec_id() == i
                && self.workers@[i].spec_state() == self@.workers[i]
        &&& self.channel.queue() == self@.queue
        &&& self.channel.is_open()
        &&& self.stopping == self@.stopping
    }

    /// The pool is well formed: its view satisfies the protocol's invariant and there is
    /// one thread slot per worker.
    pub open spec fn wf(&self) -> bool {
        &&& self.consistent()
        &&& self@.inv()
        &&& self.threads().len() == self@.size()
    }

    /// A pool of `size` idle workers with ids `0..size`, an empty queue and empty thread
    /// slots.
    pub fn new(size: usize) -> (pool: Self)
        requires
            size >= 1,
        ensures
            pool.wf(),
            pool@ == PoolState::<J>::init(size as nat),
            pool@.live() == size,
            pool.threads() == Seq::new(size as nat, |i: int| None::<H>),
    {
        let mut workers: Vec<Worker<H>> = Vec::new();
        let mut id: usize = 0;
        while id < size
            invariant
                id <= size,
                workers@.len() == id,
                forall|i: int|
                    0 <= i < id ==> (#[trigger] workers@[i]).spec_id() == i
                        && workers@[i].spec_state() == WorkerState::Idle
                        && workers@[i].spec_thread() == None::<H>,
            decreases size - id,
        {
            workers.push(Worker::new(id));
            id += 1;
        }
        let pool = ThreadPool {
            workers,
            channel: Channel::new(),
            stopping: false,
            state: Ghost(PoolState::init(size as nat)),
        };
        proof {
            PoolState::<J>::lemma_init_inv(size as nat);
            crate::laws::lemma_fresh_pool_is_fully_live::<J>(size as nat);
            assert(pool.threads() =~= Seq::new(size as nat, |i: int| None::<H>));
        }
        pool
    }

    /// A pool of `size` workers, or `InvalidPoolSize` when `size` is zero.
    pub fn try_new(size: usize) -> (outcome: Result<Self, PoolError>)
        ensures
            match outcome {
                Ok(pool) => {
                    &&& size >= 1
                    &&& pool.wf()
                    &&& pool@ == PoolState::<J>::init(size as nat)
                    &&& pool@.live() == size
                    &&& pool.threads() == Seq::new(size as nat, |i: int| None::<H>)
                },
                Err(error) => size == 0 && error == PoolError::InvalidPoolSize,
            },
    {
        if size == 0 {
            Err(PoolError::InvalidPoolSize)
        } else {
            Ok(Self::new(size))
        }
    }

    /// Submits `job`: it is queued behind everything that was sent before. Never blocks,
    /// returns nothing.
    pub fn execute(&mut self, job: J)
        requires
            old(self).wf(),
        ensures
            final(self).wf(),
            final(self)@ == old(self)@.submit(job),
            final(self).threads() == old(self).threads(),
    {
        proof {
            self@.lemma_submit_inv(job);
        }
        match self.channel.send(Message::NewJob(job)) {
            Ok(()) => {
                self.state = Ghost(self.state@.submit(job));
            },
            Err(_) => {
                assert(false);
            },
        }
    }

    /// Worker `id` asks for its next message.
    ///
    /// An idle worker gets the oldest message: a job to run, or the signal to exit. With
    /// nothing queued it is told to wait. A worker that is executing, terminated or
    /// crashed, or an id that names no worker, is refused and the queue is not touched.
    pub fn dispatch(&mut self, id: usize) -> (action: Dispatch<J>)
        requires
            old(self).wf(),
        ensures
            final(self).wf(),
            final(self).threads() == old(self).threads(),
            match action {
                Dispatch::Run(job) => {
                    &&& old(self)@.can_receive(id as int)
                    &&& old(self)@.queue.first() == Message::NewJob(job)
                    &&& final(self)@ == old(self)@.receive(id as int)
                },
                Dispatch::Exit => {
                    &&& old(self)@.can_receive(id as int)
                    &&& old(self)@.queue.first() == Message::<J>::Terminate
                    &&& final(self)@ == old(self)@.receive(id as int)
                },
                Dispatch::Wait => {
                    &&& old(self)@.has_worker(id as int)
                    &&& old(self)@.workers[id as int] == WorkerState::Idle
                    &&& old(self)@.queue.len() == 0
                    &&& final(self)@ == old(self)@
                },
                Dispatch::Refused => {
                    &&& !(old(self)@.has_worker(id as int) && old(self)@.workers[id as int]
                        == WorkerState::Idle)
                    &&& final(self)@ == old(self)@
                },
            },
    {
        if id >= self.workers.len() {
            return Dispatch::Refused;
        }
        match self.workers[id].state() {
            WorkerState::Idle => {},
            _ => {
                return Dispatch::Refused;
            },
        }
        match self.channel.receive() {
            Ok(Some(message)) => {
                proof {
                    old(self)@.lemma_receive_inv(id as int);
                }
                match self.workers[id].on_message(message) {
                    Ok(action) => {
                        self.state = Ghost(self.state@.receive(id as int));
                        assert(self.threads() =~= old(self).threads());
                        action
                    },
                    Err(_) => vstd::pervasive::unreached(),
                }
            },
            Ok(None) => Dispatch::Wait,
            Err(_) => vstd::pervasive::unreached(),
        }
    }

    /// Worker `id` reports that its job returned: it is idle again. Returns whether the
    /// worker was executing; otherwise nothing changes.
    pub fn complete(&mut self, id: usize) -> (done: bool)
        requires
            old(self).wf(),
        ensures
            final(self).wf(),
            final(self).threads() == old(self).threads(),
            done == old(self)@.is_executing(id as int),
            final(self)@ == (if done {
                old(self)@.finish(id as int)
            } else {
                old(self)@
            }),
    {
        if id < self.workers.len() && self.workers[id].on_job_done() {
            proof {
                old(self)@.lemma_finish_inv(id as int);
            }
            self.state = Ghost(self.state@.finish(id as int));
            assert(self.threads() =~= old(self).threads());
            true
        } else {
            assert(self.threads() =~= old(self).threads());
            false
        }
    }

    /// Worker `id` is lost to a job that did not return: it is never handed another
    /// message and is not replaced. Returns whether the worker was executing; otherwise
    /// nothing changes.
    pub fn fault(&mut self, id: usize) -> (lost: bool)
        requires
            old(self).wf(),
        ensures
            final(self).wf(),
            final(self).threads() == old(self).threads(),
            lost == old(self)@.is_executing(id as int),
            final(self)@ == (if lost {
                old(self)@.crash(id as int)
            } else {
                old(self)@
            }),
            lost ==> final(self)@.live() == old(self)@.live() - 1,
    {
        if id < self.workers.len() && self.workers[id].on_job_fault() {
            proof {
                old(self)@.lemma_crash_inv(id as int);
                crate::laws::lemma_only_crash_and_exit_cost_a_worker(
                    old(self)@,
                    Step::Crash(id as int),
                );
            }
            self.state = Ghost(self.state@.crash(id as int));
            assert(self.threads() =~= old(self).threads());
            true
        } else {
            assert(self.threads() =~= old(self).threads());
            false
        }
    }

    /// Signals shutdown: the first call queues exactly one terminate signal per worker,
    /// behind everything that was submitted before; later calls change nothing.
    pub fn shutdown(&mut self)
        requires
            old(self).wf(),
        ensures
            final(self).wf(),
            final(self).threads() == old(self).threads(),
            final(self)@ == old(self)@.shutdown(),
    {
        if !self.stopping {
            proof {
                self@.lemma_shutdown_inv();
            }
            send_signals(&mut self.channel, self.workers.len());
            self.stopping = true;
            self.state = Ghost(self.state@.shutdown());
        }
    }

    /// Puts the handle of worker `id`'s thread into its slot, to be joined at teardown.
    ///
    /// Returns `None` when the handle was stored. When `id` names no worker or the slot is
    /// already populated, nothing changes and `thread` is handed back.
    pub fn attach(&mut self, id: usize, thread: H) -> (rejected: Option<H>)
        requires
            old(self).wf(),
        ensures
            final(self).wf(),
            final(self)@ == old(self)@,
            match rejected {
                None => {
                    &&& old(self).has_empty_slot(id as int)
                    &&& final(self).threads() == old(self).threads().update(
                        id as int,
                        Some(thread),
                    )
                },
                Some(returned) => {
                    &&& returned == thread
                    &&& !old(self).has_empty_slot(id as int)
                    &&& final(self).threads() == old(self).threads()
                },
            },
    {
        if id < self.workers.len() {
            let rejected = self.workers[id].attach(thread);
            assert(rejected is None ==> self.threads() =~= old(self).threads().update(
                id as int,
                Some(thread),
            ));
            assert(rejected is Some ==> self.threads() =~= old(self).threads());
            rejected
        } else {
            Some(thread)
        }
    }

    /// Hands out the next thread to join: after shutdown was signalled, the handle of the
    /// lowest-numbered worker whose slot is still populated, with that worker's id. The
    /// slot is empty afterwards, so every handle comes out exactly once, in the order in
    /// which the workers were constructed.
    ///
    /// Returns `None` before shutdown was signalled, and when every slot is empty.
    pub fn next_join(&mut self) -> (next: Option<(usize, H)>)
        requires
            old(self).wf(),
        ensures
            final(self).wf(),
            final(self)@ == old(self)@,
            match next {
                Some((id, thread)) => {
                    &&& old(self)@.stopping
                    &&& old(self)@.has_worker(id as int)
                    &&& old(self).threads()[id as int] == Some(thread)
                    &&& forall|k: int| 0 <= k < id ==> old(self).threads()[k].is_none()
                    &&& final(self).threads() == old(self).threads().update(id as int, None)
                },
                None => {
                    &&& !old(self)@.stopping || forall|k: int|
                        0 <= k < old(self).threads().len() ==> old(self).threads()[k].is_none()
                    &&& final(self).threads() == old(self).threads()
                },
            },
    {
        if !self.stopping {
            return None;
        }
        let mut id: usize = 0;
        while id < self.workers.len()
            invariant
                self.wf(),
                self@ == old(self)@,
                self@.stopping,
                self.threads() == old(self).threads(),
                id <= self.workers@.len(),
                forall|k: int| 0 <= k < id ==> old(self).threads()[k].is_none(),
            decreases self.workers@.len() - id,
        {
            match self.workers[id].take_thread() {
                Some(thread) => {
                    assert(self.threads() =~= old(self).threads().update(id as int, None));
                    return Some((id, thread));
                },
                None => {
                    assert(self.threads() =~= old(self).threads());
                },
            }
            id += 1;
        }
        None
    }

    /// The number of workers, fixed at construction.
    pub fn size(&self) -> (size: usize)
        requires
            self.wf(),
        ensures
            size == self@.size(),
            size >= 1,
    {
        self.workers.len()
    }

    /// The number of messages waiting in the queue.
    pub fn queued(&self) -> (count: usize)
        requires
            self.wf(),
        ensures
            count == self@.queue.len(),
    {
        self.channel.len()
    }

    /// Whether shutdown has been signalled.
    pub fn is_stopping(&self) -> (stopping: bool)
        requires
            self.wf(),
        ensures
            stopping == self@.stopping,
    {
        self.stopping
    }

    /// Where worker `id` stands, or `None` when `id` names no worker.
    pub fn worker_state(&self, id: usize) -> (state: Option<WorkerState>)
        requires
            self.wf(),
        ensures
            state == (if self@.has_worker(id as int) {
                Some(self@.workers[id as int])
            } else {
                None
            }),
    {
        if id < self.workers.len() {
            Some(self.workers[id].state())
        } else {
            None
        }
    }

    /// The record of worker `id`, or `None` when `id` names no worker.
    pub fn worker(&self, id: usize) -> (worker: Option<&Worker<H>>)
        requires
            self.wf(),
        ensures
            match worker {
                Some(worker) => {
                    &&& self@.has_worker(id as int)
                    &&& worker.spec_id() == id
                    &&& worker.spec_state() == self@.workers[id as int]
                    &&& worker.spec_thread() == self.threads()[id as int]
                },
                None => !self@.has_worker(id as int),
            },
    {
        if id < self.workers.len() {
            Some(&self.workers[id])
        } else {
            None
        }
    }

    /// The number of live workers: those that are idle or executing.
    pub fn live_workers(&self) -> (count: usize)
        requires
            self.wf(),
        ensures
            count == self@.live(),
    {
        let ghost states = self@.workers;
        let mut count: usize = 0;
        let mut id: usize = 0;
        proof {
            crate::model::lemma_absent_counts_zero(states.take(0), WorkerState::Idle);
            crate::model::lemma_absent_counts_zero(states.take(0), WorkerState::Executing);
        }
        while id < self.workers.len()
            invariant
                self.wf(),
                states == self@.workers,
                id <= self.workers@.len(),
                count <= id,
                count == states.take(id as int).to_multiset().count(WorkerState::Idle)
                    + states.take(id as int).to_multiset().count(WorkerState::Executing),
            decreases self.workers@.len() - id,
        {
            proof {
                assert(states.take(id + 1) =~= states.take(id as int).push(states[id as int]));
                vstd::seq_lib::to_multiset_build(states.take(id as int), states[id as int]);
            }
            match self.workers[id].state() {
                WorkerState::Idle | WorkerState::Executing => {
                    count += 1;
                },
                _ => {},
            }
            id += 1;
        }
        assert(states.take(id as int) =~= states);
        count
    }
}

/// Queues `count` terminate signals on `channel`.
fn send_signals<J>(channel: &mut Channel<J>, count: usize)
    requires
        old(channel).is_open(),
    ensures
        final(channel).is_open(),
        final(channel).queue() == old(channel).queue() + signals::<J>(count as nat),
{
    let mut sent: usize = 0;
    while sent < count
        invariant
            sent <= count,
            channel.is_open(),
            channel.queue() == old(channel).queue() + signals::<J>(sent as nat),
        decreases count - sent,
    {
        match channel.send(Message::Terminate) {
            Ok(()) => {},
            Err(_) => {
                assert(false);
            },
        }
        sent += 1;
        assert(channel.queue() =~= old(channel).queue() + signals::<J>(sent as nat));
    }
}

} // verus!
