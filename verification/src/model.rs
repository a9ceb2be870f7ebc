//! The pool's protocol as a state machine over mathematical values.
//!
//! A [`PoolState`] records what is queued, where every worker stands, and the history
//! needed to say that jobs are neither lost nor repeated. Every operation of the
//! executable pool is one [`Step`] of this machine.
use crate::message::Message;
use crate::worker::WorkerState;
use vstd::prelude::*;

verus! {

/// The messages that carry `items`, in the same order.
pub open spec fn jobs<J>(items: Seq<J>) -> Seq<Message<J>> {
    Seq::new(items.len(), |i: int| Message::NewJob(items[i]))
}

/// `count` terminate signals.
pub open spec fn signals<J>(count: nat) -> Seq<Message<J>> {
    Seq::new(count, |i: int| Message::Terminate)
}

/// The state of a pool.
pub struct PoolState<J> {
    /// The pending messages, oldest first.
    pub queue: Seq<Message<J>>,
    /// Where each worker stands, by worker id.
    pub workers: Seq<WorkerState>,
    /// Whether shutdown has been signalled.
    pub stopping: bool,
    /// The job each worker is executing, by worker id.
    pub in_hand: Seq<Option<J>>,
    /// Every job ever submitted, in submission order.
    pub accepted: Seq<J>,
    /// How many jobs had been submitted when shutdown was signalled.
    pub cutoff: nat,
    /// How many jobs have been handed to workers.
    pub started: nat,
    /// The jobs that returned, in the order in which they did.
    pub completed: Seq<J>,
    /// The jobs that took their worker with them.
    pub failed: Seq<J>,
}

/// One atomic step of the protocol.
pub enum Step<J> {
    /// A caller submits a job.
    Submit(J),
    /// The owner signals shutdown.
    Shutdown,
    /// The worker with this id takes the oldest message.
    Receive(int),
    /// The job that this worker is executing returns.
    Finish(int),
    /// The job that this worker is executing does not return.
    Crash(int),
}

impl<J> Step<J> {
    /// Whether the step is taken by a worker rather than by a caller of the pool.
    pub open spec fn by_worker(self) -> bool {
        self is Receive || self is Finish || self is Crash
    }
}

impl<J> PoolState<J> {
    /// A fresh pool of `size` idle workers with nothing queued.
    pub open spec fn init(size: nat) -> Self {
        PoolState {
            queue: Seq::empty(),
            workers: Seq::new(size, |i: int| WorkerState::Idle),
            stopping: false,
            in_hand: Seq::new(size, |i: int| None),
            accepted: Seq::empty(),
            cutoff: 0,
            started: 0,
            completed: Seq::empty(),
            failed: Seq::empty(),
        }
    }

    /// The number of workers.
    pub open spec fn size(self) -> nat {
        self.workers.len()
    }

    /// How many workers are in `state`.
    pub open spec fn tally(self, state: WorkerState) -> nat {
        self.workers.to_multiset().count(state)
    }

    /// How many workers can still take a message or are executing a job.
    pub open spec fn live(self) -> nat {
        self.tally(WorkerState::Idle) + self.tally(WorkerState::Executing)
    }

    /// Whether `id` names a worker of this pool.
    pub open spec fn has_worker(self, id: int) -> bool {
        0 <= id < self.workers.len()
    }

    /// Whether worker `id` can take a message now.
    pub open spec fn can_receive(self, id: int) -> bool {
        self.has_worker(id) && self.workers[id] == WorkerState::Idle && self.queue.len() > 0
    }

    /// Whether worker `id` is executing a job.
    pub open spec fn is_executing(self, id: int) -> bool {
        self.has_worker(id) && self.workers[id] == WorkerState::Executing
    }

    /// The state after `job` was submitted.
    pub open spec fn submit(self, job: J) -> Self {
        PoolState {
            queue: self.queue.push(Message::NewJob(job)),
            accepted: self.accepted.push(job),
            ..self
        }
    }

    /// The state after shutdown was signalled: the first signal queues one terminate
    /// message per worker; later ones change nothing.
    pub open spec fn shutdown(self) -> Self {
        if self.stopping {
            self
        } else {
            PoolState {
                queue: self.queue + signals(self.size()),
                stopping: true,
                cutoff: self.accepted.len(),
                ..self
            }
        }
    }

    /// The state after worker `id` took the oldest message.
    pub open spec fn receive(self, id: int) -> Self {
        match self.queue.first() {
            Message::NewJob(job) => PoolState {
                queue: self.queue.drop_first(),
                workers: self.workers.update(id, WorkerState::Executing),
                in_hand: self.in_hand.update(id, Some(job)),
                started: self.started + 1,
                ..self
            },
            Message::Terminate => PoolState {
                queue: self.queue.drop_first(),
                workers: self.workers.update(id, WorkerState::Terminated),
                ..self
            },
        }
    }

    /// The state after the job of worker `id` returned.
    pub open spec fn finish(self, id: int) -> Self {
        PoolState {
            workers: self.workers.update(id, WorkerState::Idle),
            in_hand: self.in_hand.update(id, None),
            completed: self.completed.push(self.in_hand[id].unwrap()),
            ..self
        }
    }

    /// The state after the job of worker `id` failed to return.
    pub open spec fn crash(self, id: int) -> Self {
        PoolState {
            workers: self.workers.update(id, WorkerState::Crashed),
            in_hand: self.in_hand.update(id, None),
            failed: self.failed.push(self.in_hand[id].unwrap()),
            ..self
        }
    }

    /// Whether `step` can be taken in this state.
    pub open spec fn enabled(self, step: Step<J>) -> bool {
        match step {
            Step::Submit(_) => true,
            Step::Shutdown => true,
            Step::Receive(id) => self.can_receive(id),
            Step::Finish(id) => self.is_executing(id),
            Step::Crash(id) => self.is_executing(id),
        }
    }

    /// The state after `step`.
    pub open spec fn apply(self, step: Step<J>) -> Self {
        match step {
            Step::Submit(job) => self.submit(job),
            Step::Shutdown => self.shutdown(),
            Step::Receive(id) => self.receive(id),
            Step::Finish(id) => self.finish(id),
            Step::Crash(id) => self.crash(id),
        }
    }

    /// Whether `steps` can be taken one after the other, starting here.
    pub open spec fn admits(self, steps: Seq<Step<J>>) -> bool
        decreases steps.len(),
    {
        steps.len() == 0 || {
            &&& self.enabled(steps.first())
            &&& self.apply(steps.first()).admits(steps.drop_first())
        }
    }

    /// The state after `steps` were taken one after the other.
    pub open spec fn run(self, steps: Seq<Step<J>>) -> Self
        decreases steps.len(),
    {
        if steps.len() == 0 {
            self
        } else {
            self.apply(steps.first()).run(steps.drop_first())
        }
    }

    /// The terminate signals that no worker has consumed yet, once shutdown was signalled.
    pub open spec fn signals_left(self) -> nat {
        (self.size() - self.tally(WorkerState::Terminated)) as nat
    }

    /// The steps that workers can still take once shutdown was signalled: two for every
    /// job queued ahead of the signals (take it, finish it), one for every signal not yet
    /// consumed, one for every job in hand.
    pub open spec fn work_left(self) -> nat {
        let in_hand = self.tally(WorkerState::Executing);
        (2 * (self.cutoff - self.started) + self.signals_left() + in_hand) as nat
    }

    /// The jobs that were handed to workers so far, in the order in which they were
    /// submitted and handed out.
    pub open spec fn handed_out(self) -> Seq<J> {
        self.accepted.take(self.started as int)
    }

    /// Every job handed to a worker is accounted for exactly once: it returned, it took
    /// its worker with it, or it is still in that worker's hand.
    pub open spec fn balanced(self, job: J) -> bool {
        self.handed_out().to_multiset().count(job) == self.completed.to_multiset().count(job)
            + self.failed.to_multiset().count(job) + self.in_hand.to_multiset().count(Some(job))
    }

    /// What the queue holds, given the history: the submitted jobs that were not yet
    /// handed out, with one terminate signal per worker that has not consumed one placed
    /// where shutdown was signalled.
    pub open spec fn expected_queue(self) -> Seq<Message<J>> {
        if self.stopping {
            let ahead = self.accepted.subrange(self.started as int, self.cutoff as int);
            let behind = self.accepted.skip(self.cutoff as int);
            jobs(ahead) + signals(self.signals_left()) + jobs(behind)
        } else {
            jobs(self.accepted.skip(self.started as int))
        }
    }

    /// What holds of every state that a pool can reach.
    pub open spec fn inv(self) -> bool {
        &&& self.size() >= 1
        &&& self.in_hand.len() == self.size()
        &&& forall|i: int|
            0 <= i < self.size() ==> (#[trigger] self.in_hand[i] is Some <==> self.workers[i]
                == WorkerState::Executing)
        &&& self.started <= self.accepted.len()
        &&& self.failed.len() == self.tally(WorkerState::Crashed)
        &&& forall|job: J| #[trigger] self.balanced(job)
        &&& self.queue == self.expected_queue()
        &&& !self.stopping ==> self.tally(WorkerState::Terminated) == 0
        &&& self.stopping ==> self.started <= self.cutoff <= self.accepted.len()
        &&& self.stopping && self.started < self.cutoff ==> self.tally(WorkerState::Terminated)
            == 0
    }
}

/// A value that does not occur in a sequence counts zero times in it.
pub proof fn lemma_absent_counts_zero<A>(items: Seq<A>, value: A)
    requires
        forall|i: int| 0 <= i < items.len() ==> items[i] != value,
    ensures
        items.to_multiset().count(value) == 0,
{
    vstd::seq_lib::to_multiset_contains(items, value);
}

/// A value counts at most as often as the sequence is long, and less often when some
/// element differs from it.
pub proof fn lemma_count_bound<A>(items: Seq<A>, value: A)
    ensures
        items.to_multiset().count(value) <= items.len(),
        (exists|i: int| 0 <= i < items.len() && items[i] != value) ==> items.to_multiset().count(
            value,
        ) < items.len(),
{
    vstd::seq_lib::to_multiset_len(items);
    if exists|i: int| 0 <= i < items.len() && items[i] != value {
        let i = choose|i: int| 0 <= i < items.len() && items[i] != value;
        let other = items[i];
        vstd::seq_lib::to_multiset_contains(items, other);
        assert(items.contains(other));
        let rest = items.to_multiset().remove(other);
        assert(rest.count(value) == items.to_multiset().count(value));
        assert(rest.len() == items.len() - 1);
        assert(rest.count(value) <= rest.len());
    }
}

/// How the count of a value changes when one element of a sequence is replaced.
pub proof fn lemma_count_update<A>(items: Seq<A>, i: int, replacement: A, value: A)
    requires
        0 <= i < items.len(),
    ensures
        items.update(i, replacement).to_multiset().count(value) == items.to_multiset().count(
            value,
        ) + (if replacement == value {
            1int
        } else {
            0int
        }) - (if items[i] == value {
            1int
        } else {
            0int
        }),
{
    vstd::seq_lib::to_multiset_update(items, i, replacement);
    vstd::seq_lib::to_multiset_contains(items, items[i]);
    assert(items.contains(items[i]));
}

impl<J> PoolState<J> {
    /// A fresh pool satisfies the invariant.
    pub proof fn lemma_init_inv(size: nat)
        requires
            size >= 1,
        ensures
            Self::init(size).inv(),
    {
        let s = Self::init(size);
        lemma_absent_counts_zero(s.workers, WorkerState::Terminated);
        lemma_absent_counts_zero(s.workers, WorkerState::Crashed);
        assert forall|job: J| #[trigger] s.balanced(job) by {
            lemma_absent_counts_zero(s.in_hand, Some(job));
            lemma_absent_counts_zero(s.completed, job);
            lemma_absent_counts_zero(s.failed, job);
            lemma_absent_counts_zero(s.accepted.take(0), job);
        }
        assert(s.queue =~= s.expected_queue());
    }
}

impl<J> PoolState<J> {
    /// Submitting a job preserves the invariant.
    pub proof fn lemma_submit_inv(self, job: J)
        requires
            self.inv(),
        ensures
            self.submit(job).inv(),
    {
        let next = self.submit(job);
        assert(next.handed_out() =~= self.handed_out());
        assert forall|other: J| #[trigger] next.balanced(other) by {
            assert(self.balanced(other));
        }
        assert(next.queue =~= next.expected_queue());
    }

    /// Signalling shutdown preserves the invariant.
    pub proof fn lemma_shutdown_inv(self)
        requires
            self.inv(),
        ensures
            self.shutdown().inv(),
    {
        let next = self.shutdown();
        if !self.stopping {
            assert forall|job: J| #[trigger] next.balanced(job) by {
                assert(self.balanced(job));
            }
            assert(next.queue =~= next.expected_queue());
        }
    }

    /// A worker taking the oldest message preserves the invariant.
    pub proof fn lemma_receive_inv(self, id: int)
        requires
            self.inv(),
            self.can_receive(id),
        ensures
            self.receive(id).inv(),
    {
        let next = self.receive(id);
        lemma_count_bound(self.workers, WorkerState::Terminated);
        assert(self.workers[id] != WorkerState::Terminated);
        assert(self.signals_left() >= 1);
        assert(self.queue == self.expected_queue());
        lemma_count_update(self.workers, id, next.workers[id], WorkerState::Terminated);
        lemma_count_update(self.workers, id, next.workers[id], WorkerState::Crashed);
        match self.queue.first() {
            Message::NewJob(job) => {
                assert(self.started < self.accepted.len());
                assert(self.accepted[self.started as int] == job);
                assert(next.handed_out() =~= self.handed_out().push(job));
                assert forall|other: J| #[trigger] next.balanced(other) by {
                    assert(self.balanced(other));
                    lemma_count_update(self.in_hand, id, Some(job), Some(other));
                    vstd::seq_lib::to_multiset_build(self.handed_out(), job);
                }
                assert(next.queue =~= next.expected_queue());
            },
            Message::Terminate => {
                assert(self.stopping);
                assert(self.started == self.cutoff);
                assert forall|other: J| #[trigger] next.balanced(other) by {
                    assert(self.balanced(other));
                }
                assert(next.queue =~= next.expected_queue());
            },
        }
    }
}

impl<J> PoolState<J> {
    /// A job returning preserves the invariant.
    pub proof fn lemma_finish_inv(self, id: int)
        requires
            self.inv(),
            self.is_executing(id),
        ensures
            self.finish(id).inv(),
    {
        let next = self.finish(id);
        let job = self.in_hand[id].unwrap();
        assert(self.in_hand[id] is Some);
        lemma_count_update(self.workers, id, WorkerState::Idle, WorkerState::Terminated);
        lemma_count_update(self.workers, id, WorkerState::Idle, WorkerState::Crashed);
        assert forall|other: J| #[trigger] next.balanced(other) by {
            assert(self.balanced(other));
            lemma_count_update(self.in_hand, id, None, Some(other));
            vstd::seq_lib::to_multiset_build(self.completed, job);
        }
        assert(next.queue =~= next.expected_queue());
    }

    /// A job failing to return preserves the invariant.
    pub proof fn lemma_crash_inv(self, id: int)
        requires
            self.inv(),
            self.is_executing(id),
        ensures
            self.crash(id).inv(),
    {
        let next = self.crash(id);
        let job = self.in_hand[id].unwrap();
        assert(self.in_hand[id] is Some);
        lemma_count_update(self.workers, id, WorkerState::Crashed, WorkerState::Terminated);
        lemma_count_update(self.workers, id, WorkerState::Crashed, WorkerState::Crashed);
        assert forall|other: J| #[trigger] next.balanced(other) by {
            assert(self.balanced(other));
            lemma_count_update(self.in_hand, id, None, Some(other));
            vstd::seq_lib::to_multiset_build(self.failed, job);
        }
        assert(next.queue =~= next.expected_queue());
    }

    /// Every step that can be taken preserves the invariant.
    pub proof fn lemma_step_inv(self, step: Step<J>)
        requires
            self.inv(),
            self.enabled(step),
        ensures
            self.apply(step).inv(),
    {
        match step {
            Step::Submit(job) => self.lemma_submit_inv(job),
            Step::Shutdown => self.lemma_shutdown_inv(),
            Step::Receive(id) => self.lemma_receive_inv(id),
            Step::Finish(id) => self.lemma_finish_inv(id),
            Step::Crash(id) => self.lemma_crash_inv(id),
        }
    }

    /// Every sequence of steps that can be taken preserves the invariant.
    pub proof fn lemma_run_inv(self, steps: Seq<Step<J>>)
        requires
            self.inv(),
            self.admits(steps),
        ensures
            self.run(steps).inv(),
        decreases steps.len(),
    {
        if steps.len() > 0 {
            self.lemma_step_inv(steps.first());
            self.apply(steps.first()).lemma_run_inv(steps.drop_first());
        }
    }
}

} // verus!
