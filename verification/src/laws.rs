//! What holds of every pool, whatever the order in which callers and workers take their
//! steps.
use crate::message::Message;
use crate::model::{lemma_absent_counts_zero, lemma_count_bound, lemma_count_update};
use crate::model::{PoolState, Step};
use crate::worker::WorkerState;
use vstd::prelude::*;

verus! {

/// How many of `steps` are taken by workers.
pub open spec fn worker_steps<J>(steps: Seq<Step<J>>) -> nat
    decreases steps.len(),
{
    if steps.len() == 0 {
        0
    } else {
        worker_steps(steps.drop_first()) + if steps.first().by_worker() {
            1nat
        } else {
            0nat
        }
    }
}

/// A value that fills a whole sequence counts as often as the sequence is long.
proof fn lemma_constant_count<A>(items: Seq<A>, value: A)
    requires
        forall|i: int| 0 <= i < items.len() ==> items[i] == value,
    ensures
        items.to_multiset().count(value) == items.len(),
    decreases items.len(),
{
    if items.len() == 0 {
        lemma_absent_counts_zero(items, value);
    } else {
        let front = items.drop_last();
        lemma_constant_count(front, value);
        assert(items =~= front.push(value));
        vstd::seq_lib::to_multiset_build(front, value);
    }
}

/// Every state that a pool of at least one worker reaches from its construction, by any
/// interleaving of submissions, shutdown signals and worker steps, satisfies the
/// invariant.
pub proof fn lemma_reachable_states_are_invariant<J>(size: nat, steps: Seq<Step<J>>)
    requires
        size >= 1,
        PoolState::<J>::init(size).admits(steps),
    ensures
        PoolState::<J>::init(size).run(steps).inv(),
{
    PoolState::<J>::lemma_init_inv(size);
    PoolState::<J>::init(size).lemma_run_inv(steps);
}

/// A freshly constructed pool of `size` workers has exactly `size` live workers, all of
/// them idle, and nothing queued.
pub proof fn lemma_fresh_pool_is_fully_live<J>(size: nat)
    ensures
        PoolState::<J>::init(size).size() == size,
        PoolState::<J>::init(size).live() == size,
        PoolState::<J>::init(size).tally(WorkerState::Idle) == size,
        PoolState::<J>::init(size).queue.len() == 0,
{
    let s = PoolState::<J>::init(size);
    lemma_constant_count(s.workers, WorkerState::Idle);
    lemma_absent_counts_zero(s.workers, WorkerState::Executing);
}

/// At every moment, every job that was handed to a worker is accounted for exactly once:
/// it has returned, it has taken its worker with it, or it is in that worker's hand. No
/// job is counted more often than it was submitted.
pub proof fn lemma_no_job_is_lost_or_repeated<J>(s: PoolState<J>, job: J)
    requires
        s.inv(),
    ensures
        s.completed.to_multiset().count(job) + s.failed.to_multiset().count(job)
            + s.in_hand.to_multiset().count(Some(job)) == s.handed_out().to_multiset().count(job),
        s.handed_out().to_multiset().count(job) <= s.accepted.to_multiset().count(job),
{
    assert(s.balanced(job));
    let head = s.accepted.take(s.started as int);
    let tail = s.accepted.skip(s.started as int);
    assert(s.accepted =~= head + tail);
    vstd::seq_lib::lemma_multiset_commutative(head, tail);
}

/// Once every worker has terminated, every job that was submitted before shutdown was
/// signalled has run to completion exactly once, and none has failed. Where nothing was
/// submitted after the signal, these are all the jobs that were ever submitted.
pub proof fn lemma_every_job_runs_exactly_once<J>(s: PoolState<J>)
    requires
        s.inv(),
        s.tally(WorkerState::Terminated) == s.size(),
    ensures
        s.stopping,
        s.started == s.cutoff,
        s.failed.len() == 0,
        s.completed.len() == s.cutoff,
        s.completed.to_multiset() == s.accepted.take(s.cutoff as int).to_multiset(),
        s.cutoff == s.accepted.len() ==> s.completed.to_multiset() == s.accepted.to_multiset(),
{
    lemma_all_terminated(s);
    vstd::seq_lib::to_multiset_len(s.completed);
    vstd::seq_lib::to_multiset_len(s.accepted.take(s.cutoff as int));
    lemma_absent_counts_zero(s.workers, WorkerState::Crashed);
    assert forall|job: J|
        s.completed.to_multiset().count(job) == #[trigger] s.accepted.take(
            s.cutoff as int,
        ).to_multiset().count(job) by {
        assert(s.balanced(job));
        lemma_absent_counts_zero(s.in_hand, Some(job));
        lemma_absent_counts_zero(s.failed, job);
    }
    assert(s.completed.to_multiset() =~= s.accepted.take(s.cutoff as int).to_multiset());
    if s.cutoff == s.accepted.len() {
        assert(s.accepted.take(s.cutoff as int) =~= s.accepted);
    }
}

/// When the tally of terminated workers equals the pool's size, every worker is
/// terminated.
proof fn lemma_all_terminated<J>(s: PoolState<J>)
    requires
        s.tally(WorkerState::Terminated) == s.size(),
    ensures
        forall|i: int| 0 <= i < s.size() ==> s.workers[i] == WorkerState::Terminated,
{
    lemma_count_bound(s.workers, WorkerState::Terminated);
}

/// A worker executes one job at a time: while it is executing it holds exactly one job
/// and cannot take another message.
pub proof fn lemma_one_job_at_a_time<J>(s: PoolState<J>, id: int)
    requires
        s.inv(),
        s.is_executing(id),
    ensures
        s.in_hand[id] is Some,
        !s.enabled(Step::Receive(id)),
{
}

/// A worker that is not executing holds no job.
pub proof fn lemma_only_executing_workers_hold_jobs<J>(s: PoolState<J>, id: int)
    requires
        s.inv(),
        s.has_worker(id),
        s.workers[id] != WorkerState::Executing,
    ensures
        s.in_hand[id] is None,
{
}

/// Once shutdown was signalled, no idle worker waits forever: there is always a message
/// for it to take.
pub proof fn lemma_no_worker_waits_after_shutdown<J>(s: PoolState<J>, id: int)
    requires
        s.inv(),
        s.stopping,
        s.has_worker(id),
        s.workers[id] == WorkerState::Idle,
    ensures
        s.can_receive(id),
{
    lemma_count_bound(s.workers, WorkerState::Terminated);
    assert(s.workers[id] != WorkerState::Terminated);
    assert(s.signals_left() >= 1);
    assert(s.queue == s.expected_queue());
}

/// Once shutdown was signalled, it stays signalled, every step of a worker uses up
/// exactly one unit of the work that is left, and no step of a caller changes it.
pub proof fn lemma_worker_steps_use_up_work<J>(s: PoolState<J>, step: Step<J>)
    requires
        s.inv(),
        s.stopping,
        s.enabled(step),
    ensures
        s.apply(step).stopping,
        step.by_worker() ==> s.apply(step).work_left() == s.work_left() - 1,
        !step.by_worker() ==> s.apply(step).work_left() == s.work_left(),
{
    let next = s.apply(step);
    lemma_count_bound(s.workers, WorkerState::Terminated);
    match step {
        Step::Submit(_) => {},
        Step::Shutdown => {},
        Step::Receive(id) => {
            assert(s.workers[id] != WorkerState::Terminated);
            assert(s.queue == s.expected_queue());
            lemma_count_update(s.workers, id, next.workers[id], WorkerState::Terminated);
            lemma_count_update(s.workers, id, next.workers[id], WorkerState::Executing);
            match s.queue.first() {
                Message::NewJob(_) => {
                    assert(s.started < s.cutoff);
                },
                Message::Terminate => {},
            }
        },
        Step::Finish(id) => {
            lemma_count_update(s.workers, id, WorkerState::Idle, WorkerState::Terminated);
            lemma_count_update(s.workers, id, WorkerState::Idle, WorkerState::Executing);
        },
        Step::Crash(id) => {
            lemma_count_update(s.workers, id, WorkerState::Crashed, WorkerState::Terminated);
            lemma_count_update(s.workers, id, WorkerState::Crashed, WorkerState::Executing);
        },
    }
}

/// Teardown terminates: once shutdown was signalled, the workers take at most
/// `work_left()` further steps, however their steps and the callers' are interleaved.
pub proof fn lemma_teardown_is_bounded<J>(s: PoolState<J>, steps: Seq<Step<J>>)
    requires
        s.inv(),
        s.stopping,
        s.admits(steps),
    ensures
        worker_steps(steps) <= s.work_left(),
    decreases steps.len(),
{
    if steps.len() > 0 {
        let next = s.apply(steps.first());
        s.lemma_step_inv(steps.first());
        lemma_worker_steps_use_up_work(s, steps.first());
        lemma_teardown_is_bounded(next, steps.drop_first());
    }
}

/// When, after shutdown was signalled, no worker can take a step any more, no worker is
/// live: each has terminated or was lost to a job.
pub proof fn lemma_quiescent_pool_has_no_live_worker<J>(s: PoolState<J>)
    requires
        s.inv(),
        s.stopping,
        forall|step: Step<J>| step.by_worker() ==> !#[trigger] s.enabled(step),
    ensures
        s.live() == 0,
        forall|i: int|
            0 <= i < s.size() ==> s.workers[i] == WorkerState::Terminated || s.workers[i]
                == WorkerState::Crashed,
{
    assert forall|i: int| 0 <= i < s.size() implies s.workers[i] == WorkerState::Terminated
        || s.workers[i] == WorkerState::Crashed by {
        if s.workers[i] == WorkerState::Idle {
            lemma_no_worker_waits_after_shutdown(s, i);
            assert(s.enabled(Step::Receive(i)));
        } else if s.workers[i] == WorkerState::Executing {
            assert(s.enabled(Step::Finish(i)));
        }
    }
    lemma_absent_counts_zero(s.workers, WorkerState::Idle);
    lemma_absent_counts_zero(s.workers, WorkerState::Executing);
}

/// Once shutdown was signalled, the record of what was submitted before the signal no
/// longer changes, whatever steps follow.
pub proof fn lemma_history_before_shutdown_is_fixed<J>(s: PoolState<J>, steps: Seq<Step<J>>)
    requires
        s.inv(),
        s.stopping,
        s.admits(steps),
    ensures
        s.run(steps).stopping,
        s.run(steps).size() == s.size(),
        s.run(steps).cutoff == s.cutoff,
        s.run(steps).accepted.take(s.cutoff as int) == s.accepted.take(s.cutoff as int),
    decreases steps.len(),
{
    if steps.len() > 0 {
        let next = s.apply(steps.first());
        s.lemma_step_inv(steps.first());
        assert(next.accepted.take(s.cutoff as int) =~= s.accepted.take(s.cutoff as int));
        lemma_history_before_shutdown_is_fixed(next, steps.drop_first());
    }
}

/// Over the life of a pool: whatever was submitted before teardown began has, by the time
/// every worker has terminated, run to completion exactly once, however submissions and
/// worker steps were interleaved before and after the shutdown signal.
pub proof fn lemma_jobs_submitted_before_teardown_all_run<J>(
    size: nat,
    before: Seq<Step<J>>,
    after: Seq<Step<J>>,
)
    requires
        size >= 1,
        PoolState::<J>::init(size).admits(before),
        !PoolState::<J>::init(size).run(before).stopping,
        PoolState::<J>::init(size).run(before).shutdown().admits(after),
        PoolState::<J>::init(size).run(before).shutdown().run(after).tally(
            WorkerState::Terminated,
        ) == size,
    ensures
        PoolState::<J>::init(size).run(before).shutdown().run(after).completed.to_multiset()
            == PoolState::<J>::init(size).run(before).accepted.to_multiset(),
{
    let at_teardown = PoolState::<J>::init(size).run(before);
    let signalled = at_teardown.shutdown();
    let at_end = signalled.run(after);
    lemma_reachable_states_are_invariant(size, before);
    lemma_size_is_fixed(PoolState::<J>::init(size), before);
    at_teardown.lemma_shutdown_inv();
    signalled.lemma_run_inv(after);
    lemma_history_before_shutdown_is_fixed(signalled, after);
    lemma_every_job_runs_exactly_once(at_end);
    assert(at_teardown.accepted.take(signalled.cutoff as int) =~= at_teardown.accepted);
}

/// The number of workers never changes.
pub proof fn lemma_size_is_fixed<J>(s: PoolState<J>, steps: Seq<Step<J>>)
    requires
        s.admits(steps),
    ensures
        s.run(steps).size() == s.size(),
    decreases steps.len(),
{
    if steps.len() > 0 {
        lemma_size_is_fixed(s.apply(steps.first()), steps.drop_first());
    }
}

/// The pool's capacity shrinks only when a worker consumes a terminate signal or is lost
/// to a job, and then by exactly one; no step ever adds a live worker.
pub proof fn lemma_only_crash_and_exit_cost_a_worker<J>(s: PoolState<J>, step: Step<J>)
    requires
        s.inv(),
        s.enabled(step),
    ensures
        s.apply(step).live() == s.live() - (if step is Crash || (step is Receive
            && s.queue.first() is Terminate) {
            1int
        } else {
            0int
        }),
{
    match step {
        Step::Submit(_) => {},
        Step::Shutdown => {},
        Step::Receive(id) => {
            let next = s.apply(step);
            lemma_count_update(s.workers, id, next.workers[id], WorkerState::Idle);
            lemma_count_update(s.workers, id, next.workers[id], WorkerState::Executing);
        },
        Step::Finish(id) => {
            lemma_count_update(s.workers, id, WorkerState::Idle, WorkerState::Idle);
            lemma_count_update(s.workers, id, WorkerState::Idle, WorkerState::Executing);
        },
        Step::Crash(id) => {
            lemma_count_update(s.workers, id, WorkerState::Crashed, WorkerState::Idle);
            lemma_count_update(s.workers, id, WorkerState::Crashed, WorkerState::Executing);
        },
    }
}

} // verus!
