use thread_pool::{Dispatch, ThreadPool, WorkerState};

type Pool = ThreadPool<usize, usize>;

/// Lets every worker in turn take the one step it can take, until none can. Returns the
/// number of steps taken. `blocked` names a worker whose job does not return yet.
fn run_until_quiet(pool: &mut Pool, runs: &mut Vec<u32>, blocked: Option<usize>) -> usize {
    let mut steps = 0;
    let mut progress = true;
    while progress {
        progress = false;
        for id in 0..pool.size() {
            match pool.worker_state(id) {
                Some(WorkerState::Idle) => match pool.dispatch(id) {
                    Dispatch::Run(job) => {
                        runs[job] += 1;
                        steps += 1;
                        progress = true;
                    }
                    Dispatch::Exit => {
                        steps += 1;
                        progress = true;
                    }
                    Dispatch::Wait => {}
                    Dispatch::Refused => panic!("an idle worker was refused"),
                },
                Some(WorkerState::Executing) => {
                    if blocked != Some(id) {
                        assert!(pool.complete(id));
                        steps += 1;
                        progress = true;
                    }
                }
                _ => {}
            }
        }
    }
    steps
}

#[test]
fn hundred_jobs_on_four_workers_all_run() {
    let mut pool = Pool::new(4);
    for id in 0..4 {
        assert_eq!(pool.attach(id, 1000 + id), None);
    }
    let mut runs = vec![0u32; 100];
    for job in 0..100 {
        pool.execute(job);
    }
    pool.shutdown();
    run_until_quiet(&mut pool, &mut runs, None);
    let counter: u32 = runs.iter().sum();
    assert_eq!(counter, 100);
    assert!(runs.iter().all(|&count| count == 1));
    assert_eq!(pool.live_workers(), 0);
    for id in 0..4 {
        assert_eq!(pool.worker_state(id), Some(WorkerState::Terminated));
    }
    for id in 0..4 {
        assert_eq!(pool.next_join(), Some((id, 1000 + id)));
    }
    assert_eq!(pool.next_join(), None);
    assert_eq!(pool.queued(), 0);
}

#[test]
fn release_waits_for_a_blocked_job() {
    let mut pool = Pool::new(2);
    assert_eq!(pool.attach(0, 10), None);
    assert_eq!(pool.attach(1, 11), None);
    let mut runs = vec![0u32; 2];

    pool.execute(0);
    assert_eq!(pool.dispatch(0), Dispatch::Run(0));
    runs[0] += 1;
    pool.execute(1);

    pool.shutdown();
    assert_eq!(pool.next_join(), Some((0, 10)));

    run_until_quiet(&mut pool, &mut runs, Some(0));
    assert_eq!(runs, vec![1, 1]);
    assert_eq!(pool.worker_state(0), Some(WorkerState::Executing));
    assert_eq!(pool.worker_state(1), Some(WorkerState::Terminated));
    assert_eq!(pool.live_workers(), 1);
    assert_eq!(pool.queued(), 1);

    assert!(pool.complete(0));
    assert_eq!(pool.dispatch(0), Dispatch::Exit);
    assert_eq!(pool.live_workers(), 0);
    assert_eq!(pool.next_join(), Some((1, 11)));
    assert_eq!(pool.next_join(), None);
    assert_eq!(runs, vec![1, 1]);
}

#[test]
fn faulting_job_costs_exactly_one_worker() {
    let mut pool = Pool::new(3);
    let mut runs = vec![0u32; 6];
    pool.execute(0);
    assert_eq!(pool.dispatch(1), Dispatch::Run(0));
    assert_eq!(pool.live_workers(), 3);

    assert!(pool.fault(1));
    assert_eq!(pool.worker_state(1), Some(WorkerState::Crashed));
    assert_eq!(pool.live_workers(), 2);
    assert!(!pool.fault(1));
    assert_eq!(pool.live_workers(), 2);

    for job in 1..6 {
        pool.execute(job);
    }
    assert_eq!(pool.dispatch(1), Dispatch::Refused);
    run_until_quiet(&mut pool, &mut runs, None);
    assert_eq!(runs, vec![0, 1, 1, 1, 1, 1]);
    assert_eq!(pool.live_workers(), 2);
    assert_eq!(pool.worker_state(0), Some(WorkerState::Idle));
    assert_eq!(pool.worker_state(2), Some(WorkerState::Idle));

    pool.shutdown();
    run_until_quiet(&mut pool, &mut runs, None);
    assert_eq!(pool.live_workers(), 0);
    assert_eq!(pool.worker_state(0), Some(WorkerState::Terminated));
    assert_eq!(pool.worker_state(1), Some(WorkerState::Crashed));
    assert_eq!(pool.worker_state(2), Some(WorkerState::Terminated));
    assert_eq!(pool.queued(), 1);
}

#[test]
fn every_job_runs_exactly_once_under_a_mixed_schedule() {
    let mut pool = Pool::new(3);
    let mut runs = vec![0u32; 30];
    let mut next_job = 0;
    for round in 0..10 {
        for _ in 0..3 {
            pool.execute(next_job);
            next_job += 1;
        }
        let id = round % 3;
        match pool.worker_state(id) {
            Some(WorkerState::Executing) => {
                assert!(pool.complete(id));
            }
            _ => {
                if let Dispatch::Run(job) = pool.dispatch(id) {
                    runs[job] += 1;
                }
            }
        }
    }
    run_until_quiet(&mut pool, &mut runs, None);
    assert!(runs.iter().all(|&count| count == 1));
    pool.shutdown();
    run_until_quiet(&mut pool, &mut runs, None);
    assert!(runs.iter().all(|&count| count == 1));
    assert_eq!(pool.live_workers(), 0);
    assert_eq!(pool.queued(), 0);
}

#[test]
fn interleaved_submitters_lose_and_repeat_nothing() {
    let submitters = 4;
    let per_submitter = 25;
    let mut pool = Pool::new(3);
    let mut runs = vec![0u32; submitters * per_submitter];
    for turn in 0..per_submitter {
        for submitter in 0..submitters {
            pool.execute(submitter * per_submitter + turn);
        }
        let id = turn % 3;
        if pool.worker_state(id) == Some(WorkerState::Executing) {
            assert!(pool.complete(id));
        }
        if let Dispatch::Run(job) = pool.dispatch(id) {
            runs[job] += 1;
        }
    }
    pool.shutdown();
    run_until_quiet(&mut pool, &mut runs, None);
    let executions: u32 = runs.iter().sum();
    assert_eq!(executions, 100);
    assert!(runs.iter().all(|&count| count == 1));
    assert_eq!(pool.live_workers(), 0);
}

#[test]
fn teardown_takes_exactly_the_work_that_is_left() {
    for size in [1usize, 2, 5] {
        for pending in [0usize, 1, 7, 40] {
            let mut pool = Pool::new(size);
            let mut runs = vec![0u32; pending + 1];
            pool.execute(pending);
            assert_eq!(pool.dispatch(0), Dispatch::Run(pending));
            runs[pending] += 1;
            for job in 0..pending {
                pool.execute(job);
            }
            pool.shutdown();
            let work_left = 2 * pending + size + 1;
            let steps = run_until_quiet(&mut pool, &mut runs, None);
            assert_eq!(steps, work_left);
            assert_eq!(pool.live_workers(), 0);
            assert_eq!(pool.queued(), 0);
            assert!(runs.iter().all(|&count| count == 1));
            for id in 0..size {
                assert_eq!(pool.worker_state(id), Some(WorkerState::Terminated));
            }
        }
    }
}

#[test]
fn idle_worker_always_finds_a_message_after_shutdown() {
    let mut pool = Pool::new(3);
    pool.shutdown();
    for id in 0..3 {
        assert_eq!(pool.worker_state(id), Some(WorkerState::Idle));
        assert!(pool.queued() > 0);
        assert_eq!(pool.dispatch(id), Dispatch::Exit);
    }
}

#[test]
fn single_worker_pool_runs_jobs_one_after_the_other() {
    let mut pool = Pool::new(1);
    for job in 0..3 {
        pool.execute(job);
    }
    assert_eq!(pool.dispatch(0), Dispatch::Run(0));
    assert_eq!(pool.dispatch(0), Dispatch::Refused);
    assert!(pool.complete(0));
    assert_eq!(pool.dispatch(0), Dispatch::Run(1));
    assert_eq!(pool.dispatch(0), Dispatch::Refused);
    assert!(pool.complete(0));
    assert_eq!(pool.dispatch(0), Dispatch::Run(2));
    assert!(pool.complete(0));
    assert_eq!(pool.dispatch(0), Dispatch::Wait);
}
