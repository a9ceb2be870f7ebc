use thread_pool::{Dispatch, Message, Worker, WorkerState};

#[test]
fn new_worker_is_idle_without_a_thread() {
    let worker: Worker<u32> = Worker::new(3);
    assert_eq!(worker.id(), 3);
    assert_eq!(worker.state(), WorkerState::Idle);
    assert!(!worker.has_thread());
}

#[test]
fn idle_worker_starts_the_job_it_is_handed() {
    let mut worker: Worker<u32> = Worker::new(0);
    assert_eq!(
        worker.on_message(Message::NewJob(41u8)),
        Ok(Dispatch::Run(41u8))
    );
    assert_eq!(worker.state(), WorkerState::Executing);
}

#[test]
fn idle_worker_exits_on_terminate() {
    let mut worker: Worker<u32> = Worker::new(0);
    assert_eq!(
        worker.on_message(Message::<u8>::Terminate),
        Ok(Dispatch::Exit)
    );
    assert_eq!(worker.state(), WorkerState::Terminated);
}

#[test]
fn executing_worker_takes_no_second_job() {
    let mut worker: Worker<u32> = Worker::new(0);
    assert_eq!(
        worker.on_message(Message::NewJob(1u8)),
        Ok(Dispatch::Run(1u8))
    );
    assert_eq!(
        worker.on_message(Message::NewJob(2u8)),
        Err(Message::NewJob(2u8))
    );
    assert_eq!(worker.state(), WorkerState::Executing);
}

#[test]
fn executing_worker_does_not_terminate_directly() {
    let mut worker: Worker<u32> = Worker::new(0);
    assert_eq!(
        worker.on_message(Message::NewJob(1u8)),
        Ok(Dispatch::Run(1u8))
    );
    assert_eq!(
        worker.on_message(Message::<u8>::Terminate),
        Err(Message::Terminate)
    );
    assert_eq!(worker.state(), WorkerState::Executing);
}

#[test]
fn terminated_worker_takes_nothing_more() {
    let mut worker: Worker<u32> = Worker::new(0);
    assert_eq!(
        worker.on_message(Message::<u8>::Terminate),
        Ok(Dispatch::Exit)
    );
    assert_eq!(
        worker.on_message(Message::NewJob(5u8)),
        Err(Message::NewJob(5u8))
    );
    assert_eq!(worker.state(), WorkerState::Terminated);
    assert!(!worker.on_job_done());
    assert!(!worker.on_job_fault());
    assert_eq!(worker.state(), WorkerState::Terminated);
}

#[test]
fn worker_cycles_between_idle_and_executing() {
    let mut worker: Worker<u32> = Worker::new(0);
    for job in 0..5u8 {
        assert_eq!(
            worker.on_message(Message::NewJob(job)),
            Ok(Dispatch::Run(job))
        );
        assert_eq!(worker.state(), WorkerState::Executing);
        assert!(worker.on_job_done());
        assert_eq!(worker.state(), WorkerState::Idle);
    }
    assert_eq!(
        worker.on_message(Message::<u8>::Terminate),
        Ok(Dispatch::Exit)
    );
}

#[test]
fn job_done_on_idle_worker_changes_nothing() {
    let mut worker: Worker<u32> = Worker::new(0);
    assert!(!worker.on_job_done());
    assert_eq!(worker.state(), WorkerState::Idle);
}

#[test]
fn job_fault_loses_the_executing_worker() {
    let mut worker: Worker<u32> = Worker::new(0);
    assert!(!worker.on_job_fault());
    assert_eq!(worker.state(), WorkerState::Idle);
    assert_eq!(
        worker.on_message(Message::NewJob(1u8)),
        Ok(Dispatch::Run(1u8))
    );
    assert!(worker.on_job_fault());
    assert_eq!(worker.state(), WorkerState::Crashed);
    assert_eq!(
        worker.on_message(Message::NewJob(2u8)),
        Err(Message::NewJob(2u8))
    );
    assert!(!worker.on_job_done());
    assert_eq!(worker.state(), WorkerState::Crashed);
}

#[test]
fn thread_handle_comes_out_once() {
    let mut worker: Worker<String> = Worker::new(0);
    assert_eq!(worker.attach(String::from("handle")), None);
    assert!(worker.has_thread());
    assert_eq!(worker.take_thread(), Some(String::from("handle")));
    assert!(!worker.has_thread());
    assert_eq!(worker.take_thread(), None);
}

#[test]
fn populated_slot_rejects_a_second_handle() {
    let mut worker: Worker<u32> = Worker::new(0);
    assert_eq!(worker.attach(10), None);
    assert_eq!(worker.attach(11), Some(11));
    assert_eq!(worker.take_thread(), Some(10));
}

#[test]
fn slot_operations_leave_the_loop_state_alone() {
    let mut worker: Worker<u32> = Worker::new(7);
    assert_eq!(
        worker.on_message(Message::NewJob(1u8)),
        Ok(Dispatch::Run(1u8))
    );
    assert_eq!(worker.attach(10), None);
    assert_eq!(worker.state(), WorkerState::Executing);
    assert_eq!(worker.take_thread(), Some(10));
    assert_eq!(worker.state(), WorkerState::Executing);
    assert_eq!(worker.id(), 7);
}
