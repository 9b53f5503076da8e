use rust_http_server::thread_pool::PoolError;
use rust_http_server::thread_pool::TaskMessage;
use rust_http_server::thread_pool::ThreadPool;
use rust_http_server::thread_pool::WorkerAction;
use rust_http_server::thread_pool::worker_step;

#[test]
fn a_pool_of_zero_workers_is_refused() {
    assert!(matches!(
        ThreadPool::new(0),
        Err(PoolError::InvalidConfiguration)
    ));
}

#[test]
fn a_fresh_pool_has_the_asked_for_workers_and_accepts_jobs() {
    let pool = ThreadPool::new(5).unwrap();
    assert_eq!(pool.worker_count, 5);
    assert!(pool.accepting);
}

#[test]
fn submitting_wraps_the_job_as_a_new_task() {
    let pool = ThreadPool::new(2).unwrap();
    match pool.execute(41u64) {
        Ok(TaskMessage::NewTask(job)) => assert_eq!(job, 41),
        _ => panic!("an accepting pool must queue the job"),
    }
}

#[test]
fn a_worker_runs_a_task_and_stops_on_exit() {
    match worker_step(TaskMessage::NewTask(7u64)) {
        WorkerAction::Run(job) => assert_eq!(job, 7),
        WorkerAction::Stop => panic!("a new task is run, not a reason to stop"),
    }
    assert!(matches!(
        worker_step::<u64>(TaskMessage::Exit),
        WorkerAction::Stop
    ));
}

#[test]
fn shutdown_delivers_one_exit_per_worker_and_closes_the_pool() {
    let mut pool = ThreadPool::new(3).unwrap();
    let msgs: Vec<TaskMessage<u64>> = pool.shutdown();
    assert_eq!(msgs.len(), 3);
    for msg in msgs {
        assert!(matches!(msg, TaskMessage::Exit));
    }
    assert!(!pool.accepting);
    assert_eq!(pool.worker_count, 3);
}

#[test]
fn submitting_after_shutdown_signals_a_closed_queue() {
    let mut pool = ThreadPool::new(3).unwrap();
    let _msgs: Vec<TaskMessage<u64>> = pool.shutdown();
    assert!(matches!(pool.execute(9u64), Err(PoolError::ChannelClosed)));
}
