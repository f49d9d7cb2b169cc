use veri::worker_pool::{WorkerPool, WorkerPoolConfig, WorkerProcess, WorkerState};

#[test]
fn test_worker_pool_creation() {
    let config = WorkerPoolConfig::default();
    let pool = WorkerPool::new(config);
    assert_eq!(pool.workers.len(), 0);
    assert_eq!(pool.task_queue.len(), 0);
    assert_eq!(pool.active_tasks.len(), 0);
}

#[test]
fn test_worker_process_states() {
    let worker = WorkerProcess::new(0, 0);
    assert!(matches!(worker.state, WorkerState::Starting));
    assert!(!worker.is_available());
    assert!(!worker.is_failed());
}

#[test]
fn test_worker_pool_config_defaults() {
    let config = WorkerPoolConfig::default();
    assert!(config.worker_count > 0);
    assert!(config.startup_timeout_ms > 0);
    assert!(config.execution_timeout_ms > 0);
    assert!(config.enable_recycling);
}

#[test]
fn idle_worker_is_recycled_after_max_idle_time() {
    let mut worker = WorkerProcess::new(3, 1000);
    worker.state = WorkerState::Idle;
    assert!(worker.is_available());
    assert!(!worker.should_recycle(600_000, 601_000));
    assert!(worker.should_recycle(600_000, 601_001));
}
