use myquat::compute::cloud::aws_backend::{task_poll_step, TaskStatus};
use myquat::compute::cloud::ibm_backend::{job_poll_step, JobStatus};
use myquat::compute::cloud::polling::PollStep;
use myquat::compute::cloud::job_manager::{
    retry_failure, CacheStats, JobManager, JobQueue, QueueStatus, NANOS_PER_SECOND,
};
use myquat::error::MyQuatError;
use std::collections::HashMap;

fn counts() -> HashMap<String, usize> {
    let mut result = HashMap::new();
    result.insert("00".to_string(), 500);
    result.insert("11".to_string(), 524);
    result
}

#[test]
fn test_job_manager_cache() {
    let mut manager = JobManager::new();

    let job_id = "test_job_123".to_string();
    let result = counts();

    let metadata = HashMap::new();
    manager.cache_job(job_id.clone(), result.clone(), metadata);

    assert!(manager.is_cached(&job_id));
    let cached = manager.get_cached(&job_id).unwrap();
    assert_eq!(cached.get("00"), Some(&500));
}

#[test]
fn test_retry_logic() {
    let manager = JobManager::with_config(3, 0, 3600);

    // The retry loop, as the application runs it, with the library deciding.
    let mut attempts = 0;
    let mut operation = || {
        attempts += 1;
        if attempts < 3 {
            Err(MyQuatError::circuit_error("Simulated failure"))
        } else {
            Ok(42)
        }
    };
    let mut failures: usize = 0;
    let mut last_error = None;
    let mut result = None;
    while manager.may_attempt(failures) {
        match operation() {
            Ok(v) => {
                result = Some(Ok(v));
                break;
            }
            Err(e) => {
                failures += 1;
                last_error = Some(e);
                assert_eq!(manager.wait_after_failure(failures), if failures < 3 { Some(0) } else { None });
            }
        }
    }
    let result = result.unwrap_or_else(|| Err(retry_failure(last_error)));

    assert!(result.is_ok());
    assert_eq!(result.unwrap(), 42);
    assert_eq!(attempts, 3);
}

#[test]
fn test_cache_expires_after_ttl() {
    let mut manager = JobManager::with_config(3, 5, 10);
    let t0: u128 = 1_000 * NANOS_PER_SECOND;
    manager.cache_job_at(t0, "job".to_string(), counts(), HashMap::new());

    assert!(manager.is_cached_at(t0, "job"));
    assert!(manager.is_cached_at(t0 + 10 * NANOS_PER_SECOND - 1, "job"));
    assert!(!manager.is_cached_at(t0 + 10 * NANOS_PER_SECOND, "job"));
    assert!(!manager.is_cached_at(t0, "other"));

    let read = manager.get_cached_at(t0 + 5 * NANOS_PER_SECOND, "job").unwrap();
    assert_eq!(read.get("11"), Some(&524));
    assert_eq!(manager.cache_stats_at(t0).total_entries, 1);

    // An expired entry reads as nothing and is dropped.
    assert!(manager.get_cached_at(t0 + 11 * NANOS_PER_SECOND, "job").is_none());
    assert_eq!(manager.cache_stats_at(t0).total_entries, 0);
    assert!(!manager.is_cached_at(t0, "job"));
}

#[test]
fn test_cache_replaces_entry_for_same_job() {
    let mut manager = JobManager::with_config(3, 5, 10);
    manager.cache_job_at(0, "job".to_string(), counts(), HashMap::new());
    let mut other = HashMap::new();
    other.insert("01".to_string(), 7);
    manager.cache_job_at(100 * NANOS_PER_SECOND, "job".to_string(), other, HashMap::new());

    let stats = manager.cache_stats_at(100 * NANOS_PER_SECOND);
    assert_eq!(stats, CacheStats { total_entries: 1, valid_entries: 1, expired_entries: 0 });
    let read = manager.get_cached_at(105 * NANOS_PER_SECOND, "job").unwrap();
    assert_eq!(read.get("01"), Some(&7));
    assert_eq!(read.get("00"), None);
}

#[test]
fn test_cache_stats_and_clear_expired() {
    let mut manager = JobManager::with_config(3, 5, 10);
    manager.cache_job_at(0, "a".to_string(), counts(), HashMap::new());
    manager.cache_job_at(21 * NANOS_PER_SECOND, "b".to_string(), counts(), HashMap::new());
    manager.cache_job_at(25 * NANOS_PER_SECOND, "c".to_string(), counts(), HashMap::new());

    let now = 30 * NANOS_PER_SECOND;
    let stats = manager.cache_stats_at(now);
    assert_eq!(stats, CacheStats { total_entries: 3, valid_entries: 2, expired_entries: 1 });
    assert_eq!(
        stats.to_string(),
        "Cache Statistics:\n  Total entries: 3\n  Valid entries: 2\n  Expired entries: 1\n"
    );

    manager.clear_expired_at(now);
    let stats = manager.cache_stats_at(now);
    assert_eq!(stats, CacheStats { total_entries: 2, valid_entries: 2, expired_entries: 0 });
    assert!(!manager.is_cached_at(0, "a"));
    assert!(manager.is_cached_at(now, "b"));
    assert!(manager.is_cached_at(now, "c"));
}

#[test]
fn test_retry_configuration_and_decisions() {
    let manager = JobManager::default();
    let config = manager.retry_config();
    assert_eq!(config.max_retries, 3);
    assert_eq!(config.retry_delay, 5);
    assert_eq!(config.cache_ttl, 3600);

    assert!(manager.may_attempt(0));
    assert!(manager.may_attempt(2));
    assert!(!manager.may_attempt(3));
    assert_eq!(manager.wait_after_failure(1), Some(5));
    assert_eq!(manager.wait_after_failure(3), None);

    let none_made = retry_failure(None);
    assert_eq!(none_made.to_string(), "Circuit construction error: All retry attempts failed");
    let last = retry_failure(Some(MyQuatError::circuit_error("boom")));
    assert_eq!(last.to_string(), "Circuit construction error: boom");
}

#[test]
fn test_queue_status_text() {
    let mut queue = JobQueue::default();
    queue.add_job("j1".to_string());
    queue.add_job("j2".to_string());
    queue.mark_running("j1").unwrap();
    let status = queue.status();
    assert_eq!(status, QueueStatus { pending_count: 1, running_count: 1, completed_count: 0 });
    assert_eq!(status.to_string(), "Queue Status:\n  Pending: 1\n  Running: 1\n  Completed: 0\n");
}

#[test]
fn test_poll_steps() {
    assert!(matches!(task_poll_step("arn:t", TaskStatus::Completed, true), PollStep::FetchResult));
    match task_poll_step("arn:t", TaskStatus::Failed, false) {
        PollStep::Stop(e) => assert_eq!(e.to_string(), "Circuit construction error: Task arn:t failed on AWS Braket"),
        _ => panic!("stop expected"),
    }
    match task_poll_step("arn:t", TaskStatus::Cancelled, false) {
        PollStep::Stop(e) => assert_eq!(e.to_string(), "Circuit construction error: Task arn:t was cancelled"),
        _ => panic!("stop expected"),
    }
    assert!(matches!(task_poll_step("arn:t", TaskStatus::Running, false), PollStep::Wait));
    assert!(matches!(task_poll_step("arn:t", TaskStatus::Queued, true), PollStep::TimedOut));

    assert!(matches!(job_poll_step("j1", JobStatus::Completed, false), PollStep::FetchResult));
    match job_poll_step("j1", JobStatus::Failed, true) {
        PollStep::Stop(e) => assert_eq!(e.to_string(), "Circuit construction error: Job j1 failed on IBM Quantum"),
        _ => panic!("stop expected"),
    }
    match job_poll_step("j1", JobStatus::Cancelled, true) {
        PollStep::Stop(e) => assert_eq!(e.to_string(), "Circuit construction error: Job j1 was cancelled"),
        _ => panic!("stop expected"),
    }
    assert!(matches!(job_poll_step("j1", JobStatus::Queued, false), PollStep::Wait));
    assert!(matches!(job_poll_step("j1", JobStatus::Running, true), PollStep::TimedOut));
}

#[test]
fn fresh_cache_entries_count_as_valid_by_the_clock() {
    let mut manager = JobManager::new();
    manager.cache_job("fresh".to_string(), counts(), HashMap::new());
    let stats = manager.cache_stats();
    assert_eq!(stats.total_entries, 1);
    assert_eq!(stats.valid_entries, 1);
    assert_eq!(stats.expired_entries, 0);
}
