//! Tests of the worker pool's delivery discipline, run on its model.
use http_server::pool::PoolModel;

#[test]
fn jobs_are_delivered_in_submission_order() {
    let mut pool = PoolModel::new(3);
    let a = pool.submit();
    let b = pool.submit();
    let c = pool.submit();
    assert_eq!((a, b, c), (0, 1, 2));
    assert_eq!(pool.take(1), 0);
    assert_eq!(pool.take(0), 1);
    assert_eq!(pool.take(2), 2);
    assert_eq!(pool.finish(0), 1);
    assert_eq!(pool.finish(1), 0);
    assert_eq!(pool.finish(2), 2);
    assert_eq!(pool.finished, vec![1, 0, 2]);
}

#[test]
fn each_job_goes_to_exactly_one_worker() {
    let mut pool = PoolModel::new(2);
    pool.submit();
    pool.submit();
    let first = pool.take(0);
    let second = pool.take(1);
    assert_ne!(first, second);
    assert_eq!(pool.running, vec![Some(first), Some(second)]);
    assert!(pool.queue.is_empty());
}

#[test]
fn single_worker_serializes_two_slow_jobs() {
    // Two clients submit while the one worker is busy: the second job
    // waits in the queue and starts only after the first finishes.
    let mut pool = PoolModel::new(1);
    let first = pool.submit();
    let taken = pool.take(0);
    assert_eq!(taken, first);
    let second = pool.submit();
    // The worker is occupied: the second job is still queued.
    assert_eq!(pool.running, vec![Some(first)]);
    assert_eq!(pool.queue, vec![second]);
    assert_eq!(pool.finish(0), first);
    // Only now can the worker take the second job.
    assert_eq!(pool.take(0), second);
    assert_eq!(pool.finish(0), second);
    assert_eq!(pool.finished, vec![first, second]);
}

#[test]
fn idle_pool_runs_nothing() {
    let pool = PoolModel::new(4);
    assert_eq!(pool.running, vec![None, None, None, None]);
    assert_eq!(pool.submitted, 0);
    assert!(pool.queue.is_empty());
    assert!(pool.finished.is_empty());
}
