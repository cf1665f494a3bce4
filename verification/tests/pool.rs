use threadpool::PoolCreationError;
use threadpool::Received;
use threadpool::ThreadPool;

fn take_job(pool: &mut ThreadPool<u64>, wid: usize) -> u64 {
    match pool.recv(wid) {
        Received::Job(j) => j,
        Received::Empty => panic!("queue unexpectedly empty"),
        Received::Closed => panic!("channel unexpectedly closed"),
    }
}

#[test]
fn new_with_positive_size_yields_that_many_workers() {
    for size in 1..6usize {
        let pool = ThreadPool::<u64>::new(size).expect("positive size must succeed");
        assert_eq!(pool.worker_count(), size);
        assert_eq!(pool.queued_count(), 0);
        assert_eq!(pool.running_count(), 0);
        assert!(pool.is_open());
        for wid in 0..size {
            assert!(pool.worker_is_idle(wid));
        }
    }
}

#[test]
fn new_with_zero_size_fails_with_zero_size() {
    match ThreadPool::<u64>::new(0) {
        Ok(_) => panic!("a pool with no workers must be rejected"),
        Err(e) => assert_eq!(e, PoolCreationError::ZeroSize),
    }
}

#[test]
fn all_jobs_run_exactly_once() {
    let n: u64 = 10;
    let mut pool = ThreadPool::<u64>::new(2).unwrap();
    for id in 0..n {
        assert!(pool.execute(id).is_ok());
    }
    let mut runs = vec![0usize; n as usize];
    while pool.queued_count() > 0 {
        for wid in 0..2 {
            if pool.worker_is_idle(wid) {
                if let Received::Job(j) = pool.recv(wid) {
                    runs[j as usize] += 1;
                    pool.finish(wid);
                }
            }
        }
    }
    for id in 0..n as usize {
        assert_eq!(runs[id], 1, "job {} must run exactly once", id);
    }
}

#[test]
fn single_worker_preserves_submission_order() {
    let mut pool = ThreadPool::<u64>::new(1).unwrap();
    assert!(pool.execute(10).is_ok());
    assert!(pool.execute(20).is_ok());
    assert!(pool.execute(30).is_ok());
    assert_eq!(take_job(&mut pool, 0), 10);
    pool.finish(0);
    assert_eq!(take_job(&mut pool, 0), 20);
    pool.finish(0);
    assert_eq!(take_job(&mut pool, 0), 30);
    pool.finish(0);
}

#[test]
fn at_most_size_jobs_run_concurrently() {
    let mut pool = ThreadPool::<u64>::new(2).unwrap();
    assert!(pool.execute(1).is_ok());
    assert!(pool.execute(2).is_ok());
    assert!(pool.execute(3).is_ok());
    assert_eq!(take_job(&mut pool, 0), 1);
    assert_eq!(take_job(&mut pool, 1), 2);
    assert_eq!(pool.running_count(), 2);
    assert_eq!(pool.queued_count(), 1);
    assert!(!pool.worker_is_idle(0));
    assert!(!pool.worker_is_idle(1));
    pool.finish(0);
    assert_eq!(pool.running_count(), 1);
    assert_eq!(take_job(&mut pool, 0), 3);
    assert_eq!(pool.running_count(), 2);
}

#[test]
fn queued_jobs_still_served_after_close() {
    let mut pool = ThreadPool::<u64>::new(1).unwrap();
    assert!(pool.execute(7).is_ok());
    assert!(pool.execute(8).is_ok());
    pool.close();
    assert_eq!(take_job(&mut pool, 0), 7);
    pool.finish(0);
    assert_eq!(take_job(&mut pool, 0), 8);
    pool.finish(0);
    assert!(matches!(pool.recv(0), Received::Closed));
}

#[test]
fn execute_after_close_returns_the_job() {
    let mut pool = ThreadPool::<u64>::new(2).unwrap();
    pool.close();
    assert!(!pool.is_open());
    match pool.execute(42) {
        Ok(()) => panic!("a submission after teardown must be reported"),
        Err(j) => assert_eq!(j, 42),
    }
    assert_eq!(pool.queued_count(), 0);
}

#[test]
fn empty_open_pool_keeps_workers_waiting() {
    let mut pool = ThreadPool::<u64>::new(2).unwrap();
    assert!(matches!(pool.recv(0), Received::Empty));
    assert!(matches!(pool.recv(1), Received::Empty));
    assert!(pool.worker_is_idle(0));
    assert!(pool.worker_is_idle(1));
    assert_eq!(pool.running_count(), 0);
}

#[test]
fn closed_empty_pool_terminates_every_worker() {
    let mut pool = ThreadPool::<u64>::new(3).unwrap();
    pool.close();
    for wid in 0..3 {
        assert!(matches!(pool.recv(wid), Received::Closed));
        assert!(!pool.worker_is_idle(wid));
    }
    assert_eq!(pool.running_count(), 0);
}
