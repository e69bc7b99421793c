use worker_pool::pool::{Phase, PoolError, ThreadPool};

/// A pool of zero workers can never make progress, so construction fails.
#[test]
fn zero_workers_is_a_construction_error() {
    let r = ThreadPool::new(0);
    assert!(matches!(r, Err(PoolError::ConstructionError)));
}

#[test]
fn new_pool_is_running_and_empty() {
    let pool = ThreadPool::new(4).unwrap();
    assert_eq!(pool.size(), 4);
    assert_eq!(pool.current_phase(), Phase::Running);
    assert_eq!(pool.submitted_count(), 0);
    assert_eq!(pool.claimed_count(), 0);
    assert_eq!(pool.pending_count(), 0);
    assert!(pool.all_idle());
    assert!(pool.completion_log().is_empty());
}

/// Five tasks on two workers drain in three rounds of claims — with 100ms
/// tasks that is at least 3 x 100ms and under 5 x 100ms of wall clock — and
/// every id lands in the log exactly once, with never more than two in flight.
#[test]
fn five_tasks_on_two_workers_take_three_rounds() {
    let mut pool = ThreadPool::new(2).unwrap();
    for expect in 0..5u64 {
        assert_eq!(pool.execute(), Ok(expect));
    }
    assert_eq!(pool.pending_count(), 5);

    let mut rounds = 0u32;
    while pool.pending_count() > 0 || !pool.all_idle() {
        // Each idle worker claims one task; then the round's tasks all finish.
        for w in 0..pool.size() {
            if pool.in_flight_on(w).is_none() {
                pool.claim(w);
            }
        }
        let busy = (0..pool.size()).filter(|&w| pool.in_flight_on(w).is_some()).count();
        assert!(busy <= 2);
        for w in 0..pool.size() {
            if pool.in_flight_on(w).is_some() {
                pool.finish_task(w, true);
            }
        }
        rounds += 1;
    }
    assert_eq!(rounds, 3);

    let log = pool.completion_log();
    assert_eq!(log.len(), 5);
    for id in 0..5u64 {
        assert_eq!(log.iter().filter(|e| e.0 == id).count(), 1);
    }
}

/// Submitting after shutdown began is rejected, and the rejected task never
/// enters the pool: nothing about the pool's state changes.
#[test]
fn submission_after_shutdown_is_rejected() {
    let mut pool = ThreadPool::new(2).unwrap();
    assert_eq!(pool.execute(), Ok(0));
    pool.begin_shutdown();
    assert_eq!(pool.current_phase(), Phase::ShuttingDown);
    assert_eq!(pool.execute(), Err(PoolError::SubmissionRejected));
    assert_eq!(pool.submitted_count(), 1);
    assert_eq!(pool.pending_count(), 1);
}

/// A task submitted right before shutdown still runs before shutdown can
/// complete: the pool refuses to stop while it is pending or in flight.
#[test]
fn shutdown_waits_for_the_submitted_task() {
    let mut pool = ThreadPool::new(1).unwrap();
    assert_eq!(pool.execute(), Ok(0));
    pool.begin_shutdown();
    assert!(!pool.try_complete_shutdown());
    assert_eq!(pool.claim(0), Some(0));
    assert!(!pool.try_complete_shutdown());
    pool.finish_task(0, true);
    assert!(pool.try_complete_shutdown());
    assert_eq!(pool.current_phase(), Phase::Stopped);
    assert_eq!(pool.completion_log(), &vec![(0, true)]);
}

/// Shutdown completes only once every accepted task has finished.
#[test]
fn shutdown_completes_only_after_drain() {
    let mut pool = ThreadPool::new(2).unwrap();
    for _ in 0..3 {
        pool.execute().unwrap();
    }
    pool.begin_shutdown();
    assert!(!pool.try_complete_shutdown());
    assert_eq!(pool.claim(0), Some(0));
    assert_eq!(pool.claim(1), Some(1));
    pool.finish_task(0, true);
    pool.finish_task(1, true);
    assert!(!pool.try_complete_shutdown());
    assert_eq!(pool.claim(0), Some(2));
    assert!(!pool.try_complete_shutdown());
    pool.finish_task(0, true);
    assert!(pool.try_complete_shutdown());
    assert_eq!(pool.completion_log().len(), 3);
}

/// Two tasks submitted in order A then B may be claimed by two different
/// workers at once: no crash, no double claim, and both complete.
#[test]
fn two_workers_claim_two_tasks_without_double_claim() {
    let mut pool = ThreadPool::new(2).unwrap();
    let a = pool.execute().unwrap();
    let b = pool.execute().unwrap();
    let claimed_a = pool.claim(0).unwrap();
    let claimed_b = pool.claim(1).unwrap();
    assert_ne!(claimed_a, claimed_b);
    assert_eq!(claimed_a, a);
    assert_eq!(claimed_b, b);
    pool.finish_task(1, true);
    pool.finish_task(0, true);
    let log = pool.completion_log();
    assert!(log.iter().any(|e| e.0 == a));
    assert!(log.iter().any(|e| e.0 == b));
    assert_eq!(log.len(), 2);
}

/// One submitter's tasks are claimed in submission order.
#[test]
fn single_submitter_tasks_are_claimed_in_order() {
    let mut pool = ThreadPool::new(1).unwrap();
    for _ in 0..4 {
        pool.execute().unwrap();
    }
    let mut seen = Vec::new();
    while let Some(id) = pool.claim(0) {
        seen.push(id);
        pool.finish_task(0, true);
    }
    assert_eq!(seen, vec![0, 1, 2, 3]);
}

/// A failing task is contained: its worker stays available, and the tasks
/// submitted after it are claimed and executed as usual.
#[test]
fn failed_task_does_not_block_later_tasks() {
    let mut pool = ThreadPool::new(1).unwrap();
    assert_eq!(pool.execute(), Ok(0));
    assert_eq!(pool.execute(), Ok(1));
    assert_eq!(pool.claim(0), Some(0));
    pool.finish_task(0, false);
    assert!(pool.in_flight_on(0).is_none());
    assert_eq!(pool.claim(0), Some(1));
    pool.finish_task(0, true);
    assert_eq!(pool.completion_log(), &vec![(0, false), (1, true)]);
}

/// Claiming from an empty queue yields nothing and changes nothing.
#[test]
fn claim_on_empty_queue_returns_none() {
    let mut pool = ThreadPool::new(3).unwrap();
    assert_eq!(pool.claim(2), None);
    assert_eq!(pool.claimed_count(), 0);
    assert!(pool.all_idle());
}

/// Beginning shutdown twice, or on a stopped pool, is harmless.
#[test]
fn begin_shutdown_is_idempotent() {
    let mut pool = ThreadPool::new(1).unwrap();
    pool.begin_shutdown();
    pool.begin_shutdown();
    assert_eq!(pool.current_phase(), Phase::ShuttingDown);
    assert!(pool.try_complete_shutdown());
    assert_eq!(pool.current_phase(), Phase::Stopped);
    pool.begin_shutdown();
    assert_eq!(pool.current_phase(), Phase::Stopped);
    assert!(pool.try_complete_shutdown());
}

/// A running pool never completes shutdown, even when idle.
#[test]
fn running_pool_does_not_stop() {
    let mut pool = ThreadPool::new(1).unwrap();
    assert!(!pool.try_complete_shutdown());
    assert_eq!(pool.current_phase(), Phase::Running);
}
