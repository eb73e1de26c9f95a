use food_aggregator::limiter::RateLimiter;
use food_aggregator::supervisor::{AggregatorSupervisor, Completion, WorkerId, WorkerTask};
use food_aggregator::{AggregateStatus, SourceError};

fn task(id: usize, page: usize, retries: usize) -> WorkerTask {
    WorkerTask { worker_id: WorkerId(id), page, retries }
}

#[test]
fn task_bound_is_remaining_pages_capped_at_ten() {
    let mut two = AggregatorSupervisor::new(2);
    assert_eq!(two.spawn_worker(Ok(()), 0), Some(task(0, 2, 0)));
    // one page remains, so one fetch at a time
    assert_eq!(two.spawn_worker(Ok(()), 0), None);

    let mut many = AggregatorSupervisor::new(50);
    let mut spawned = 0;
    while many.spawn_worker(Ok(()), 0).is_some() {
        spawned += 1;
    }
    assert_eq!(spawned, 10);
}

#[test]
fn pages_are_dispatched_in_order_from_two() {
    let mut s = AggregatorSupervisor::new(4);
    assert_eq!(s.spawn_worker(Ok(()), 0), Some(task(0, 2, 0)));
    assert_eq!(s.spawn_worker(Ok(()), 0), Some(task(1, 3, 0)));
    assert_eq!(s.spawn_worker(Ok(()), 0), Some(task(2, 4, 0)));
    assert_eq!(s.spawn_worker(Ok(()), 0), None);
    assert!(!s.is_done());
    assert_eq!(s.complete(WorkerId(1), Ok(4)), Completion::Persist { page: 3 });
    assert_eq!(s.complete(WorkerId(0), Ok(4)), Completion::Persist { page: 2 });
    assert_eq!(s.complete(WorkerId(2), Ok(4)), Completion::Persist { page: 4 });
    assert!(s.is_done());
    assert_eq!(s.status(), AggregateStatus::Finished);
}

#[test]
fn transient_failure_then_success() {
    // page 3 fails twice with a transport error and succeeds on the third attempt
    let mut s = AggregatorSupervisor::new(3);
    assert_eq!(s.spawn_worker(Ok(()), 0), Some(task(0, 2, 0)));
    assert_eq!(s.spawn_worker(Ok(()), 0), Some(task(1, 3, 0)));
    assert_eq!(s.complete(WorkerId(0), Ok(3)), Completion::Persist { page: 2 });
    assert_eq!(
        s.complete(WorkerId(1), Err(SourceError::Transport("reset".to_string()))),
        Completion::Retry { page: 3, retries: 1 }
    );
    assert_eq!(s.spawn_worker(Ok(()), 0), Some(task(2, 3, 1)));
    assert_eq!(
        s.complete(WorkerId(2), Err(SourceError::Transport("reset".to_string()))),
        Completion::Retry { page: 3, retries: 2 }
    );
    assert_eq!(s.spawn_worker(Ok(()), 0), Some(task(3, 3, 2)));
    assert_eq!(s.complete(WorkerId(3), Ok(3)), Completion::Persist { page: 3 });
    assert_eq!(s.spawn_worker(Ok(()), 0), None);
    assert!(s.is_done());
    assert_eq!(s.status(), AggregateStatus::Finished);
}

#[test]
fn exhausted_retries_abandon_the_page_and_the_sweep_finishes() {
    let mut s = AggregatorSupervisor::new(2);
    let mut fetches = 0;
    let mut last = Completion::Unknown;
    while let Some(t) = s.spawn_worker(Ok(()), 0) {
        assert_eq!(t.page, 2);
        fetches += 1;
        last = s.complete(t.worker_id, Err(SourceError::Upstream(503)));
    }
    // the first attempt and three retries
    assert_eq!(fetches, 4);
    assert_eq!(last, Completion::Abandon { page: 2 });
    assert!(s.is_done());
    assert_eq!(s.status(), AggregateStatus::Finished);
}

#[test]
fn retries_go_before_new_pages() {
    let mut s = AggregatorSupervisor::new(3);
    let first = s.spawn_worker(Ok(()), 0).unwrap();
    assert_eq!(
        s.complete(first.worker_id, Err(SourceError::Deserialize("bad".to_string()))),
        Completion::Retry { page: 2, retries: 1 }
    );
    assert_eq!(s.spawn_worker(Ok(()), 0), Some(task(1, 2, 1)));
    assert_eq!(s.spawn_worker(Ok(()), 0), Some(task(2, 3, 0)));
}

#[test]
fn refused_token_defers_and_drains() {
    let now = 1_000_000;
    let mut s = AggregatorSupervisor::new(6);
    assert_eq!(s.spawn_worker(Ok(()), now), Some(task(0, 2, 0)));
    assert_eq!(s.spawn_worker(Err(1_800_000), now), None);
    // nothing more is dispatched once deferred
    assert_eq!(s.spawn_worker(Ok(()), now), None);
    assert!(!s.is_done());
    assert_eq!(s.complete(WorkerId(0), Ok(6)), Completion::Persist { page: 2 });
    assert!(s.is_done());
    assert_eq!(s.status(), AggregateStatus::PendingUntil(now + 1_800_000));
    // resuming goes on with page 3
    s.resume();
    assert_eq!(s.status(), AggregateStatus::Finished);
    assert_eq!(s.spawn_worker(Ok(()), now), Some(task(1, 3, 0)));
}

#[test]
fn deferral_instant_saturates() {
    let mut s = AggregatorSupervisor::new(2);
    assert_eq!(s.spawn_worker(Err(u128::MAX), i64::MAX - 5), None);
    assert_eq!(s.status(), AggregateStatus::PendingUntil(i64::MAX));
}

#[test]
fn unknown_worker_changes_nothing() {
    let mut s = AggregatorSupervisor::new(3);
    let t = s.spawn_worker(Ok(()), 0).unwrap();
    assert_eq!(s.complete(WorkerId(42), Ok(3)), Completion::Unknown);
    assert_eq!(s.complete(t.worker_id, Ok(3)), Completion::Persist { page: 2 });
    assert_eq!(s.complete(t.worker_id, Ok(3)), Completion::Unknown);
}

#[test]
fn published_page_count_extends_the_sweep() {
    let mut s = AggregatorSupervisor::new(2);
    let t = s.spawn_worker(Ok(()), 0).unwrap();
    assert!(s.is_finished(3));
    assert_eq!(s.complete(t.worker_id, Ok(3)), Completion::Persist { page: 2 });
    assert!(!s.is_finished(3));
    assert_eq!(s.spawn_worker(Ok(()), 0), Some(task(1, 3, 0)));
}

#[test]
fn worker_id_next_increments() {
    let mut id = WorkerId::default();
    assert_eq!(id, WorkerId(0));
    id.next();
    id.next();
    assert_eq!(id, WorkerId(2));
}

#[test]
fn next_worker_consults_the_limiter() {
    let mut limiter = RateLimiter::per_hour(2);
    let mut s = AggregatorSupervisor::new(5);
    assert_eq!(s.next_worker(&mut limiter, 0), Some(task(0, 2, 0)));
    assert_eq!(s.next_worker(&mut limiter, 0), Some(task(1, 3, 0)));
    // the quota of two is spent: the sweep is deferred
    assert_eq!(s.next_worker(&mut limiter, 0), None);
    match s.status() {
        AggregateStatus::PendingUntil(t) => assert!(t > 0),
        AggregateStatus::Finished => panic!("expected a deferral"),
    }
}

#[test]
fn limiter_grants_its_quota_then_refuses() {
    let mut limiter = RateLimiter::per_hour(2);
    assert_eq!(limiter.try_acquire(), Ok(()));
    assert_eq!(limiter.try_acquire(), Ok(()));
    match limiter.try_acquire() {
        Err(wait) => assert!(wait > 0 && wait <= 30 * 60 * 1000),
        Ok(()) => panic!("quota exceeded"),
    }
}
