use record_store::pool::{Acquired, ConnectionHandle, Pool, PoolError, Released};

fn lease(slot: usize, task: u64) -> ConnectionHandle {
    ConnectionHandle { slot, task }
}

#[test]
fn new_pool_has_opened_nothing() {
    let pool = Pool::new(3);
    assert_eq!(pool.capacity(), 3);
    assert_eq!(pool.opened(), 0);
    assert_eq!(pool.leased_count(), 0);
    assert_eq!(pool.idle_count(), 0);
    assert_eq!(pool.waiting_count(), 0);
    assert!(!pool.is_saturated());
}

#[test]
fn connections_are_opened_one_by_one_in_slot_order() {
    let mut pool = Pool::new(3);
    assert_eq!(pool.acquire(10), Acquired::Leased(lease(0, 10)));
    assert_eq!(pool.opened(), 1);
    assert_eq!(pool.acquire(11), Acquired::Leased(lease(1, 11)));
    assert_eq!(pool.opened(), 2);
    assert_eq!(pool.leased_count(), 2);
    assert_eq!(pool.idle_count(), 0);
    assert!(pool.holds(&lease(0, 10)));
    assert!(pool.holds(&lease(1, 11)));
    assert!(!pool.holds(&lease(1, 10)));
    assert!(!pool.holds(&lease(2, 10)));
}

#[test]
fn an_idle_connection_is_reused_before_a_new_one_is_opened() {
    let mut pool = Pool::new(3);
    pool.acquire(1);
    pool.acquire(2);
    assert_eq!(pool.release(&lease(0, 1)), Released::Idle);
    assert_eq!(pool.idle_count(), 1);
    assert_eq!(pool.acquire(3), Acquired::Leased(lease(0, 3)));
    assert_eq!(pool.opened(), 2);
    assert_eq!(pool.acquire(4), Acquired::Leased(lease(2, 4)));
    assert_eq!(pool.opened(), 3);
}

#[test]
fn the_lowest_idle_slot_is_lent_first() {
    let mut pool = Pool::new(3);
    pool.acquire(1);
    pool.acquire(2);
    pool.acquire(3);
    assert_eq!(pool.release(&lease(2, 3)), Released::Idle);
    assert_eq!(pool.release(&lease(1, 2)), Released::Idle);
    assert_eq!(pool.acquire(9), Acquired::Leased(lease(1, 9)));
    assert_eq!(pool.acquire(8), Acquired::Leased(lease(2, 8)));
}

#[test]
fn a_burst_beyond_the_capacity_fills_the_pool_and_queues_the_rest() {
    let mut pool = Pool::new(2);
    let outcomes: Vec<Acquired> = (100..105u64).map(|task| pool.acquire(task)).collect();
    assert_eq!(
        outcomes,
        vec![
            Acquired::Leased(lease(0, 100)),
            Acquired::Leased(lease(1, 101)),
            Acquired::Blocked,
            Acquired::Blocked,
            Acquired::Blocked,
        ]
    );
    assert_eq!(pool.leased_count(), 2);
    assert_eq!(pool.idle_count(), 0);
    assert_eq!(pool.waiting_count(), 3);
    assert!(pool.is_saturated());
    assert!(pool.is_waiting(102));
    assert!(pool.is_waiting(104));
    assert!(!pool.is_waiting(100));
}

#[test]
fn releases_serve_the_queue_in_order_and_leave_every_connection_idle() {
    let mut pool = Pool::new(2);
    for task in 100..105u64 {
        pool.acquire(task);
    }
    assert_eq!(pool.release(&lease(1, 101)), Released::HandedOver(lease(1, 102)));
    assert_eq!(pool.release(&lease(0, 100)), Released::HandedOver(lease(0, 103)));
    assert_eq!(pool.release(&lease(0, 103)), Released::HandedOver(lease(0, 104)));
    assert_eq!(pool.waiting_count(), 0);
    assert_eq!(pool.leased_count(), 2);
    assert_eq!(pool.release(&lease(1, 102)), Released::Idle);
    assert_eq!(pool.release(&lease(0, 104)), Released::Idle);
    assert_eq!(pool.leased_count(), 0);
    assert_eq!(pool.idle_count(), 2);
    assert_eq!(pool.idle_count(), pool.capacity());
}

#[test]
fn a_request_that_is_never_served_ends_as_exhausted() {
    let mut pool = Pool::new(1);
    assert_eq!(pool.acquire(1), Acquired::Leased(lease(0, 1)));
    assert_eq!(pool.acquire(2), Acquired::Blocked);
    assert!(pool.is_waiting(2));
    assert_eq!(pool.time_out(2), Err(PoolError::Exhausted));
    assert!(!pool.is_waiting(2));
    assert_eq!(pool.waiting_count(), 0);
    assert_eq!(pool.leased_count(), 1);
    assert!(pool.holds(&lease(0, 1)));
}

#[test]
fn a_timed_out_task_is_passed_over_by_the_next_release() {
    let mut pool = Pool::new(1);
    pool.acquire(1);
    pool.acquire(2);
    pool.acquire(3);
    assert_eq!(pool.time_out(2), Err(PoolError::Exhausted));
    assert_eq!(pool.release(&lease(0, 1)), Released::HandedOver(lease(0, 3)));
    assert_eq!(pool.time_out(3), Ok(()));
    assert!(pool.holds(&lease(0, 3)));
}

#[test]
fn a_timeout_of_a_task_that_does_not_wait_changes_nothing() {
    let mut pool = Pool::new(1);
    pool.acquire(1);
    assert_eq!(pool.time_out(1), Ok(()));
    assert_eq!(pool.time_out(77), Ok(()));
    assert_eq!(pool.leased_count(), 1);
    assert_eq!(pool.waiting_count(), 0);
}

#[test]
fn try_acquire_fails_at_once_on_a_saturated_pool_and_leaves_no_trace() {
    let mut pool = Pool::new(1);
    assert_eq!(pool.try_acquire(1), Ok(lease(0, 1)));
    assert_eq!(pool.try_acquire(2), Err(PoolError::Exhausted));
    assert_eq!(pool.waiting_count(), 0);
    assert_eq!(pool.leased_count(), 1);
    assert_eq!(pool.release(&lease(0, 1)), Released::Idle);
    assert_eq!(pool.try_acquire(2), Ok(lease(0, 2)));
}

#[test]
fn a_second_release_of_the_same_lease_is_ignored() {
    let mut pool = Pool::new(2);
    pool.acquire(1);
    pool.acquire(2);
    assert_eq!(pool.release(&lease(0, 1)), Released::Idle);
    assert_eq!(pool.release(&lease(0, 1)), Released::Ignored);
    assert_eq!(pool.idle_count(), 1);
    assert_eq!(pool.leased_count(), 1);
    assert!(pool.holds(&lease(1, 2)));
}

#[test]
fn a_stale_handle_cannot_release_the_lease_of_the_next_holder() {
    let mut pool = Pool::new(1);
    pool.acquire(1);
    pool.acquire(2);
    assert_eq!(pool.release(&lease(0, 1)), Released::HandedOver(lease(0, 2)));
    assert_eq!(pool.release(&lease(0, 1)), Released::Ignored);
    assert!(pool.holds(&lease(0, 2)));
    assert_eq!(pool.leased_count(), 1);
}

#[test]
fn a_handle_for_a_slot_that_was_never_opened_is_ignored() {
    let mut pool = Pool::new(4);
    pool.acquire(1);
    assert_eq!(pool.release(&lease(3, 1)), Released::Ignored);
    assert_eq!(pool.release(&lease(0, 2)), Released::Ignored);
    assert_eq!(pool.leased_count(), 1);
}

#[test]
fn a_blocked_task_is_queued_only_once() {
    let mut pool = Pool::new(1);
    pool.acquire(1);
    assert_eq!(pool.acquire(2), Acquired::Blocked);
    assert_eq!(pool.acquire(2), Acquired::Blocked);
    assert_eq!(pool.waiting_count(), 1);
}

#[test]
fn a_pool_without_capacity_blocks_every_request() {
    let mut pool = Pool::new(0);
    assert!(pool.is_saturated());
    assert_eq!(pool.acquire(1), Acquired::Blocked);
    assert_eq!(pool.try_acquire(2), Err(PoolError::Exhausted));
    assert_eq!(pool.opened(), 0);
    assert_eq!(pool.time_out(1), Err(PoolError::Exhausted));
    assert_eq!(pool.waiting_count(), 0);
}

#[test]
fn leases_and_idle_connections_add_up_to_the_opened_ones() {
    let mut pool = Pool::new(3);
    for task in 0..7u64 {
        pool.acquire(task);
        assert_eq!(pool.leased_count() + pool.idle_count(), pool.opened());
        assert!(pool.opened() <= pool.capacity());
    }
    for slot in 0..3usize {
        let task = slot as u64;
        pool.release(&lease(slot, task));
        assert_eq!(pool.leased_count() + pool.idle_count(), pool.opened());
    }
}

#[test]
fn a_served_task_finds_the_lease_that_was_handed_to_it() {
    let mut pool = Pool::new(1);
    pool.acquire(1);
    pool.acquire(2);
    assert_eq!(pool.lease_of(2), None);
    assert_eq!(pool.lease_of(1), Some(lease(0, 1)));
    assert_eq!(pool.release(&lease(0, 1)), Released::HandedOver(lease(0, 2)));
    assert_eq!(pool.lease_of(2), Some(lease(0, 2)));
    assert_eq!(pool.lease_of(1), None);
    assert!(!pool.is_waiting(2));
}

#[test]
fn a_task_with_several_leases_finds_the_one_in_the_lowest_slot() {
    let mut pool = Pool::new(3);
    pool.acquire(5);
    pool.acquire(6);
    pool.acquire(6);
    assert_eq!(pool.lease_of(6), Some(lease(1, 6)));
    pool.release(&lease(1, 6));
    assert_eq!(pool.lease_of(6), Some(lease(2, 6)));
    assert_eq!(pool.lease_of(7), None);
}
