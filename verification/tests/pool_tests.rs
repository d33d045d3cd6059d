use rstore::client::{ClientError, ConnectionConfig};
use rstore::pool::{release_to_pool, Checkout, ConnectionPool};

fn config(max_connections: u32) -> ConnectionConfig {
    let mut config = ConnectionConfig::new("localhost".to_string(), 13535);
    config.max_connections = max_connections;
    config
}

fn idle_ids(pool: &ConnectionPool<u32>) -> Vec<u32> {
    pool.idle_connections().iter().map(|entry| entry.connection).collect()
}

fn pool_with_idle(ids: &[u32], since: u64) -> ConnectionPool<u32> {
    let mut pool = ConnectionPool::new();
    for id in ids {
        pool.record_created();
        pool.release(*id, since);
    }
    pool
}

#[test]
fn new_pool_owns_nothing() {
    let pool: ConnectionPool<u32> = ConnectionPool::new();
    assert_eq!(pool.connection_count(), 0);
    assert!(pool.idle_connections().is_empty());
    assert!(pool.needs_first_connection());
}

#[test]
fn first_connection_comes_to_rest() {
    let mut pool: ConnectionPool<u32> = ConnectionPool::new();
    pool.record_created();
    pool.release(1, 500);
    assert!(!pool.needs_first_connection());
    assert_eq!(pool.connection_count(), 1);
    assert_eq!(idle_ids(&pool), vec![1]);
    assert_eq!(pool.idle_connections()[0].idle_since, 500);
}

#[test]
fn empty_pool_with_room_creates() {
    let mut pool: ConnectionPool<u32> = ConnectionPool::new();
    assert!(matches!(pool.checkout(&config(2), &[], 0, 0), Checkout::Create));
    assert_eq!(pool.connection_count(), 0);
    pool.record_created();
    assert_eq!(pool.connection_count(), 1);
    assert!(matches!(pool.checkout(&config(2), &[], 0, 0), Checkout::Create));
}

#[test]
fn full_pool_with_nothing_idle_waits() {
    let mut pool: ConnectionPool<u32> = ConnectionPool::new();
    pool.record_created();
    pool.record_created();
    assert!(matches!(pool.checkout(&config(2), &[], 0, 0), Checkout::Wait));
    assert!(matches!(pool.checkout(&config(2), &[], 0, 30_000), Checkout::Wait));
    assert_eq!(pool.connection_count(), 2);
}

#[test]
fn wait_over_the_timeout_gives_up() {
    let mut pool: ConnectionPool<u32> = ConnectionPool::new();
    pool.record_created();
    assert!(matches!(pool.checkout(&config(1), &[], 0, 30_001), Checkout::TimedOut));
    assert_eq!(pool.connection_count(), 1);
}

#[test]
fn no_room_at_all_waits() {
    let mut pool: ConnectionPool<u32> = ConnectionPool::new();
    assert!(matches!(pool.checkout(&config(0), &[], 0, 0), Checkout::Wait));
}

#[test]
fn oldest_idle_connection_is_reused_first() {
    let mut pool = pool_with_idle(&[1, 2, 3], 0);
    assert!(matches!(pool.checkout(&config(10), &[false; 3], 10, 0), Checkout::Reuse(1)));
    assert_eq!(idle_ids(&pool), vec![2, 3]);
    pool.release(1, 20);
    assert_eq!(idle_ids(&pool), vec![2, 3, 1]);
    assert!(matches!(pool.checkout(&config(10), &[false; 3], 30, 0), Checkout::Reuse(2)));
    assert_eq!(pool.connection_count(), 3);
}

#[test]
fn idle_connection_is_preferred_to_a_new_one() {
    let mut pool = pool_with_idle(&[7], 0);
    assert!(matches!(pool.checkout(&config(10), &[false], 1, 0), Checkout::Reuse(7)));
    assert!(matches!(pool.checkout(&config(10), &[], 1, 0), Checkout::Create));
}

#[test]
fn unreachable_connections_are_evicted() {
    let mut pool = pool_with_idle(&[1, 2, 3, 4], 0);
    let told = pool.checkout(&config(4), &[true, false, true, false], 10, 0);
    assert!(matches!(told, Checkout::Reuse(2)));
    assert_eq!(idle_ids(&pool), vec![4]);
    assert_eq!(pool.connection_count(), 2);
}

#[test]
fn connections_without_a_probe_stay() {
    let mut pool = pool_with_idle(&[1, 2, 3], 0);
    assert!(matches!(pool.checkout(&config(4), &[true], 10, 0), Checkout::Reuse(2)));
    assert_eq!(idle_ids(&pool), vec![3]);
    assert_eq!(pool.connection_count(), 2);
}

#[test]
fn stale_connections_are_evicted() {
    let mut pool: ConnectionPool<u32> = ConnectionPool::new();
    for (id, since) in [(1, 0), (2, 500), (3, 40_000)] {
        pool.record_created();
        pool.release(id, since);
    }
    let told = pool.checkout(&config(4), &[false; 3], 61_000, 0);
    assert!(matches!(told, Checkout::Reuse(3)));
    assert_eq!(pool.connection_count(), 1);
    assert!(pool.idle_connections().is_empty());
}

#[test]
fn idle_for_exactly_the_timeout_is_not_stale() {
    let mut pool = pool_with_idle(&[1], 1_000);
    assert!(matches!(pool.checkout(&config(4), &[false], 61_000, 0), Checkout::Reuse(1)));
    let mut pool = pool_with_idle(&[1], 1_000);
    assert!(matches!(pool.checkout(&config(4), &[false], 61_001, 0), Checkout::Wait));
}

#[test]
fn clock_behind_the_rest_time_does_not_evict() {
    let mut pool = pool_with_idle(&[1], 5_000);
    assert!(matches!(pool.checkout(&config(4), &[false], 10, 0), Checkout::Reuse(1)));
}

#[test]
fn pool_of_dead_connections_makes_room() {
    let mut pool = pool_with_idle(&[1, 2], 0);
    assert!(matches!(pool.checkout(&config(2), &[true, true], 10, 0), Checkout::Wait));
    assert_eq!(pool.connection_count(), 0);
    assert!(matches!(pool.checkout(&config(2), &[], 10, 100), Checkout::Create));
}

#[test]
fn discarded_connection_frees_its_slot() {
    let mut pool: ConnectionPool<u32> = ConnectionPool::new();
    pool.record_created();
    assert!(matches!(pool.checkout(&config(1), &[], 0, 0), Checkout::Wait));
    pool.discard();
    assert_eq!(pool.connection_count(), 0);
    assert!(matches!(pool.checkout(&config(1), &[], 0, 0), Checkout::Create));
}

#[test]
fn settled_loans_rest_or_go() {
    let mut pool: ConnectionPool<u32> = ConnectionPool::new();
    pool.record_created();
    pool.record_created();
    pool.settle(1, None, 77);
    assert_eq!(idle_ids(&pool), vec![1]);
    assert_eq!(pool.idle_connections()[0].idle_since, 77);
    assert_eq!(pool.connection_count(), 2);
    pool.settle(2, Some(ClientError::ConnectionError), 78);
    assert_eq!(idle_ids(&pool), vec![1]);
    assert_eq!(pool.connection_count(), 1);
}

#[test]
fn hundred_requests_reuse_the_pool() {
    let limits = config(2);
    let mut pool: ConnectionPool<u32> = ConnectionPool::new();
    let mut established = 0;
    if pool.needs_first_connection() {
        established += 1;
        pool.record_created();
        pool.release(established, 0);
    }
    for request in 0..100u64 {
        let flags = vec![false; pool.idle_connections().len()];
        let connection = match pool.checkout(&limits, &flags, request, 0) {
            Checkout::Reuse(connection) => connection,
            Checkout::Create => {
                established += 1;
                pool.record_created();
                established
            },
            other => panic!("request {} got no connection: {:?}", request, other),
        };
        assert!(pool.connection_count() <= 2);
        pool.settle(connection, None, request);
    }
    assert!(established <= 2);
    assert_eq!(established, 1);
}

#[test]
fn two_borrowers_never_own_more_than_the_cap() {
    let limits = config(2);
    let mut pool: ConnectionPool<u32> = ConnectionPool::new();
    let mut next_id = 0;
    let mut on_loan: Vec<u32> = Vec::new();
    for round in 0..200u64 {
        let flags = vec![false; pool.idle_connections().len()];
        match pool.checkout(&limits, &flags, round, 0) {
            Checkout::Reuse(connection) => on_loan.push(connection),
            Checkout::Create => {
                next_id += 1;
                pool.record_created();
                on_loan.push(next_id);
            },
            Checkout::Wait => {
                let connection = on_loan.remove(0);
                let failure = if round % 5 == 0 {
                    Some(ClientError::InvalidResponseTag)
                } else {
                    None
                };
                pool.settle(connection, failure, round);
            },
            Checkout::TimedOut => panic!("gave up without waiting"),
        }
        assert!(pool.connection_count() <= 2);
        assert_eq!(
            pool.connection_count() as usize,
            pool.idle_connections().len() + on_loan.len()
        );
    }
}

#[test]
fn every_failure_costs_the_connection() {
    for failure in [
        ClientError::ConnectionError,
        ClientError::SendRequestError,
        ClientError::InvalidResponseTag,
    ] {
        let mut pool: ConnectionPool<u32> = ConnectionPool::new();
        pool.record_created();
        pool.settle(1, Some(failure), 5);
        assert_eq!(pool.connection_count(), 0);
        assert!(pool.idle_connections().is_empty());
    }
}

#[test]
fn release_reaches_a_pool_that_is_still_there() {
    let mut pool: ConnectionPool<u32> = ConnectionPool::new();
    pool.record_created();
    pool.record_created();
    release_to_pool(Some(&mut pool), 1, None, 40);
    assert_eq!(idle_ids(&pool), vec![1]);
    assert_eq!(pool.idle_connections()[0].idle_since, 40);
    assert_eq!(pool.connection_count(), 2);
    release_to_pool(Some(&mut pool), 2, Some(ClientError::SendRequestError), 41);
    assert_eq!(idle_ids(&pool), vec![1]);
    assert_eq!(pool.connection_count(), 1);
}

#[test]
fn release_without_a_pool_drops_the_connection() {
    let connection = std::rc::Rc::new(7u32);
    release_to_pool::<std::rc::Rc<u32>>(None, connection.clone(), None, 0);
    assert_eq!(std::rc::Rc::strong_count(&connection), 1);
}
