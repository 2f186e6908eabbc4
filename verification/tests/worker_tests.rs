use tab_coordinator::connection_pool::ConnectionPool;

const T0: u64 = 10_000;

#[test]
fn test_connection_pooling() {
    let mut pool = ConnectionPool::new(3); // Pool size of 3

    // Acquire connections
    let conn1 = pool.acquire(T0).unwrap();
    let _conn2 = pool.acquire(T0).unwrap();

    // Verify pool limits
    assert!(
        pool.available_connections() == 1,
        "Should have one connection left"
    );

    // Release and reuse
    pool.release(conn1, T0 + 1);
    let _conn3 = pool.acquire(T0 + 2).unwrap();
    assert!(
        pool.available_connections() == 1,
        "Should maintain pool size"
    );
}

#[test]
fn test_connection_lifecycle() {
    let mut pool = ConnectionPool::new(2);

    // Test connection initialization
    let conn = pool.acquire(T0).unwrap();
    assert!(conn.is_initialized(), "Connection should be initialized");

    // Test connection reuse
    pool.release(conn, T0 + 1);
    let conn2 = pool.acquire(T0 + 2).unwrap();
    assert!(conn2.is_reused(), "Connection should be reused from pool");

    // Test connection cleanup
    pool.cleanup_stale_connections(T0 + 3);
    assert_eq!(
        pool.stale_connections(T0 + 3),
        0,
        "No connections should be stale"
    );
}

#[test]
fn test_pool_exhausted() {
    let mut pool = ConnectionPool::new(1);
    let _held = pool.acquire(T0).unwrap();
    let err = pool.acquire(T0 + 1).err().unwrap();
    assert_eq!(err, "Pool exhausted");
}

#[test]
fn test_connection_ids() {
    let mut pool = ConnectionPool::new(2);
    let c0 = pool.acquire(T0).unwrap();
    let c1 = pool.acquire(T0).unwrap();
    assert_eq!(c0.id, "conn-0");
    assert_eq!(c1.id, "conn-1");
    assert!(!c0.is_reused());
    assert!(!c1.is_reused());
}

#[test]
fn test_cleanup_evicts_only_stale_slots() {
    let mut pool = ConnectionPool::new(3);
    let c0 = pool.acquire(T0).unwrap();
    let c1 = pool.acquire(T0).unwrap();
    pool.release(c0, T0); // idle since T0
    pool.release(c1, T0 + 400_000); // recently used

    let now = T0 + 400_001;
    assert_eq!(pool.stale_connections(now), 1);
    pool.cleanup_stale_connections(now);
    assert_eq!(pool.stale_connections(now), 0);
    assert_eq!(pool.available_connections(), 2);
}

#[test]
fn test_staleness_boundary() {
    // A slot idle for exactly the threshold is evicted by cleanup, yet the
    // stale report does not count it: both comparisons are strict.
    let mut pool = ConnectionPool::new(1);
    let conn = pool.acquire(T0).unwrap();
    pool.release(conn, T0);
    let now = T0 + 300_000;
    assert_eq!(pool.stale_connections(now), 0);
    pool.cleanup_stale_connections(now);
    assert_eq!(pool.available_connections(), 1, "the slot was evicted");
}

#[test]
fn test_release_of_unknown_connection_is_noop() {
    let mut pool = ConnectionPool::new(2);
    let conn = pool.acquire(T0).unwrap();
    let handle = conn.clone();
    pool.release(conn, T0);
    pool.cleanup_stale_connections(T0 + 400_000); // evicts the idle free slot
    assert_eq!(pool.available_connections(), 2);
    pool.release(handle, T0 + 400_001); // its slot is gone: nothing happens
    assert_eq!(pool.available_connections(), 2);
}

#[test]
fn test_cleanup_keeps_handed_out_slots() {
    // A connection still handed out is never evicted, however long ago its
    // slot was last stamped.
    let mut pool = ConnectionPool::new(2);
    let conn = pool.acquire(T0).unwrap();
    pool.cleanup_stale_connections(T0 + 400_000);
    assert_eq!(pool.available_connections(), 1, "the held slot survives");
    // Releasing it afterwards still finds the slot.
    pool.release(conn, T0 + 400_001);
    let reused = pool.acquire(T0 + 400_002).unwrap();
    assert!(reused.is_reused());
}
