use tab_coordinator::coordinator::MockCoordinator;
use tab_coordinator::types::SQLQuery;

const T0: u64 = 1_000;

#[test]
fn test_basic_write_coordination() {
    let mut coordinator = MockCoordinator::new();

    // First write should be granted
    let response1 = coordinator.request_access("worker1".to_string(), "write".to_string());
    assert!(response1.granted, "First write should be granted");

    // Second write should be queued
    let response2 = coordinator.request_access("worker2".to_string(), "write".to_string());
    assert!(!response2.granted, "Second write should be queued");
    assert_eq!(response2.queue_position, Some(0));

    // Read during write should be denied
    let response3 = coordinator.request_access("worker3".to_string(), "read".to_string());
    assert!(!response3.granted, "Read during write should be denied");

    // Complete first write
    coordinator.complete_operation("worker1".to_string());

    // Queued write should now be granted
    let next_response = coordinator.get_next_queued_response();
    assert!(next_response.granted);
    assert_eq!(next_response.worker_id, "worker2");
}

#[test]
fn test_concurrent_reads() {
    let mut coordinator = MockCoordinator::new();

    // Multiple reads should be allowed
    let response1 = coordinator.request_access("worker1".to_string(), "read".to_string());
    let response2 = coordinator.request_access("worker2".to_string(), "read".to_string());

    assert!(response1.granted, "First read should be granted");
    assert!(response2.granted, "Second read should be granted");

    // Write during read should be queued
    let response3 = coordinator.request_access("worker3".to_string(), "write".to_string());
    assert!(!response3.granted, "Write during read should be queued");

    // Complete reads
    coordinator.complete_operation("worker1".to_string());
    coordinator.complete_operation("worker2".to_string());

    // Queued write should now be granted
    let next_response = coordinator.get_next_queued_response();
    assert!(next_response.granted);
    assert_eq!(next_response.worker_id, "worker3");
}

#[test]
fn test_tab_migration() {
    let mut coordinator = MockCoordinator::new();

    coordinator.register_tab("tab1".to_string(), T0);
    coordinator.register_tab("tab2".to_string(), T0);
    coordinator.set_active_tab("tab1".to_string());

    // Simulate tab1 closing
    coordinator.notify_tab_closed("tab1".to_string(), T0 + 10);

    // Verify tab2 becomes active
    let active_tab = coordinator.get_active_tab();
    assert_eq!(
        active_tab.as_deref(),
        Some("tab2"),
        "tab2 should become active after tab1 closes"
    );
}

#[test]
fn test_tab_health_monitoring() {
    let mut coordinator = MockCoordinator::new();

    coordinator.register_tab("tab1".to_string(), T0);
    coordinator.register_tab("tab2".to_string(), T0);

    // Set tab1 as active
    coordinator.set_active_tab("tab1".to_string());

    // Simulate tab becoming unresponsive
    coordinator.simulate_tab_timeout("tab1".to_string(), T0 + 10);

    // Verify automatic migration
    let active_tab = coordinator.get_active_tab();
    assert_eq!(
        active_tab,
        Some("tab2".to_string()),
        "Should migrate to healthy tab"
    );
}

#[test]
fn test_transaction_coordination() {
    let mut coordinator = MockCoordinator::new();

    // Start transaction
    coordinator.begin_transaction("tab1".to_string(), T0);

    // Verify other writes are blocked
    let response = coordinator.request_access("tab2".to_string(), "write".to_string());
    assert!(
        !response.granted,
        "Writes should be blocked during transaction"
    );

    // Complete transaction
    coordinator.commit_transaction("tab1".to_string());

    // Verify writes are now allowed
    let response = coordinator.request_access("tab2".to_string(), "write".to_string());
    assert!(
        response.granted,
        "Writes should be allowed after transaction"
    );
}

#[test]
fn test_query_routing() {
    let mut coordinator = MockCoordinator::new();

    // Register active tab
    coordinator.register_tab("tab1".to_string(), T0);
    coordinator.set_active_tab("tab1".to_string());

    // Test query routing
    let query = SQLQuery::new("SELECT * FROM users");
    let result = coordinator.route_query("tab2".to_string(), query);

    assert!(result.is_ok(), "Query should be routed successfully");
    assert_eq!(
        result.unwrap().routed_through,
        "tab1",
        "Query should route through active tab"
    );
}

#[test]
fn test_complete_tab_migration() {
    let mut coordinator = MockCoordinator::new();

    // Set up initial state
    coordinator.register_tab("tab1".to_string(), T0);
    coordinator.register_tab("tab2".to_string(), T0);
    coordinator.set_active_tab("tab1".to_string());

    // Queue some operations
    coordinator.queue_operation("tab2".to_string(), "SELECT * FROM users".to_string(), T0);

    // Trigger migration
    coordinator.notify_tab_closed("tab1".to_string(), T0 + 10);

    // Verify migration
    assert_eq!(coordinator.get_active_tab().unwrap(), "tab2");

    // Verify queued operations were kept
    let completed_ops = coordinator.get_completed_operations();
    assert_eq!(
        completed_ops.len(),
        1,
        "Queued operation should be completed"
    );
}

#[test]
fn test_error_recovery() {
    let mut coordinator = MockCoordinator::new();

    // Set up tabs
    coordinator.register_tab("tab1".to_string(), T0);
    coordinator.register_tab("tab2".to_string(), T0);

    // Simulate failed operation
    coordinator.simulate_operation_failure("tab1".to_string());

    // Verify automatic recovery
    let recovery_status = coordinator.get_recovery_status();
    assert!(
        recovery_status.recovered,
        "System should recover from failure"
    );
    assert!(
        recovery_status.data_consistent,
        "Data should remain consistent"
    );
}

#[test]
fn test_basic_usage() {
    let mut coordinator = MockCoordinator::new();

    coordinator.register_tab("tab1".to_string(), T0);
    coordinator.register_tab("tab2".to_string(), T0);

    coordinator.set_active_tab("tab1".to_string());

    let query = SQLQuery::new("SELECT * FROM users");
    let result = coordinator.route_query("tab2".to_string(), query);
    assert!(result.is_ok());
}

#[test]
fn test_fifo_queue_order() {
    // Writers queued earlier are granted earlier, however completions interleave.
    let mut coordinator = MockCoordinator::new();
    assert!(coordinator.request_access("w1".to_string(), "write".to_string()).granted);
    let q2 = coordinator.request_access("w2".to_string(), "write".to_string());
    let q3 = coordinator.request_access("w3".to_string(), "write".to_string());
    assert_eq!(q2.queue_position, Some(0));
    assert_eq!(q3.queue_position, Some(1));

    coordinator.complete_operation("w1".to_string());
    let first = coordinator.get_next_queued_response();
    assert_eq!(first.worker_id, "w2");

    coordinator.complete_operation("w2".to_string());
    let second = coordinator.get_next_queued_response();
    assert_eq!(second.worker_id, "w3");
}

#[test]
fn test_transaction_reports_tail_position_without_queueing() {
    let mut coordinator = MockCoordinator::new();
    coordinator.begin_transaction("tab1".to_string(), T0);

    // Denied at the tail position, but not actually enqueued.
    let denied = coordinator.request_access("tab2".to_string(), "write".to_string());
    assert!(!denied.granted);
    assert_eq!(denied.queue_position, Some(0));

    // Reads are unaffected by the transaction.
    let read = coordinator.request_access("tab3".to_string(), "read".to_string());
    assert!(read.granted);

    coordinator.commit_transaction("tab1".to_string());
    let after = coordinator.request_access("tab2".to_string(), "write".to_string());
    // The reader still holds the lock, so the write is queued at position 0:
    // nothing was left in the queue by the transaction-denied request.
    assert!(!after.granted);
    assert_eq!(after.queue_position, Some(0));
}

#[test]
fn test_denied_read_is_not_queued() {
    let mut coordinator = MockCoordinator::new();
    assert!(coordinator.request_access("w1".to_string(), "write".to_string()).granted);
    let denied = coordinator.request_access("r1".to_string(), "read".to_string());
    assert!(!denied.granted);
    assert_eq!(denied.queue_position, None);

    // After the writer completes there is nothing to drain: the reader must
    // retry on its own.
    coordinator.complete_operation("w1".to_string());
    let retry = coordinator.request_access("r1".to_string(), "read".to_string());
    assert!(retry.granted);
}

#[test]
fn test_duplicate_read_grant_is_idempotent() {
    let mut coordinator = MockCoordinator::new();
    assert!(coordinator.request_access("r1".to_string(), "read".to_string()).granted);
    assert!(coordinator.request_access("r1".to_string(), "read".to_string()).granted);
    // One completion releases the reader entirely.
    coordinator.complete_operation("r1".to_string());
    let write = coordinator.request_access("w1".to_string(), "write".to_string());
    assert!(write.granted, "no reader should linger after completion");
}

#[test]
fn test_queue_operation_ids_and_log() {
    let mut coordinator = MockCoordinator::new();
    for k in 0..11 {
        coordinator.queue_operation("tab1".to_string(), format!("INSERT {}", k), T0 + k);
    }
    let ops = coordinator.get_pending_operations();
    assert_eq!(ops.len(), 11);
    assert_eq!(ops[0].id, "op-0");
    assert_eq!(ops[10].id, "op-10");
    assert_eq!(ops[3].sql, "INSERT 3");
    assert_eq!(ops[3].tab_id, "tab1");
    assert_eq!(ops[3].timestamp, T0 + 3);
}

#[test]
fn test_resource_metrics() {
    let mut coordinator = MockCoordinator::new();
    coordinator.queue_operation("tab1".to_string(), "UPDATE x".to_string(), T0);
    let metrics = coordinator.get_resource_metrics();
    assert_eq!(metrics.pending_operations, 1);
    assert_eq!(metrics.active_connections, 0);
    assert_eq!(metrics.memory_usage, 0);
    assert_eq!(metrics.storage_usage, 0);
}

#[test]
fn test_route_query_without_active_tab_fails() {
    let coordinator = MockCoordinator::new();
    let query = SQLQuery::new("SELECT 1");
    let result = coordinator.route_query("tab2".to_string(), query);
    assert_eq!(result.err().unwrap(), "No active tab available");
}

#[test]
fn test_notify_closed_clears_active_tab_when_no_successor() {
    let mut coordinator = MockCoordinator::new();
    coordinator.register_tab("tab1".to_string(), T0);
    coordinator.set_active_tab("tab1".to_string());
    coordinator.notify_tab_closed("tab1".to_string(), T0 + 10);
    // No fresh tab remains, so nothing leads: a closed tab must not stay
    // the active leader.
    assert_eq!(coordinator.get_active_tab(), None);
}

#[test]
fn test_timeout_clears_active_tab_when_no_successor() {
    let mut coordinator = MockCoordinator::new();
    coordinator.register_tab("tab1".to_string(), T0);
    coordinator.set_active_tab("tab1".to_string());
    coordinator.simulate_tab_timeout("tab1".to_string(), T0 + 10);
    // Unlike notify_tab_closed, a timeout with no successor clears it.
    assert_eq!(coordinator.get_active_tab(), None);
}

#[test]
fn test_migration_skips_stale_tab() {
    let mut coordinator = MockCoordinator::new();
    coordinator.register_tab("tab1".to_string(), T0);
    coordinator.register_tab("tab2".to_string(), T0);
    coordinator.register_tab("tab3".to_string(), T0 + 10_000);
    coordinator.set_active_tab("tab1".to_string());
    // At T0 + 10_000, tab2's heartbeat (T0) is past the 5000 ms liveness
    // timeout, so migration must skip it and pick tab3.
    coordinator.notify_tab_closed("tab1".to_string(), T0 + 10_000);
    assert_eq!(coordinator.get_active_tab(), Some("tab3".to_string()));
}
