//! Plain record types shared by the coordinator and its callers.

use vstd::prelude::*;
use vstd::string::StringExecFns;

verus! {

/// A SQL statement to be routed to the leader.
pub struct SQLQuery {
    pub sql: String,
}

impl SQLQuery {
    pub fn new(sql: &str) -> (q: Self)
        ensures
            q.sql@ == sql@,
    {
        SQLQuery { sql: String::from_str(sql) }
    }
}

/// The outcome of routing a query: which tab executed it and the rows it
/// produced, one ordered sequence of string cells per row.
pub struct QueryResult {
    pub routed_through: String,
    pub data: Vec<Vec<String>>,
}

/// Recovery state reported after a simulated operation failure.
pub struct RecoveryStatus {
    pub recovered: bool,
    pub data_consistent: bool,
    pub error_details: Option<String>,
}

/// A snapshot of the coordinator's resource usage.
pub struct ResourceMetrics {
    pub active_connections: usize,
    pub pending_operations: usize,
    pub memory_usage: usize,
    pub storage_usage: usize,
}

/// An audit record of an operation accepted while routed or queued:
/// appended, never mutated, cleared only by explicit drain.
pub struct PendingOperation {
    pub id: String,
    pub sql: String,
    pub tab_id: String,
    pub timestamp: u64,
}

/// The one transaction that may be active at a time. While present, every
/// new write access request is turned away.
pub struct TransactionState {
    pub tab_id: String,
    pub operations: Vec<String>,
    pub start_time: u64,
}

} // verus!
