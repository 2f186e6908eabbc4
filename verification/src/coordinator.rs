//! The access arbiter and coordination state owned by the broker.
//!
//! `MockCoordinator` arbitrates read/write access to the shared database:
//! at most one writer, any number of concurrent readers, never both. Denied
//! writers wait in a FIFO queue that is drained explicitly; denied readers
//! must retry. An active transaction turns every new write request away
//! regardless of lock state. The coordinator also tracks tab health and the
//! active tab, routes queries through it, and keeps an append-only log of
//! accepted operations.

use vstd::prelude::*;
use vstd::string::StringExecFns;

use crate::decimal::decimal_string;
use crate::decimal::spec_decimal;
use crate::registry::TabState;
use crate::registry::register_effect;
use crate::registry::remove_effect;
use crate::types::PendingOperation;
use crate::types::QueryResult;
use crate::types::RecoveryStatus;
use crate::types::ResourceMetrics;
use crate::types::SQLQuery;
use crate::types::TransactionState;

verus! {

broadcast use vstd::string::group_string_axioms;

/// The arbiter's answer to an access request.
pub struct AccessResponse {
    pub granted: bool,
    pub worker_id: String,
    pub operation: String,
    pub queue_position: Option<usize>,
}

/// A write request waiting in the FIFO queue.
pub struct QueuedRequest {
    pub worker_id: String,
    pub operation: String,
}

/// Broker-owned coordination state: lock state, write queue, transaction,
/// tab health, active tab, and the pending-operation log.
pub struct MockCoordinator {
    pub active_writer: Option<String>,
    pub write_queue: Vec<QueuedRequest>,
    pub active_readers: Vec<String>,
    pub active_tab: Option<String>,
    pub tab_health: TabState,
    pub pending_operations: Vec<PendingOperation>,
    pub current_transaction: Option<TransactionState>,
    pub active_connections: Vec<String>,
}

impl MockCoordinator {
    /// The identifier of the active writer, if any.
    pub open spec fn writer(self) -> Option<Seq<char>> {
        match self.active_writer {
            Some(w) => Some(w@),
            None => None,
        }
    }

    /// The identifiers of the active readers.
    pub open spec fn readers(self) -> Seq<Seq<char>> {
        self.active_readers.deep_view()
    }

    /// The queued write requests in arrival order, as (worker, operation).
    pub open spec fn queue(self) -> Seq<(Seq<char>, Seq<char>)> {
        self.write_queue@.map_values(|q: QueuedRequest| (q.worker_id@, q.operation@))
    }

    /// Both halves of the lock are free.
    pub open spec fn lock_free(self) -> bool {
        self.active_writer is None && self.readers().len() == 0
    }

    pub open spec fn transaction_active(self) -> bool {
        self.current_transaction is Some
    }

    /// The coordinator invariant: a writer excludes all readers, the reader
    /// set holds no duplicates, and the health registry is well-formed.
    pub open spec fn wf(self) -> bool {
        &&& self.active_writer is Some ==> self.readers().len() == 0
        &&& distinct_seqs(self.readers())
        &&& self.tab_health.wf()
    }

    /// Fields untouched by the access arbiter.
    pub open spec fn non_lock_unchanged(a: Self, b: Self) -> bool {
        &&& a.active_tab == b.active_tab
        &&& a.tab_health == b.tab_health
        &&& a.pending_operations == b.pending_operations
        &&& a.current_transaction == b.current_transaction
        &&& a.active_connections == b.active_connections
    }

    /// Fields untouched by membership and bookkeeping operations.
    pub open spec fn lock_unchanged(a: Self, b: Self) -> bool {
        &&& a.active_writer == b.active_writer
        &&& a.write_queue == b.write_queue
        &&& a.active_readers == b.active_readers
    }

    pub fn new() -> (c: Self)
        ensures
            c.active_writer is None,
            c.queue().len() == 0,
            c.readers().len() == 0,
            c.active_tab is None,
            c.tab_health.tabs@.len() == 0,
            c.pending_operations@.len() == 0,
            c.current_transaction is None,
            c.active_connections@.len() == 0,
            c.wf(),
    {
        MockCoordinator {
            active_writer: None,
            write_queue: Vec::new(),
            active_readers: Vec::new(),
            active_tab: None,
            tab_health: TabState::new(),
            pending_operations: Vec::new(),
            current_transaction: None,
            active_connections: Vec::new(),
        }
    }

    /// Requests `operation` ("write" or "read"; anything else is a contract
    /// violation) on behalf of `worker_id`.
    ///
    /// While a transaction is active every new write is turned away with the
    /// tail queue position, without being enqueued: the caller must
    /// re-request after commit. Otherwise a write is granted exactly when
    /// the lock is fully free, and enqueued FIFO when not; a read is granted
    /// exactly when no writer is active, and denied without queueing when
    /// one is.
    pub fn request_access(&mut self, worker_id: String, operation: String) -> (r: AccessResponse)
        requires
            old(self).wf(),
            operation@ == "write"@ || operation@ == "read"@,
        ensures
            final(self).wf(),
            r.worker_id@ == worker_id@,
            r.operation@ == operation@,
            Self::non_lock_unchanged(*old(self), *final(self)),
            (operation@ == "write"@ && old(self).transaction_active() ==> {
                &&& !r.granted
                &&& (r.queue_position matches Some(p) && p == old(self).queue().len())
                &&& Self::lock_unchanged(*old(self), *final(self))
            }),
            (operation@ == "write"@ && !old(self).transaction_active() ==> {
                &&& (old(self).lock_free() ==> {
                    &&& r.granted
                    &&& r.queue_position is None
                    &&& final(self).writer() == Some(worker_id@)
                    &&& final(self).write_queue == old(self).write_queue
                    &&& final(self).active_readers == old(self).active_readers
                })
                &&& (!old(self).lock_free() ==> {
                    &&& !r.granted
                    &&& (r.queue_position matches Some(p) && p == old(self).queue().len())
                    &&& final(self).queue() =~= old(self).queue().push(
                        (worker_id@, operation@),
                    )
                    &&& final(self).active_writer == old(self).active_writer
                    &&& final(self).active_readers == old(self).active_readers
                })
            }),
            (operation@ == "read"@ ==> {
                &&& r.queue_position is None
                &&& (old(self).active_writer is None ==> {
                    &&& r.granted
                    &&& final(self).readers() =~= (if old(self).readers().contains(worker_id@) {
                        old(self).readers()
                    } else {
                        old(self).readers().push(worker_id@)
                    })
                    &&& final(self).active_writer == old(self).active_writer
                    &&& final(self).write_queue == old(self).write_queue
                })
                &&& (old(self).active_writer is Some ==> {
                    &&& !r.granted
                    &&& Self::lock_unchanged(*old(self), *final(self))
                })
            }),
    {
        proof {
            reveal_strlit("write");
            reveal_strlit("read");
            assert("write"@.len() != "read"@.len());
        }
        let write_lit = String::from_str("write");
        let is_write = operation == write_lit;

        if is_write && self.current_transaction.is_some() {
            let pos = self.write_queue.len();
            return AccessResponse {
                granted: false,
                worker_id,
                operation,
                queue_position: Some(pos),
            };
        }
        if is_write {
            if self.active_writer.is_none() && self.active_readers.len() == 0 {
                proof {
                    assert(self.readers().len() == self.active_readers@.len());
                }
                self.active_writer = Some(worker_id.clone());
                AccessResponse { granted: true, worker_id, operation, queue_position: None }
            } else {
                let pos = self.write_queue.len();
                self.write_queue.push(
                    QueuedRequest {
                        worker_id: worker_id.clone(),
                        operation: operation.clone(),
                    },
                );
                proof {
                    assert(self.queue() =~= old(self).queue().push((worker_id@, operation@)));
                }
                AccessResponse {
                    granted: false,
                    worker_id,
                    operation,
                    queue_position: Some(pos),
                }
            }
        } else {
            if self.active_writer.is_none() {
                if !contains_string(&self.active_readers, &worker_id) {
                    self.active_readers.push(worker_id.clone());
                    proof {
                        let pre = old(self).readers();
                        let post = self.readers();
                        assert(post =~= pre.push(worker_id@));
                        assert forall|i: int, j: int| 0 <= i < j < post.len() implies post[i]
                            != post[j] by {
                            if j == pre.len() {
                                assert(post[i] == pre[i]);
                                assert(!pre.contains(worker_id@));
                            } else {
                                assert(post[i] == pre[i] && post[j] == pre[j]);
                            }
                        }
                    }
                }
                AccessResponse { granted: true, worker_id, operation, queue_position: None }
            } else {
                AccessResponse { granted: false, worker_id, operation, queue_position: None }
            }
        }
    }

    /// Releases whatever access `worker_id` holds: it stops being the
    /// active writer if it is, and leaves the reader set. Queued requests
    /// are not granted here; draining is a separate explicit step.
    pub fn complete_operation(&mut self, worker_id: String)
        requires
            old(self).wf(),
        ensures
            final(self).wf(),
            Self::non_lock_unchanged(*old(self), *final(self)),
            final(self).write_queue == old(self).write_queue,
            (old(self).writer() == Some(worker_id@) ==> final(self).active_writer is None),
            (old(self).writer() != Some(worker_id@) ==> final(self).active_writer == old(
                self,
            ).active_writer),
            !final(self).readers().contains(worker_id@),
            forall|s: Seq<char>|
                s != worker_id@ ==> (final(self).readers().contains(s) <==> old(
                    self,
                ).readers().contains(s)),
            final(self).readers().len() == (if old(self).readers().contains(worker_id@) {
                old(self).readers().len() - 1
            } else {
                old(self).readers().len() as int
            }),
    {
        let clear_writer = match &self.active_writer {
            Some(w) => *w == worker_id,
            None => false,
        };
        if clear_writer {
            self.active_writer = None;
        }
        match find_string(&self.active_readers, &worker_id) {
            Some(i) => {
                self.active_readers.remove(i);
                proof {
                    let pre = old(self).readers();
                    let post = self.readers();
                    let gi = i as int;
                    assert(post =~= pre.remove(gi));
                    assert forall|s: Seq<char>|
                        s != worker_id@ implies (post.contains(s) <==> pre.contains(s)) by {
                        if pre.contains(s) {
                            let k = choose|k: int| 0 <= k < pre.len() && pre[k] == s;
                            if k < gi {
                                assert(post[k] == s);
                            } else {
                                assert(post[k - 1] == s);
                            }
                        }
                        if post.contains(s) {
                            let k = choose|k: int| 0 <= k < post.len() && post[k] == s;
                            if k < gi {
                                assert(pre[k] == s);
                            } else {
                                assert(pre[k + 1] == s);
                            }
                        }
                    }
                    assert forall|k: int| 0 <= k < post.len() implies post[k] != worker_id@ by {
                        if k < gi {
                            assert(pre[k] == post[k]);
                        } else {
                            assert(pre[k + 1] == post[k]);
                        }
                    }
                }
            },
            None => {},
        }
    }

    /// Pops the head of the write queue and grants it. Calling this while
    /// the lock is not fully free, or with an empty queue, is a contract
    /// violation in the original design and is excluded here.
    pub fn get_next_queued_response(&mut self) -> (r: AccessResponse)
        requires
            old(self).wf(),
            old(self).queue().len() > 0,
            old(self).lock_free(),
        ensures
            final(self).wf(),
            Self::non_lock_unchanged(*old(self), *final(self)),
            r.granted,
            r.queue_position is None,
            r.worker_id@ == old(self).queue()[0].0,
            r.operation@ == old(self).queue()[0].1,
            final(self).writer() == Some(old(self).queue()[0].0),
            final(self).queue() =~= old(self).queue().drop_first(),
            final(self).active_readers == old(self).active_readers,
    {
        let next = self.write_queue.remove(0);
        self.active_writer = Some(next.worker_id.clone());
        proof {
            assert(self.queue() =~= old(self).queue().drop_first());
        }
        AccessResponse {
            granted: true,
            worker_id: next.worker_id,
            operation: next.operation,
            queue_position: None,
        }
    }

    /// Registers `tab_id` in the health registry with heartbeat `now_ms`.
    pub fn register_tab(&mut self, tab_id: String, now_ms: u64)
        requires
            old(self).wf(),
        ensures
            final(self).wf(),
            Self::lock_unchanged(*old(self), *final(self)),
            final(self).active_tab == old(self).active_tab,
            final(self).pending_operations == old(self).pending_operations,
            final(self).current_transaction == old(self).current_transaction,
            final(self).active_connections == old(self).active_connections,
            register_effect(old(self).tab_health, final(self).tab_health, tab_id@, now_ms),
            final(self).tab_health.has_id(tab_id@),
    {
        self.tab_health.register_tab(tab_id, now_ms);
    }

    /// Marks `tab_id` closed: drops it from the health registry and, when it
    /// was the active tab, migrates to the earliest-registered tab that is
    /// still fresh at `now_ms`. The leader is derived only from tabs still
    /// present, so when no fresh tab remains the active tab is cleared — a
    /// closed tab never stays the active leader.
    pub fn notify_tab_closed(&mut self, tab_id: String, now_ms: u64)
        requires
            old(self).wf(),
        ensures
            final(self).wf(),
            Self::lock_unchanged(*old(self), *final(self)),
            final(self).pending_operations == old(self).pending_operations,
            final(self).current_transaction == old(self).current_transaction,
            final(self).active_connections == old(self).active_connections,
            remove_effect(old(self).tab_health, final(self).tab_health, tab_id@),
            (match old(self).active_tab {
                Some(a) => a@ == tab_id@,
                None => false,
            }) ==> {
                &&& (final(self).tab_health.spec_leader(now_ms) matches Some(l) ==> (final(self).active_tab matches Some(t) && t@ == l))
                &&& (final(self).tab_health.spec_leader(now_ms) is None ==> final(self).active_tab is None)
            },
            !(match old(self).active_tab {
                Some(a) => a@ == tab_id@,
                None => false,
            }) ==> final(self).active_tab == old(self).active_tab,
    {
        self.tab_health.remove_tab(&tab_id);
        let was_active = match &self.active_tab {
            Some(a) => *a == tab_id,
            None => false,
        };
        if was_active {
            let next = self.tab_health.get_leader(now_ms);
            self.active_tab = next;
        }
    }

    /// Drops `tab_id` as timed out, treating the stale heartbeat exactly
    /// like a removal: when it was the active tab the earliest still-fresh
    /// tab takes over, and finding none clears the active tab.
    pub fn simulate_tab_timeout(&mut self, tab_id: String, now_ms: u64)
        requires
            old(self).wf(),
        ensures
            final(self).wf(),
            Self::lock_unchanged(*old(self), *final(self)),
            final(self).pending_operations == old(self).pending_operations,
            final(self).current_transaction == old(self).current_transaction,
            final(self).active_connections == old(self).active_connections,
            remove_effect(old(self).tab_health, final(self).tab_health, tab_id@),
            (match old(self).active_tab {
                Some(a) => a@ == tab_id@,
                None => false,
            }) ==> {
                &&& (final(self).tab_health.spec_leader(now_ms) matches Some(l) ==> (final(self).active_tab matches Some(t) && t@ == l))
                &&& (final(self).tab_health.spec_leader(now_ms) is None ==> final(self).active_tab is None)
            },
            !(match old(self).active_tab {
                Some(a) => a@ == tab_id@,
                None => false,
            }) ==> final(self).active_tab == old(self).active_tab,
    {
        self.tab_health.remove_tab(&tab_id);
        let was_active = match &self.active_tab {
            Some(a) => *a == tab_id,
            None => false,
        };
        if was_active {
            let next = self.tab_health.get_leader(now_ms);
            self.active_tab = next;
        }
    }

    /// Makes `tab_id` the active tab.
    pub fn set_active_tab(&mut self, tab_id: String)
        requires
            old(self).wf(),
        ensures
            final(self).wf(),
            Self::lock_unchanged(*old(self), *final(self)),
            final(self).tab_health == old(self).tab_health,
            final(self).pending_operations == old(self).pending_operations,
            final(self).current_transaction == old(self).current_transaction,
            final(self).active_connections == old(self).active_connections,
            final(self).active_tab == Some(tab_id),
    {
        self.active_tab = Some(tab_id);
    }

    /// The active tab, if any.
    pub fn get_active_tab(&self) -> (r: Option<String>)
        ensures
            r == self.active_tab,
    {
        match &self.active_tab {
            Some(t) => Some(t.clone()),
            None => None,
        }
    }

    /// Routes a query through the active tab: succeeds exactly when one is
    /// set, reporting which tab the query was routed through.
    pub fn route_query(&self, _from_tab: String, _query: SQLQuery) -> (r: Result<
        QueryResult,
        String,
    >)
        ensures
            (self.active_tab matches Some(t) ==> (r matches Ok(q) && q.routed_through@ == t@
                && q.data@.len() == 0)),
            (self.active_tab is None ==> (r matches Err(m) && m@ == "No active tab available"@)),
    {
        match &self.active_tab {
            Some(t) => Ok(QueryResult { routed_through: t.clone(), data: Vec::new() }),
            None => Err(String::from_str("No active tab available")),
        }
    }

    /// Appends an accepted operation to the audit log, stamped `now_ms` and
    /// labelled `op-<n>` where `n` counts the operations logged before it.
    pub fn queue_operation(&mut self, tab_id: String, sql: String, now_ms: u64)
        requires
            old(self).wf(),
        ensures
            final(self).wf(),
            Self::lock_unchanged(*old(self), *final(self)),
            final(self).active_tab == old(self).active_tab,
            final(self).tab_health == old(self).tab_health,
            final(self).current_transaction == old(self).current_transaction,
            final(self).active_connections == old(self).active_connections,
            final(self).pending_operations@.len() == old(self).pending_operations@.len() + 1,
            forall|k: int|
                0 <= k < old(self).pending_operations@.len() ==> final(self).pending_operations@[k]
                    == old(self).pending_operations@[k],
            final(self).pending_operations@.last().id@ == "op-"@ + spec_decimal(
                old(self).pending_operations@.len(),
            ),
            final(self).pending_operations@.last().sql@ == sql@,
            final(self).pending_operations@.last().tab_id@ == tab_id@,
            final(self).pending_operations@.last().timestamp == now_ms,
    {
        let mut id = String::from_str("op-");
        let number = decimal_string(self.pending_operations.len());
        id.append(number.as_str());
        self.pending_operations.push(
            PendingOperation { id, sql, tab_id, timestamp: now_ms },
        );
    }

    /// A copy of the audit log.
    pub fn get_completed_operations(&self) -> (r: Vec<PendingOperation>)
        ensures
            r@ == self.pending_operations@,
    {
        clone_operations(&self.pending_operations)
    }

    /// A copy of the audit log (the log is cleared only by explicit drain,
    /// so pending and completed views coincide).
    pub fn get_pending_operations(&self) -> (r: Vec<PendingOperation>)
        ensures
            r@ == self.pending_operations@,
    {
        clone_operations(&self.pending_operations)
    }

    /// Accepts a simulated failure notification; recovery is immediate.
    pub fn simulate_operation_failure(&self, _tab_id: String) {
    }

    /// The recovery state: always recovered and consistent, with no detail.
    pub fn get_recovery_status(&self) -> (r: RecoveryStatus)
        ensures
            r.recovered,
            r.data_consistent,
            r.error_details is None,
    {
        RecoveryStatus { recovered: true, data_consistent: true, error_details: None }
    }

    /// A snapshot of resource usage.
    pub fn get_resource_metrics(&self) -> (r: ResourceMetrics)
        ensures
            r.active_connections == self.active_connections@.len(),
            r.pending_operations == self.pending_operations@.len(),
            r.memory_usage == 0,
            r.storage_usage == 0,
    {
        ResourceMetrics {
            active_connections: self.active_connections.len(),
            pending_operations: self.pending_operations.len(),
            memory_usage: self.calculate_memory_usage(),
            storage_usage: self.calculate_storage_usage(),
        }
    }

    fn calculate_memory_usage(&self) -> (r: usize)
        ensures
            r == 0,
    {
        0
    }

    fn calculate_storage_usage(&self) -> (r: usize)
        ensures
            r == 0,
    {
        0
    }

    /// Opens a transaction owned by `tab_id` at `now_ms`, replacing any
    /// transaction already open. While it is open, every new write access
    /// request is turned away.
    pub fn begin_transaction(&mut self, tab_id: String, now_ms: u64)
        requires
            old(self).wf(),
        ensures
            final(self).wf(),
            Self::lock_unchanged(*old(self), *final(self)),
            final(self).active_tab == old(self).active_tab,
            final(self).tab_health == old(self).tab_health,
            final(self).pending_operations == old(self).pending_operations,
            final(self).active_connections == old(self).active_connections,
            (final(self).current_transaction matches Some(t) && t.tab_id@ == tab_id@
                && t.operations@.len() == 0 && t.start_time == now_ms),
    {
        self.current_transaction = Some(
            TransactionState { tab_id, operations: Vec::new(), start_time: now_ms },
        );
    }

    /// Closes the open transaction, if any. Writes turned away while it was
    /// open stay away: commit grants nothing retroactively.
    pub fn commit_transaction(&mut self, _tab_id: String)
        requires
            old(self).wf(),
        ensures
            final(self).wf(),
            Self::lock_unchanged(*old(self), *final(self)),
            final(self).active_tab == old(self).active_tab,
            final(self).tab_health == old(self).tab_health,
            final(self).pending_operations == old(self).pending_operations,
            final(self).active_connections == old(self).active_connections,
            final(self).current_transaction is None,
    {
        self.current_transaction = None;
    }
}

/// No two elements of `s` are equal.
pub open spec fn distinct_seqs(s: Seq<Seq<char>>) -> bool {
    forall|i: int, j: int| 0 <= i < j < s.len() ==> s[i] != s[j]
}

/// Whether `x` occurs in `v`.
fn contains_string(v: &Vec<String>, x: &String) -> (r: bool)
    ensures
        r == v.deep_view().contains(x@),
{
    let n = v.len();
    let mut i: usize = 0;
    while i < n
        invariant
            n == v@.len(),
            i <= n,
            forall|k: int| 0 <= k < i ==> v.deep_view()[k] != x@,
        decreases n - i,
    {
        if v[i] == *x {
            proof {
                assert(v.deep_view()[i as int] == x@);
            }
            return true;
        }
        i += 1;
    }
    false
}

/// The index of the first occurrence of `x` in `v`, if any.
fn find_string(v: &Vec<String>, x: &String) -> (r: Option<usize>)
    ensures
        match r {
            Some(i) => i < v@.len() && v.deep_view()[i as int] == x@,
            None => !v.deep_view().contains(x@),
        },
{
    let n = v.len();
    let mut i: usize = 0;
    while i < n
        invariant
            n == v@.len(),
            i <= n,
            forall|k: int| 0 <= k < i ==> v.deep_view()[k] != x@,
        decreases n - i,
    {
        if v[i] == *x {
            return Some(i);
        }
        i += 1;
    }
    None
}

/// An element-by-element copy of the operation log.
fn clone_operations(ops: &Vec<PendingOperation>) -> (r: Vec<PendingOperation>)
    ensures
        r@ == ops@,
{
    let n = ops.len();
    let mut r: Vec<PendingOperation> = Vec::new();
    let mut i: usize = 0;
    while i < n
        invariant
            n == ops@.len(),
            i <= n,
            r@ =~= ops@.take(i as int),
        decreases n - i,
    {
        let op = PendingOperation {
            id: ops[i].id.clone(),
            sql: ops[i].sql.clone(),
            tab_id: ops[i].tab_id.clone(),
            timestamp: ops[i].timestamp,
        };
        proof {
            assert(op == ops@[i as int]);
        }
        r.push(op);
        i += 1;
    }
    proof {
        assert(ops@.take(n as int) =~= ops@);
    }
    r
}

/// Writer/reader exclusivity: in any well-formed coordinator state — and
/// every operation of the arbiter both requires and preserves
/// well-formedness — an active writer rules out all readers, so at most one
/// write holder with zero read holders, or no write holder, ever coexist.
pub proof fn lemma_access_exclusive(c: MockCoordinator)
    requires
        c.wf(),
    ensures
        c.active_writer is Some ==> c.readers().len() == 0,
        c.readers().len() > 0 ==> c.active_writer is None,
{
}

/// One step of the arbiter, as far as the write queue is concerned. The
/// method contracts show that every operation takes one of these shapes:
/// a denied write request appends at the tail (`request_access`, its
/// `queue().push` clause); `get_next_queued_response` grants the head and
/// drops it; every other operation — a granted request, a denied read, a
/// transaction-blocked write, `complete_operation` — leaves the queue
/// untouched.
pub enum ArbiterStep {
    Enqueue { worker_id: Seq<char>, operation: Seq<char> },
    Drain,
    Untouched,
}

/// The requests enqueued by `steps`, in arrival order.
pub open spec fn enqueued(steps: Seq<ArbiterStep>) -> Seq<(Seq<char>, Seq<char>)>
    decreases steps.len(),
{
    if steps.len() == 0 {
        Seq::empty()
    } else {
        let rest = enqueued(steps.drop_last());
        match steps.last() {
            ArbiterStep::Enqueue { worker_id, operation } => rest.push((worker_id, operation)),
            _ => rest,
        }
    }
}

/// How many drains `steps` perform.
pub open spec fn drain_count(steps: Seq<ArbiterStep>) -> nat
    decreases steps.len(),
{
    if steps.len() == 0 {
        0
    } else {
        drain_count(steps.drop_last()) + (if steps.last() is Drain {
            1nat
        } else {
            0nat
        })
    }
}

/// The write queue after running `steps` from queue `q`.
pub open spec fn queue_after(
    q: Seq<(Seq<char>, Seq<char>)>,
    steps: Seq<ArbiterStep>,
) -> Seq<(Seq<char>, Seq<char>)>
    decreases steps.len(),
{
    if steps.len() == 0 {
        q
    } else {
        let prev = queue_after(q, steps.drop_last());
        match steps.last() {
            ArbiterStep::Enqueue { worker_id, operation } => prev.push((worker_id, operation)),
            ArbiterStep::Drain => prev.drop_first(),
            ArbiterStep::Untouched => prev,
        }
    }
}

/// The requests granted by the drains of `steps`, in grant order.
pub open spec fn grants_after(
    q: Seq<(Seq<char>, Seq<char>)>,
    steps: Seq<ArbiterStep>,
) -> Seq<(Seq<char>, Seq<char>)>
    decreases steps.len(),
{
    if steps.len() == 0 {
        Seq::empty()
    } else {
        let prev = grants_after(q, steps.drop_last());
        match steps.last() {
            ArbiterStep::Drain => prev.push(queue_after(q, steps.drop_last()).first()),
            _ => prev,
        }
    }
}

/// A trace is admissible when every drain happens on a nonempty queue —
/// draining an empty queue is a contract violation, excluded by
/// `get_next_queued_response`'s precondition.
pub open spec fn wf_trace(q: Seq<(Seq<char>, Seq<char>)>, steps: Seq<ArbiterStep>) -> bool
    decreases steps.len(),
{
    if steps.len() == 0 {
        true
    } else {
        wf_trace(q, steps.drop_last()) && (steps.last() is Drain ==> queue_after(
            q,
            steps.drop_last(),
        ).len() > 0)
    }
}

/// FIFO fairness, over whole traces: starting from queue `q`, after any
/// admissible interleaving of enqueues, drains and queue-neutral
/// operations, the requests granted so far are exactly the first
/// `drain_count` requests in arrival order, and the queue holds the rest.
/// In particular grants never overtake: a writer queued earlier is granted
/// earlier, whatever `complete_operation` calls happen in between.
pub proof fn lemma_fifo_grant_order(q: Seq<(Seq<char>, Seq<char>)>, steps: Seq<ArbiterStep>)
    requires
        wf_trace(q, steps),
    ensures
        drain_count(steps) <= q.len() + enqueued(steps).len(),
        grants_after(q, steps) =~= (q + enqueued(steps)).take(drain_count(steps) as int),
        queue_after(q, steps) =~= (q + enqueued(steps)).skip(drain_count(steps) as int),
    decreases steps.len(),
{
    if steps.len() > 0 {
        let head = steps.drop_last();
        lemma_fifo_grant_order(q, head);
        let all_prev = q + enqueued(head);
        let d = drain_count(head) as int;
        match steps.last() {
            ArbiterStep::Enqueue { worker_id, operation } => {
                let p = (worker_id, operation);
                let all = q + enqueued(steps);
                assert(enqueued(steps) =~= enqueued(head).push(p));
                assert(all =~= all_prev.push(p));
                assert(all.take(d) =~= all_prev.take(d));
                assert(all.skip(d) =~= all_prev.skip(d).push(p));
                assert(queue_after(q, steps) =~= queue_after(q, head).push(p));
            },
            ArbiterStep::Drain => {
                let all = q + enqueued(steps);
                assert(enqueued(steps) =~= enqueued(head));
                assert(all =~= all_prev);
                assert(queue_after(q, head).len() > 0);
                assert(queue_after(q, head) =~= all.skip(d));
                assert(d < all.len());
                assert(queue_after(q, head).first() == all[d]);
                assert(grants_after(q, steps) =~= all.take(d).push(all[d]));
                assert(all.take(d).push(all[d]) =~= all.take(d + 1));
                assert(queue_after(q, steps) =~= all.skip(d).drop_first());
                assert(all.skip(d).drop_first() =~= all.skip(d + 1));
            },
            ArbiterStep::Untouched => {
                assert(enqueued(steps) =~= enqueued(head));
                assert(q + enqueued(steps) =~= all_prev);
            },
        }
    } else {
        assert((q + enqueued(steps)) =~= q);
        assert(q.skip(0) =~= q);
    }
}

/// The reading of `lemma_fifo_grant_order` closest to the fairness claim:
/// if writer A stands at position `i` of the queue and writer B behind it
/// at position `j`, then once B has been granted, A was granted at an
/// earlier drain.
pub proof fn lemma_fifo_fairness(
    q: Seq<(Seq<char>, Seq<char>)>,
    steps: Seq<ArbiterStep>,
    i: int,
    j: int,
)
    requires
        wf_trace(q, steps),
        0 <= i < j < q.len(),
        j < drain_count(steps),
    ensures
        grants_after(q, steps)[i] == q[i],
        grants_after(q, steps)[j] == q[j],
{
    lemma_fifo_grant_order(q, steps);
    let all = q + enqueued(steps);
    assert(all[i] == q[i]);
    assert(all[j] == q[j]);
}

} // verus!
