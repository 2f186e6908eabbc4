//! A bounded pool of database connections.
//!
//! `acquire` hands out a free slot when one exists, creates one while under
//! the cap, and otherwise fails with "Pool exhausted". `release` marks a
//! slot free again; `cleanup_stale_connections` evicts slots unused beyond
//! a fixed threshold.

use vstd::prelude::*;
use vstd::string::StringExecFns;

use crate::coordinator::distinct_seqs;
use crate::decimal::decimal_string;
use crate::decimal::spec_decimal;

verus! {

/// Idle time (in milliseconds) beyond which a slot is evicted by cleanup.
pub const STALE_THRESHOLD_MS: u64 = 300000;

/// One pooled connection slot. `initialized` means the slot is currently
/// handed out; a free slot has `initialized` false until it is reused.
pub struct Connection {
    pub id: String,
    pub initialized: bool,
    pub last_used: u64,
    pub reused: bool,
}

impl Clone for Connection {
    fn clone(&self) -> (r: Self)
        ensures
            r == *self,
    {
        Connection {
            id: self.id.clone(),
            initialized: self.initialized,
            last_used: self.last_used,
            reused: self.reused,
        }
    }
}

impl Connection {
    pub fn is_initialized(&self) -> (r: bool)
        ensures
            r == self.initialized,
    {
        self.initialized
    }

    pub fn is_reused(&self) -> (r: bool)
        ensures
            r == self.reused,
    {
        self.reused
    }
}

/// Whether a slot is kept by cleanup at `now`: cleanup evicts free slots
/// unused beyond the threshold, so a slot currently handed out is always
/// kept, whatever its last-used stamp says.
pub open spec fn retained(c: Connection, now: u64) -> bool {
    c.initialized || now <= c.last_used || now - c.last_used < STALE_THRESHOLD_MS
}

/// Whether a slot counts as stale in the `stale_connections` report. An
/// idle time of exactly the threshold is evicted by cleanup yet not counted
/// stale, as in the original accounting.
pub open spec fn counted_stale(c: Connection, now: u64) -> bool {
    now > c.last_used && now - c.last_used > STALE_THRESHOLD_MS
}

/// The bounded pool: its slots, keyed by distinct identifiers, and the cap.
pub struct ConnectionPool {
    pub connections: Vec<Connection>,
    pub max_size: usize,
}

impl ConnectionPool {
    /// The slot identifiers, in slot order.
    pub open spec fn conn_ids(self) -> Seq<Seq<char>> {
        self.connections@.map_values(|c: Connection| c.id@)
    }

    /// Pool invariant: identifiers are distinct and the cap is respected.
    pub open spec fn wf(self) -> bool {
        &&& distinct_seqs(self.conn_ids())
        &&& self.connections@.len() <= self.max_size
    }

    /// The identifier minted for the next created slot.
    pub open spec fn fresh_conn_id(pre: Self) -> Seq<char> {
        "conn-"@ + spec_decimal(pre.connections@.len())
    }

    /// `acquire` reused the free slot at index `k`: it was handed out again
    /// with its last-used time stamped `now`.
    pub open spec fn reuses_slot(
        pre: Self,
        post: Self,
        r: Result<Connection, String>,
        now: u64,
        k: int,
    ) -> bool {
        &&& 0 <= k < pre.connections@.len()
        &&& !pre.connections@[k].initialized
        &&& {
            let c = (Connection {
                id: pre.connections@[k].id,
                initialized: true,
                last_used: now,
                reused: true,
            });
            r == Ok::<Connection, String>(c) && post.connections@ =~= pre.connections@.update(
                k,
                c,
            )
        }
    }

    /// `acquire` created a brand-new slot: the returned connection carries
    /// the minted identifier and takes the place of any evicted slot that
    /// carried it before, as a keyed insert would.
    pub open spec fn creates_slot(
        pre: Self,
        post: Self,
        r: Result<Connection, String>,
        now: u64,
    ) -> bool {
        r matches Ok(c) && {
            &&& c.id@ == Self::fresh_conn_id(pre)
            &&& c.initialized
            &&& !c.reused
            &&& c.last_used == now
            &&& (!pre.conn_ids().contains(c.id@) ==> post.connections@ =~= pre.connections@.push(
                c,
            ))
            &&& (pre.conn_ids().contains(c.id@) ==> exists|k: int|
                {
                    &&& 0 <= k < pre.connections@.len()
                    &&& (#[trigger] pre.connections@[k]).id@ == c.id@
                    &&& post.connections@ =~= pre.connections@.update(k, c)
                })
        }
    }

    /// `release` freed the slot at index `k`, which carried `id`.
    pub open spec fn frees_slot(pre: Self, post: Self, id: Seq<char>, now: u64, k: int) -> bool {
        &&& 0 <= k < pre.connections@.len()
        &&& pre.connections@[k].id@ == id
        &&& post.connections@ =~= pre.connections@.update(
            k,
            (Connection {
                id: pre.connections@[k].id,
                initialized: false,
                last_used: now,
                reused: pre.connections@[k].reused,
            }),
        )
    }

    pub fn new(max_size: usize) -> (p: Self)
        ensures
            p.connections@.len() == 0,
            p.max_size == max_size,
            p.wf(),
    {
        ConnectionPool { connections: Vec::new(), max_size }
    }

    /// Hands out a connection stamped `now_ms`: a free slot when one exists
    /// (marked reused), else a fresh slot `conn-<n>` while under the cap,
    /// else the pool is exhausted.
    pub fn acquire(&mut self, now_ms: u64) -> (r: Result<Connection, String>)
        requires
            old(self).wf(),
        ensures
            final(self).wf(),
            final(self).max_size == old(self).max_size,
            (exists|k: int|
                0 <= k < old(self).connections@.len()
                    && !(#[trigger] old(self).connections@[k]).initialized) ==> exists|k: int|
                Self::reuses_slot(*old(self), *final(self), r, now_ms, k),
            (forall|k: int|
                0 <= k < old(self).connections@.len() ==> (#[trigger] old(
                    self,
                ).connections@[k]).initialized) ==> {
                &&& (old(self).connections@.len() < old(self).max_size ==> Self::creates_slot(
                    *old(self),
                    *final(self),
                    r,
                    now_ms,
                ))
                &&& (old(self).connections@.len() >= old(self).max_size ==> {
                    &&& (r matches Err(m) && m@ == "Pool exhausted"@)
                    &&& *final(self) == *old(self)
                })
            },
    {
        let n = self.connections.len();
        let mut i: usize = 0;
        while i < n
            invariant
                old(self).wf(),
                n == self.connections@.len(),
                i <= n,
                *self == *old(self),
                forall|k: int| 0 <= k < i ==> (#[trigger] self.connections@[k]).initialized,
            decreases n - i,
        {
            if !self.connections[i].initialized {
                let updated = Connection {
                    id: self.connections[i].id.clone(),
                    initialized: true,
                    last_used: now_ms,
                    reused: true,
                };
                let handed_out = updated.clone();
                self.connections[i] = updated;
                proof {
                    lemma_distinct_after_update(*old(self), *self, i as int);
                    assert(ConnectionPool::reuses_slot(
                        *old(self),
                        *self,
                        Ok::<Connection, String>(handed_out),
                        now_ms,
                        i as int,
                    ));
                }
                return Ok(handed_out);
            }
            i += 1;
        }
        if self.connections.len() < self.max_size {
            let mut id = String::from_str("conn-");
            let number = decimal_string(self.connections.len());
            id.append(number.as_str());
            let conn = Connection { id, initialized: true, last_used: now_ms, reused: false };
            let handed_out = conn.clone();
            match find_connection(&self.connections, &conn.id) {
                Some(k) => {
                    self.connections[k] = conn;
                    proof {
                        lemma_distinct_after_update(*old(self), *self, k as int);
                    }
                },
                None => {
                    self.connections.push(conn);
                    proof {
                        let pre = old(self).conn_ids();
                        let post = self.conn_ids();
                        assert forall|k: int| 0 <= k < pre.len() implies post[k] == pre[k] by {
                            assert(post[k] == self.connections@[k].id@);
                            assert(pre[k] == old(self).connections@[k].id@);
                        }
                        assert(post[pre.len() as int] == handed_out.id@);
                        assert(post =~= pre.push(handed_out.id@));
                        assert forall|a: int, b: int| 0 <= a < b < post.len() implies post[a]
                            != post[b] by {
                            if b == pre.len() {
                                assert(post[a] == pre[a]);
                                assert(!pre.contains(handed_out.id@));
                            } else {
                                assert(post[a] == pre[a] && post[b] == pre[b]);
                            }
                        }
                    }
                },
            }
            Ok(handed_out)
        } else {
            Err(String::from_str("Pool exhausted"))
        }
    }

    /// Marks the slot with `conn`'s identifier free and stamps its last-used
    /// time; a no-op if the pool no longer holds that identifier.
    pub fn release(&mut self, conn: Connection, now_ms: u64)
        requires
            old(self).wf(),
        ensures
            final(self).wf(),
            final(self).max_size == old(self).max_size,
            old(self).conn_ids().contains(conn.id@) ==> exists|k: int|
                Self::frees_slot(*old(self), *final(self), conn.id@, now_ms, k),
            !old(self).conn_ids().contains(conn.id@) ==> *final(self) == *old(self),
    {
        match find_connection(&self.connections, &conn.id) {
            Some(k) => {
                self.connections[k].initialized = false;
                self.connections[k].last_used = now_ms;
                proof {
                    lemma_distinct_after_update(*old(self), *self, k as int);
                    assert(self.connections@[k as int] == (Connection {
                        id: old(self).connections@[k as int].id,
                        initialized: false,
                        last_used: now_ms,
                        reused: old(self).connections@[k as int].reused,
                    }));
                    assert(ConnectionPool::frees_slot(
                        *old(self),
                        *self,
                        conn.id@,
                        now_ms,
                        k as int,
                    ));
                }
            },
            None => {},
        }
    }

    /// How many more connections could still be created: the cap minus the
    /// number of slots, free or handed out.
    pub fn available_connections(&self) -> (r: usize)
        requires
            self.wf(),
        ensures
            r == self.max_size - self.connections@.len(),
    {
        self.max_size - self.connections.len()
    }

    /// Evicts every free slot whose idle time at `now_ms` has reached the
    /// threshold, keeping handed-out slots and the rest in order.
    pub fn cleanup_stale_connections(&mut self, now_ms: u64)
        requires
            old(self).wf(),
        ensures
            final(self).wf(),
            final(self).max_size == old(self).max_size,
            final(self).connections@ =~= old(self).connections@.filter(
                (|c: Connection| retained(c, now_ms)),
            ),
    {
        let n = self.connections.len();
        let mut kept: Vec<Connection> = Vec::new();
        let mut i: usize = 0;
        while i < n
            invariant
                n == self.connections@.len(),
                i <= n,
                *self == *old(self),
                kept@ =~= self.connections@.take(i as int).filter(
                    (|c: Connection| retained(c, now_ms)),
                ),
            decreases n - i,
        {
            let last = self.connections[i].last_used;
            proof {
                lemma_filter_take_step(self.connections@, i as int, now_ms);
            }
            if self.connections[i].initialized || now_ms <= last || now_ms - last
                < STALE_THRESHOLD_MS {
                kept.push(self.connections[i].clone());
            }
            i += 1;
        }
        proof {
            assert(self.connections@.take(n as int) =~= self.connections@);
        }
        self.connections = kept;
        proof {
            let pred = |c: Connection| retained(c, now_ms);
            lemma_filter_keeps_distinct_ids(old(self).connections@, now_ms);
            assert(self.conn_ids() =~= old(self).connections@.filter(pred).map_values(
                (|c: Connection| c.id@),
            ));
            Seq::lemma_filter_len(old(self).connections@, pred);
        }
    }

    /// How many slots are already past the staleness threshold at `now_ms`.
    pub fn stale_connections(&self, now_ms: u64) -> (r: usize)
        ensures
            r == self.connections@.filter((|c: Connection| counted_stale(c, now_ms))).len(),
    {
        let n = self.connections.len();
        let mut count: usize = 0;
        let mut i: usize = 0;
        while i < n
            invariant
                n == self.connections@.len(),
                i <= n,
                count == self.connections@.take(i as int).filter(
                    (|c: Connection| counted_stale(c, now_ms)),
                ).len(),
                count <= i,
            decreases n - i,
        {
            let last = self.connections[i].last_used;
            proof {
                lemma_stale_take_step(self.connections@, i as int, now_ms);
            }
            if now_ms > last && now_ms - last > STALE_THRESHOLD_MS {
                count += 1;
            }
            i += 1;
        }
        proof {
            assert(self.connections@.take(n as int) =~= self.connections@);
        }
        count
    }
}

/// The index of the slot carrying identifier `id`, if any.
fn find_connection(v: &Vec<Connection>, id: &String) -> (r: Option<usize>)
    ensures
        match r {
            Some(i) => i < v@.len() && v@[i as int].id@ == id@ && v@.map_values(
                (|c: Connection| c.id@),
            ).contains(id@),
            None => !v@.map_values((|c: Connection| c.id@)).contains(id@),
        },
{
    let n = v.len();
    let mut i: usize = 0;
    while i < n
        invariant
            n == v@.len(),
            i <= n,
            forall|k: int| 0 <= k < i ==> v@[k].id@ != id@,
        decreases n - i,
    {
        if v[i].id == *id {
            proof {
                assert(v@.map_values(|c: Connection| c.id@)[i as int] == id@);
            }
            return Some(i);
        }
        i += 1;
    }
    proof {
        let ids = v@.map_values(|c: Connection| c.id@);
        assert forall|k: int| 0 <= k < ids.len() implies ids[k] != id@ by {
            assert(ids[k] == v@[k].id@);
        }
    }
    None
}

/// Replacing a slot with one carrying the same identifier leaves the
/// identifier sequence unchanged, hence distinct.
proof fn lemma_distinct_after_update(pre: ConnectionPool, post: ConnectionPool, i: int)
    requires
        distinct_seqs(pre.conn_ids()),
        0 <= i < pre.connections@.len(),
        post.connections@.len() == pre.connections@.len(),
        forall|j: int|
            0 <= j < pre.connections@.len() && j != i ==> post.connections@[j]
                == pre.connections@[j],
        post.connections@[i].id@ == pre.connections@[i].id@,
    ensures
        post.conn_ids() =~= pre.conn_ids(),
        distinct_seqs(post.conn_ids()),
{
    assert forall|k: int| 0 <= k < post.conn_ids().len() implies post.conn_ids()[k]
        == pre.conn_ids()[k] by {
        assert(post.conn_ids()[k] == post.connections@[k].id@);
        assert(pre.conn_ids()[k] == pre.connections@[k].id@);
    }
}

/// One step of filtering a growing prefix.
proof fn lemma_filter_take_step(s: Seq<Connection>, i: int, now: u64)
    requires
        0 <= i < s.len(),
    ensures
        s.take(i + 1).filter((|c: Connection| retained(c, now))) =~= (if retained(s[i], now) {
            s.take(i).filter((|c: Connection| retained(c, now))).push(s[i])
        } else {
            s.take(i).filter((|c: Connection| retained(c, now)))
        }),
{
    let pred = |c: Connection| retained(c, now);
    assert(s.take(i + 1) =~= s.take(i) + seq![s[i]]);
    Seq::filter_distributes_over_add(s.take(i), seq![s[i]], pred);
    reveal_with_fuel(Seq::filter, 2);
    assert(seq![s[i]].drop_last() =~= Seq::<Connection>::empty());
    if pred(s[i]) {
        assert(seq![s[i]].filter(pred) =~= seq![s[i]]);
        assert(s.take(i).filter(pred) + seq![s[i]] =~= s.take(i).filter(pred).push(s[i]));
    } else {
        assert(seq![s[i]].filter(pred) =~= Seq::<Connection>::empty());
        assert(s.take(i).filter(pred) + Seq::<Connection>::empty() =~= s.take(i).filter(pred));
    }
}

/// One step of counting a growing prefix.
proof fn lemma_stale_take_step(s: Seq<Connection>, i: int, now: u64)
    requires
        0 <= i < s.len(),
    ensures
        s.take(i + 1).filter((|c: Connection| counted_stale(c, now))).len() == (if counted_stale(
            s[i],
            now,
        ) {
            s.take(i).filter((|c: Connection| counted_stale(c, now))).len() + 1
        } else {
            s.take(i).filter((|c: Connection| counted_stale(c, now))).len() as nat
        }),
{
    let pred = |c: Connection| counted_stale(c, now);
    assert(s.take(i + 1) =~= s.take(i) + seq![s[i]]);
    Seq::filter_distributes_over_add(s.take(i), seq![s[i]], pred);
    reveal_with_fuel(Seq::filter, 2);
    assert(seq![s[i]].drop_last() =~= Seq::<Connection>::empty());
    if pred(s[i]) {
        assert(seq![s[i]].filter(pred) =~= seq![s[i]]);
        assert(s.take(i).filter(pred) + seq![s[i]] =~= s.take(i).filter(pred).push(s[i]));
    } else {
        assert(seq![s[i]].filter(pred) =~= Seq::<Connection>::empty());
        assert(s.take(i).filter(pred) + Seq::<Connection>::empty() =~= s.take(i).filter(pred));
    }
}

/// Every slot kept by a filter is one of the original slots.
proof fn lemma_filter_element_of(s: Seq<Connection>, pred: spec_fn(Connection) -> bool, i: int)
    requires
        0 <= i < s.filter(pred).len(),
    ensures
        s.contains(s.filter(pred)[i]),
    decreases s.len(),
{
    reveal_with_fuel(Seq::filter, 2);
    if s.len() == 0 {
    } else {
        let head = s.drop_last();
        let fh = head.filter(pred);
        if pred(s.last()) {
            assert(s.filter(pred) == fh.push(s.last()));
            if i < fh.len() {
                lemma_filter_element_of(head, pred, i);
                let j = choose|j: int| 0 <= j < head.len() && head[j] == fh[i];
                assert(s[j] == head[j]);
            } else {
                assert(s.filter(pred)[i] == s.last());
                assert(s[s.len() - 1] == s.last());
            }
        } else {
            assert(s.filter(pred) == fh);
            lemma_filter_element_of(head, pred, i);
            let j = choose|j: int| 0 <= j < head.len() && head[j] == fh[i];
            assert(s[j] == head[j]);
        }
    }
}

/// Filtering keeps the kept slots' identifiers distinct: each kept slot is
/// one of the original distinct slots, kept in order.
proof fn lemma_filter_keeps_distinct_ids(s: Seq<Connection>, now: u64)
    requires
        distinct_seqs(s.map_values(|c: Connection| c.id@)),
    ensures
        distinct_seqs(
            s.filter((|c: Connection| retained(c, now))).map_values((|c: Connection| c.id@)),
        ),
    decreases s.len(),
{
    let pred = |c: Connection| retained(c, now);
    reveal_with_fuel(Seq::filter, 2);
    if s.len() == 0 {
        assert(s.filter(pred) =~= Seq::<Connection>::empty());
    } else {
        let head = s.drop_last();
        let ids = s.map_values(|c: Connection| c.id@);
        let head_ids = head.map_values(|c: Connection| c.id@);
        assert forall|a: int, b: int| 0 <= a < b < head_ids.len() implies head_ids[a]
            != head_ids[b] by {
            assert(head_ids[a] == head[a].id@ && head[a] == s[a]);
            assert(head_ids[b] == head[b].id@ && head[b] == s[b]);
            assert(ids[a] == s[a].id@ && ids[b] == s[b].id@);
        }
        lemma_filter_keeps_distinct_ids(head, now);
        let fh = head.filter(pred);
        let fh_ids = fh.map_values(|c: Connection| c.id@);
        if pred(s.last()) {
            assert(s.filter(pred) == fh.push(s.last()));
            let f_ids = s.filter(pred).map_values(|c: Connection| c.id@);
            assert(f_ids =~= fh_ids.push(s.last().id@));
            assert forall|a: int, b: int| 0 <= a < b < f_ids.len() implies f_ids[a]
                != f_ids[b] by {
                if b == fh_ids.len() {
                    assert(f_ids[a] == fh_ids[a]);
                    assert(fh_ids[a] == fh[a].id@);
                    lemma_filter_element_of(head, pred, a);
                    let j = choose|j: int| 0 <= j < head.len() && head[j] == fh[a];
                    assert(head[j] == s[j]);
                    assert(ids[j] == s[j].id@);
                    assert(ids[s.len() - 1] == s.last().id@);
                    assert(j < s.len() - 1);
                } else {
                    assert(f_ids[a] == fh_ids[a] && f_ids[b] == fh_ids[b]);
                }
            }
        } else {
            assert(s.filter(pred) == fh);
        }
    }
}

} // verus!
