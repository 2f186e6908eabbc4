//! Membership and leader registry.
//!
//! Tabs are kept in registration order. The leader is not stored: it is
//! derived as the earliest-registered tab whose heartbeat is still fresh.
//! A stale entry is skipped by leader derivation but is only removed by an
//! explicit `remove_tab`.

use vstd::prelude::*;

verus! {

/// Heartbeat age (in milliseconds) beyond which a tab no longer counts as
/// live for leader derivation.
pub const LIVENESS_TIMEOUT_MS: u64 = 5000;

/// One live tab: its identifier and the time of its last heartbeat.
pub struct TabEntry {
    pub tab_id: String,
    pub last_heartbeat: u64,
}

/// The membership registry: live tabs in registration order, each with its
/// last heartbeat time. Contains no duplicate identifiers.
pub struct TabState {
    pub tabs: Vec<TabEntry>,
}

/// Whether a heartbeat stamped `last` still counts as fresh at time `now`.
/// A heartbeat from the future (clock adjustment) counts as fresh.
pub open spec fn heartbeat_fresh(last: u64, now: u64) -> bool {
    now <= last || now - last < LIVENESS_TIMEOUT_MS
}

/// The earliest entry of `entries` with a fresh heartbeat, if any.
pub open spec fn first_fresh(entries: Seq<TabEntry>, now: u64) -> Option<Seq<char>>
    decreases entries.len(),
{
    if entries.len() == 0 {
        None
    } else if heartbeat_fresh(entries[0].last_heartbeat, now) {
        Some(entries[0].tab_id@)
    } else {
        first_fresh(entries.drop_first(), now)
    }
}

/// `post` is `pre` with the heartbeat of `id` (if registered) stamped `now`:
/// the tabs and their order are unchanged, and no other heartbeat moves.
pub open spec fn touch_effect(pre: TabState, post: TabState, id: Seq<char>, now: u64) -> bool {
    &&& post.tabs@.len() == pre.tabs@.len()
    &&& forall|k: int| 0 <= k < pre.tabs@.len() ==> post.tabs@[k].tab_id@ == pre.tabs@[k].tab_id@
    &&& forall|k: int|
        0 <= k < pre.tabs@.len() ==> post.tabs@[k].last_heartbeat == (if pre.tabs@[k].tab_id@
            == id {
            now
        } else {
            pre.tabs@[k].last_heartbeat
        })
}

/// `post` is `pre` with a fresh entry for `id` appended at the tail.
pub open spec fn append_effect(pre: TabState, post: TabState, id: Seq<char>, now: u64) -> bool {
    &&& post.tabs@.len() == pre.tabs@.len() + 1
    &&& forall|k: int| 0 <= k < pre.tabs@.len() ==> post.tabs@[k] == pre.tabs@[k]
    &&& post.tabs@.last().tab_id@ == id
    &&& post.tabs@.last().last_heartbeat == now
}

/// The effect of registering `id` at time `now`: appended when new, only a
/// heartbeat update when already registered (registration is idempotent).
pub open spec fn register_effect(pre: TabState, post: TabState, id: Seq<char>, now: u64) -> bool {
    if pre.has_id(id) {
        touch_effect(pre, post, id, now)
    } else {
        append_effect(pre, post, id, now)
    }
}

/// The effect of removing `id`: the one entry carrying it disappears and the
/// registration order of the rest is preserved; a no-op when absent.
pub open spec fn remove_effect(pre: TabState, post: TabState, id: Seq<char>) -> bool {
    if pre.has_id(id) {
        exists|i: int|
            {
                &&& 0 <= i < pre.tabs@.len()
                &&& pre.tabs@[i].tab_id@ == id
                &&& post.tabs@ == pre.tabs@.remove(i)
            }
    } else {
        post == pre
    }
}

impl TabState {
    /// The tab identifiers in registration order.
    pub open spec fn ids(self) -> Seq<Seq<char>> {
        self.tabs@.map_values(|e: TabEntry| e.tab_id@)
    }

    pub open spec fn has_id(self, id: Seq<char>) -> bool {
        self.ids().contains(id)
    }

    /// Registry invariant: no two entries carry the same identifier.
    pub open spec fn wf(self) -> bool {
        forall|i: int, j: int|
            0 <= i < j < self.tabs@.len() ==> self.tabs@[i].tab_id@ != self.tabs@[j].tab_id@
    }

    /// The derived leader: the earliest-registered tab that is still fresh.
    pub open spec fn spec_leader(self, now: u64) -> Option<Seq<char>> {
        first_fresh(self.tabs@, now)
    }

    pub fn new() -> (s: Self)
        ensures
            s.tabs@.len() == 0,
            s.wf(),
    {
        TabState { tabs: Vec::new() }
    }

    /// The index of the entry for `tab_id`, if it is registered.
    pub fn find_tab(&self, tab_id: &String) -> (r: Option<usize>)
        ensures
            match r {
                Some(i) => i < self.tabs@.len() && self.tabs@[i as int].tab_id@ == tab_id@
                    && self.has_id(tab_id@),
                None => !self.has_id(tab_id@),
            },
    {
        let n = self.tabs.len();
        let mut i: usize = 0;
        while i < n
            invariant
                n == self.tabs@.len(),
                i <= n,
                forall|k: int| 0 <= k < i ==> self.tabs@[k].tab_id@ != tab_id@,
            decreases n - i,
        {
            if self.tabs[i].tab_id == *tab_id {
                proof {
                    assert(self.ids()[i as int] == tab_id@);
                }
                return Some(i);
            }
            i += 1;
        }
        proof {
            assert forall|k: int| 0 <= k < self.ids().len() implies self.ids()[k] != tab_id@ by {
                assert(self.ids()[k] == self.tabs@[k].tab_id@);
            }
        }
        None
    }

    /// Appends `tab_id` if absent (idempotent on duplicate registration) and
    /// stamps its heartbeat with `now_ms`.
    pub fn register_tab(&mut self, tab_id: String, now_ms: u64)
        requires
            old(self).wf(),
        ensures
            final(self).wf(),
            final(self).has_id(tab_id@),
            register_effect(*old(self), *final(self), tab_id@, now_ms),
    {
        match self.find_tab(&tab_id) {
            Some(i) => {
                self.tabs[i].last_heartbeat = now_ms;
                proof {
                    assert(self.ids()[i as int] == tab_id@);
                    lemma_ids_pointwise(*old(self), *self);
                }
            },
            None => {
                self.tabs.push(TabEntry { tab_id, last_heartbeat: now_ms });
                proof {
                    let n = old(self).tabs@.len() as int;
                    assert(self.ids()[n] == self.tabs@[n].tab_id@);
                    assert forall|k: int| 0 <= k < n implies old(self).tabs@[k].tab_id@
                        != tab_id@ by {
                        assert(old(self).ids()[k] == old(self).tabs@[k].tab_id@);
                    }
                    assert forall|i: int, j: int|
                        0 <= i < j < self.tabs@.len() implies self.tabs@[i].tab_id@
                        != self.tabs@[j].tab_id@ by {
                        if j < n {
                            assert(old(self).tabs@[i].tab_id@ != old(self).tabs@[j].tab_id@);
                        }
                    }
                }
            },
        }
    }

    /// Updates the heartbeat of `tab_id`; a no-op if it is not registered.
    pub fn heartbeat(&mut self, tab_id: &String, now_ms: u64)
        requires
            old(self).wf(),
        ensures
            final(self).wf(),
            touch_effect(*old(self), *final(self), tab_id@, now_ms),
    {
        match self.find_tab(tab_id) {
            Some(i) => {
                self.tabs[i].last_heartbeat = now_ms;
                proof {
                    lemma_ids_pointwise(*old(self), *self);
                }
            },
            None => {
                proof {
                    assert forall|k: int|
                        0 <= k < self.tabs@.len() implies self.tabs@[k].tab_id@ != tab_id@ by {
                        assert(self.ids()[k] == self.tabs@[k].tab_id@);
                    }
                }
            },
        }
    }

    /// Removes `tab_id` from the registry; a no-op if it is not registered.
    /// Registration order of the remaining tabs is preserved.
    pub fn remove_tab(&mut self, tab_id: &String)
        requires
            old(self).wf(),
        ensures
            final(self).wf(),
            !final(self).has_id(tab_id@),
            remove_effect(*old(self), *final(self), tab_id@),
    {
        match self.find_tab(tab_id) {
            Some(i) => {
                self.tabs.remove(i);
                proof {
                    let gi = i as int;
                    assert(old(self).ids()[gi] == tab_id@);
                    assert(old(self).has_id(tab_id@));
                    assert(self.tabs@ == old(self).tabs@.remove(gi));
                    assert forall|k: int|
                        0 <= k < self.tabs@.len() implies self.tabs@[k].tab_id@ != tab_id@ by {
                        if k < gi {
                            assert(self.tabs@[k] == old(self).tabs@[k]);
                        } else {
                            assert(self.tabs@[k] == old(self).tabs@[k + 1]);
                        }
                    }
                    assert forall|k: int|
                        0 <= k < self.ids().len() implies self.ids()[k] != tab_id@ by {
                        assert(self.ids()[k] == self.tabs@[k].tab_id@);
                    }
                }
            },
            None => {
                proof {
                    assert forall|k: int|
                        0 <= k < self.ids().len() implies self.ids()[k] != tab_id@ by {
                        assert(self.ids()[k] == self.tabs@[k].tab_id@);
                    }
                }
            },
        }
    }

    /// The current leader: the earliest-registered tab whose heartbeat is
    /// fresh at `now_ms`. Stale entries are skipped, not removed.
    pub fn get_leader(&self, now_ms: u64) -> (r: Option<String>)
        ensures
            match r {
                Some(id) => self.spec_leader(now_ms) == Some(id@),
                None => self.spec_leader(now_ms) is None,
            },
    {
        let n = self.tabs.len();
        let mut i: usize = 0;
        proof {
            assert(self.tabs@.skip(0) =~= self.tabs@);
        }
        while i < n
            invariant
                n == self.tabs@.len(),
                i <= n,
                first_fresh(self.tabs@, now_ms) == first_fresh(
                    self.tabs@.skip(i as int),
                    now_ms,
                ),
            decreases n - i,
        {
            let last = self.tabs[i].last_heartbeat;
            if now_ms <= last || now_ms - last < LIVENESS_TIMEOUT_MS {
                proof {
                    let rest = self.tabs@.skip(i as int);
                    assert(rest[0] == self.tabs@[i as int]);
                }
                return Some(self.tabs[i].tab_id.clone());
            }
            proof {
                let rest = self.tabs@.skip(i as int);
                assert(rest[0] == self.tabs@[i as int]);
                assert(rest.drop_first() =~= self.tabs@.skip(i + 1));
            }
            i += 1;
        }
        proof {
            assert(self.tabs@.skip(n as int) =~= Seq::<TabEntry>::empty());
        }
        None
    }

    /// Whether `tab_id` is the current leader.
    pub fn is_leader(&self, tab_id: &String, now_ms: u64) -> (r: bool)
        ensures
            r == (self.spec_leader(now_ms) == Some(tab_id@)),
    {
        match self.get_leader(now_ms) {
            Some(leader) => leader == *tab_id,
            None => false,
        }
    }
}

/// When two registries have the same identifiers position by position, they
/// agree on `ids`, `has_id` and well-formedness.
proof fn lemma_ids_pointwise(a: TabState, b: TabState)
    requires
        a.tabs@.len() == b.tabs@.len(),
        forall|k: int| 0 <= k < a.tabs@.len() ==> a.tabs@[k].tab_id@ == b.tabs@[k].tab_id@,
    ensures
        a.ids() =~= b.ids(),
        a.wf() == b.wf(),
{
    assert forall|k: int| 0 <= k < a.ids().len() implies a.ids()[k] == b.ids()[k] by {
        assert(a.ids()[k] == a.tabs@[k].tab_id@);
        assert(b.ids()[k] == b.tabs@[k].tab_id@);
    }
}

/// Leader uniqueness: when a leader is derived it is the identifier of the
/// minimum-registration-order entry with a fresh heartbeat, and every
/// earlier-registered entry is stale.
pub proof fn lemma_leader_is_earliest_fresh(s: TabState, now: u64)
    requires
        s.spec_leader(now) is Some,
    ensures
        exists|i: int|
            {
                &&& 0 <= i < s.tabs@.len()
                &&& heartbeat_fresh(#[trigger] s.tabs@[i].last_heartbeat, now)
                &&& s.spec_leader(now) == Some(s.tabs@[i].tab_id@)
                &&& forall|k: int|
                    0 <= k < i ==> !heartbeat_fresh(#[trigger] s.tabs@[k].last_heartbeat, now)
            },
{
    lemma_first_fresh_witness(s.tabs@, now);
}

/// The other half of leader uniqueness: no leader is derived only when
/// every registered tab's heartbeat is stale.
pub proof fn lemma_no_leader_all_stale(s: TabState, now: u64)
    requires
        s.spec_leader(now) is None,
    ensures
        forall|k: int|
            0 <= k < s.tabs@.len() ==> !heartbeat_fresh(
                #[trigger] s.tabs@[k].last_heartbeat,
                now,
            ),
{
    lemma_first_fresh_none(s.tabs@, now);
}

proof fn lemma_first_fresh_none(entries: Seq<TabEntry>, now: u64)
    requires
        first_fresh(entries, now) is None,
    ensures
        forall|k: int|
            0 <= k < entries.len() ==> !heartbeat_fresh(
                #[trigger] entries[k].last_heartbeat,
                now,
            ),
    decreases entries.len(),
{
    if entries.len() > 0 {
        lemma_first_fresh_none(entries.drop_first(), now);
        assert forall|k: int| 0 <= k < entries.len() implies !heartbeat_fresh(
            #[trigger] entries[k].last_heartbeat,
            now,
        ) by {
            if k > 0 {
                assert(entries[k] == entries.drop_first()[k - 1]);
            }
        }
    }
}

/// Helper for `lemma_leader_is_earliest_fresh`, by induction over the
/// registration sequence.
proof fn lemma_first_fresh_witness(entries: Seq<TabEntry>, now: u64)
    requires
        first_fresh(entries, now) is Some,
    ensures
        exists|i: int|
            {
                &&& 0 <= i < entries.len()
                &&& heartbeat_fresh(#[trigger] entries[i].last_heartbeat, now)
                &&& first_fresh(entries, now) == Some(entries[i].tab_id@)
                &&& forall|k: int|
                    0 <= k < i ==> !heartbeat_fresh(#[trigger] entries[k].last_heartbeat, now)
            },
    decreases entries.len(),
{
    if heartbeat_fresh(entries[0].last_heartbeat, now) {
        let i = 0int;
        assert(0 <= i < entries.len() && heartbeat_fresh(entries[i].last_heartbeat, now)
            && first_fresh(entries, now) == Some(entries[i].tab_id@) && forall|k: int|
            0 <= k < i ==> !heartbeat_fresh(#[trigger] entries[k].last_heartbeat, now));
    } else {
        lemma_first_fresh_witness(entries.drop_first(), now);
        let j = choose|j: int|
            {
                &&& 0 <= j < entries.drop_first().len()
                &&& heartbeat_fresh(#[trigger] entries.drop_first()[j].last_heartbeat, now)
                &&& first_fresh(entries.drop_first(), now) == Some(
                    entries.drop_first()[j].tab_id@,
                )
                &&& forall|k: int|
                    0 <= k < j ==> !heartbeat_fresh(
                        #[trigger] entries.drop_first()[k].last_heartbeat,
                        now,
                    )
            };
        let i = j + 1;
        assert(entries[i] == entries.drop_first()[j]);
        assert forall|k: int| 0 <= k < i implies !heartbeat_fresh(
            #[trigger] entries[k].last_heartbeat,
            now,
        ) by {
            if k > 0 {
                assert(entries[k] == entries.drop_first()[k - 1]);
            }
        }
        assert(0 <= i < entries.len() && heartbeat_fresh(entries[i].last_heartbeat, now)
            && first_fresh(entries, now) == Some(entries[i].tab_id@) && forall|k: int|
            0 <= k < i ==> !heartbeat_fresh(#[trigger] entries[k].last_heartbeat, now));
    }
}

} // verus!
