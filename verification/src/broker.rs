//! The broker's message dispatch.
//!
//! The broker is single-threaded: the host hands it one inbound message at a
//! time, in arrival order, and performs the sends it returns. `handle_message`
//! is the whole step — membership and leader bookkeeping, heartbeat refresh
//! on inbound activity, and routing of queries to the leader and of responses
//! back to the participant that asked.

use vstd::prelude::*;

use crate::messages::Outgoing;
use crate::messages::TabMessage;
use crate::registry::TabState;
use crate::registry::register_effect;
use crate::registry::remove_effect;
use crate::registry::touch_effect;

verus! {

/// Processes one inbound message against the registry and returns the sends
/// the host must perform, at most one per message.
///
/// Responses (`QueryResponse`, `LeaderDataResponse`) are re-addressed to the
/// participant named in their `from_tab_id` field, never to the sender: this
/// is the indirection that lets the leader answer on any participant's
/// behalf. A response whose `from_tab_id` is not registered is dropped.
pub fn handle_message(state: &mut TabState, msg: TabMessage, now_ms: u64) -> (out: Vec<Outgoing>)
    requires
        old(state).wf(),
    ensures
        final(state).wf(),
        out@.len() <= 1,
        (msg matches TabMessage::Register { tab_id } ==> {
            &&& register_effect(*old(state), *final(state), tab_id@, now_ms)
            &&& out@.len() == 1
            &&& out@[0].dest@ == tab_id@
            &&& (out@[0].msg matches TabMessage::LeaderResponse { is_leader } && is_leader == (
            final(state).spec_leader(now_ms) == Some(tab_id@)))
        }),
        (msg matches TabMessage::CheckLeader { tab_id } ==> {
            &&& touch_effect(*old(state), *final(state), tab_id@, now_ms)
            &&& out@.len() == 1
            &&& out@[0].dest@ == tab_id@
            &&& (out@[0].msg matches TabMessage::LeaderResponse { is_leader } && is_leader == (
            final(state).spec_leader(now_ms) == Some(tab_id@)))
        }),
        (msg matches TabMessage::QueryLeader { from_tab_id } ==> {
            &&& touch_effect(*old(state), *final(state), from_tab_id@, now_ms)
            &&& (final(state).spec_leader(now_ms) matches Some(leader) ==> {
                &&& out@.len() == 1
                &&& out@[0].dest@ == leader
                &&& (out@[0].msg matches TabMessage::QueryLeader { from_tab_id: f } && f@
                    == from_tab_id@)
            })
            &&& (final(state).spec_leader(now_ms) is None ==> out@.len() == 0)
        }),
        (msg matches TabMessage::ExecuteQuery { sql, from_tab_id } ==> {
            &&& touch_effect(*old(state), *final(state), from_tab_id@, now_ms)
            &&& (final(state).spec_leader(now_ms) matches Some(leader) ==> {
                &&& out@.len() == 1
                &&& out@[0].dest@ == leader
                &&& (out@[0].msg matches TabMessage::ExecuteQuery { sql: s, from_tab_id: f }
                    && s@ == sql@ && f@ == from_tab_id@)
            })
            &&& (final(state).spec_leader(now_ms) is None ==> out@.len() == 0)
        }),
        (msg matches TabMessage::LeaderDataResponse { data, from_tab_id } ==> {
            &&& *final(state) == *old(state)
            &&& (old(state).has_id(from_tab_id@) ==> {
                &&& out@.len() == 1
                &&& out@[0].dest@ == from_tab_id@
                &&& (out@[0].msg matches TabMessage::LeaderDataResponse { data: d, from_tab_id: f }
                    && d@ == data@ && f@ == from_tab_id@)
            })
            &&& (!old(state).has_id(from_tab_id@) ==> out@.len() == 0)
        }),
        (msg matches TabMessage::QueryResponse { results, from_tab_id, error } ==> {
            &&& *final(state) == *old(state)
            &&& forall|k: int| 0 <= k < out@.len() ==> (#[trigger] out@[k]).dest@ == from_tab_id@
            &&& (old(state).has_id(from_tab_id@) ==> {
                &&& out@.len() == 1
                &&& (out@[0].msg matches TabMessage::QueryResponse {
                    results: r,
                    from_tab_id: f,
                    error: e,
                } && r == results && f@ == from_tab_id@ && e == error)
            })
            &&& (!old(state).has_id(from_tab_id@) ==> out@.len() == 0)
        }),
        (msg matches TabMessage::Disconnect { tab_id } ==> {
            &&& remove_effect(*old(state), *final(state), tab_id@)
            &&& (final(state).spec_leader(now_ms) matches Some(leader) ==> (old(
                state,
            ).spec_leader(now_ms) == Some(tab_id@) ==> {
                &&& out@.len() == 1
                &&& out@[0].dest@ == leader
                &&& (out@[0].msg matches TabMessage::LeaderResponse { is_leader } && is_leader)
            }))
            &&& (old(state).spec_leader(now_ms) != Some(tab_id@) || final(state).spec_leader(
                now_ms,
            ) is None ==> out@.len() == 0)
        }),
        (msg matches TabMessage::LeaderResponse { is_leader } ==> {
            &&& *final(state) == *old(state)
            &&& out@.len() == 0
        }),
{
    let mut out: Vec<Outgoing> = Vec::new();
    match msg {
        TabMessage::Register { tab_id } => {
            state.register_tab(tab_id.clone(), now_ms);
            let is_leader = state.is_leader(&tab_id, now_ms);
            out.push(Outgoing { dest: tab_id, msg: TabMessage::LeaderResponse { is_leader } });
        },
        TabMessage::CheckLeader { tab_id } => {
            state.heartbeat(&tab_id, now_ms);
            let is_leader = state.is_leader(&tab_id, now_ms);
            out.push(Outgoing { dest: tab_id, msg: TabMessage::LeaderResponse { is_leader } });
        },
        TabMessage::QueryLeader { from_tab_id } => {
            state.heartbeat(&from_tab_id, now_ms);
            if let Some(leader) = state.get_leader(now_ms) {
                out.push(
                    Outgoing { dest: leader, msg: TabMessage::QueryLeader { from_tab_id } },
                );
            }
        },
        TabMessage::ExecuteQuery { sql, from_tab_id } => {
            state.heartbeat(&from_tab_id, now_ms);
            if let Some(leader) = state.get_leader(now_ms) {
                out.push(
                    Outgoing { dest: leader, msg: TabMessage::ExecuteQuery { sql, from_tab_id } },
                );
            }
        },
        TabMessage::LeaderDataResponse { data, from_tab_id } => {
            if state.find_tab(&from_tab_id).is_some() {
                let dest = from_tab_id.clone();
                out.push(
                    Outgoing {
                        dest,
                        msg: TabMessage::LeaderDataResponse { data, from_tab_id },
                    },
                );
            }
        },
        TabMessage::QueryResponse { results, from_tab_id, error } => {
            if state.find_tab(&from_tab_id).is_some() {
                let dest = from_tab_id.clone();
                out.push(
                    Outgoing {
                        dest,
                        msg: TabMessage::QueryResponse { results, from_tab_id, error },
                    },
                );
            }
        },
        TabMessage::Disconnect { tab_id } => {
            let was_leader = state.is_leader(&tab_id, now_ms);
            state.remove_tab(&tab_id);
            if was_leader {
                if let Some(new_leader) = state.get_leader(now_ms) {
                    out.push(
                        Outgoing {
                            dest: new_leader,
                            msg: TabMessage::LeaderResponse { is_leader: true },
                        },
                    );
                }
            }
        },
        TabMessage::LeaderResponse { is_leader: _ } => {},
    }
    out
}

} // verus!
