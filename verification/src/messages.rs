//! The message protocol spoken between participants and the broker.
//!
//! One value is one logical event on the bus. The host process moves these
//! values between the broker and the tabs; the crate only decides what each
//! one means.

use vstd::prelude::*;

verus! {

/// A protocol message. `from_tab_id` on a response names the participant the
/// broker must deliver it to, which need not be the sender.
pub enum TabMessage {
    Register { tab_id: String },
    CheckLeader { tab_id: String },
    LeaderResponse { is_leader: bool },
    QueryLeader { from_tab_id: String },
    LeaderDataResponse { data: String, from_tab_id: String },
    ExecuteQuery { sql: String, from_tab_id: String },
    QueryResponse { results: Vec<Vec<String>>, from_tab_id: String, error: Option<String> },
    Disconnect { tab_id: String },
}

/// A send the broker asks the host to perform: deliver `msg` on the channel
/// of the tab named `dest`.
pub struct Outgoing {
    pub dest: String,
    pub msg: TabMessage,
}

} // verus!
