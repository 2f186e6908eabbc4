//! The participant-side facade.
//!
//! A `TabManager` holds one tab's local state: its identifier, the
//! leader-held auxiliary data, and one correlation slot per kind of
//! outstanding call. The host process owns the channel: it sends the
//! messages the request builders return and feeds every inbound message to
//! the matching `take_*` handler, which decides whether it resolves an
//! outstanding call.
//!
//! A second call of the same kind before the first resolves is rejected
//! rather than silently overwriting the pending slot, so no caller's
//! result is ever lost.

use vstd::prelude::*;
use vstd::string::StringExecFns;

use crate::messages::TabMessage;

verus! {

broadcast use vstd::string::group_string_axioms;

/// One tab's local coordination state.
pub struct TabManager {
    pub tab_id: String,
    pub leader_data: String,
    pub leader_check_pending: bool,
    pub data_query_pending: bool,
    pub sql_query_pending: bool,
}

impl TabManager {
    /// A fresh manager for the tab named `tab_id`, with nothing in flight.
    /// The caller should register by sending `register_request`.
    pub fn new(tab_id: String) -> (m: Self)
        ensures
            m.tab_id == tab_id,
            m.leader_data@.len() == 0,
            !m.leader_check_pending,
            !m.data_query_pending,
            !m.sql_query_pending,
    {
        TabManager {
            tab_id,
            leader_data: String::new(),
            leader_check_pending: false,
            data_query_pending: false,
            sql_query_pending: false,
        }
    }

    /// The registration message announcing this tab to the broker.
    pub fn register_request(&self) -> (m: TabMessage)
        ensures
            m == (TabMessage::Register { tab_id: self.tab_id }),
    {
        TabMessage::Register { tab_id: self.tab_id.clone() }
    }

    /// The disconnect message the host sends when this tab goes away.
    pub fn disconnect_request(&self) -> (m: TabMessage)
        ensures
            m == (TabMessage::Disconnect { tab_id: self.tab_id }),
    {
        TabMessage::Disconnect { tab_id: self.tab_id.clone() }
    }

    /// Starts a leadership check: marks the slot busy and returns the
    /// message to send, unless a check is already in flight.
    pub fn check_leader_request(&mut self) -> (r: Result<TabMessage, String>)
        ensures
            old(self).leader_check_pending ==> {
                &&& (r matches Err(m) && m@ == "request already in flight"@)
                &&& *final(self) == *old(self)
            },
            !old(self).leader_check_pending ==> {
                &&& r == Ok::<TabMessage, String>(
                    (TabMessage::CheckLeader { tab_id: old(self).tab_id }),
                )
                &&& *final(self) == (TabManager { leader_check_pending: true, ..*old(self) })
            },
    {
        if self.leader_check_pending {
            Err(String::from_str("request already in flight"))
        } else {
            self.leader_check_pending = true;
            Ok(TabMessage::CheckLeader { tab_id: self.tab_id.clone() })
        }
    }

    /// Resolves an outstanding leadership check with the broker's answer;
    /// an answer that nothing waits for is dropped.
    pub fn take_leader_response(&mut self, is_leader: bool) -> (r: Option<bool>)
        ensures
            old(self).leader_check_pending ==> {
                &&& r == Some(is_leader)
                &&& *final(self) == (TabManager { leader_check_pending: false, ..*old(self) })
            },
            !old(self).leader_check_pending ==> r is None && *final(self) == *old(self),
    {
        if self.leader_check_pending {
            self.leader_check_pending = false;
            Some(is_leader)
        } else {
            None
        }
    }

    /// Starts a query for the leader's data: marks the slot busy and
    /// returns the message to send, unless such a query is in flight.
    pub fn query_leader_request(&mut self) -> (r: Result<TabMessage, String>)
        ensures
            old(self).data_query_pending ==> {
                &&& (r matches Err(m) && m@ == "request already in flight"@)
                &&& *final(self) == *old(self)
            },
            !old(self).data_query_pending ==> {
                &&& r == Ok::<TabMessage, String>(
                    (TabMessage::QueryLeader { from_tab_id: old(self).tab_id }),
                )
                &&& *final(self) == (TabManager { data_query_pending: true, ..*old(self) })
            },
    {
        if self.data_query_pending {
            Err(String::from_str("request already in flight"))
        } else {
            self.data_query_pending = true;
            Ok(TabMessage::QueryLeader { from_tab_id: self.tab_id.clone() })
        }
    }

    /// Resolves an outstanding data query when the response is correlated
    /// to this tab; responses for other tabs, or unsolicited ones, are
    /// dropped.
    pub fn take_leader_data_response(&mut self, data: String, from_tab_id: String) -> (r: Option<
        String,
    >)
        ensures
            old(self).data_query_pending && from_tab_id@ == old(self).tab_id@ ==> {
                &&& r == Some(data)
                &&& *final(self) == (TabManager { data_query_pending: false, ..*old(self) })
            },
            !(old(self).data_query_pending && from_tab_id@ == old(self).tab_id@) ==> r is None
                && *final(self) == *old(self),
    {
        if self.data_query_pending && from_tab_id == self.tab_id {
            self.data_query_pending = false;
            Some(data)
        } else {
            None
        }
    }

    /// Starts routing a SQL query to the leader: marks the slot busy and
    /// returns the message to send, unless a query is already in flight.
    pub fn route_query_request(&mut self, sql: String) -> (r: Result<TabMessage, String>)
        ensures
            old(self).sql_query_pending ==> {
                &&& (r matches Err(m) && m@ == "request already in flight"@)
                &&& *final(self) == *old(self)
            },
            !old(self).sql_query_pending ==> {
                &&& r == Ok::<TabMessage, String>(
                    (TabMessage::ExecuteQuery { sql, from_tab_id: old(self).tab_id }),
                )
                &&& *final(self) == (TabManager { sql_query_pending: true, ..*old(self) })
            },
    {
        if self.sql_query_pending {
            Err(String::from_str("request already in flight"))
        } else {
            self.sql_query_pending = true;
            Ok(TabMessage::ExecuteQuery { sql, from_tab_id: self.tab_id.clone() })
        }
    }

    /// Resolves an outstanding routed query when the response is correlated
    /// to this tab: an error field turns into `Err`, otherwise the rows are
    /// returned. Responses for other tabs, or unsolicited ones, are
    /// dropped.
    pub fn take_query_response(
        &mut self,
        results: Vec<Vec<String>>,
        from_tab_id: String,
        error: Option<String>,
    ) -> (r: Option<Result<Vec<Vec<String>>, String>>)
        ensures
            query_response_is_mine(*old(self), from_tab_id@) ==> {
                &&& (match error {
                    Some(e) => r == Some(Err::<Vec<Vec<String>>, String>(e)),
                    None => r == Some(Ok::<Vec<Vec<String>>, String>(results)),
                })
                &&& *final(self) == (TabManager { sql_query_pending: false, ..*old(self) })
            },
            !query_response_is_mine(*old(self), from_tab_id@) ==> r is None && *final(self)
                == *old(self),
    {
        if self.sql_query_pending && from_tab_id == self.tab_id {
            self.sql_query_pending = false;
            match error {
                Some(e) => Some(Err(e)),
                None => Some(Ok(results)),
            }
        } else {
            None
        }
    }

    pub fn get_tab_id(&self) -> (r: String)
        ensures
            r == self.tab_id,
    {
        self.tab_id.clone()
    }

    /// Stores the leader-held auxiliary data exposed to followers.
    pub fn save_data(&mut self, data: String)
        ensures
            *final(self) == (TabManager { leader_data: data, ..*old(self) }),
    {
        self.leader_data = data;
    }

    pub fn get_data(&self) -> (r: String)
        ensures
            r == self.leader_data,
    {
        self.leader_data.clone()
    }

    /// The leader's answer to a data query: its current data, addressed to
    /// the tab that asked.
    pub fn send_leader_response(&self, from_tab_id: String) -> (m: TabMessage)
        ensures
            m == (TabMessage::LeaderDataResponse { data: self.leader_data, from_tab_id }),
    {
        TabMessage::LeaderDataResponse { data: self.leader_data.clone(), from_tab_id }
    }
}

/// Whether a `QueryResponse` carrying `from_tab_id` resolves an
/// outstanding query of manager `m`: exactly when `m` has a query in
/// flight and the response is correlated to `m`'s own identifier.
/// `take_query_response` takes the response if and only if this holds.
pub open spec fn query_response_is_mine(m: TabManager, from_tab_id: Seq<char>) -> bool {
    m.sql_query_pending && from_tab_id == m.tab_id@
}

/// Round-trip routing, the facade half: however many queries are in
/// flight, a `QueryResponse` is the answer to the query of the one
/// participant whose identifier it carries — two participants with
/// distinct identifiers can never both take it, and a participant other
/// than the one named always drops it (`take_query_response` then returns
/// `None` and changes nothing). The transport half is the broker's:
/// `handle_message` sends a `QueryResponse` only to the tab named in its
/// `from_tab_id`.
pub proof fn lemma_response_resolves_only_at_origin(
    a: TabManager,
    b: TabManager,
    from_tab_id: Seq<char>,
)
    requires
        a.tab_id@ != b.tab_id@,
    ensures
        !(query_response_is_mine(a, from_tab_id) && query_response_is_mine(b, from_tab_id)),
        query_response_is_mine(a, from_tab_id) ==> from_tab_id == a.tab_id@,
{
}

/// Where a query goes: straight to the local executor when this tab leads,
/// or onto the bus towards the leader when it does not.
pub enum QueryDispatch {
    ExecuteLocally { sql: String },
    Forward { msg: TabMessage },
}

impl TabManager {
    /// Decides how to run `sql` given this tab's leadership: the leader
    /// executes locally, without a bus round-trip back to itself; everyone
    /// else routes the query to the leader and waits on the query slot.
    pub fn dispatch_query(&mut self, sql: String, is_leader: bool) -> (r: Result<
        QueryDispatch,
        String,
    >)
        ensures
            is_leader ==> {
                &&& r == Ok::<QueryDispatch, String>((QueryDispatch::ExecuteLocally { sql }))
                &&& *final(self) == *old(self)
            },
            !is_leader && old(self).sql_query_pending ==> {
                &&& (r matches Err(m) && m@ == "request already in flight"@)
                &&& *final(self) == *old(self)
            },
            !is_leader && !old(self).sql_query_pending ==> {
                &&& r == Ok::<QueryDispatch, String>(
                    (QueryDispatch::Forward {
                        msg: TabMessage::ExecuteQuery { sql, from_tab_id: old(self).tab_id },
                    }),
                )
                &&& *final(self) == (TabManager { sql_query_pending: true, ..*old(self) })
            },
    {
        if is_leader {
            Ok(QueryDispatch::ExecuteLocally { sql })
        } else {
            match self.route_query_request(sql) {
                Ok(msg) => Ok(QueryDispatch::Forward { msg }),
                Err(e) => Err(e),
            }
        }
    }
}

/// The leadership guard on the plain execute path: write statements run directly only
/// on the leader; any other tab gets the access error and must route
/// through the leader instead.
pub fn execute_guard(is_leader: bool) -> (r: Result<(), String>)
    ensures
        is_leader ==> r is Ok,
        !is_leader ==> (r matches Err(m) && m@ == "Only leader can execute write operations"@),
{
    if is_leader {
        Ok(())
    } else {
        Err(String::from_str("Only leader can execute write operations"))
    }
}

/// The reply a tab sends after being asked to execute a query. The tab
/// re-checks its own leadership at execution time: leadership may have
/// changed while the request was in flight, and a non-leader must refuse
/// rather than touch the database. Otherwise the executor's outcome is
/// passed on: rows on success, its error message verbatim on failure.
pub fn leader_execute_reply(
    is_leader: bool,
    outcome: Result<Vec<Vec<String>>, String>,
    from_tab_id: String,
) -> (m: TabMessage)
    ensures
        !is_leader ==> (m matches TabMessage::QueryResponse { results, from_tab_id: f, error }
            && results@.len() == 0 && f == from_tab_id && (error matches Some(e) && e@
            == "Only leader can execute queries"@)),
        is_leader ==> (match outcome {
            Ok(rows) => m == (TabMessage::QueryResponse {
                results: rows,
                from_tab_id,
                error: None,
            }),
            Err(e) => (m matches TabMessage::QueryResponse { results, from_tab_id: f, error }
                && results@.len() == 0 && f == from_tab_id && error == Some(e)),
        }),
{
    if !is_leader {
        TabMessage::QueryResponse {
            results: Vec::new(),
            from_tab_id,
            error: Some(String::from_str("Only leader can execute queries")),
        }
    } else {
        match outcome {
            Ok(rows) => TabMessage::QueryResponse { results: rows, from_tab_id, error: None },
            Err(e) => TabMessage::QueryResponse {
                results: Vec::new(),
                from_tab_id,
                error: Some(e),
            },
        }
    }
}

} // verus!
