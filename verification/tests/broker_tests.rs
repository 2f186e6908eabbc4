use tab_coordinator::broker::handle_message;
use tab_coordinator::messages::TabMessage;
use tab_coordinator::registry::TabState;
use tab_coordinator::tab_manager::execute_guard;
use tab_coordinator::tab_manager::leader_execute_reply;
use tab_coordinator::tab_manager::QueryDispatch;
use tab_coordinator::tab_manager::TabManager;

const T0: u64 = 1_000;

fn register(state: &mut TabState, id: &str, now: u64) -> Vec<tab_coordinator::messages::Outgoing> {
    handle_message(
        state,
        TabMessage::Register {
            tab_id: id.to_string(),
        },
        now,
    )
}

#[test]
fn test_first_registered_tab_is_leader() {
    let mut state = TabState::new();
    let out = register(&mut state, "tab1", T0);
    assert_eq!(out.len(), 1);
    assert_eq!(out[0].dest, "tab1");
    assert!(matches!(out[0].msg, TabMessage::LeaderResponse { is_leader: true }));

    let out = register(&mut state, "tab2", T0);
    assert_eq!(out[0].dest, "tab2");
    assert!(matches!(out[0].msg, TabMessage::LeaderResponse { is_leader: false }));
}

#[test]
fn test_failover_on_disconnect() {
    // Registering tab1, then tab2, then removing tab1 makes tab2 the leader,
    // and the broker pushes the promotion to tab2's channel.
    let mut state = TabState::new();
    register(&mut state, "tab1", T0);
    register(&mut state, "tab2", T0);

    let out = handle_message(
        &mut state,
        TabMessage::Disconnect {
            tab_id: "tab1".to_string(),
        },
        T0 + 10,
    );
    assert_eq!(out.len(), 1);
    assert_eq!(out[0].dest, "tab2");
    assert!(matches!(out[0].msg, TabMessage::LeaderResponse { is_leader: true }));

    let out = handle_message(
        &mut state,
        TabMessage::CheckLeader {
            tab_id: "tab2".to_string(),
        },
        T0 + 20,
    );
    assert!(matches!(out[0].msg, TabMessage::LeaderResponse { is_leader: true }));
}

#[test]
fn test_disconnect_of_follower_notifies_nobody() {
    let mut state = TabState::new();
    register(&mut state, "tab1", T0);
    register(&mut state, "tab2", T0);
    let out = handle_message(
        &mut state,
        TabMessage::Disconnect {
            tab_id: "tab2".to_string(),
        },
        T0 + 10,
    );
    assert!(out.is_empty());
}

#[test]
fn test_stale_leader_is_skipped() {
    let mut state = TabState::new();
    register(&mut state, "tab1", T0);
    // tab2 registers much later; tab1's heartbeat has gone stale by then.
    let out = register(&mut state, "tab2", T0 + 10_000);
    assert!(matches!(out[0].msg, TabMessage::LeaderResponse { is_leader: true }));
}

#[test]
fn test_heartbeat_age_of_exactly_the_timeout_is_stale() {
    let mut state = TabState::new();
    register(&mut state, "tab1", T0);
    // tab2 registers exactly 5000 ms later: tab1's heartbeat age is exactly
    // the liveness timeout, which already counts as stale.
    let out = register(&mut state, "tab2", T0 + 5_000);
    assert!(matches!(out[0].msg, TabMessage::LeaderResponse { is_leader: true }));
    // One millisecond earlier tab1 would still have led.
    let mut state = TabState::new();
    register(&mut state, "tab1", T0);
    let out = register(&mut state, "tab2", T0 + 4_999);
    assert!(matches!(out[0].msg, TabMessage::LeaderResponse { is_leader: false }));
}

#[test]
fn test_query_forwarded_to_leader() {
    let mut state = TabState::new();
    register(&mut state, "tab1", T0);
    register(&mut state, "tab2", T0);

    let out = handle_message(
        &mut state,
        TabMessage::ExecuteQuery {
            sql: "SELECT 1".to_string(),
            from_tab_id: "tab2".to_string(),
        },
        T0 + 10,
    );
    assert_eq!(out.len(), 1);
    assert_eq!(out[0].dest, "tab1");
    match &out[0].msg {
        TabMessage::ExecuteQuery { sql, from_tab_id } => {
            assert_eq!(sql, "SELECT 1");
            assert_eq!(from_tab_id, "tab2");
        }
        other => panic!("expected ExecuteQuery, got {:?}", message_kind(other)),
    }
}

#[test]
fn test_query_with_no_leader_is_dropped() {
    let mut state = TabState::new();
    let out = handle_message(
        &mut state,
        TabMessage::ExecuteQuery {
            sql: "SELECT 1".to_string(),
            from_tab_id: "tab2".to_string(),
        },
        T0,
    );
    assert!(out.is_empty());
}

#[test]
fn test_round_trip_routing() {
    // Two queries in flight from different tabs: each response is delivered
    // to the tab that asked, never to a third party.
    let mut state = TabState::new();
    register(&mut state, "tab1", T0);
    register(&mut state, "tab2", T0);
    register(&mut state, "tab3", T0);

    let mut tab2 = TabManager::new("tab2".to_string());
    let mut tab3 = TabManager::new("tab3".to_string());

    let q2 = tab2.route_query_request("SELECT a".to_string()).unwrap();
    let q3 = tab3.route_query_request("SELECT b".to_string()).unwrap();

    // The broker forwards both to the leader, tab1.
    let f2 = handle_message(&mut state, q2, T0 + 1);
    let f3 = handle_message(&mut state, q3, T0 + 2);
    assert_eq!(f2[0].dest, "tab1");
    assert_eq!(f3[0].dest, "tab1");

    // The leader executes and replies; the broker re-addresses each reply
    // to the tab named inside it.
    let reply2 = leader_execute_reply(
        true,
        Ok(vec![vec!["a".to_string()]]),
        "tab2".to_string(),
    );
    let reply3 = leader_execute_reply(
        true,
        Ok(vec![vec!["b".to_string()]]),
        "tab3".to_string(),
    );
    let d2 = handle_message(&mut state, reply2, T0 + 3);
    let d3 = handle_message(&mut state, reply3, T0 + 4);
    assert_eq!(d2[0].dest, "tab2");
    assert_eq!(d3[0].dest, "tab3");

    // Each tab resolves only its own response.
    let (r2, f2, e2) = expect_query_response(&d2[0].msg);
    assert!(tab3.take_query_response(r2.clone(), f2.clone(), e2.clone()).is_none());
    let got2 = tab2.take_query_response(r2, f2, e2).unwrap().unwrap();
    assert_eq!(got2, vec![vec!["a".to_string()]]);

    let (r3, f3, e3) = expect_query_response(&d3[0].msg);
    let got3 = tab3.take_query_response(r3, f3, e3).unwrap().unwrap();
    assert_eq!(got3, vec![vec!["b".to_string()]]);
}

#[test]
fn test_response_for_unknown_tab_is_dropped() {
    let mut state = TabState::new();
    register(&mut state, "tab1", T0);
    let out = handle_message(
        &mut state,
        TabMessage::QueryResponse {
            results: vec![],
            from_tab_id: "gone".to_string(),
            error: None,
        },
        T0 + 1,
    );
    assert!(out.is_empty());
}

#[test]
fn test_non_leader_refuses_execution() {
    let reply = leader_execute_reply(false, Ok(vec![]), "tab2".to_string());
    match reply {
        TabMessage::QueryResponse {
            results,
            from_tab_id,
            error,
        } => {
            assert!(results.is_empty());
            assert_eq!(from_tab_id, "tab2");
            assert_eq!(error.unwrap(), "Only leader can execute queries");
        }
        _ => panic!("expected QueryResponse"),
    }
}

#[test]
fn test_executor_error_propagated_verbatim() {
    let reply = leader_execute_reply(
        true,
        Err("no such table: users".to_string()),
        "tab2".to_string(),
    );
    match reply {
        TabMessage::QueryResponse { results, error, .. } => {
            assert!(results.is_empty());
            assert_eq!(error.unwrap(), "no such table: users");
        }
        _ => panic!("expected QueryResponse"),
    }
}

#[test]
fn test_leader_data_round_trip() {
    let mut state = TabState::new();
    register(&mut state, "tab1", T0);
    register(&mut state, "tab2", T0);

    let mut leader = TabManager::new("tab1".to_string());
    leader.save_data("answer: 42".to_string());
    assert_eq!(leader.get_data(), "answer: 42");

    let mut follower = TabManager::new("tab2".to_string());
    let ask = follower.query_leader_request().unwrap();

    // The broker forwards the data query to the leader.
    let forwarded = handle_message(&mut state, ask, T0 + 1);
    assert_eq!(forwarded[0].dest, "tab1");
    let from = match &forwarded[0].msg {
        TabMessage::QueryLeader { from_tab_id } => from_tab_id.clone(),
        _ => panic!("expected QueryLeader"),
    };

    // The leader answers with its data; the broker re-addresses the answer.
    let answer = leader.send_leader_response(from);
    let delivered = handle_message(&mut state, answer, T0 + 2);
    assert_eq!(delivered[0].dest, "tab2");
    match &delivered[0].msg {
        TabMessage::LeaderDataResponse { data, from_tab_id } => {
            let got = follower
                .take_leader_data_response(data.clone(), from_tab_id.clone())
                .unwrap();
            assert_eq!(got, "answer: 42");
        }
        _ => panic!("expected LeaderDataResponse"),
    }
}

#[test]
fn test_overlapping_requests_are_rejected() {
    let mut tab = TabManager::new("tab1".to_string());
    assert!(tab.check_leader_request().is_ok());
    let second = tab.check_leader_request();
    assert_eq!(second.err().unwrap(), "request already in flight");

    // Resolving the first frees the slot again.
    assert_eq!(tab.take_leader_response(true), Some(true));
    assert!(tab.check_leader_request().is_ok());
}

#[test]
fn test_unsolicited_responses_are_dropped() {
    let mut tab = TabManager::new("tab1".to_string());
    assert_eq!(tab.take_leader_response(true), None);
    assert_eq!(
        tab.take_leader_data_response("data".to_string(), "tab1".to_string()),
        None
    );
    assert!(tab
        .take_query_response(vec![], "tab1".to_string(), None)
        .is_none());
}

#[test]
fn test_registration_is_idempotent() {
    let mut state = TabState::new();
    register(&mut state, "tab1", T0);
    register(&mut state, "tab2", T0);
    // Registering tab2 again must not displace tab1 from the leader slot.
    register(&mut state, "tab2", T0 + 1);
    let out = handle_message(
        &mut state,
        TabMessage::CheckLeader {
            tab_id: "tab1".to_string(),
        },
        T0 + 2,
    );
    assert!(matches!(out[0].msg, TabMessage::LeaderResponse { is_leader: true }));
}

#[test]
fn test_execute_guard() {
    assert!(execute_guard(true).is_ok());
    assert_eq!(
        execute_guard(false).err().unwrap(),
        "Only leader can execute write operations"
    );
}

#[test]
fn test_leader_query_short_circuits() {
    let mut tab = TabManager::new("tab1".to_string());
    match tab.dispatch_query("SELECT 1".to_string(), true).unwrap() {
        QueryDispatch::ExecuteLocally { sql } => assert_eq!(sql, "SELECT 1"),
        QueryDispatch::Forward { .. } => panic!("the leader must not route through itself"),
    }
    // Local execution leaves the correlation slot free.
    match tab.dispatch_query("SELECT 2".to_string(), false).unwrap() {
        QueryDispatch::Forward { msg } => match msg {
            TabMessage::ExecuteQuery { sql, from_tab_id } => {
                assert_eq!(sql, "SELECT 2");
                assert_eq!(from_tab_id, "tab1");
            }
            _ => panic!("expected ExecuteQuery"),
        },
        QueryDispatch::ExecuteLocally { .. } => panic!("a follower must route"),
    }
}

fn expect_query_response(msg: &TabMessage) -> (Vec<Vec<String>>, String, Option<String>) {
    match msg {
        TabMessage::QueryResponse {
            results,
            from_tab_id,
            error,
        } => (results.clone(), from_tab_id.clone(), error.clone()),
        _ => panic!("expected QueryResponse"),
    }
}

fn message_kind(msg: &TabMessage) -> &'static str {
    match msg {
        TabMessage::Register { .. } => "Register",
        TabMessage::CheckLeader { .. } => "CheckLeader",
        TabMessage::LeaderResponse { .. } => "LeaderResponse",
        TabMessage::QueryLeader { .. } => "QueryLeader",
        TabMessage::LeaderDataResponse { .. } => "LeaderDataResponse",
        TabMessage::ExecuteQuery { .. } => "ExecuteQuery",
        TabMessage::QueryResponse { .. } => "QueryResponse",
        TabMessage::Disconnect { .. } => "Disconnect",
    }
}
