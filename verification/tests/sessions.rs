use telemetry_server::registry::RealtimeClientConnections;
use telemetry_server::session::{
    heartbeat_tick, plan_update, react_to_ws_event, registration_failure_reason, update_message,
    CloseReason, HeartbeatAction, SocketRole, UpdateTelemetryMessage, WsAction, WsEvent,
    CLIENT_TIMEOUT_NANOS, HEARTBEAT_INTERVAL_SECS,
};

fn sorted(mut v: Vec<u64>) -> Vec<u64> {
    v.sort();
    v
}

#[test]
fn registry_starts_empty() {
    let r = RealtimeClientConnections::new();
    assert!(r.subscribers("a").is_none());
}

#[test]
fn register_then_lookup() {
    let mut r = RealtimeClientConnections::new();
    r.register("a", 1);
    r.register("a", 2);
    r.register("b", 3);
    r.register("a", 1);
    assert_eq!(sorted(r.subscribers("a").unwrap()), vec![1, 2]);
    assert_eq!(r.subscribers("b").unwrap(), vec![3]);
    assert!(r.subscribers("c").is_none());
}

#[test]
fn unregister_removes_only_that_client() {
    let mut r = RealtimeClientConnections::new();
    r.register("a", 1);
    r.register("a", 2);
    r.register("b", 1);
    r.unregister("a", 1);
    assert_eq!(r.subscribers("a").unwrap(), vec![2]);
    assert_eq!(r.subscribers("b").unwrap(), vec![1]);
}

#[test]
fn unregister_unknown_key_leaves_empty_entry() {
    let mut r = RealtimeClientConnections::new();
    r.unregister("ghost", 9);
    assert_eq!(r.subscribers("ghost"), Some(vec![]));
}

#[test]
fn register_then_unregister_restores_subscribers() {
    let mut r = RealtimeClientConnections::new();
    r.register("a", 1);
    r.register("a", 5);
    r.unregister("a", 5);
    assert_eq!(r.subscribers("a").unwrap(), vec![1]);
}

#[test]
fn heartbeat_boundary() {
    assert_eq!(HEARTBEAT_INTERVAL_SECS, 5);
    assert_eq!(heartbeat_tick(0), HeartbeatAction::Ping);
    assert_eq!(heartbeat_tick(CLIENT_TIMEOUT_NANOS), HeartbeatAction::Ping);
    assert_eq!(heartbeat_tick(10_000_000_001), HeartbeatAction::Disconnect);
}

#[test]
fn ping_is_answered_with_same_payload() {
    let r = react_to_ws_event(SocketRole::Realtime, WsEvent::Ping(vec![1, 2, 3]));
    assert!(r.refresh_heartbeat);
    assert!(matches!(r.action, WsAction::Pong(p) if p == vec![1, 2, 3]));
}

#[test]
fn pong_refreshes_only() {
    let r = react_to_ws_event(SocketRole::Injest, WsEvent::Pong);
    assert!(r.refresh_heartbeat);
    assert!(matches!(r.action, WsAction::Nothing));
}

#[test]
fn text_depends_on_role() {
    let r = react_to_ws_event(SocketRole::Injest, WsEvent::Text("1.5".to_string()));
    assert!(!r.refresh_heartbeat);
    assert!(matches!(r.action, WsAction::Ingest(t) if t == "1.5"));
    let r = react_to_ws_event(SocketRole::Realtime, WsEvent::Text("1.5".to_string()));
    assert!(matches!(r.action, WsAction::Nothing));
}

#[test]
fn binary_is_ignored() {
    let r = react_to_ws_event(SocketRole::Injest, WsEvent::Binary);
    assert!(!r.refresh_heartbeat);
    assert!(matches!(r.action, WsAction::Nothing));
}

#[test]
fn close_closes_and_stops() {
    let reason = CloseReason { code: 1000, description: Some("bye".to_string()) };
    let r = react_to_ws_event(SocketRole::Realtime, WsEvent::Close(Some(reason)));
    match r.action {
        WsAction::CloseAndStop(Some(c)) => {
            assert_eq!(c.code, 1000);
            assert_eq!(c.description.as_deref(), Some("bye"));
        }
        _ => panic!("expected close"),
    }
    let r = react_to_ws_event(SocketRole::Injest, WsEvent::Close(None));
    assert!(matches!(r.action, WsAction::CloseAndStop(None)));
}

#[test]
fn other_items_stop() {
    let r = react_to_ws_event(SocketRole::Injest, WsEvent::Other);
    assert!(!r.refresh_heartbeat);
    assert!(matches!(r.action, WsAction::Stop));
}

#[test]
fn registration_failure() {
    let r = registration_failure_reason();
    assert_eq!(r.code, 1011);
    assert_eq!(r.description.as_deref(), Some("Internal server error. Couldn't register client."));
}

#[test]
fn update_message_json() {
    let m = update_message(1600000000123, "21.5");
    assert_eq!(m.json_text(), "{\"timestamp\":1600000000123,\"value\":21.5}");
    let m = UpdateTelemetryMessage::from("{}".to_string());
    assert_eq!(m.json_text(), "{}");
}

#[test]
fn plan_update_targets_subscribers() {
    let mut r = RealtimeClientConnections::new();
    assert!(plan_update(&r, "a", 1, "2").is_none());
    r.register("a", 4);
    r.register("a", 8);
    r.register("b", 5);
    let plan = plan_update(&r, "a", 7, "null").unwrap();
    assert_eq!(sorted(plan.recipients), vec![4, 8]);
    assert_eq!(plan.message.json_text(), "{\"timestamp\":7,\"value\":null}");
    r.unregister("b", 5);
    let plan = plan_update(&r, "b", 7, "1").unwrap();
    assert!(plan.recipients.is_empty());
}
