//! The decisions of a websocket session: how it answers each incoming frame,
//! when its heartbeat gives up on a silent client, and which realtime clients
//! a new reading is pushed to, in which message.
use vstd::prelude::*;

use crate::registry::{registered, unregistered, RealtimeClientConnections};
use crate::text::{decimal, push_decimal};

verus! {

/// Seconds between two heartbeat checks of a session.
pub const HEARTBEAT_INTERVAL_SECS: u64 = 5;

/// Nanoseconds without a ping or pong after which a client counts as gone (ten seconds).
pub const CLIENT_TIMEOUT_NANOS: u128 = 10_000_000_000;

/// Close code of an internal server error (RFC 6455, 1011).
pub const CLOSE_CODE_INTERNAL_ERROR: u16 = 1011;

/// What the heartbeat does on one tick.
#[derive(Debug, Clone, Copy, PartialEq, Eq, Structural)]
pub enum HeartbeatAction {
    /// Send a ping to the client.
    Ping,
    /// The client has been silent too long: stop the session without a ping.
    Disconnect,
}

/// The heartbeat decision, given the time since the last ping or pong of the client.
pub fn heartbeat_tick(since_last_heartbeat_nanos: u128) -> (a: HeartbeatAction)
    ensures
        a == (if since_last_heartbeat_nanos > CLIENT_TIMEOUT_NANOS {
            HeartbeatAction::Disconnect
        } else {
            HeartbeatAction::Ping
        }),
{
    if since_last_heartbeat_nanos > CLIENT_TIMEOUT_NANOS {
        HeartbeatAction::Disconnect
    } else {
        HeartbeatAction::Ping
    }
}

/// Why a websocket is closed: a close code and an optional description.
#[derive(Debug, Clone)]
pub struct CloseReason {
    pub code: u16,
    pub description: Option<String>,
}

/// The reason given to a realtime client that could not be registered.
pub fn registration_failure_reason() -> (r: CloseReason)
    ensures
        r.code == CLOSE_CODE_INTERNAL_ERROR,
        r.description matches Some(d) && d@ == "Internal server error. Couldn't register client."@,
{
    CloseReason {
        code: CLOSE_CODE_INTERNAL_ERROR,
        description: Some("Internal server error. Couldn't register client.".to_owned()),
    }
}

/// Which end of the server a websocket serves.
#[derive(Debug, Clone, Copy, PartialEq, Eq, Structural)]
pub enum SocketRole {
    /// A producer that sends readings as text frames.
    Injest,
    /// A browser client that receives live readings and sends nothing of use.
    Realtime,
}

/// One item of a websocket stream.
#[derive(Debug)]
pub enum WsEvent {
    Ping(Vec<u8>),
    Pong,
    Text(String),
    Binary,
    Close(Option<CloseReason>),
    /// A continuation frame, a no-op, or a protocol error.
    Other,
}

/// What the session does about one item of its stream.
#[derive(Debug)]
pub enum WsAction {
    Nothing,
    /// Answer a ping with a pong carrying the same payload.
    Pong(Vec<u8>),
    /// Hand the text of a producer to reading ingestion.
    Ingest(String),
    /// Close the socket with the client's reason, then stop the session.
    CloseAndStop(Option<CloseReason>),
    /// Stop the session.
    Stop,
}

/// The reaction of a session to one item: whether the client counts as alive
/// from now, and the action.
#[derive(Debug)]
pub struct WsReaction {
    pub refresh_heartbeat: bool,
    pub action: WsAction,
}

/// How a session of the given role reacts to one item of its stream.
pub fn react_to_ws_event(role: SocketRole, event: WsEvent) -> (r: WsReaction)
    ensures
        r.refresh_heartbeat <==> (event is Ping || event is Pong),
        match event {
            WsEvent::Ping(payload) => r.action == WsAction::Pong(payload),
            WsEvent::Pong => r.action is Nothing,
            WsEvent::Text(text) => match role {
                SocketRole::Injest => r.action == WsAction::Ingest(text),
                SocketRole::Realtime => r.action is Nothing,
            },
            WsEvent::Binary => r.action is Nothing,
            WsEvent::Close(reason) => r.action == WsAction::CloseAndStop(reason),
            WsEvent::Other => r.action is Stop,
        },
{
    match event {
        WsEvent::Ping(payload) => WsReaction { refresh_heartbeat: true, action: WsAction::Pong(payload) },
        WsEvent::Pong => WsReaction { refresh_heartbeat: true, action: WsAction::Nothing },
        WsEvent::Text(text) => match role {
            SocketRole::Injest => WsReaction { refresh_heartbeat: false, action: WsAction::Ingest(text) },
            SocketRole::Realtime => WsReaction { refresh_heartbeat: false, action: WsAction::Nothing },
        },
        WsEvent::Binary => WsReaction { refresh_heartbeat: false, action: WsAction::Nothing },
        WsEvent::Close(reason) => WsReaction {
            refresh_heartbeat: false,
            action: WsAction::CloseAndStop(reason),
        },
        WsEvent::Other => WsReaction { refresh_heartbeat: false, action: WsAction::Stop },
    }
}

/// The JSON text pushed to realtime clients for one reading: an object with
/// the members `timestamp` (milliseconds) and `value`, in that order, where
/// `value_json` is the value already written as JSON.
pub open spec fn update_json(timestamp: u64, value_json: Seq<char>) -> Seq<char> {
    "{\"timestamp\":"@ + decimal(timestamp as nat) + ",\"value\":"@ + value_json + "}"@
}

/// A live update for realtime clients, as JSON text.
#[derive(Debug, Clone)]
pub struct UpdateTelemetryMessage {
    json_data: String,
}

impl UpdateTelemetryMessage {
    /// The JSON text of the update.
    pub closed spec fn json(&self) -> Seq<char> {
        self.json_data@
    }

    /// An update carrying the JSON text `data`.
    pub fn from(data: String) -> (m: UpdateTelemetryMessage)
        ensures
            m.json() == data@,
    {
        UpdateTelemetryMessage { json_data: data }
    }

    /// The JSON text of the update.
    pub fn json_text(&self) -> (s: &str)
        ensures
            s@ == self.json(),
    {
        self.json_data.as_str()
    }
}

/// The update for one reading.
pub fn update_message(timestamp: u64, value_json: &str) -> (m: UpdateTelemetryMessage)
    ensures
        m.json() == update_json(timestamp, value_json@),
{
    let mut text = "{\"timestamp\":".to_owned();
    push_decimal(&mut text, timestamp);
    text.append(",\"value\":");
    text.append(value_json);
    text.append("}");
    UpdateTelemetryMessage::from(text)
}

/// A reading's update and the realtime clients that receive it.
#[derive(Debug)]
pub struct UpdatePlan {
    pub message: UpdateTelemetryMessage,
    pub recipients: Vec<u64>,
}

/// Whom a new reading of `full_key` is pushed to, and in which message:
/// nothing when no realtime client ever subscribed to the key, otherwise each
/// current subscriber exactly once.
pub fn plan_update(
    connections: &RealtimeClientConnections,
    full_key: &str,
    timestamp: u64,
    value_json: &str,
) -> (r: Option<UpdatePlan>)
    requires
        connections.wf(),
    ensures
        r is None <==> !connections@.contains_key(full_key@),
        r matches Some(plan) ==> {
            &&& plan.recipients@.no_duplicates()
            &&& plan.recipients@.to_set() == connections@[full_key@]
            &&& plan.message.json() == update_json(timestamp, value_json@)
        },
{
    match connections.subscribers(full_key) {
        None => None,
        Some(recipients) => Some(
            UpdatePlan { message: update_message(timestamp, value_json), recipients },
        ),
    }
}

/// After a client subscribes to a key, every reading of that key is planned
/// for it; after it leaves, readings of the key are still planned, but never
/// for it.
pub proof fn lemma_updates_follow_subscriptions(m: Map<Seq<char>, Set<u64>>, key: Seq<char>, client: u64)
    ensures
        registered(m, key, client).contains_key(key),
        registered(m, key, client)[key].contains(client),
        unregistered(m, key, client).contains_key(key),
        !unregistered(m, key, client)[key].contains(client),
{
}

/// Where the timestamp digits of an update begin: after `{"timestamp":`.
pub open spec fn update_digits_start() -> int {
    13
}

/// Where the value text of an update begins.
pub open spec fn update_value_start(timestamp: u64) -> int {
    update_digits_start() + decimal(timestamp as nat).len() + 9
}

/// The update of a reading is `{"timestamp":`, the decimal milliseconds,
/// `,"value":`, the value text exactly as given, and `}`: the digits read back
/// as the timestamp, the value text is copied unchanged (a leading '-' stays),
/// and nothing else follows.
pub proof fn lemma_update_json_fields(timestamp: u64, value_json: Seq<char>)
    ensures
        update_json(timestamp, value_json).len() == update_value_start(timestamp) + value_json.len() + 1,
        update_json(timestamp, value_json).subrange(0, update_digits_start()) =~= seq![
            '{', '"', 't', 'i', 'm', 'e', 's', 't', 'a', 'm', 'p', '"', ':'
        ],
        crate::text::digits_value(
            update_json(timestamp, value_json).subrange(
                update_digits_start(),
                update_digits_start() + decimal(timestamp as nat).len(),
            ),
        ) == timestamp,
        update_json(timestamp, value_json).subrange(
            update_value_start(timestamp) - 9,
            update_value_start(timestamp),
        ) =~= seq![',', '"', 'v', 'a', 'l', 'u', 'e', '"', ':'],
        update_json(timestamp, value_json).subrange(
            update_value_start(timestamp),
            update_value_start(timestamp) + value_json.len(),
        ) =~= value_json,
        update_json(timestamp, value_json).last() == '}',
{
    reveal_strlit("{\"timestamp\":");
    reveal_strlit(",\"value\":");
    reveal_strlit("}");
    let d = decimal(timestamp as nat);
    let u = update_json(timestamp, value_json);
    let p = "{\"timestamp\":"@;
    let m = ",\"value\":"@;
    assert(p.len() == 13);
    assert(m.len() == 9);
    assert(u.subrange(13, 13 + d.len() as int) =~= d);
    crate::text::lemma_decimal_value(timestamp as nat);
}

/// Two updates are the same text only when they carry the same timestamp and
/// the same value text.
pub proof fn lemma_update_json_injective(t1: u64, v1: Seq<char>, t2: u64, v2: Seq<char>)
    requires
        update_json(t1, v1) == update_json(t2, v2),
    ensures
        t1 == t2,
        v1 == v2,
{
    let u = update_json(t1, v1);
    let d1 = decimal(t1 as nat);
    let d2 = decimal(t2 as nat);
    lemma_update_json_fields(t1, v1);
    lemma_update_json_fields(t2, v2);
    crate::text::lemma_decimal_well_formed(t1 as nat);
    crate::text::lemma_decimal_well_formed(t2 as nat);
    reveal_strlit("{\"timestamp\":");
    reveal_strlit(",\"value\":");
    reveal_strlit("}");
    assert(u.subrange(13, 13 + d1.len() as int) =~= d1);
    assert(u.subrange(13, 13 + d2.len() as int) =~= d2);
    if d1.len() < d2.len() {
        assert(u[13 + d1.len() as int] == ',');
        assert(u[13 + d1.len() as int] == d2[d1.len() as int]);
        assert(crate::text::is_digit(d2[d1.len() as int]));
        assert(false);
    }
    if d2.len() < d1.len() {
        assert(u[13 + d2.len() as int] == ',');
        assert(u[13 + d2.len() as int] == d1[d2.len() as int]);
        assert(crate::text::is_digit(d1[d2.len() as int]));
        assert(false);
    }
    assert(d1 =~= d2);
    crate::text::lemma_decimal_injective(t1 as nat, t2 as nat);
}

} // verus!
