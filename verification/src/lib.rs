//! Verified core of a small telemetry server: subscriber bookkeeping for
//! realtime websocket clients, the decisions taken on websocket events and
//! heartbeats, and the text formats exchanged with the time-series database.
pub mod database;
pub mod registry;
pub mod session;
pub mod text;
