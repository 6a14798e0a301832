//! A session-addressed reverse proxy, as a library of decisions.
//!
//! Every inbound request names a session. The session directory resolves the
//! name to a downstream target and a status, and the proxy forwards the HTTP
//! request, or relays the WebSocket connection, to that target. This crate
//! holds the rules of that work: routing, the availability of a session, the
//! request that goes downstream, and the relay's state machine. Lookups and
//! sockets are the caller's part.

pub mod config;
pub mod handlers;
pub mod headers;
pub mod http_proxy;
pub mod models;
pub mod routing;
pub mod text;
pub mod ws_proxy;
