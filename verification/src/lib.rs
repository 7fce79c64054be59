//! Verified core of a WebSocket proxy client: protocol parsing, message
//! framing and configuration logic, with the network plumbing left to callers.

pub mod error;
pub mod text;
pub mod config;
pub mod socks5;
pub mod http;
pub mod protocol;
pub mod web_url;
pub mod tunnel;
pub mod websocket;
pub mod adapter;
pub mod doh;
pub mod tls;
