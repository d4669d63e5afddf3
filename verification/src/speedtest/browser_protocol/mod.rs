//! What a browser says to a server: over HTTP and over websockets.

pub mod endpoints;
pub mod latency;
pub mod transfer;
pub mod upload_stats;
pub mod websocket;
