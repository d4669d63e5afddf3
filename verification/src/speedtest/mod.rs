//! The Speedtest.net client.

pub mod api;
pub mod browser_protocol;
pub mod cache;
pub mod catalog;
pub mod config;
pub mod download;
pub mod engine;
pub mod engine_stages;
pub mod ipinfo;
pub mod latency;
pub mod modern_protocol;
pub mod sdk_payload;
pub mod select;
pub mod servers;
pub mod session;
pub mod throughput;
pub mod transfer_util;
pub mod upload;
pub mod workers;
pub mod xml_depth;
