//! The native benchmark.

pub mod control;
pub mod model;
pub mod proxy;
pub mod schema;
pub mod servers;
pub mod session;
pub mod tcp;
pub mod udp;
pub mod udp_packet;
