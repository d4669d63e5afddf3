//! Measuring how fast a network connection is: the protocols, the arithmetic and the decisions of
//! a Speedtest.net client and of an iperf client, each with its contract.
//!
//! Nothing here touches the network, the disk or the terminal. What is read from them comes in as
//! plain values; what is to be sent, stored or shown goes out as plain values. Speeds and latencies
//! are exact: bytes over ticks, nanoseconds and fractions. Floating-point numbers are only carried,
//! as their bits.

use vstd::prelude::*;

pub mod cli;
pub mod clock;
pub mod error;
pub mod iperf;
pub mod json;
pub mod model;
pub mod num;
pub mod output;
pub mod runner;
pub mod speedtest;
pub mod text;
pub mod ui;
pub mod urls;
pub mod util;

verus! {

} // verus!
