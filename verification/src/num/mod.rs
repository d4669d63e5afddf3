//! Exact arithmetic on measured quantities.

pub mod fraction;
pub mod fullest;
pub mod order;
pub mod rate;
pub mod scalar;
pub mod signs;
pub mod trim;
pub mod whole;
pub mod wide;
