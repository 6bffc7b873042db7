//! Protocol-level values that the session layer stores and compares.

pub mod grouping;
pub mod keys;
pub mod wgps;
