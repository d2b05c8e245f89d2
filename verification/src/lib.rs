//! Verified core of the Deepmath dataset acquisition pipeline.
//!
//! The crate decides; its caller performs the input and output. Every
//! function here works on plain values (strings, byte vectors, listings of
//! directories) and carries a contract that Verus proves.

pub mod data_retrieve;
pub mod model;
