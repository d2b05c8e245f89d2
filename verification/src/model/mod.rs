//! Where the trained model lives.

pub mod utils;
