//! Getting the dataset archive from its remote source onto local storage.

pub mod outcome;
pub mod paths;
pub mod checks;
pub mod download;
pub mod unarchive;
pub mod pipeline;
pub mod run;
