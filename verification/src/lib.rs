//! A small task-list manager library: it builds markdown task lines
//! (optionally from a remote completion service's answer), renders and reads
//! the one-field JSON configuration file, and decides which file a new task
//! goes to.  All logic is verified; file, network and clock access stay with
//! the calling binary or behind small trusted wrappers.

pub mod client;
pub mod clock;
pub mod config;
pub mod json;
pub mod task;
pub mod text;
