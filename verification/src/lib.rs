//! A verified core for a git commit timer: a small state machine that tracks
//! the elapsed time between a `start` action and a `commit` action inside a
//! git working copy, together with the persisted-record codec, the
//! repository-scoped storage-path policy, and the command-line grammar.
//!
//! All file, process and clock I/O lives outside this crate; the functions
//! here work on plain values and carry contracts for what they compute.

pub mod cli;
pub mod codec;
pub mod digits;
pub mod commands;
pub mod errors;
pub mod storage;
pub mod text;
pub mod timer;
