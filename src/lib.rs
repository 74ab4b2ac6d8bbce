//! A capability-gated action layer for an autonomous agent: each mutating tool validates
//! its arguments, consults a security gate, and only then plans one write, at a fixed or
//! slug-derived path inside the workspace, with its own collision policy.

pub mod config_change;
pub mod propose_change;
pub mod slug;
pub mod text;
pub mod time;
pub mod tool;
pub mod write_memory;
