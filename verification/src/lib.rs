//! Orchestration engine for multiple long-running interactive terminal
//! sessions: the per-session lifecycle state machine, the line-oriented log
//! buffer with partial-line reassembly, the needs-input prompt heuristic, and
//! the reconciliation logic that ties them together.
//!
//! All process, terminal and file I/O lives outside this crate; the library
//! works on plain values and states what it does in contracts.

pub mod br_tasks;
pub mod config;
pub mod control;
pub mod dir_tree;
pub mod history;
pub mod log_store;
pub mod needs_input;
pub mod preview;
pub mod session;
