//! Candidate resolution and selection for a terminal-multiplexer sessionizer.
//!
//! The crate classifies directory listings into session candidates, merges
//! them with the sessions that are already running, orders and renders them
//! for an interactive selector, resolves the selector's answer and plans the
//! multiplexer commands that open the chosen session.  Every function is pure:
//! the caller performs the directory reads and runs the processes.

pub mod candidate;
pub mod classifier;
pub mod classifier_laws;
pub mod commands;
pub mod config;
pub mod materializer;
pub mod mux;
pub mod order;
pub mod path;
pub mod registry;
pub mod registry_laws;
pub mod selector;
pub mod text;
pub mod utils;
