//! The operations of the sessionizer, each as the decisions it makes
//! between the reads and the process runs of its caller.

pub mod cli;
pub mod kill;
pub mod open;
pub mod startup;
