//! The command line: what each command asks of the daemon, and what is shown of
//! the answer.
pub mod client;
pub mod commands;
pub mod output;
