//! The rules behind the `cb` subcommands: configuration editing, daemon
//! installation, the history server and self-update. Prompts, terminal
//! drawing, processes and files stay with the program.
pub mod config;
pub mod install;
pub mod open;
pub mod update;
pub mod wizard;
