//! Terminals: what they run, how they start and end, and where their output goes.
pub mod env;
pub mod history;
pub mod instance;
pub mod laws;
pub mod manager;
pub mod output;
pub mod output_laws;
pub mod shell;
pub mod shell_laws;
pub mod spawn;
pub mod start_laws;
pub mod use_laws;
