//! The commands of the frontend, but for what they ask of the system.
pub mod browser;
pub mod laws;
pub mod remote;
pub mod terminal;
