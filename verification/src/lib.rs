//! The decisions behind a terminal application: terminals, project search and remote access.
//!
//! The library decides, and its caller acts. Where a decision needs something of the system, such as
//! whether a file exists, what the clock says or what a process wrote, the caller asks the system
//! and hands the answer in as a plain value; what is to be done comes back as one.
//!
//! - [`pty`]: the terminals, from the search for a shell to the sweep of those that nothing shows.
//! - [`search`]: searches in a project, for text by way of ripgrep and for file names.
//! - [`remote`]: terminals in a web browser, who may use them and what is said on the way.
//! - [`commands`] and [`ipc`]: what the frontend asks for and is answered.
//! - [`text`], [`json`], [`lookup`], [`platform`]: what the others are made of.
//!
//! Every function states what it returns and changes, for every input, and is proved to do so.
//! Properties that span several functions are proof functions whose names begin with `law_`.
pub mod commands;
pub mod ipc;
pub mod json;
pub mod lookup;
pub mod platform;
pub mod pty;
pub mod remote;
pub mod search;
pub mod text;
