//! Terminals in a web browser: who may use them, and what is said on the way.
//!
//! A server on this machine hands the terminals to browsers over web sockets. The functions here
//! decide who is let in and what is answered; sockets and tasks are in the hands of their callers.
use vstd::prelude::*;

pub mod access_laws;
pub mod auth;
pub mod server;
pub mod ws;
pub mod ws_laws;

verus! {

/// The port of the server where none is asked for.
pub const DEFAULT_PORT: u16 = 19480;

/// How many clients may be attached to one terminal.
pub const MAX_CONNECTIONS_PER_TERMINAL: usize = 10;

/// How many clients there may be in all.
pub const MAX_TOTAL_CONNECTIONS: usize = 50;

/// How many pieces of output are kept for a client that is slow.
pub const BROADCAST_CAPACITY: usize = 128;

/// After how many seconds a client must have named a terminal.
pub const ATTACH_TIMEOUT_SECS: u64 = 30;

/// How many seconds pass between two pings.
pub const PING_INTERVAL_SECS: u64 = 30;

}
