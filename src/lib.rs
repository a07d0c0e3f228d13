//! A single-connection chat client session: the decisions of the event loop.
//!
//! The session decides what to write to the connection and when, interprets
//! the results of reads and writes, and turns local command lines into
//! protocol frames. The loop that waits for readiness and performs the I/O
//! lives outside this crate and hands each result back to the session.
use vstd::prelude::*;

pub mod bytes;
pub mod command;
pub mod io_result;
pub mod session;

verus! {

} // verus!
