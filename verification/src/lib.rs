//! Verified decision logic of an SSH session test bench: the handlers that a
//! test server and a test client plug into an SSH connection, the client's
//! policy on channels that the server opens, and the bookkeeping of the
//! bench's checks.

pub mod keyed;
pub mod registry;
pub mod forwarding;
pub mod handlers;
pub mod tally;
