//! A verified append-only process-output log with independent tailing
//! watchers.
//!
//! One producer (a running subprocess) appends bytes to a growing log while
//! any number of consumers tail that log from their own cursor, eventually
//! learning the subprocess's termination status. The log is organized as a
//! sequence of fixed-size blocks so that growth never moves bytes that were
//! already handed out to a reader.

pub mod output;
pub mod process;
pub mod query;
pub mod server;
pub mod signal;
