//! Reachability checks for a list of web addresses.
//!
//! The crate holds the decisions of an uptime probe: how the command line is
//! read, which addresses a run visits and in which order, what is recorded for
//! each visit, and how a visit is reported. The network request itself, the
//! console and the file system are left to the caller.

pub mod args;
pub mod dedup;
pub mod probe;
pub mod session;
pub mod source;
pub mod status;
pub mod text;
