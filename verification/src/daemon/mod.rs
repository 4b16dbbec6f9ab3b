//! The daemon's wire-level rules: framing, rate limiting, session checks,
//! socket-path limits and supervision backoff.

pub mod framing;
pub mod ratelimit;
pub mod session;
pub mod socket;
pub mod notify;
pub mod supervisor;
