//! A token-bucket rate limiter with nanosecond time accounting.
//!
//! [`bucket::Bucket`] is the budget as mathematics sees it: five natural
//! numbers and the transitions between them. [`limiter::Limiter`] is the
//! executable limiter, whose every operation is stated as one of those
//! transitions. [`laws`] proves what follows for whole runs of calls, and
//! [`clock`] holds the calls into `chrono`.

pub mod bucket;
pub mod clock;
pub mod laws;
pub mod limiter;

pub use crate::limiter::Limiter;
