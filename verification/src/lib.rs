//! A single-process token-bucket rate limiter.
//!
//! The bucket paces discrete events against a fixed steady-state rate with a
//! bounded burst allowance. Its fill level is represented as a single virtual
//! timestamp: tokens are "time in the past", so every operation is O(1)
//! arithmetic on one number.

mod clock;
pub mod laws;
pub mod token_bucket;
