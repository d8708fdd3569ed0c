//! Core logic of a short-link service: a base-62 codec for deriving short
//! codes from numeric identifiers, a salted privacy hasher for click
//! tracking, validation and allocation of new links, the resolution /
//! expiration / authorization state machine, a reference link store, and a
//! per-key token-bucket admission controller.

pub mod args;
pub mod clicks;
pub mod clock;
pub mod codec;
pub mod delete;
pub mod error;
pub mod hashing;
pub mod json;
pub mod link;
pub mod rate_limiter;
pub mod resolve;
pub mod response;
pub mod service;
pub mod shorten;
pub mod store;
pub mod text;
pub mod trail_info;
