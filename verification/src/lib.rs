//! Core of a short-link service: a reversible key codec, request validators,
//! a TTL-bounded resolution cache, a ledger of one-time verification codes,
//! and the resolver that ties them together.
//!
//! Everything here is verified; the surrounding web server, mail transport
//! and other I/O live outside this crate and call into it with plain values.

pub mod cache;
pub mod codec;
pub mod digest;
pub mod generator;
pub mod laws;
pub mod ledger;
pub mod resolver;
pub mod schemas;
pub mod store;
pub mod text;
pub mod validate;
