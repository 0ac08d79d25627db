//! Core of an end-to-end encrypted messenger: authenticated public-key
//! encryption of envelopes, a fixed-window rate limiter, the decisions of
//! the client-server exchange, and memory-hard credential hashing.
use vstd::prelude::*;

pub mod authentication;
pub mod client;
pub mod encryption;
pub mod message;
pub mod server;

verus! {

/// Relies on sodiumoxide::init: prepares libsodium (its random source among
/// others) for use from several threads; `false` when that failed.
#[verifier::external_body]
fn sodium_init() -> (r: bool) {
    sodiumoxide::init().is_ok()
}

/// Prepares the cryptographic library; returns whether it is ready. A
/// process should treat `false` as fatal.
pub fn initialize() -> (r: bool) {
    sodium_init()
}

} // verus!
