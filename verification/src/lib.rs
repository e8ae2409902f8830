//! Low-level primitives for an exchange API client: a monotonic nonce
//! source seeded from wall-clock time, a canonical decimal-string
//! normalizer used before hashing or signing numeric fields, a hex
//! encoder for identifier bytes, and the base-URL table.

pub mod canonical;
pub mod encoding;
pub mod nonce;
pub mod urls;
