//! A hash-linked, append-only ledger with proof-of-work block admission.
//!
//! Every block stores the SHA-256 digest of its own fields and the digest of
//! its predecessor. A block joins the chain after a search for a nonce whose
//! digest begins with a required number of `'0'` characters, and a chain is
//! validated by recomputing every digest and comparing the links.
//!
//! Validation compares digests and links only. It does not examine whether
//! a stored hash meets the difficulty at which its block was mined, which no
//! block records.

mod clock;
pub mod decimal;
pub mod digest;
pub mod transaction;
pub mod block;
pub mod chain;
