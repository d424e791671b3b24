//! Per-thread fingerprints for collision-resistant identifiers: byte blocks are
//! digested with SHA3-512, the digest is written in base 36, and a prefix of it
//! is kept.
use vstd::prelude::*;

pub mod digest;
pub mod error;
pub mod fingerprint;
pub mod radix;

pub use digest::{encode_digest, hash};
pub use error::CuidError;
pub use fingerprint::{fingerprint, fingerprint_from_seed, FingerprintCache};

verus! {

/// The radix of the identifier alphabet: digits, then lower-case letters.
pub const BASE: u8 = 36;

/// The number of characters in a fingerprint.
pub const BIG_LENGTH: u8 = 4;

} // verus!
