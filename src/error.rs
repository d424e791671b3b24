use vstd::prelude::*;

verus! {

/// Errors of identifier generation.
#[derive(Debug, Clone, Copy, PartialEq, Eq, Structural)]
pub enum CuidError {
    /// The requested length is longer than the encoded digest.
    EncodingLengthError,
}

} // verus!
