//! The ways in which an operation of this library can fail.

use vstd::prelude::*;

verus! {

/// Why an operation was refused.
#[derive(Clone, Copy, Debug, PartialEq, Eq, Structural)]
pub enum MsError {
    /// The key-derivation primitive reported a failure for some signer.
    KeyGenerationFailed,
    /// The truncation length is not a multiple of 8 or exceeds 64 bits.
    InvalidBitLength,
    /// The set of signers, or of shares, is empty.
    EmptySignerSet,
    /// A byte string has the wrong length or does not encode a group element.
    InvalidEncoding,
}

impl MsError {
    /// A short description of the error.
    pub fn message(&self) -> (s: &'static str)
        ensures
            s@ == match *self {
                MsError::KeyGenerationFailed => "key generation failed"@,
                MsError::InvalidBitLength => "bit length must be a multiple of 8 between 0 and 64"@,
                MsError::EmptySignerSet => "empty signer set"@,
                MsError::InvalidEncoding => "invalid encoding"@,
            },
    {
        match self {
            MsError::KeyGenerationFailed => "key generation failed",
            MsError::InvalidBitLength => "bit length must be a multiple of 8 between 0 and 64",
            MsError::EmptySignerSet => "empty signer set",
            MsError::InvalidEncoding => "invalid encoding",
        }
    }
}

} // verus!
