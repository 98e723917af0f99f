use vstd::prelude::*;

verus! {

/// Why an operation of the library refused its input.
#[derive(Debug, Clone, Copy, PartialEq, Eq, Structural)]
pub enum CryptoError {
    /// The pairing equation does not hold: a well-formed but wrong signature.
    InvalidSignature,
    /// Wrong length, not a point of the prime-order subgroup, or the identity.
    InvalidPoint,
    /// An aggregation was asked for over an empty list.
    ZeroSizedInput,
    /// The seed is not exactly 64 bytes long.
    InvalidSeed,
    /// Signatures and public keys to aggregate do not pair up one to one.
    LengthMismatch,
}

impl CryptoError {
    /// The name under which the error is reported to a host.
    pub fn name(&self) -> (r: &'static str)
        ensures
            r@ == self.spec_name(),
    {
        match self {
            CryptoError::InvalidSignature => "invalid_signature",
            CryptoError::InvalidPoint => "invalid_point",
            CryptoError::ZeroSizedInput => "zero_sized_input",
            CryptoError::InvalidSeed => "invalid_seed",
            CryptoError::LengthMismatch => "length_mismatch",
        }
    }

    pub open spec fn spec_name(&self) -> Seq<char> {
        match self {
            CryptoError::InvalidSignature => "invalid_signature"@,
            CryptoError::InvalidPoint => "invalid_point"@,
            CryptoError::ZeroSizedInput => "zero_sized_input"@,
            CryptoError::InvalidSeed => "invalid_seed"@,
            CryptoError::LengthMismatch => "length_mismatch"@,
        }
    }
}

} // verus!
