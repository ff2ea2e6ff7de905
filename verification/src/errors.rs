use vstd::prelude::*;

verus! {

/// Everything that can go wrong while encrypting or decrypting in CBC mode.
///
/// Every validation failure is reported as a value of this type; no input,
/// however malformed, makes the library panic.
#[derive(Clone, Copy, Debug, PartialEq, Eq, Structural)]
pub enum AesCbcError {
    /// The key length is not 16, 24 or 32 bytes, or the IV is not 16 bytes.
    InvalidParameters,
    /// The ciphertext length is zero or not a multiple of the block size.
    InvalidCiphertextLength,
    /// The decrypted final block does not end in well-formed PKCS#7 padding.
    InvalidPadding,
    /// The block-cipher capability reported a failure. The AES primitive
    /// bound in this crate never does, so no function here returns it.
    UnderlyingCipherFailure,
}

} // verus!
