//! Errors of the signing and verification operations.

use vstd::prelude::*;

verus! {

/// The text field whose base64 encoding was malformed.
#[derive(Debug, Clone, Copy, PartialEq, Eq, Structural)]
pub enum EncodedField {
    PrivateKey,
    PublicKey,
    Signature,
    Hash,
}

/// Why an operation failed.
#[derive(Debug, Clone, Copy, PartialEq, Eq, Structural)]
pub enum SignError {
    /// A key, signature or digest was not valid base64 text.
    Encoding(EncodedField),
    /// The key bytes do not form a usable P-256 key pair.
    InvalidKey,
    /// The random source or the curve failed while generating a key pair.
    KeyGeneration,
    /// The bytes could not be read as a PDF document.
    Parse,
    /// The document has no pages.
    NoPages,
    /// Building or writing the visible stamp failed.
    Stamping,
}

} // verus!
