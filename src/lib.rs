//! Signing and verification of PDF documents: a content digest bound to an
//! ECDSA P-256 signature, and a visible stamp written into the document.

pub mod digest;
pub mod document;
pub mod error;
pub mod keys;
pub mod pdf;
pub mod signer;
pub mod stamp;
pub mod verify;
