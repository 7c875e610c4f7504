//! Content digests and their text encoding.

use vstd::prelude::*;

verus! {

/// The SHA-256 digest of a byte sequence.
pub uninterp spec fn sha256_of(data: Seq<u8>) -> Seq<u8>;

/// The standard, padded base64 text of a byte sequence.
pub uninterp spec fn base64_of(data: Seq<u8>) -> Seq<char>;

/// Length of the padded base64 text of `n` bytes.
pub open spec fn base64_len(n: nat) -> nat {
    4 * ((n + 2) / 3)
}

/// `text` is the base64 text of some byte sequence.
pub open spec fn is_base64(text: Seq<char>) -> bool {
    exists|b: Seq<u8>| base64_of(b) == text
}

/// The bytes whose base64 text is `text` (when there are such bytes).
pub open spec fn decoded(text: Seq<char>) -> Seq<u8> {
    choose|b: Seq<u8>| base64_of(b) == text
}

/// The digest text recorded for a file's bytes.
pub open spec fn digest_text(data: Seq<u8>) -> Seq<char> {
    base64_of(sha256_of(data))
}

/// Relies on ring::digest::digest with SHA256: a 32-byte digest of the input.
#[verifier::external_body]
pub(crate) fn sha256(data: &[u8]) -> (r: Vec<u8>)
    ensures
        r@ == sha256_of(data@),
        r@.len() == 32,
{
    ring::digest::digest(&ring::digest::SHA256, data).as_ref().to_vec()
}

/// Relies on base64's STANDARD engine `encode`: padded text over the
/// standard alphabet, four characters for every three bytes or part of them.
/// Decoding gives the bytes back, so no other bytes have the same text.
#[verifier::external_body]
pub(crate) fn base64_encode(data: &[u8]) -> (r: String)
    ensures
        r@ == base64_of(data@),
        forall|c: Seq<u8>| base64_of(c) == r@ ==> c == data@,
        r@.len() == base64_len(data@.len()),
        vstd::utf8::is_ascii_chars(r@),
{
    base64::Engine::encode(&base64::engine::general_purpose::STANDARD, data)
}

/// Relies on base64's STANDARD engine `decode`, which accepts exactly the
/// canonical padded encodings: it succeeds on the text of some bytes, and
/// then returns those bytes, and fails on any other text.
#[verifier::external_body]
pub(crate) fn base64_decode(text: &str) -> (r: Option<Vec<u8>>)
    ensures
        r is Some <==> is_base64(text@),
        r matches Some(b) ==> base64_of(b@) == text@,
        r matches Some(b) ==> forall|c: Seq<u8>| base64_of(c) == text@ ==> c == b@,
{
    base64::Engine::decode(&base64::engine::general_purpose::STANDARD, text).ok()
}

/// The digest text of `data`: base64 of its SHA-256 digest.
pub fn digest_of_bytes(data: &[u8]) -> (r: String)
    ensures
        r@ == digest_text(data@),
        r@.len() == 44,
        vstd::utf8::is_ascii_chars(r@),
{
    let d = sha256(data);
    base64_encode(d.as_slice())
}

} // verus!
