//! Verification: the live digest is held against the recorded one, and only
//! when they agree is the signature checked against the public key.

use vstd::prelude::*;
use crate::digest::{
    base64_decode, decoded, digest_of_bytes, digest_text, is_base64, sha256_of,
};
use crate::error::{EncodedField, SignError};
use crate::keys::{p256_accepts, p256_verify, utc_now, KeyPair};
use crate::signer::{signs, SignatureInfo, SignedDocument};

verus! {

/// The outcome of a verification: always a value, never an error.
#[derive(Debug, Clone)]
pub struct VerificationResult {
    pub is_valid: bool,
    pub message: String,
    pub signature_info: Option<SignatureInfo>,
    pub verified_at: String,
}

/// The three ends of a verification.
#[derive(Debug, Clone, Copy, PartialEq, Eq, Structural)]
pub enum Verdict {
    /// The file's digest differs from the recorded one.
    Modified,
    /// The digest matches and the public key accepts the signature.
    Authentic,
    /// The digest matches but the public key rejects the signature.
    Rejected,
}

/// Where verification of `file` against `info` and `public_key` ends.
pub open spec fn verdict(file: Seq<u8>, info: SignatureInfo, public_key: Seq<char>) -> Verdict {
    if digest_text(file) != info.hash@ {
        Verdict::Modified
    } else if p256_accepts(decoded(public_key), sha256_of(file), decoded(info.signature@)) {
        Verdict::Authentic
    } else {
        Verdict::Rejected
    }
}

/// The malformed text that stops a verification whose digests match.
pub open spec fn malformed(file: Seq<u8>, info: SignatureInfo, public_key: Seq<char>) -> Option<EncodedField> {
    if digest_text(file) != info.hash@ {
        None
    } else if !is_base64(public_key) {
        Some(EncodedField::PublicKey)
    } else if !is_base64(info.signature@) {
        Some(EncodedField::Signature)
    } else {
        None
    }
}

pub open spec fn message_of(v: Verdict) -> Seq<char> {
    match v {
        Verdict::Modified => "Document has been modified since signing"@,
        Verdict::Authentic => "Signature is valid and document is authentic"@,
        Verdict::Rejected => "Invalid signature - document may be tampered or signed with different key"@,
    }
}

/// The result that reports `v` for the record `info`.
pub fn verification_result(v: Verdict, info: &SignatureInfo, verified_at: String) -> (r: VerificationResult)
    ensures
        r.is_valid == (v == Verdict::Authentic),
        r.message@ == message_of(v),
        r.signature_info == Some(*info),
        r.verified_at == verified_at,
{
    let message = match v {
        Verdict::Modified => String::from_str("Document has been modified since signing"),
        Verdict::Authentic => String::from_str("Signature is valid and document is authentic"),
        Verdict::Rejected => String::from_str(
            "Invalid signature - document may be tampered or signed with different key",
        ),
    };
    VerificationResult {
        is_valid: v == Verdict::Authentic,
        message,
        signature_info: Some(info.duplicate()),
        verified_at,
    }
}

/// Verifies `file` (the bytes of the signed file) against the record and a
/// base64 public key. A digest mismatch ends it before any key is decoded.
pub fn verify_signature(file: &[u8], info: &SignatureInfo, public_key: &str) -> (r: Result<
    VerificationResult,
    SignError,
>)
    ensures
        r is Err <==> malformed(file@, *info, public_key@) is Some,
        r matches Err(e) ==> e == SignError::Encoding(malformed(file@, *info, public_key@)->Some_0),
        r matches Ok(res) ==> {
            &&& res.is_valid == (verdict(file@, *info, public_key@) == Verdict::Authentic)
            &&& res.message@ == message_of(verdict(file@, *info, public_key@))
            &&& res.signature_info == Some(*info)
        },
{
    let current = digest_of_bytes(file);
    if current != info.hash {
        return Ok(verification_result(Verdict::Modified, info, utc_now("%Y-%m-%d %H:%M:%S UTC")));
    }
    let key = match base64_decode(public_key) {
        Some(b) => b,
        None => return Err(SignError::Encoding(EncodedField::PublicKey)),
    };
    let signature = match base64_decode(info.signature.as_str()) {
        Some(b) => b,
        None => return Err(SignError::Encoding(EncodedField::Signature)),
    };
    let digest = match base64_decode(info.hash.as_str()) {
        Some(b) => b,
        None => return Err(SignError::Encoding(EncodedField::Hash)),
    };
    proof {
        assert(digest@ == sha256_of(file@));
    }
    let v = if p256_verify(key.as_slice(), digest.as_slice(), signature.as_slice()) {
        Verdict::Authentic
    } else {
        Verdict::Rejected
    };
    Ok(verification_result(v, info, utc_now("%Y-%m-%d %H:%M:%S UTC")))
}

/// Verifies the stamped file of a signing (its bytes `signed`) against the
/// record and the key pair's public key.
pub fn verify_signed_document(signed: &[u8], signed_doc: &SignedDocument, key_pair: &KeyPair) -> (r: Result<
    VerificationResult,
    SignError,
>)
    ensures
        r is Err <==> malformed(signed@, signed_doc.signature_info, key_pair.public_key@) is Some,
        r matches Err(e) ==> e == SignError::Encoding(
            malformed(signed@, signed_doc.signature_info, key_pair.public_key@)->Some_0,
        ),
        r matches Ok(res) ==> {
            let v = verdict(signed@, signed_doc.signature_info, key_pair.public_key@);
            &&& res.is_valid == (v == Verdict::Authentic)
            &&& res.message@ == message_of(v)
            &&& res.signature_info == Some(signed_doc.signature_info)
        },
{
    verify_signature(signed, &signed_doc.signature_info, key_pair.public_key.as_str())
}

/// Verifies `file` against the record and a base64 public key.
pub fn verify_with_public_key(file: &[u8], info: &SignatureInfo, public_key: &str) -> (r: Result<
    VerificationResult,
    SignError,
>)
    ensures
        r is Err <==> malformed(file@, *info, public_key@) is Some,
        r matches Err(e) ==> e == SignError::Encoding(malformed(file@, *info, public_key@)->Some_0),
        r matches Ok(res) ==> {
            &&& res.is_valid == (verdict(file@, *info, public_key@) == Verdict::Authentic)
            &&& res.message@ == message_of(verdict(file@, *info, public_key@))
            &&& res.signature_info == Some(*info)
        },
{
    verify_signature(file, info, public_key)
}

/// The first sixteen characters of a file's digest text, for comparing by eye.
pub fn get_file_checksum(file: &[u8]) -> (r: String)
    ensures
        r@ == digest_text(file@).subrange(0, 16),
{
    let hash = digest_of_bytes(file);
    hash.as_str().substring_ascii(0, 16).to_string()
}

/// The digest text of a file is a function of its bytes: two digests of the
/// same bytes are the same text.
pub proof fn lemma_hash_deterministic(a: Seq<u8>, b: Seq<u8>, first: Seq<char>, second: Seq<char>)
    requires
        a == b,
        first == digest_text(a),
        second == digest_text(b),
    ensures
        first == second,
{
}

/// A record made by signing `data` with a well-formed key pair verifies
/// against `data` and the pair's public key, with no decoding error.
pub proof fn lemma_sign_then_verify(data: Seq<u8>, key_pair: KeyPair, info: SignatureInfo)
    requires
        key_pair.wf(),
        signs(info, data, key_pair.private_key@, key_pair.public_key@),
    ensures
        malformed(data, info, key_pair.public_key@) is None,
        verdict(data, info, key_pair.public_key@) == Verdict::Authentic,
{
}

/// A file whose digest text differs from the recorded one (any byte of it
/// altered or added, unless the digests collide) is reported as modified,
/// never as an error.
pub proof fn lemma_tampered_file_is_modified(file: Seq<u8>, info: SignatureInfo, public_key: Seq<char>)
    requires
        digest_text(file) != info.hash@,
    ensures
        malformed(file, info, public_key) is None,
        verdict(file, info, public_key) == Verdict::Modified,
{
}

/// Where the digest still matches but the public key (another pair's) does
/// not accept the recorded signature, the result is an invalid signature.
pub proof fn lemma_wrong_key_rejected(file: Seq<u8>, info: SignatureInfo, public_key: Seq<char>)
    requires
        digest_text(file) == info.hash@,
        !p256_accepts(decoded(public_key), sha256_of(file), decoded(info.signature@)),
    ensures
        verdict(file, info, public_key) == Verdict::Rejected,
        message_of(verdict(file, info, public_key)) == message_of(Verdict::Rejected),
{
}

} // verus!
