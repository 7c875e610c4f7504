//! Key pairs of the one signature scheme: ECDSA over P-256 with SHA-256.

use vstd::prelude::*;
use crate::digest::{
    base64_decode, base64_encode, base64_of, decoded, digest_of_bytes, digest_text, is_base64,
};
use crate::error::{EncodedField, SignError};

verus! {

/// The public key held by a PKCS#8 document of a P-256 key pair.
pub uninterp spec fn p256_public_key(pkcs8: Seq<u8>) -> Seq<u8>;

/// Whether ring's EcdsaKeyPair::from_pkcs8 reads `pkcs8` as a P-256 key
/// pair: an unencrypted PKCS#8 v1 document whose public and private keys
/// agree.
pub uninterp spec fn p256_key_valid(pkcs8: Seq<u8>) -> bool;

/// Whether `signature` is a valid fixed-size ECDSA P-256 / SHA-256
/// signature of `message` under the uncompressed point `public_key`.
pub uninterp spec fn p256_accepts(public_key: Seq<u8>, message: Seq<u8>, signature: Seq<u8>) -> bool;

/// Name of the signature scheme, as recorded in keys and signatures.
pub open spec fn algorithm_label() -> Seq<char> {
    "ECDSA_P256_SHA256"@
}

/// `created_at` of a key pair rebuilt from its private key alone.
pub open spec fn loaded_label() -> Seq<char> {
    "Loaded from string"@
}

/// Layout of the timestamps written into keys, signatures and results.
pub open spec fn timestamp_layout() -> Seq<char> {
    "%Y-%m-%d %H:%M:%S UTC"@
}

/// A key pair: the PKCS#8 private key and the public key, both base64.
#[derive(Debug, Clone)]
pub struct KeyPair {
    pub private_key: String,
    pub public_key: String,
    pub algorithm: String,
    pub created_at: String,
}

/// The shareable part of a key pair: no private key.
#[derive(Debug, Clone)]
pub struct KeyInfo {
    pub public_key: String,
    pub algorithm: String,
    pub fingerprint: String,
}

/// The public key text belongs to the private key text: both are base64,
/// and the public key is the one that the PKCS#8 document holds.
pub open spec fn keys_match(private_key: Seq<char>, public_key: Seq<char>) -> bool {
    &&& is_base64(private_key)
    &&& is_base64(public_key)
    &&& p256_key_valid(decoded(private_key))
    &&& decoded(public_key) == p256_public_key(decoded(private_key))
}

impl KeyPair {
    /// A well-formed key pair of the scheme.
    pub open spec fn wf(&self) -> bool {
        &&& keys_match(self.private_key@, self.public_key@)
        &&& self.algorithm@ == algorithm_label()
    }
}

/// The fingerprint of a public key text: the digest text of its bytes.
pub open spec fn fingerprint_text(public_key: Seq<char>) -> Seq<char> {
    digest_text(decoded(public_key))
}

/// Relies on ring's EcdsaKeyPair::generate_pkcs8 for
/// ECDSA_P256_SHA256_FIXED_SIGNING: a fresh PKCS#8 document from the system's
/// random source, or nothing when that source fails. The document holds
/// the key and its public key, so from_pkcs8 reads it back.
#[verifier::external_body]
fn generate_pkcs8() -> (r: Option<Vec<u8>>)
    ensures
        r matches Some(d) ==> p256_key_valid(d@),
{
    let rng = ring::rand::SystemRandom::new();
    let alg = &ring::signature::ECDSA_P256_SHA256_FIXED_SIGNING;
    ring::signature::EcdsaKeyPair::generate_pkcs8(alg, &rng).ok().map(|d| d.as_ref().to_vec())
}

/// Relies on ring's EcdsaKeyPair::from_pkcs8 and its `public_key`: the public
/// key that the document holds, or nothing when the document is rejected (or
/// the random source that seeds the nonce key fails).
#[verifier::external_body]
fn p256_public_key_of(pkcs8: &[u8]) -> (r: Option<Vec<u8>>)
    ensures
        r matches Some(pk) ==> pk@ == p256_public_key(pkcs8@),
        r is Some ==> p256_key_valid(pkcs8@),
{
    let rng = ring::rand::SystemRandom::new();
    let alg = &ring::signature::ECDSA_P256_SHA256_FIXED_SIGNING;
    let pair = ring::signature::EcdsaKeyPair::from_pkcs8(alg, pkcs8, &rng).ok()?;
    Some(ring::signature::KeyPair::public_key(&pair).as_ref().to_vec())
}

/// Relies on ring's EcdsaKeyPair::sign (with the key from `from_pkcs8`): a
/// signature with a random nonce, which the key pair's public key accepts.
#[verifier::external_body]
pub(crate) fn p256_sign(pkcs8: &[u8], message: &[u8]) -> (r: Option<Vec<u8>>)
    ensures
        r matches Some(sig) ==> p256_accepts(p256_public_key(pkcs8@), message@, sig@),
        r is Some ==> p256_key_valid(pkcs8@),
{
    let rng = ring::rand::SystemRandom::new();
    let alg = &ring::signature::ECDSA_P256_SHA256_FIXED_SIGNING;
    let pair = ring::signature::EcdsaKeyPair::from_pkcs8(alg, pkcs8, &rng).ok()?;
    pair.sign(&rng, message).ok().map(|s| s.as_ref().to_vec())
}

/// Relies on ring's UnparsedPublicKey::verify with ECDSA_P256_SHA256_FIXED.
#[verifier::external_body]
pub(crate) fn p256_verify(public_key: &[u8], message: &[u8], signature: &[u8]) -> (r: bool)
    ensures
        r == p256_accepts(public_key@, message@, signature@),
{
    let alg = &ring::signature::ECDSA_P256_SHA256_FIXED;
    ring::signature::UnparsedPublicKey::new(alg, public_key).verify(message, signature).is_ok()
}

/// Relies on chrono's Utc::now and `format`: the current UTC time in
/// `layout`, which is held to the library's one layout, whose items chrono
/// formats without error.
#[verifier::external_body]
pub(crate) fn utc_now(layout: &str) -> (r: String)
    requires
        layout@ == timestamp_layout(),
{
    chrono::Utc::now().format(layout).to_string()
}

pub(crate) fn algorithm_name() -> (r: String)
    ensures
        r@ == algorithm_label(),
{
    String::from_str("ECDSA_P256_SHA256")
}

/// Generates a fresh key pair from the system's random source.
pub fn generate_key_pair() -> (r: Result<KeyPair, SignError>)
    ensures
        r matches Ok(kp) ==> kp.wf(),
        r matches Err(e) ==> e == SignError::KeyGeneration,
{
    let pkcs8 = match generate_pkcs8() {
        Some(d) => d,
        None => return Err(SignError::KeyGeneration),
    };
    let public = match p256_public_key_of(pkcs8.as_slice()) {
        Some(pk) => pk,
        None => return Err(SignError::KeyGeneration),
    };
    let private_key = base64_encode(pkcs8.as_slice());
    let public_key = base64_encode(public.as_slice());
    Ok(KeyPair { private_key, public_key, algorithm: algorithm_name(), created_at: utc_now("%Y-%m-%d %H:%M:%S UTC") })
}

/// Rebuilds a key pair from its base64 PKCS#8 private key alone, deriving the
/// public key from it.
pub fn load_key_pair_from_string(private_key_b64: &str) -> (r: Result<KeyPair, SignError>)
    ensures
        r matches Err(SignError::Encoding(f)) <==> !is_base64(private_key_b64@),
        r matches Err(SignError::Encoding(f)) ==> f == EncodedField::PrivateKey,
        r matches Err(e) ==> e is Encoding || e is InvalidKey,
        is_base64(private_key_b64@) && !p256_key_valid(decoded(private_key_b64@)) ==> r matches Err(
            SignError::InvalidKey,
        ),
        r matches Ok(kp) ==> {
            &&& kp.wf()
            &&& kp.private_key@ == private_key_b64@
            &&& kp.public_key@ == base64_of(p256_public_key(decoded(private_key_b64@)))
            &&& kp.created_at@ == loaded_label()
        },
{
    let pkcs8 = match base64_decode(private_key_b64) {
        Some(d) => d,
        None => return Err(SignError::Encoding(EncodedField::PrivateKey)),
    };
    let public = match p256_public_key_of(pkcs8.as_slice()) {
        Some(pk) => pk,
        None => return Err(SignError::InvalidKey),
    };
    let public_key = base64_encode(public.as_slice());
    Ok(KeyPair {
        private_key: String::from_str(private_key_b64),
        public_key,
        algorithm: algorithm_name(),
        created_at: String::from_str("Loaded from string"),
    })
}

/// The fingerprint of a base64 public key: the digest text of its bytes.
pub fn fingerprint(public_key: &str) -> (r: Result<String, SignError>)
    ensures
        r is Err <==> !is_base64(public_key@),
        r matches Err(e) ==> e == SignError::Encoding(EncodedField::PublicKey),
        r matches Ok(f) ==> f@ == fingerprint_text(public_key@),
{
    match base64_decode(public_key) {
        Some(bytes) => Ok(digest_of_bytes(bytes.as_slice())),
        None => Err(SignError::Encoding(EncodedField::PublicKey)),
    }
}

/// The public view of a key pair, with the fingerprint of its public key.
pub fn get_key_info(key_pair: &KeyPair) -> (r: Result<KeyInfo, SignError>)
    ensures
        r is Err <==> !is_base64(key_pair.public_key@),
        r matches Err(e) ==> e == SignError::Encoding(EncodedField::PublicKey),
        r matches Ok(info) ==> {
            &&& info.public_key@ == key_pair.public_key@
            &&& info.algorithm@ == key_pair.algorithm@
            &&& info.fingerprint@ == fingerprint_text(key_pair.public_key@)
        },
{
    let fp = fingerprint(key_pair.public_key.as_str())?;
    Ok(KeyInfo { public_key: key_pair.public_key.clone(), algorithm: key_pair.algorithm.clone(), fingerprint: fp })
}

} // verus!
