//! Signing: the digest of the pristine input is signed, then a copy of the
//! document gets the visible stamp.

use vstd::prelude::*;
use crate::digest::{base64_decode, base64_encode, base64_of, decoded, digest_text, is_base64, sha256, sha256_of};
use crate::error::{EncodedField, SignError};
use crate::keys::{
    algorithm_label, algorithm_name, fingerprint, fingerprint_text, p256_accepts, p256_key_valid,
    p256_public_key, p256_sign, utc_now, KeyPair,
};
use crate::document::sign_pdf_with_options;
use vstd::string::StringSliceAdditionalSpecFns;
use crate::pdf::loaded;
use crate::stamp::{default_options, StampOptions};
use crate::document::{stamp_outcome, stamped_bytes};

verus! {

/// The record of one signing: signature, digest, scheme, time and signer.
#[derive(Debug, Clone)]
pub struct SignatureInfo {
    pub signature: String,
    pub hash: String,
    pub algorithm: String,
    pub timestamp: String,
    pub signer_fingerprint: String,
}

/// Provenance of a signing: the input, the stamped copy and the record.
#[derive(Debug, Clone)]
pub struct SignedDocument {
    pub original_file: String,
    pub signed_file: String,
    pub signature_info: SignatureInfo,
}

impl SignatureInfo {
    /// A copy of the record, field for field.
    pub fn duplicate(&self) -> (r: SignatureInfo)
        ensures
            r == *self,
    {
        SignatureInfo {
            signature: self.signature.clone(),
            hash: self.hash.clone(),
            algorithm: self.algorithm.clone(),
            timestamp: self.timestamp.clone(),
            signer_fingerprint: self.signer_fingerprint.clone(),
        }
    }
}

/// The visible text: the caller's, else "DIGITALLY SIGNED".
pub open spec fn visible_text(signature_text: Option<&str>) -> Seq<u8> {
    match signature_text {
        Some(t) => t.spec_bytes(),
        None => "DIGITALLY SIGNED".spec_bytes(),
    }
}

/// `info` records a signature of the bytes `data` made with the key pair
/// whose base64 private key is `private_key`, whose public key is
/// `public_key`.
pub open spec fn signs(info: SignatureInfo, data: Seq<u8>, private_key: Seq<char>, public_key: Seq<char>) -> bool {
    &&& info.hash@ == digest_text(data)
    &&& info.algorithm@ == algorithm_label()
    &&& info.signer_fingerprint@ == fingerprint_text(public_key)
    &&& is_base64(info.signature@)
    &&& p256_accepts(p256_public_key(decoded(private_key)), sha256_of(data), decoded(info.signature@))
}

/// The digest text of a document's bytes.
pub fn generate_pdf_hash(bytes: &[u8]) -> (r: String)
    ensures
        r@ == digest_text(bytes@),
        r@.len() == 44,
{
    crate::digest::digest_of_bytes(bytes)
}

/// Signs the digest of `input` (the bytes of the file at `input_path`) with
/// the key pair, and stamps a copy with the visible text (by default
/// "DIGITALLY SIGNED"). Returns the provenance record and the bytes of the
/// stamped copy, to be stored at `output_path`.
pub fn sign_pdf_digitally(
    input: &[u8],
    input_path: &str,
    output_path: &str,
    key_pair: &KeyPair,
    signature_text: Option<&str>,
) -> (r: Result<(SignedDocument, Vec<u8>), SignError>)
    ensures
        r matches Err(SignError::Encoding(f)) <==> !is_base64(key_pair.private_key@) || !is_base64(
            key_pair.public_key@,
        ),
        r matches Err(SignError::Encoding(f)) ==> f == if !is_base64(key_pair.private_key@) {
            EncodedField::PrivateKey
        } else {
            EncodedField::PublicKey
        },
        r matches Err(e) ==> e is Encoding || e is InvalidKey || e is Parse || e is NoPages
            || e is Stamping,
        is_base64(key_pair.private_key@) && is_base64(key_pair.public_key@) && !p256_key_valid(
            decoded(key_pair.private_key@),
        ) ==> r matches Err(SignError::InvalidKey),
        r matches Err(e) ==> (e is Parse || e is NoPages || e is Stamping ==> stamp_outcome(
            input@,
            visible_text(signature_text),
            default_options(),
            Err(e),
        )),
        loaded(input@) is None ==> r is Err,
        (loaded(input@) matches Some(m) && m.pages.len() == 0) ==> r is Err,
        r matches Ok((_, out)) ==> stamped_bytes(input@, visible_text(signature_text), default_options(), out@),
        r matches Ok((sd, _)) ==> {
            &&& signs(sd.signature_info, input@, key_pair.private_key@, key_pair.public_key@)
            &&& sd.original_file@ == input_path@
            &&& sd.signed_file@ == output_path@
        },
{
    let digest = sha256(input);
    let hash = base64_encode(digest.as_slice());
    let pkcs8 = match base64_decode(key_pair.private_key.as_str()) {
        Some(b) => b,
        None => return Err(SignError::Encoding(EncodedField::PrivateKey)),
    };
    let signer_fingerprint = fingerprint(key_pair.public_key.as_str())?;
    let sig = match p256_sign(pkcs8.as_slice(), digest.as_slice()) {
        Some(s) => s,
        None => return Err(SignError::InvalidKey),
    };
    let signature = base64_encode(sig.as_slice());
    let text: &str = match signature_text {
        Some(t) => t,
        None => "DIGITALLY SIGNED",
    };
    let signed = match sign_pdf_with_options(input, text, &StampOptions::defaults()) {
        Ok(out) => out,
        Err(e) => return Err(e),
    };
    let info = SignatureInfo {
        signature,
        hash,
        algorithm: algorithm_name(),
        timestamp: utc_now("%Y-%m-%d %H:%M:%S UTC"),
        signer_fingerprint,
    };
    proof {
        assert(base64_of(sig@) == info.signature@);
        assert(decoded(info.signature@) == sig@);
        assert(decoded(key_pair.private_key@) == pkcs8@);
    }
    let doc = SignedDocument {
        original_file: String::from_str(input_path),
        signed_file: String::from_str(output_path),
        signature_info: info,
    };
    Ok((doc, signed))
}

} // verus!
