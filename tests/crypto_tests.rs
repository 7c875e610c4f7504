use lopdf::{Dictionary, Document, Object, Stream};
use solopdf::digest::digest_of_bytes;
use solopdf::error::{EncodedField, SignError};
use solopdf::keys::{fingerprint, generate_key_pair, get_key_info, load_key_pair_from_string, KeyPair};
use solopdf::signer::{generate_pdf_hash, sign_pdf_digitally, SignatureInfo};
use solopdf::verify::{
    get_file_checksum, verification_result, verify_signature, verify_signed_document, verify_with_public_key,
    Verdict,
};

// Builds a PDF of `page_count` pages and returns its bytes.
fn create_test_pdf(page_count: usize, _title: &str, content: &str) -> Vec<u8> {
    let mut doc = Document::with_version("1.4");
    let pages_id = doc.new_object_id();
    let font_id = doc.new_object_id();

    let mut catalog = Dictionary::new();
    catalog.set("Type", Object::Name(b"Catalog".to_vec()));
    catalog.set("Pages", Object::Reference(pages_id));
    let catalog_id = doc.add_object(catalog);
    doc.trailer.set("Root", Object::Reference(catalog_id));

    let mut font = Dictionary::new();
    font.set("Type", Object::Name(b"Font".to_vec()));
    font.set("Subtype", Object::Name(b"Type1".to_vec()));
    font.set("BaseFont", Object::Name(b"Helvetica".to_vec()));
    doc.objects.insert(font_id, Object::Dictionary(font));

    let mut kids = Vec::new();
    for i in 0..page_count {
        let page_id = doc.new_object_id();
        let content_id = doc.new_object_id();
        let text = format!("BT /F1 12 Tf 72 720 Td ({} - Page {}) Tj ET", content, i + 1);
        doc.objects.insert(content_id, Object::Stream(Stream::new(Dictionary::new(), text.into_bytes())));

        let mut fonts = Dictionary::new();
        fonts.set("F1", Object::Reference(font_id));
        let mut resources = Dictionary::new();
        resources.set("Font", Object::Dictionary(fonts));
        let mut page = Dictionary::new();
        page.set("Type", Object::Name(b"Page".to_vec()));
        page.set("Parent", Object::Reference(pages_id));
        page.set(
            "MediaBox",
            Object::Array(vec![Object::Integer(0), Object::Integer(0), Object::Integer(612), Object::Integer(792)]),
        );
        page.set("Contents", Object::Reference(content_id));
        page.set("Resources", Object::Dictionary(resources));
        doc.objects.insert(page_id, Object::Dictionary(page));
        kids.push(Object::Reference(page_id));
    }

    let mut pages = Dictionary::new();
    pages.set("Type", Object::Name(b"Pages".to_vec()));
    pages.set("Kids", Object::Array(kids));
    pages.set("Count", Object::Integer(page_count as i64));
    doc.objects.insert(pages_id, Object::Dictionary(pages));

    let mut out = Vec::new();
    doc.save_to(&mut out).unwrap();
    out
}


const MODIFIED: &str = "Document has been modified since signing";
const AUTHENTIC: &str = "Signature is valid and document is authentic";
const REJECTED: &str = "Invalid signature - document may be tampered or signed with different key";

fn key_pair() -> KeyPair {
    generate_key_pair().unwrap()
}

#[test]
fn digest_of_known_bytes() {
    assert_eq!(digest_of_bytes(b"abc"), "ungWv48Bz+pBQUDeXa4iI7ADYaOWF3qctBD/YfIAFa0=");
    assert_eq!(generate_pdf_hash(b""), "47DEQpj8HBSa+/TImW+5JCeuQeRkm5NMpJWZG3hSuFU=");
}

#[test]
fn hash_is_deterministic() {
    let bytes = create_test_pdf(2, "Hash", "Same");
    assert_eq!(generate_pdf_hash(&bytes), generate_pdf_hash(&bytes));
    assert_ne!(generate_pdf_hash(&bytes), generate_pdf_hash(b"other"));
}

#[test]
fn checksum_is_digest_prefix() {
    assert_eq!(get_file_checksum(b"abc"), "ungWv48Bz+pBQUDe");
    assert_eq!(get_file_checksum(b"").len(), 16);
}

#[test]
fn generated_key_pair_is_consistent() {
    let kp = key_pair();
    assert_eq!(kp.algorithm, "ECDSA_P256_SHA256");
    let loaded = load_key_pair_from_string(&kp.private_key).unwrap();
    assert_eq!(loaded.public_key, kp.public_key);
    assert_eq!(loaded.private_key, kp.private_key);
    assert_eq!(loaded.algorithm, "ECDSA_P256_SHA256");
    assert_eq!(loaded.created_at, "Loaded from string");
    assert_ne!(kp.public_key, kp.private_key);
}

#[test]
fn loading_malformed_private_keys() {
    assert_eq!(
        load_key_pair_from_string("not base64!").unwrap_err(),
        SignError::Encoding(EncodedField::PrivateKey)
    );
    assert_eq!(load_key_pair_from_string("AAAA").unwrap_err(), SignError::InvalidKey);
}

#[test]
fn key_info_has_fingerprint_and_no_private_key() {
    let kp = key_pair();
    let info = get_key_info(&kp).unwrap();
    assert_eq!(info.public_key, kp.public_key);
    assert_eq!(info.algorithm, kp.algorithm);
    assert_eq!(info.fingerprint.len(), 44);
    assert_eq!(info.fingerprint, fingerprint(&kp.public_key).unwrap());
    assert_eq!(fingerprint("AAAA").unwrap(), digest_of_bytes(&[0, 0, 0]));
    assert_ne!(info.fingerprint, kp.public_key);
    let mut broken = kp.clone();
    broken.public_key = "@@".to_string();
    assert_eq!(get_key_info(&broken).unwrap_err(), SignError::Encoding(EncodedField::PublicKey));
}

#[test]
fn sign_then_verify_input_bytes() {
    let kp = key_pair();
    let input = create_test_pdf(2, "Round trip", "Body");
    let (signed_doc, stamped) = sign_pdf_digitally(&input, "in.pdf", "out.pdf", &kp, Some("Signer")).unwrap();
    let info = &signed_doc.signature_info;
    assert_eq!(info.hash, generate_pdf_hash(&input));
    assert_eq!(info.algorithm, "ECDSA_P256_SHA256");
    assert_eq!(info.signer_fingerprint, fingerprint(&kp.public_key).unwrap());
    assert_eq!(signed_doc.original_file, "in.pdf");
    assert_eq!(signed_doc.signed_file, "out.pdf");
    assert_ne!(stamped, input);

    let result = verify_signature(&input, info, &kp.public_key).unwrap();
    assert!(result.is_valid);
    assert_eq!(result.message, AUTHENTIC);
    assert_eq!(result.signature_info.unwrap().signature, info.signature);

    let result = verify_with_public_key(&input, info, &kp.public_key).unwrap();
    assert!(result.is_valid);
}

#[test]
fn stamped_copy_differs_from_signed_bytes() {
    let kp = key_pair();
    let input = create_test_pdf(1, "Copy", "Body");
    let (signed_doc, stamped) = sign_pdf_digitally(&input, "a", "b", &kp, None).unwrap();
    let result = verify_signed_document(&stamped, &signed_doc, &kp).unwrap();
    assert!(!result.is_valid);
    assert_eq!(result.message, MODIFIED);
    let doc = Document::load_mem(&stamped).unwrap();
    assert_eq!(doc.get_pages().len(), 1);
}

#[test]
fn tampered_file_is_reported_modified() {
    let kp = key_pair();
    let input = create_test_pdf(1, "Tamper", "Body");
    let (signed_doc, _) = sign_pdf_digitally(&input, "a", "b", &kp, Some("T")).unwrap();
    let mut appended = input.clone();
    appended.push(b'x');
    let result = verify_signature(&appended, &signed_doc.signature_info, &kp.public_key).unwrap();
    assert!(!result.is_valid);
    assert_eq!(result.message, MODIFIED);
    let mut altered = input.clone();
    altered[10] ^= 1;
    let result = verify_signature(&altered, &signed_doc.signature_info, "not even base64").unwrap();
    assert!(!result.is_valid);
    assert_eq!(result.message, MODIFIED);
}

#[test]
fn wrong_key_is_rejected() {
    let kp = key_pair();
    let other = key_pair();
    let input = create_test_pdf(1, "Wrong key", "Body");
    let (signed_doc, _) = sign_pdf_digitally(&input, "a", "b", &kp, Some("W")).unwrap();
    let result = verify_signature(&input, &signed_doc.signature_info, &other.public_key).unwrap();
    assert!(!result.is_valid);
    assert_eq!(result.message, REJECTED);
}

#[test]
fn malformed_encodings_are_errors() {
    let kp = key_pair();
    let input = create_test_pdf(1, "Malformed", "Body");
    let (signed_doc, _) = sign_pdf_digitally(&input, "a", "b", &kp, Some("M")).unwrap();
    let info = &signed_doc.signature_info;
    assert_eq!(
        verify_signature(&input, info, "***").unwrap_err(),
        SignError::Encoding(EncodedField::PublicKey)
    );
    let mut bad = info.clone();
    bad.signature = "%%%".to_string();
    assert_eq!(
        verify_signature(&input, &bad, &kp.public_key).unwrap_err(),
        SignError::Encoding(EncodedField::Signature)
    );
    let mut garbled = info.clone();
    garbled.signature = "AAAA".to_string();
    let result = verify_signature(&input, &garbled, &kp.public_key).unwrap();
    assert_eq!(result.message, REJECTED);
}

#[test]
fn signing_with_broken_keys() {
    let input = create_test_pdf(1, "Keys", "Body");
    let mut kp = key_pair();
    let good_private = kp.private_key.clone();
    kp.private_key = "!!".to_string();
    assert_eq!(
        sign_pdf_digitally(&input, "a", "b", &kp, None).unwrap_err(),
        SignError::Encoding(EncodedField::PrivateKey)
    );
    kp.private_key = "AAAA".to_string();
    assert_eq!(sign_pdf_digitally(&input, "a", "b", &kp, None).unwrap_err(), SignError::InvalidKey);
    kp.private_key = good_private;
    kp.public_key = "!!".to_string();
    assert_eq!(
        sign_pdf_digitally(&input, "a", "b", &kp, None).unwrap_err(),
        SignError::Encoding(EncodedField::PublicKey)
    );
}

#[test]
fn signing_non_pdf_and_empty_documents_fails() {
    let kp = key_pair();
    assert_eq!(
        sign_pdf_digitally(b"This is not a PDF file", "a", "b", &kp, None).unwrap_err(),
        SignError::Parse
    );
    let empty = create_test_pdf(0, "Empty", "");
    assert_eq!(sign_pdf_digitally(&empty, "a", "b", &kp, None).unwrap_err(), SignError::NoPages);
}

#[test]
fn empty_and_long_texts_sign_and_verify() {
    let kp = key_pair();
    let input = create_test_pdf(1, "Texts", "Body");
    let long_text = "L".repeat(1200);
    for text in ["", long_text.as_str()] {
        let (signed_doc, stamped) = sign_pdf_digitally(&input, "a", "b", &kp, Some(text)).unwrap();
        assert!(Document::load_mem(&stamped).is_ok());
        let result = verify_signature(&input, &signed_doc.signature_info, &kp.public_key).unwrap();
        assert!(result.is_valid);
    }
}

#[test]
fn three_page_scenario() {
    let kp = key_pair();
    let input = create_test_pdf(3, "Scenario", "Contract");
    let (signed_doc, stamped) = sign_pdf_digitally(&input, "contract.pdf", "signed.pdf", &kp, Some("Jane Doe")).unwrap();
    assert_eq!(signed_doc.signature_info.algorithm, "ECDSA_P256_SHA256");
    let ok = verify_signature(&input, &signed_doc.signature_info, &kp.public_key).unwrap();
    assert!(ok.is_valid);
    let mut flipped = stamped.clone();
    let last = flipped.len() - 1;
    flipped[last] ^= 0xff;
    let bad = verify_signature(&flipped, &signed_doc.signature_info, &kp.public_key).unwrap();
    assert!(!bad.is_valid);
    assert!(bad.message.contains("modified"));
    let doc = Document::load_mem(&stamped).unwrap();
    assert_eq!(doc.get_pages().len(), 3);
}

#[test]
fn result_for_each_verdict() {
    let info = SignatureInfo {
        signature: "s".to_string(),
        hash: "h".to_string(),
        algorithm: "ECDSA_P256_SHA256".to_string(),
        timestamp: "t".to_string(),
        signer_fingerprint: "f".to_string(),
    };
    let r = verification_result(Verdict::Authentic, &info, "now".to_string());
    assert!(r.is_valid);
    assert_eq!(r.message, AUTHENTIC);
    assert_eq!(r.verified_at, "now");
    let r = verification_result(Verdict::Modified, &info, "now".to_string());
    assert!(!r.is_valid);
    assert_eq!(r.message, MODIFIED);
    let r = verification_result(Verdict::Rejected, &info, "now".to_string());
    assert!(!r.is_valid);
    assert_eq!(r.message, REJECTED);
    assert_eq!(r.signature_info.unwrap().hash, "h");
}
