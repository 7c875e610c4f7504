//! Whole-document operations on PDF bytes: reading the page count and
//! stamping a signature mark.

use vstd::prelude::*;
use vstd::string::StringSliceAdditionalSpecFns;
use crate::error::SignError;
use crate::pdf::{loaded, model_of, page_ids, pages_of, parse_document, saved_of, write_document, ObjId};
use crate::stamp::{stamp, stamp_post, stamp_succeeds, StampOptions};

verus! {

/// The page count of a page list, saturating at the largest `u32`.
pub open spec fn count_of(pages: Seq<ObjId>) -> u32 {
    if pages.len() <= u32::MAX {
        pages.len() as u32
    } else {
        u32::MAX
    }
}

/// The page count that reading `bytes` gives, or why there is none.
pub open spec fn page_count_result(bytes: Seq<u8>) -> Result<u32, SignError> {
    match loaded(bytes) {
        Some(m) => Ok(count_of(m.pages)),
        None => Err(SignError::Parse),
    }
}

/// The number of pages of a loaded document.
pub fn page_count(doc: &lopdf::Document) -> (r: u32)
    ensures
        r == count_of(pages_of(*doc)),
{
    let pages = page_ids(doc);
    if pages.len() > u32::MAX as usize {
        u32::MAX
    } else {
        pages.len() as u32
    }
}

/// The page count of the PDF held in `bytes`.
pub fn get_page_count_internal(bytes: &[u8]) -> (r: Result<u32, SignError>)
    ensures
        r == page_count_result(bytes@),
{
    match parse_document(bytes) {
        Some(doc) => Ok(page_count(&doc)),
        None => Err(SignError::Parse),
    }
}

/// The page count of a document before it is signed.
pub fn get_pdf_info_before_signing_internal(bytes: &[u8]) -> (r: Result<u32, SignError>)
    ensures
        r == page_count_result(bytes@),
{
    get_page_count_internal(bytes)
}

/// `out` is what lopdf writes for the document loaded from `bytes` after a
/// successful stamp of `text` with options `o`.
pub open spec fn stamped_bytes(bytes: Seq<u8>, text: Seq<u8>, o: StampOptions, out: Seq<u8>) -> bool {
    exists|d1: lopdf::Document, f: ObjId|
        stamp_post(loaded(bytes)->Some_0, model_of(d1), text, o, f) && saved_of(d1) == Some(out)
}

/// How stamping the PDF held in `bytes` ends in `r`: reading fails exactly
/// on bytes that lopdf does not load, a document without pages is refused,
/// a stamping error comes exactly where stamping the loaded document does
/// not succeed, and success returns the written stamped document.
pub open spec fn stamp_outcome(bytes: Seq<u8>, text: Seq<u8>, o: StampOptions, r: Result<Vec<u8>, SignError>) -> bool {
    &&& (r matches Err(SignError::Parse) <==> loaded(bytes) is None)
    &&& (r matches Err(SignError::NoPages) <==> (loaded(bytes) matches Some(m) && m.pages.len() == 0))
    &&& (r matches Err(e) ==> e is Parse || e is NoPages || e is Stamping)
    &&& (r matches Err(SignError::Stamping) <==> (loaded(bytes) matches Some(m) && m.pages.len() > 0
        && !stamp_succeeds(m, text, o)))
    &&& (r matches Ok(out) ==> (loaded(bytes) matches Some(m) && m.pages.len() > 0))
    &&& (r matches Ok(out) ==> stamped_bytes(bytes, text, o, out@))
}

/// Options that draw nothing and only register the signature field.
pub open spec fn field_only(o: StampOptions) -> bool {
    &&& o.font_size is None
    &&& o.x_position is None
    &&& o.y_position is None
    &&& o.position is None
    &&& o.pages matches Some(v) && v@.len() == 0
}

/// Options that draw on the first page only, with the default placement.
pub open spec fn first_page_only(o: StampOptions) -> bool {
    &&& o.font_size is None
    &&& o.x_position is None
    &&& o.y_position is None
    &&& o.position is None
    &&& o.pages matches Some(v) && v@ == seq![1u32]
}

/// Stamps the PDF held in `bytes` with `signature_text` as `options` say,
/// and returns the bytes of the stamped document.
pub fn sign_pdf_with_options(bytes: &[u8], signature_text: &str, options: &StampOptions) -> (r: Result<Vec<u8>, SignError>)
    ensures
        stamp_outcome(bytes@, signature_text.spec_bytes(), *options, r),
{
    let mut doc = match parse_document(bytes) {
        Some(d) => d,
        None => return Err(SignError::Parse),
    };
    let ghost d0 = doc;
    let ghost text = signature_text.spec_bytes();
    let field = match stamp(&mut doc, signature_text, options) {
        Ok(f) => f,
        Err(e) => return Err(e),
    };
    let ghost d1 = doc;
    match write_document(&mut doc) {
        Some(out) => {
            proof {
                assert(loaded(bytes@)->Some_0 == model_of(d0));
                assert(stamp_post(loaded(bytes@)->Some_0, model_of(d1), text, *options, field) && saved_of(d1) == Some(out@));
                assert(stamped_bytes(bytes@, text, *options, out@));
            }
            Ok(out)
        },
        None => Err(SignError::Stamping),
    }
}

/// Registers a signature field in the PDF held in `bytes`, drawing nothing,
/// and returns the bytes of the signed document.
pub fn sign_pdf_internal(bytes: &[u8], signature_text: &str) -> (r: Result<Vec<u8>, SignError>)
    ensures
        exists|o: StampOptions| field_only(o) && stamp_outcome(bytes@, signature_text.spec_bytes(), o, r),
{
    let mut options = StampOptions::defaults();
    options.pages = Some(Vec::new());
    let r = sign_pdf_with_options(bytes, signature_text, &options);
    assert(field_only(options));
    r
}

/// Stamps the first page of the PDF held in `bytes` with `signature_text`.
pub fn sign_pdf_with_visible_text(bytes: &[u8], signature_text: &str) -> (r: Result<Vec<u8>, SignError>)
    ensures
        exists|o: StampOptions| first_page_only(o) && stamp_outcome(bytes@, signature_text.spec_bytes(), o, r),
{
    let mut options = StampOptions::defaults();
    let first = vec![1u32];
    assert(first@ =~= seq![1u32]);
    options.pages = Some(first);
    let r = sign_pdf_with_options(bytes, signature_text, &options);
    assert(first_page_only(options));
    r
}

} // verus!
