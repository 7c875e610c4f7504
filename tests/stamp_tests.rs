use lopdf::{Dictionary, Document, Object, Stream};
use solopdf::document::{get_page_count_internal, sign_pdf_with_options, sign_pdf_with_visible_text};
use solopdf::error::SignError;
use solopdf::stamp::{stamp, Anchor, StampOptions};

// Builds a PDF of `page_count` pages and returns its bytes.
fn create_test_pdf(page_count: usize, _title: &str, content: &str) -> Vec<u8> {
    let mut doc = Document::with_version("1.4");
    let pages_id = doc.new_object_id();
    let font_id = doc.new_object_id();

    let mut catalog = Dictionary::new();
    catalog.set("Type", Object::Name(b"Catalog".to_vec()));
    catalog.set("Pages", Object::Reference(pages_id));
    let catalog_id = doc.add_object(catalog);
    doc.trailer.set("Root", Object::Reference(catalog_id));

    let mut font = Dictionary::new();
    font.set("Type", Object::Name(b"Font".to_vec()));
    font.set("Subtype", Object::Name(b"Type1".to_vec()));
    font.set("BaseFont", Object::Name(b"Helvetica".to_vec()));
    doc.objects.insert(font_id, Object::Dictionary(font));

    let mut kids = Vec::new();
    for i in 0..page_count {
        let page_id = doc.new_object_id();
        let content_id = doc.new_object_id();
        let text = format!("BT /F1 12 Tf 72 720 Td ({} - Page {}) Tj ET", content, i + 1);
        doc.objects.insert(content_id, Object::Stream(Stream::new(Dictionary::new(), text.into_bytes())));

        let mut fonts = Dictionary::new();
        fonts.set("F1", Object::Reference(font_id));
        let mut resources = Dictionary::new();
        resources.set("Font", Object::Dictionary(fonts));
        let mut page = Dictionary::new();
        page.set("Type", Object::Name(b"Page".to_vec()));
        page.set("Parent", Object::Reference(pages_id));
        page.set(
            "MediaBox",
            Object::Array(vec![Object::Integer(0), Object::Integer(0), Object::Integer(612), Object::Integer(792)]),
        );
        page.set("Contents", Object::Reference(content_id));
        page.set("Resources", Object::Dictionary(resources));
        doc.objects.insert(page_id, Object::Dictionary(page));
        kids.push(Object::Reference(page_id));
    }

    let mut pages = Dictionary::new();
    pages.set("Type", Object::Name(b"Pages".to_vec()));
    pages.set("Kids", Object::Array(kids));
    pages.set("Count", Object::Integer(page_count as i64));
    doc.objects.insert(pages_id, Object::Dictionary(pages));

    let mut out = Vec::new();
    doc.save_to(&mut out).unwrap();
    out
}


// The content streams of each page, in page order, as raw bytes.
fn page_streams(doc: &Document) -> Vec<Vec<Vec<u8>>> {
    doc.get_pages()
        .values()
        .map(|id| {
            let page = doc.get_dictionary(*id).unwrap();
            match page.get(b"Contents") {
                Ok(Object::Array(items)) => items
                    .iter()
                    .map(|o| doc.get_object(o.as_reference().unwrap()).unwrap().as_stream().unwrap().content.clone())
                    .collect(),
                Ok(Object::Reference(r)) => vec![doc.get_object(*r).unwrap().as_stream().unwrap().content.clone()],
                _ => vec![],
            }
        })
        .collect()
}

fn contains(hay: &[u8], needle: &[u8]) -> bool {
    hay.windows(needle.len()).any(|w| w == needle)
}

#[test]
fn stamp_appends_text_to_every_page_and_keeps_content() {
    let bytes = create_test_pdf(3, "Stamp", "Body");
    let mut doc = Document::load_mem(&bytes).unwrap();
    let before_pages = doc.get_pages();
    let field = stamp(&mut doc, "Jane Doe", &StampOptions::defaults()).unwrap();
    assert_eq!(doc.get_pages(), before_pages);
    let streams = page_streams(&doc);
    assert_eq!(streams.len(), 3);
    for (i, page) in streams.iter().enumerate() {
        assert_eq!(page.len(), 2);
        assert!(contains(&page[0], format!("Body - Page {}", i + 1).as_bytes()));
        assert!(contains(&page[1], b"(Jane Doe) Tj"));
        assert!(contains(&page[1], b"/Helvetica 12 Tf"));
        assert!(contains(&page[1], b"400 50 Td"));
    }
    let field_dict = doc.get_dictionary(field).unwrap();
    assert_eq!(field_dict.get(b"FT").unwrap().as_name().unwrap(), b"Sig");
    assert_eq!(field_dict.get(b"Ff").unwrap().as_i64().unwrap(), 132);
    let sig = field_dict.get(b"V").unwrap().as_reference().unwrap();
    let name = format!("Signature{}", sig.0);
    assert_eq!(field_dict.get(b"T").unwrap().as_str().unwrap(), name.as_bytes());
    let value = doc.get_dictionary(sig).unwrap();
    assert_eq!(value.get(b"Contents").unwrap().as_str().unwrap(), b"Jane Doe");
}

#[test]
fn stamp_on_selected_pages_and_anchor() {
    let bytes = create_test_pdf(3, "Stamp", "Body");
    let mut doc = Document::load_mem(&bytes).unwrap();
    let mut options = StampOptions::defaults();
    options.pages = Some(vec![2]);
    options.position = Some(Anchor::TopLeft);
    options.font_size = Some(20);
    stamp(&mut doc, "Mark", &options).unwrap();
    let streams = page_streams(&doc);
    assert_eq!(streams[0].len(), 1);
    assert_eq!(streams[1].len(), 2);
    assert_eq!(streams[2].len(), 1);
    assert!(contains(&streams[1][1], b"50 750 Td"));
    assert!(contains(&streams[1][1], b"/Helvetica 20 Tf"));
}

#[test]
fn stamp_at_explicit_position() {
    let bytes = create_test_pdf(1, "Stamp", "Body");
    let mut doc = Document::load_mem(&bytes).unwrap();
    let mut options = StampOptions::defaults();
    options.x_position = Some(120);
    options.y_position = Some(80);
    stamp(&mut doc, "At", &options).unwrap();
    assert!(contains(&page_streams(&doc)[0][1], b"120 80 Td"));
    let mut centred = StampOptions::defaults();
    centred.position = Some(Anchor::Center);
    stamp(&mut doc, "Mid", &centred).unwrap();
    assert!(contains(&page_streams(&doc)[0][2], b"300 400 Td"));
}

#[test]
fn stamp_creates_content_list_for_page_without_contents() {
    let bytes = create_test_pdf(1, "Stamp", "Body");
    let mut doc = Document::load_mem(&bytes).unwrap();
    let page_id = *doc.get_pages().values().next().unwrap();
    doc.get_dictionary_mut(page_id).unwrap().remove(b"Contents");
    stamp(&mut doc, "Fresh", &StampOptions::defaults()).unwrap();
    let streams = page_streams(&doc);
    assert_eq!(streams[0].len(), 1);
    assert!(contains(&streams[0][0], b"(Fresh) Tj"));
}

#[test]
fn stamp_refuses_document_without_pages() {
    let bytes = create_test_pdf(0, "Empty", "");
    let mut doc = Document::load_mem(&bytes).unwrap();
    let objects_before = doc.objects.len();
    assert_eq!(stamp(&mut doc, "X", &StampOptions::defaults()), Err(SignError::NoPages));
    assert_eq!(doc.objects.len(), objects_before);
}

#[test]
fn stamp_extends_existing_form() {
    let bytes = create_test_pdf(2, "Stamp", "Body");
    let mut doc = Document::load_mem(&bytes).unwrap();
    let first = stamp(&mut doc, "One", &StampOptions::defaults()).unwrap();
    let second = stamp(&mut doc, "Two", &StampOptions::defaults()).unwrap();
    assert_ne!(first, second);
    let form_id = doc.catalog().unwrap().get(b"AcroForm").unwrap().as_reference().unwrap();
    let fields = doc.get_dictionary(form_id).unwrap().get(b"Fields").unwrap().as_array().unwrap().clone();
    assert_eq!(fields, vec![Object::Reference(first), Object::Reference(second)]);
    assert_eq!(doc.get_pages().len(), 2);
}

#[test]
fn visible_text_goes_on_first_page_only() {
    let bytes = create_test_pdf(2, "Stamp", "Body");
    let signed = sign_pdf_with_visible_text(&bytes, "First").unwrap();
    let doc = Document::load_mem(&signed).unwrap();
    let streams = page_streams(&doc);
    assert_eq!(streams[0].len(), 2);
    assert_eq!(streams[1].len(), 1);
}

#[test]
fn options_signing_keeps_page_count() {
    let bytes = create_test_pdf(4, "Stamp", "Body");
    let mut options = StampOptions::defaults();
    options.position = Some(Anchor::BottomLeft);
    let signed = sign_pdf_with_options(&bytes, "Opt", &options).unwrap();
    assert_eq!(get_page_count_internal(&signed), Ok(4));
    let doc = Document::load_mem(&signed).unwrap();
    assert!(contains(&page_streams(&doc)[3][1], b"50 50 Td"));
}

#[test]
fn stamp_extends_inline_form() {
    let bytes = create_test_pdf(1, "Inline", "Body");
    let mut doc = Document::load_mem(&bytes).unwrap();
    let mut existing = Dictionary::new();
    existing.set("FT", Object::Name(b"Tx".to_vec()));
    let existing_id = doc.add_object(existing);
    let mut form = Dictionary::new();
    form.set("Fields", Object::Array(vec![Object::Reference(existing_id)]));
    doc.catalog_mut().unwrap().set("AcroForm", Object::Dictionary(form));

    let field = stamp(&mut doc, "Inline", &StampOptions::defaults()).unwrap();
    let form = doc.catalog().unwrap().get(b"AcroForm").unwrap().as_dict().unwrap();
    let fields = form.get(b"Fields").unwrap().as_array().unwrap();
    assert_eq!(fields, &vec![Object::Reference(existing_id), Object::Reference(field)]);
}

#[test]
fn stamp_starts_field_list_in_form_without_one() {
    let bytes = create_test_pdf(1, "Inline", "Body");
    let mut doc = Document::load_mem(&bytes).unwrap();
    let mut form = Dictionary::new();
    form.set("DA", Object::string_literal("/Helv 0 Tf 0 g"));
    let form_id = doc.add_object(form);
    doc.catalog_mut().unwrap().set("AcroForm", Object::Reference(form_id));

    let field = stamp(&mut doc, "Start", &StampOptions::defaults()).unwrap();
    let form = doc.get_dictionary(form_id).unwrap();
    assert_eq!(form.get(b"Fields").unwrap().as_array().unwrap(), &vec![Object::Reference(field)]);
    assert!(form.get(b"DA").is_ok());
}

#[test]
fn field_only_signing_keeps_page_content() {
    let bytes = create_test_pdf(2, "Field", "Body");
    let before = page_streams(&Document::load_mem(&bytes).unwrap());
    let signed = solopdf::document::sign_pdf_internal(&bytes, "Only a field").unwrap();
    let doc = Document::load_mem(&signed).unwrap();
    assert_eq!(page_streams(&doc), before);
    let form_id = doc.catalog().unwrap().get(b"AcroForm").unwrap().as_reference().unwrap();
    let fields = doc.get_dictionary(form_id).unwrap().get(b"Fields").unwrap().as_array().unwrap();
    assert_eq!(fields.len(), 1);
}

#[test]
fn stamp_operations_draw_text_in_order() {
    let ops = solopdf::stamp::stamp_operations("Hi", 9, 1, 2);
    let names: Vec<&str> = ops.iter().map(|o| o.operator.as_str()).collect();
    assert_eq!(names, vec!["BT", "Tf", "Td", "Tj", "ET"]);
    assert_eq!(ops[1].operands.len(), 2);
    assert_eq!(ops[2].operands.len(), 2);
    assert_eq!(ops[3].operands.len(), 1);
}
