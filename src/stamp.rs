//! The document mutator: a visible text stamp on the pages and a signature
//! form field registered in the catalog's interactive form.

use vstd::prelude::*;
use vstd::string::StringSliceAdditionalSpecFns;
use crate::error::SignError;
use crate::pdf::{
    add_dictionary, add_stream, array_items, catalog_id, content_encoding, dict_of, doc_wf,
    encode_operations, ids_within, model_of, op_view, ops_view, ContentOp, DocModel,
    entries_dict, entry, entry_view, greatest_object_number, inner_dict, is_dict, max_id_of,
    max_object_number, nested_entry, nested_view, objects_of, page_ids, pages_of, push_nested_reference,
    push_reference, ref_obj, root_ref, set_entry, set_nested_entry, mark_of, operand_obj, page_walk,
    trailer_of, with_entry, with_nested_entry, Entry, ObjId, Operand, PdfObj,
};

verus! {

/// A named corner or the centre of the page.
#[derive(Debug, Clone, Copy, PartialEq, Eq, Structural)]
pub enum Anchor {
    TopLeft,
    TopRight,
    BottomLeft,
    BottomRight,
    Center,
}

/// Where and how the stamp is drawn. Unset fields take the defaults:
/// every page, 12-point text, bottom right at (400, 50).
#[derive(Debug)]
pub struct StampOptions {
    pub font_size: Option<i64>,
    pub x_position: Option<i64>,
    pub y_position: Option<i64>,
    /// One-based page numbers to stamp; `None` stamps every page.
    pub pages: Option<Vec<u32>>,
    pub position: Option<Anchor>,
}

pub open spec fn font_size_of(o: StampOptions) -> i64 {
    match o.font_size {
        Some(s) => s,
        None => 12,
    }
}

/// The text origin: a named anchor, else the explicit position, else (400, 50).
pub open spec fn placement(o: StampOptions) -> (i64, i64) {
    match o.position {
        Some(Anchor::TopLeft) => (50, 750),
        Some(Anchor::TopRight) => (450, 750),
        Some(Anchor::BottomLeft) => (50, 50),
        Some(Anchor::Center) => (300, 400),
        _ => (
            match o.x_position {
                Some(x) => x,
                None => 400,
            },
            match o.y_position {
                Some(y) => y,
                None => 50,
            },
        ),
    }
}

/// Whether the page at zero-based index `i` is stamped.
pub open spec fn selected(o: StampOptions, i: int) -> bool {
    match o.pages {
        Some(v) => v@.contains((i + 1) as u32),
        None => true,
    }
}

/// Every page, 12-point text at the bottom right.
pub open spec fn default_options() -> StampOptions {
    StampOptions { font_size: None, x_position: None, y_position: None, pages: None, position: None }
}

impl StampOptions {
    /// Every page, 12-point text at the bottom right.
    pub fn defaults() -> (r: StampOptions)
        ensures
            r == default_options(),
    {
        StampOptions { font_size: None, x_position: None, y_position: None, pages: None, position: None }
    }

    fn origin(&self) -> (r: (i64, i64))
        ensures
            r == placement(*self),
    {
        match self.position {
            Some(Anchor::TopLeft) => (50, 750),
            Some(Anchor::TopRight) => (450, 750),
            Some(Anchor::BottomLeft) => (50, 50),
            Some(Anchor::Center) => (300, 400),
            _ => (
                match self.x_position {
                    Some(x) => x,
                    None => 400,
                },
                match self.y_position {
                    Some(y) => y,
                    None => 50,
                },
            ),
        }
    }

    fn size(&self) -> (r: i64)
        ensures
            r == font_size_of(*self),
    {
        match self.font_size {
            Some(s) => s,
            None => 12,
        }
    }

    fn stamps_page(&self, i: usize) -> (r: bool)
        requires
            i < u32::MAX,
        ensures
            r == selected(*self, i as int),
    {
        match &self.pages {
            None => true,
            Some(v) => {
                let want: u32 = (i + 1) as u32;
                let mut k: usize = 0;
                while k < v.len()
                    invariant
                        0 <= k <= v@.len(),
                        want as int == i + 1,
                        self.pages == Some(*v),
                        forall|j: int| 0 <= j < k ==> v@[j] != want,
                    decreases v@.len() - k,
                {
                    if v[k] == want {
                        assert(v@[k as int] == want);
                        assert(v@.contains(want));
                        return true;
                    }
                    k = k + 1;
                }
                false
            },
        }
    }
}

/// The decimal digits of `n`, as ASCII bytes.
pub open spec fn decimal(n: nat) -> Seq<u8>
    decreases n,
{
    if n < 10 {
        seq![(48 + n) as u8]
    } else {
        decimal(n / 10).push((48 + n % 10) as u8)
    }
}

fn decimal_bytes(n: u32) -> (r: Vec<u8>)
    ensures
        r@ == decimal(n as nat),
    decreases n,
{
    if n < 10 {
        vec![(48 + n) as u8]
    } else {
        let mut v = decimal_bytes(n / 10);
        v.push((48 + n % 10) as u8);
        v
    }
}

/// The content streams that a page's `Contents` entry lists: a single
/// reference counts as a list of one, a missing entry as an empty list.
pub open spec fn content_list(objs: Map<ObjId, PdfObj>, page: ObjId) -> Seq<PdfObj> {
    match entry_view(objs, page, "Contents"@) {
        Entry::Reference(r) => seq![ref_obj(r)],
        Entry::Array => array_items(dict_of(objs[page])["Contents"@]),
        _ => Seq::empty(),
    }
}

/// The store after the stream `sid` holding `content` is added and appended
/// to the content list of `page`.
pub open spec fn with_page_stream(
    objs: Map<ObjId, PdfObj>,
    page: ObjId,
    sid: ObjId,
    content: Seq<u8>,
) -> Map<ObjId, PdfObj> {
    with_entry(
        objs.insert(sid, PdfObj::Stream(content)),
        page,
        "Contents"@,
        PdfObj::Array(content_list(objs, page).push(ref_obj(sid))),
    )
}

/// Adds a content stream to a page, after the content it already has. A
/// single content reference is promoted to a list first; a page without a
/// content list gets a new one.
fn append_content(doc: &mut lopdf::Document, page: ObjId, content: Vec<u8>) -> (r: Result<ObjId, SignError>)
    requires
        doc_wf(*old(doc)),
        max_id_of(*old(doc)) < u32::MAX,
    ensures
        r is Err <==> !is_dict(objects_of(*old(doc)), page),
        r is Err ==> *final(doc) == *old(doc),
        r matches Ok(sid) ==> {
            &&& sid.0 == max_id_of(*old(doc)) + 1
            &&& sid.1 == 0
            &&& max_id_of(*final(doc)) == sid.0
            &&& trailer_of(*final(doc)) == trailer_of(*old(doc))
            &&& mark_of(*final(doc)) == mark_of(*old(doc))
            &&& objects_of(*final(doc)) == with_page_stream(objects_of(*old(doc)), page, sid, content@)
            &&& doc_wf(*final(doc))
        },
{
    let shape = entry(doc, page, "Contents");
    if let Entry::NotDictionary = shape {
        return Err(SignError::Stamping);
    }
    let ghost before = objects_of(*doc);
    let sid = add_stream(doc, content);
    let ghost mid = objects_of(*doc);
    assert(before.contains_key(page));
    assert(page != sid);
    assert(mid[page] == before[page]);
    match shape {
        Entry::Array => {
            push_reference(doc, page, "Contents", sid);
        },
        Entry::Reference(prior) => {
            let v = vec![prior, sid];
            assert(v@.map_values(|r: ObjId| ref_obj(r)) =~= seq![ref_obj(prior)].push(ref_obj(sid)));
            set_entry(doc, page, "Contents", Operand::References(v));
        },
        _ => {
            let v = vec![sid];
            assert(v@.map_values(|r: ObjId| ref_obj(r)) =~= Seq::<PdfObj>::empty().push(ref_obj(sid)));
            set_entry(doc, page, "Contents", Operand::References(v));
        },
    }
    assert(objects_of(*doc) == with_page_stream(before, page, sid, content@));
    assert(doc_wf(*doc)) by {
        assert forall|id: ObjId| objects_of(*doc).contains_key(id) implies id.0 <= max_id_of(*doc) by {
            if id != sid && id != page {
                assert(before.contains_key(id));
            }
        }
    }
    Ok(sid)
}

/// How the new form field joins the catalog's interactive form.
#[derive(Debug, Clone, Copy)]
pub enum FormPlan {
    /// The catalog has no form: a new one is made and attached to it.
    Create(ObjId),
    /// The form has a field list: the field is appended to it.
    Extend(ObjId),
    /// The form has no field list: one is started with the field.
    Start(ObjId),
    /// The catalog holds its form inline, with a field list to extend.
    ExtendInline(ObjId),
    /// The catalog holds its form inline, without a field list.
    StartInline(ObjId),
}

/// The plan for registering a field, or `None` where the catalog or its
/// form has a shape that the mutator does not extend.
pub open spec fn plan_of(objs: Map<ObjId, PdfObj>, trailer: Map<Seq<char>, PdfObj>) -> Option<FormPlan> {
    match root_ref(trailer) {
        None => None,
        Some(root) => match entry_view(objs, root, "AcroForm"@) {
            Entry::Absent => Some(FormPlan::Create(root)),
            Entry::Reference(f) => match entry_view(objs, f, "Fields"@) {
                Entry::NotDictionary => None,
                Entry::Array => Some(FormPlan::Extend(f)),
                _ => Some(FormPlan::Start(f)),
            },
            Entry::Dictionary => match nested_view(objs, root, "AcroForm"@, "Fields"@) {
                Entry::Array => Some(FormPlan::ExtendInline(root)),
                _ => Some(FormPlan::StartInline(root)),
            },
            _ => None,
        },
    }
}

/// The fields that the document's interactive form lists.
pub open spec fn form_fields(objs: Map<ObjId, PdfObj>, trailer: Map<Seq<char>, PdfObj>) -> Seq<PdfObj> {
    match plan_of(objs, trailer) {
        Some(FormPlan::Extend(f)) => array_items(dict_of(objs[f])["Fields"@]),
        Some(FormPlan::ExtendInline(root)) => array_items(inner_dict(objs, root, "AcroForm"@)["Fields"@]),
        _ => Seq::empty(),
    }
}

/// `b` holds every object of `a`, with the same shape and the same entries
/// except under the keys `ks`.
pub open spec fn same_entry(a: Map<ObjId, PdfObj>, b: Map<ObjId, PdfObj>, id: ObjId, k: Seq<char>) -> bool {
    &&& b.contains_key(id)
    &&& is_dict(b, id) == is_dict(a, id)
    &&& dict_of(b[id]).contains_key(k) == dict_of(a[id]).contains_key(k)
    &&& dict_of(a[id]).contains_key(k) ==> dict_of(b[id])[k] == dict_of(a[id])[k]
}

pub open spec fn frame_except(a: Map<ObjId, PdfObj>, b: Map<ObjId, PdfObj>, ks: Set<Seq<char>>) -> bool {
    forall|id: ObjId, k: Seq<char>|
        #![trigger same_entry(a, b, id, k)]
        a.contains_key(id) && !ks.contains(k) ==> same_entry(a, b, id, k)
}

proof fn lemma_same_entry_view(a: Map<ObjId, PdfObj>, b: Map<ObjId, PdfObj>, id: ObjId, k: Seq<char>)
    requires
        same_entry(a, b, id, k),
    ensures
        entry_view(a, id, k) == entry_view(b, id, k),
{
}

proof fn lemma_frame_trans(
    a: Map<ObjId, PdfObj>,
    b: Map<ObjId, PdfObj>,
    c: Map<ObjId, PdfObj>,
    ks: Set<Seq<char>>,
)
    requires
        frame_except(a, b, ks),
        frame_except(b, c, ks),
    ensures
        frame_except(a, c, ks),
{
    assert forall|id: ObjId, k: Seq<char>| a.contains_key(id) && !ks.contains(k) implies same_entry(a, c, id, k) by {
        assert(same_entry(a, b, id, k));
        assert(same_entry(b, c, id, k));
    }
}

proof fn lemma_key_names()
    ensures
        "Contents"@ != "AcroForm"@,
        "Contents"@ != "Fields"@,
        "AcroForm"@ != "Fields"@,
{
    reveal_strlit("Contents");
    reveal_strlit("AcroForm");
    reveal_strlit("Fields");
    assert("Contents"@[0] != "AcroForm"@[0]);
    assert("Contents"@.len() != "Fields"@.len());
    assert("AcroForm"@.len() != "Fields"@.len());
}

/// The form plan for the document as it stands.
fn plan_form(doc: &lopdf::Document) -> (r: Option<FormPlan>)
    ensures
        r == plan_of(objects_of(*doc), trailer_of(*doc)),
{
    let root = match catalog_id(doc) {
        Some(root) => root,
        None => return None,
    };
    match entry(doc, root, "AcroForm") {
        Entry::Absent => Some(FormPlan::Create(root)),
        Entry::Reference(f) => match entry(doc, f, "Fields") {
            Entry::NotDictionary => None,
            Entry::Array => Some(FormPlan::Extend(f)),
            _ => Some(FormPlan::Start(f)),
        },
        Entry::Dictionary => match nested_entry(doc, root, "AcroForm", "Fields") {
            Entry::Array => Some(FormPlan::ExtendInline(root)),
            _ => Some(FormPlan::StartInline(root)),
        },
        _ => None,
    }
}

/// The object that a form plan changes in place.
pub open spec fn plan_target(p: FormPlan) -> ObjId {
    match p {
        FormPlan::Create(root) => root,
        FormPlan::Extend(f) => f,
        FormPlan::Start(f) => f,
        FormPlan::ExtendInline(root) => root,
        FormPlan::StartInline(root) => root,
    }
}

/// Registers the field `field` in the catalog's form, as `plan` says.
fn register_field(doc: &mut lopdf::Document, plan: FormPlan, field: ObjId)
    requires
        doc_wf(*old(doc)),
        max_id_of(*old(doc)) < u32::MAX,
        plan_of(objects_of(*old(doc)), trailer_of(*old(doc))) == Some(plan),
    ensures
        form_fields(objects_of(*final(doc)), trailer_of(*final(doc)))
            == form_fields(objects_of(*old(doc)), trailer_of(*old(doc))).push(ref_obj(field)),
        frame_except(objects_of(*old(doc)), objects_of(*final(doc)), set!["AcroForm"@, "Fields"@]),
        plan_of(objects_of(*final(doc)), trailer_of(*final(doc))) is Some,
        forall|id: ObjId|
            #![trigger objects_of(*final(doc))[id]]
            objects_of(*old(doc)).contains_key(id) && id != plan_target(plan)
                ==> objects_of(*final(doc))[id] == objects_of(*old(doc))[id],
        doc_wf(*final(doc)),
        trailer_of(*final(doc)) == trailer_of(*old(doc)),
        max_id_of(*old(doc)) <= max_id_of(*final(doc)) <= max_id_of(*old(doc)) + 1,
        mark_of(*final(doc)) == mark_of(*old(doc)),
        objects_of(*final(doc)) == form_effect(
            objects_of(*old(doc)),
            plan,
            field,
            ((max_id_of(*old(doc)) + 1) as u32, 0u16),
        ),
{
    let ghost objs0 = objects_of(*doc);
    let ghost ks = set!["AcroForm"@, "Fields"@];
    proof {
        lemma_key_names();
    }
    match plan {
        FormPlan::Create(root) => {
            let list = vec![field];
            let entries = vec![("Fields", Operand::References(list))];
            let form = add_dictionary(doc, entries);
            let ghost objs1 = objects_of(*doc);
            proof {
                reveal_with_fuel(entries_dict, 2);
                assert(entries@.drop_last() =~= Seq::<(&str, Operand)>::empty());
                assert(objs0.contains_key(root));
                assert(root != form);
            }
            set_entry(doc, root, "AcroForm", Operand::Reference(form));
            let ghost objs2 = objects_of(*doc);
            proof {
                assert(entries_dict(entries@) =~= Map::<Seq<char>, PdfObj>::empty().insert(
                    "Fields"@,
                    operand_obj(Operand::References(list)),
                ));
                assert(entry_view(objs2, root, "AcroForm"@) == Entry::Reference(form));
                assert(dict_of(objs2[form]) == dict_of(objs1[form]));
                assert(list@.map_values(|r: ObjId| ref_obj(r)) =~= seq![ref_obj(field)]);
                assert(entry_view(objs2, form, "Fields"@) == Entry::Array);
                assert(form_fields(objs2, trailer_of(*doc)) =~= seq![ref_obj(field)]);
                assert(form_fields(objs0, trailer_of(*doc)) =~= Seq::<PdfObj>::empty());
                assert forall|id: ObjId, k: Seq<char>| objs0.contains_key(id) && !ks.contains(k) implies same_entry(objs0, objs2, id, k) by {
                    assert(id != form);
                }
                assert forall|id: ObjId| objs2.contains_key(id) implies id.0 <= max_id_of(*doc) by {
                    if id != form {
                        assert(objs0.contains_key(id));
                    }
                }
            }
        },
        FormPlan::Extend(f) => {
            push_reference(doc, f, "Fields", field);
            let ghost objs1 = objects_of(*doc);
            proof {
                let root = root_ref(trailer_of(*doc))->Some_0;
                lemma_same_entry_view(objs0, objs1, root, "AcroForm"@);
                assert(entry_view(objs1, f, "Fields"@) == Entry::Array);
                assert(form_fields(objs1, trailer_of(*doc)) =~= form_fields(objs0, trailer_of(*doc)).push(ref_obj(field)));
                assert forall|id: ObjId, k: Seq<char>| objs0.contains_key(id) && !ks.contains(k) implies same_entry(objs0, objs1, id, k) by {
                }
                assert forall|id: ObjId| objs1.contains_key(id) implies id.0 <= max_id_of(*doc) by {
                    assert(objs0.contains_key(id));
                }
            }
        },
        FormPlan::Start(f) => {
            let list = vec![field];
            set_entry(doc, f, "Fields", Operand::References(list));
            let ghost objs1 = objects_of(*doc);
            proof {
                let root = root_ref(trailer_of(*doc))->Some_0;
                assert(same_entry(objs0, objs1, root, "AcroForm"@));
                lemma_same_entry_view(objs0, objs1, root, "AcroForm"@);
                assert(list@.map_values(|r: ObjId| ref_obj(r)) =~= seq![ref_obj(field)]);
                assert(entry_view(objs1, f, "Fields"@) == Entry::Array);
                assert(form_fields(objs1, trailer_of(*doc)) =~= seq![ref_obj(field)]);
                assert(form_fields(objs0, trailer_of(*doc)) =~= Seq::<PdfObj>::empty());
                assert forall|id: ObjId, k: Seq<char>| objs0.contains_key(id) && !ks.contains(k) implies same_entry(objs0, objs1, id, k) by {
                }
                assert forall|id: ObjId| objs1.contains_key(id) implies id.0 <= max_id_of(*doc) by {
                    assert(objs0.contains_key(id));
                }
            }
        },
        FormPlan::ExtendInline(root) => {
            push_nested_reference(doc, root, "AcroForm", "Fields", field);
            let ghost objs1 = objects_of(*doc);
            proof {
                assert(entry_view(objs1, root, "AcroForm"@) is Dictionary);
                assert(nested_view(objs1, root, "AcroForm"@, "Fields"@) == Entry::Array);
                assert(form_fields(objs1, trailer_of(*doc)) =~= form_fields(objs0, trailer_of(*doc)).push(ref_obj(field)));
                assert forall|id: ObjId, k: Seq<char>| objs0.contains_key(id) && !ks.contains(k) implies same_entry(objs0, objs1, id, k) by {
                }
                assert forall|id: ObjId| objs1.contains_key(id) implies id.0 <= max_id_of(*doc) by {
                    assert(objs0.contains_key(id));
                }
            }
        },
        FormPlan::StartInline(root) => {
            let list = vec![field];
            set_nested_entry(doc, root, "AcroForm", "Fields", Operand::References(list));
            let ghost objs1 = objects_of(*doc);
            proof {
                assert(list@.map_values(|r: ObjId| ref_obj(r)) =~= seq![ref_obj(field)]);
                assert(entry_view(objs1, root, "AcroForm"@) is Dictionary);
                assert(nested_view(objs1, root, "AcroForm"@, "Fields"@) == Entry::Array);
                assert(form_fields(objs1, trailer_of(*doc)) =~= seq![ref_obj(field)]);
                assert(form_fields(objs0, trailer_of(*doc)) =~= Seq::<PdfObj>::empty());
                assert forall|id: ObjId, k: Seq<char>| objs0.contains_key(id) && !ks.contains(k) implies same_entry(objs0, objs1, id, k) by {
                }
                assert forall|id: ObjId| objs1.contains_key(id) implies id.0 <= max_id_of(*doc) by {
                    assert(objs0.contains_key(id));
                }
            }
        },
    }
}

/// Font of the visible stamp.
pub open spec fn font_name() -> Seq<u8> {
    "Helvetica".spec_bytes()
}

/// The operations that draw `text`: begin a text object, select the font
/// and its size, move to the origin, show the text, end the text object.
pub open spec fn stamp_ops(text: Seq<u8>, size: i64, x: i64, y: i64) -> Seq<(Seq<char>, Seq<PdfObj>)> {
    seq![
        ("BT"@, Seq::<PdfObj>::empty()),
        ("Tf"@, seq![PdfObj::Name(font_name()), PdfObj::Integer(size)]),
        ("Td"@, seq![PdfObj::Integer(x), PdfObj::Integer(y)]),
        ("Tj"@, seq![PdfObj::Literal(text)]),
        ("ET"@, Seq::<PdfObj>::empty()),
    ]
}

/// The content-stream fragment that draws `text` as the options place it.
pub open spec fn stamp_content(text: Seq<u8>, o: StampOptions) -> Seq<u8> {
    content_encoding(stamp_ops(text, font_size_of(o), placement(o).0, placement(o).1))
}

/// Builds the operations that draw `text` at (`x`, `y`) in `size` points.
pub fn stamp_operations(text: &str, size: i64, x: i64, y: i64) -> (r: Vec<ContentOp>)
    ensures
        ops_view(r@) == stamp_ops(text.spec_bytes(), size, x, y),
{
    let font = Operand::Name("Helvetica".as_bytes_vec());
    let shown = Operand::Literal(text.as_bytes_vec());
    let ops = vec![
        ContentOp { operator: String::from_str("BT"), operands: Vec::new() },
        ContentOp { operator: String::from_str("Tf"), operands: vec![font, Operand::Integer(size)] },
        ContentOp { operator: String::from_str("Td"), operands: vec![Operand::Integer(x), Operand::Integer(y)] },
        ContentOp { operator: String::from_str("Tj"), operands: vec![shown] },
        ContentOp { operator: String::from_str("ET"), operands: Vec::new() },
    ];
    proof {
        let want = stamp_ops(text.spec_bytes(), size, x, y);
        assert forall|i: int| 0 <= i < 5 implies op_view(ops@[i]) == want[i] by {
            assert(op_view(ops@[i]).1 =~= want[i].1);
        }
        assert(ops_view(ops@) =~= want);
    }
    ops
}

/// The store after the first `n` pages have had their stamp appended where
/// selected, with the highest object number so far.
pub open spec fn stamped_pages(
    objs: Map<ObjId, PdfObj>,
    max: nat,
    pages: Seq<ObjId>,
    o: StampOptions,
    content: Seq<u8>,
    n: nat,
) -> (Map<ObjId, PdfObj>, nat)
    decreases n,
{
    if n == 0 {
        (objs, max)
    } else {
        let prev = stamped_pages(objs, max, pages, o, content, (n - 1) as nat);
        if selected(o, n - 1) {
            (with_page_stream(prev.0, pages[n - 1], ((prev.1 + 1) as u32, 0u16), content), prev.1 + 1)
        } else {
            prev
        }
    }
}

/// The signature value object: a placeholder container holding the text.
pub open spec fn signature_value_dict(text: Seq<u8>) -> Map<Seq<char>, PdfObj> {
    Map::empty()
        .insert("Type"@, PdfObj::Name("Sig".spec_bytes()))
        .insert("Filter"@, PdfObj::Name("Adobe.PPKLite".spec_bytes()))
        .insert("SubFilter"@, PdfObj::Name("adbe.pkcs7.detached".spec_bytes()))
        .insert("Contents"@, PdfObj::Hex(text))
}

/// The field's name, unique in the document: it carries the number of the
/// signature value object made by the same stamping.
pub open spec fn field_name(sig: ObjId) -> Seq<u8> {
    "Signature".spec_bytes() + decimal(sig.0 as nat)
}

/// The signature form field: read-only and required, valued by `sig`.
pub open spec fn field_dict(sig: ObjId) -> Map<Seq<char>, PdfObj> {
    Map::empty()
        .insert("FT"@, PdfObj::Name("Sig".spec_bytes()))
        .insert("T"@, PdfObj::Literal(field_name(sig)))
        .insert("V"@, PdfObj::Reference(sig))
        .insert("Ff"@, PdfObj::Integer(132))
}

/// The documents that `stamp` accepts with these options: a sound store,
/// a form that can take a field, room for the new object numbers, and a
/// dictionary for every selected page.
pub open spec fn stampable(m: DocModel, o: StampOptions) -> bool {
    &&& ids_within(m.objects, m.max_id)
    &&& plan_of(m.objects, m.trailer) is Some
    &&& m.max_id + m.pages.len() + 5 < u32::MAX
    &&& forall|i: int|
        #![trigger m.pages[i]]
        0 <= i < m.pages.len() && selected(o, i) ==> is_dict(m.objects, m.pages[i])
}

/// What stamping `text` on `m0` made of its store, `m1`, with `field` the
/// new form field: each selected page's content list gained a new stream
/// holding the drawing, the form lists the new field after its old ones,
/// and the field and its signature value are as built.
pub open spec fn stamp_effect(m0: DocModel, m1: DocModel, text: Seq<u8>, o: StampOptions, field: ObjId) -> bool {
    let content = stamp_content(text, o);
    let after = stamped_pages(m0.objects, m0.max_id as nat, m0.pages, o, content, m0.pages.len());
    let sig: ObjId = ((after.1 + 1) as u32, 0u16);
    &&& forall|p: ObjId|
        #![trigger content_list(m1.objects, p)]
        m0.objects.contains_key(p) ==> content_list(m1.objects, p) == content_list(after.0, p)
    &&& forall|p: ObjId| #![trigger is_dict(m1.objects, p)] is_dict(m0.objects, p) ==> is_dict(m1.objects, p)
    &&& forall|id: ObjId|
        #![trigger m1.objects[id]]
        m0.max_id < id.0 <= after.1 && id.1 == 0 ==> m1.objects.contains_key(id) && m1.objects[id]
            == PdfObj::Stream(content)
    &&& form_fields(m1.objects, m1.trailer) == form_fields(m0.objects, m0.trailer).push(ref_obj(field))
    &&& plan_of(m1.objects, m1.trailer) is Some
    &&& field == ((after.1 + 2) as u32, 0u16)
    &&& m1.objects[sig] == PdfObj::Dict(signature_value_dict(text))
    &&& m1.objects[field] == PdfObj::Dict(field_dict(sig))
    &&& m0.max_id < field.0 <= m1.max_id <= m0.max_id + m0.pages.len() + 3
    &&& ids_within(m1.objects, m1.max_id)
    &&& m1.trailer == m0.trailer
    &&& m1.mark == m0.mark
    &&& m1.max_id < u32::MAX - 1
    &&& m1.objects == final_store(m0, text, o)
}

/// How registering `field` as `plan` says changes a store; `form` is the
/// id a new form gets.
pub open spec fn form_effect(objs: Map<ObjId, PdfObj>, plan: FormPlan, field: ObjId, form: ObjId) -> Map<ObjId, PdfObj> {
    match plan {
        FormPlan::Create(root) => with_entry(
            objs.insert(form, PdfObj::Dict(Map::empty().insert("Fields"@, PdfObj::Array(seq![ref_obj(field)])))),
            root,
            "AcroForm"@,
            PdfObj::Reference(form),
        ),
        FormPlan::Extend(f) => with_entry(
            objs,
            f,
            "Fields"@,
            PdfObj::Array(array_items(dict_of(objs[f])["Fields"@]).push(ref_obj(field))),
        ),
        FormPlan::Start(f) => with_entry(objs, f, "Fields"@, PdfObj::Array(seq![ref_obj(field)])),
        FormPlan::ExtendInline(root) => with_nested_entry(
            objs,
            root,
            "AcroForm"@,
            "Fields"@,
            PdfObj::Array(array_items(inner_dict(objs, root, "AcroForm"@)["Fields"@]).push(ref_obj(field))),
        ),
        FormPlan::StartInline(root) => with_nested_entry(
            objs,
            root,
            "AcroForm"@,
            "Fields"@,
            PdfObj::Array(seq![ref_obj(field)]),
        ),
    }
}

/// The store that stamping `text` on `m` with options `o` leaves: the
/// selected pages' new streams, the signature value and field objects, and
/// the field registered in the form; nothing else changes.
pub open spec fn final_store(m: DocModel, text: Seq<u8>, o: StampOptions) -> Map<ObjId, PdfObj> {
    let after = stamped_pages(m.objects, m.max_id as nat, m.pages, o, stamp_content(text, o), m.pages.len());
    let sig: ObjId = ((after.1 + 1) as u32, 0u16);
    let field: ObjId = ((after.1 + 2) as u32, 0u16);
    let form: ObjId = ((after.1 + 3) as u32, 0u16);
    let with_field = after.0.insert(sig, PdfObj::Dict(signature_value_dict(text))).insert(
        field,
        PdfObj::Dict(field_dict(sig)),
    );
    form_effect(with_field, plan_of(m.objects, m.trailer)->Some_0, field, form)
}

/// Stamping `text` on `m` succeeds: the document is stampable, and lopdf's
/// page walk over the stamped store finds the same pages. (The walk is
/// bounded by the number of objects, so the objects that stamping adds can
/// lengthen the page list of a tree that lists kids over and over.)
pub open spec fn stamp_succeeds(m: DocModel, text: Seq<u8>, o: StampOptions) -> bool {
    &&& stampable(m, o)
    &&& page_walk(final_store(m, text, o), m.trailer) == m.pages
}

/// A successful stamp: its effect, with the page list unchanged.
pub open spec fn stamp_post(m0: DocModel, m1: DocModel, text: Seq<u8>, o: StampOptions, field: ObjId) -> bool {
    &&& stamp_effect(m0, m1, text, o, field)
    &&& m1.pages == m0.pages
}

fn same_ids(a: &Vec<ObjId>, b: &Vec<ObjId>) -> (r: bool)
    ensures
        r == (a@ == b@),
{
    if a.len() != b.len() {
        return false;
    }
    let mut i: usize = 0;
    while i < a.len()
        invariant
            a@.len() == b@.len(),
            0 <= i <= a@.len(),
            forall|j: int| 0 <= j < i ==> a@[j] == b@[j],
        decreases a@.len() - i,
    {
        if a[i].0 != b[i].0 || a[i].1 != b[i].1 {
            return false;
        }
        i = i + 1;
    }
    assert(a@ =~= b@);
    true
}

/// Draws `text` on the selected pages and registers a new signature form
/// field in the catalog's form, extending the field list already there.
/// The document's pages stay as they were. Returns the new field's id.
///
/// A document without pages is refused before anything changes. Otherwise
/// stamping succeeds exactly on the documents of `stamp_succeeds`; a store
/// holding an object numbered above its id counter, a catalog or form of a
/// shape that cannot be extended, too few object numbers left, a selected
/// page that is not a dictionary, or a page tree whose walk the new objects
/// change, ends in a stamping error, and the document is then to be
/// discarded.
pub fn stamp(doc: &mut lopdf::Document, text: &str, options: &StampOptions) -> (r: Result<ObjId, SignError>)
    ensures
        r matches Err(SignError::NoPages) <==> pages_of(*old(doc)).len() == 0,
        r matches Err(e) ==> e is NoPages || e is Stamping,
        pages_of(*old(doc)).len() == 0 ==> *final(doc) == *old(doc),
        r matches Ok(field) ==> stamp_post(model_of(*old(doc)), model_of(*final(doc)), text.spec_bytes(), *options, field),
        r matches Err(SignError::Stamping) <==> pages_of(*old(doc)).len() > 0 && !stamp_succeeds(
            model_of(*old(doc)),
            text.spec_bytes(),
            *options,
        ),
{
    let pages = page_ids(doc);
    let n = pages.len();
    if n == 0 {
        return Err(SignError::NoPages);
    }
    let plan = match plan_form(doc) {
        Some(p) => p,
        None => return Err(SignError::Stamping),
    };
    let max0 = max_object_number(doc);
    let top = greatest_object_number(doc);
    if top > max0 {
        proof {
            let id = choose|id: ObjId| objects_of(*doc).contains_key(id) && id.0 == top;
            assert(!ids_within(objects_of(*doc), max0));
        }
        return Err(SignError::Stamping);
    }
    if n >= (u32::MAX - 5) as usize || max0 >= u32::MAX - 5 - (n as u32) {
        return Err(SignError::Stamping);
    }
    let (x, y) = options.origin();
    let content = match encode_operations(stamp_operations(text, options.size(), x, y)) {
        Some(c) => c,
        None => return Err(SignError::Stamping),
    };
    let ghost d0 = *doc;
    let ghost objs0 = objects_of(d0);
    let ghost ks = set!["Contents"@];
    let mut i: usize = 0;
    while i < n
        invariant
            n == pages@.len(),
            n > 0,
            d0 == *old(doc),
            ks == set!["Contents"@],
            pages@ == pages_of(d0),
            objs0 == objects_of(d0),
            doc_wf(d0),
            0 <= i <= n,
            max0 == max_id_of(d0),
            max0 + n + 5 < u32::MAX,
            mark_of(*doc) == mark_of(d0),
            plan_of(objs0, trailer_of(d0)) == Some(plan),
            ids_within(objs0, max0),
            forall|j: int| 0 <= j < i && selected(*options, j) ==> is_dict(objs0, pages@[j]),
            forall|id: ObjId|
                #![trigger objects_of(*doc).contains_key(id)]
                objects_of(*doc).contains_key(id) ==> objs0.contains_key(id) || (max0 < id.0 && id.1 == 0),
            content@ == stamp_content(text.spec_bytes(), *options),
            doc_wf(*doc),
            objects_of(*doc) == stamped_pages(objs0, max0 as nat, pages@, *options, content@, i as nat).0,
            max_id_of(*doc) as nat == stamped_pages(objs0, max0 as nat, pages@, *options, content@, i as nat).1,
            max0 <= max_id_of(*doc) <= max0 + i,
            trailer_of(*doc) == trailer_of(d0),
            frame_except(objs0, objects_of(*doc), ks),
            forall|id: ObjId|
                #![trigger objects_of(*doc)[id]]
                max0 < id.0 <= max_id_of(*doc) && id.1 == 0 ==> objects_of(*doc).contains_key(id)
                    && objects_of(*doc)[id] == PdfObj::Stream(content@),
        decreases n - i,
    {
        if options.stamps_page(i) {
            let ghost prev = objects_of(*doc);
            let ghost prev_max = max_id_of(*doc);
            let sid = match append_content(doc, pages[i], content.clone()) {
                Ok(sid) => sid,
                Err(_) => {
                    proof {
                        lemma_key_names();
                        if stampable(model_of(d0), *options) {
                            assert(model_of(d0).pages[i as int] == pages@[i as int]);
                            assert(is_dict(objs0, pages@[i as int]));
                            assert(same_entry(objs0, prev, pages@[i as int], "AcroForm"@));
                        }
                    }
                    return Err(SignError::Stamping);
                },
            };
            proof {
                let objs1 = objects_of(*doc);
                assert forall|id: ObjId| max0 < id.0 <= max_id_of(*doc) && id.1 == 0 implies objs1.contains_key(id)
                    && objs1[id] == PdfObj::Stream(content@) by {
                    if id != sid {
                        assert(prev[id] == PdfObj::Stream(content@));
                        assert(id != pages@[i as int]);
                    }
                }
                assert forall|id: ObjId, k: Seq<char>| prev.contains_key(id) && !ks.contains(k) implies same_entry(prev, objs1, id, k) by {
                    assert(id.0 <= prev_max);
                    assert(id != sid);
                    assert(k != "Contents"@);
                }
                lemma_frame_trans(objs0, prev, objs1, ks);
                let page = pages@[i as int];
                if !objs0.contains_key(page) {
                    assert(prev[page] == PdfObj::Stream(content@));
                }
                assert(same_entry(objs0, prev, page, "AcroForm"@) || !objs0.contains_key(page)) by {
                    lemma_key_names();
                }
                assert(is_dict(objs0, page));
                assert forall|id: ObjId| objs1.contains_key(id) implies objs0.contains_key(id) || (max0 < id.0
                    && id.1 == 0) by {
                    if id != sid && id != page {
                        assert(prev.contains_key(id));
                    }
                }
            }
        }
        i = i + 1;
    }
    assert(stampable(model_of(d0), *options));
    let ghost after = objects_of(*doc);
    let ghost max1 = max_id_of(*doc);
    proof {
        lemma_key_names();
        let root = root_ref(trailer_of(d0))->Some_0;
        assert(same_entry(objs0, after, root, "AcroForm"@));
        lemma_same_entry_view(objs0, after, root, "AcroForm"@);
        if let Some(FormPlan::Extend(f)) = plan_of(objs0, trailer_of(d0)) {
            assert(same_entry(objs0, after, f, "Fields"@));
            lemma_same_entry_view(objs0, after, f, "Fields"@);
        }
        if let Some(FormPlan::Start(f)) = plan_of(objs0, trailer_of(d0)) {
            assert(same_entry(objs0, after, f, "Fields"@));
            lemma_same_entry_view(objs0, after, f, "Fields"@);
        }
        assert(plan_of(after, trailer_of(*doc)) == plan_of(objs0, trailer_of(d0)));
        assert(form_fields(after, trailer_of(*doc)) == form_fields(objs0, trailer_of(d0)));
    }
    let sig_entries = vec![
        ("Type", Operand::Name("Sig".as_bytes_vec())),
        ("Filter", Operand::Name("Adobe.PPKLite".as_bytes_vec())),
        ("SubFilter", Operand::Name("adbe.pkcs7.detached".as_bytes_vec())),
        ("Contents", Operand::Hex(text.as_bytes_vec())),
    ];
    let sig = add_dictionary(doc, sig_entries);
    let mut name = "Signature".as_bytes_vec();
    let mut digits = decimal_bytes(sig.0);
    name.append(&mut digits);
    let field_entries = vec![
        ("FT", Operand::Name("Sig".as_bytes_vec())),
        ("T", Operand::Literal(name)),
        ("V", Operand::Reference(sig)),
        ("Ff", Operand::Integer(132)),
    ];
    let field = add_dictionary(doc, field_entries);
    let ghost with_field = objects_of(*doc);
    proof {
        reveal_with_fuel(entries_dict, 5);
        assert(sig_entries@.drop_last().drop_last().drop_last().drop_last() =~= Seq::<(&str, Operand)>::empty());
        assert(field_entries@.drop_last().drop_last().drop_last().drop_last() =~= Seq::<(&str, Operand)>::empty());
        assert(entries_dict(sig_entries@) =~= signature_value_dict(text.spec_bytes()));
        assert(entries_dict(field_entries@) =~= field_dict(sig));
    }
    let ghost max_f = max_id_of(*doc);
    proof {
        assert(sig.0 == max1 + 1 && field.0 == max1 + 2);
        assert forall|id: ObjId, k: Seq<char>| after.contains_key(id) implies same_entry(after, with_field, id, k) by {
            assert(id.0 <= max1);
        }
        let root = root_ref(trailer_of(d0))->Some_0;
        lemma_same_entry_view(after, with_field, root, "AcroForm"@);
        if let Some(FormPlan::Extend(f)) = plan_of(objs0, trailer_of(d0)) {
            lemma_same_entry_view(after, with_field, f, "Fields"@);
        }
        if let Some(FormPlan::Start(f)) = plan_of(objs0, trailer_of(d0)) {
            lemma_same_entry_view(after, with_field, f, "Fields"@);
        }
        assert(plan_of(with_field, trailer_of(*doc)) == Some(plan));
        assert(form_fields(with_field, trailer_of(*doc)) == form_fields(objs0, trailer_of(d0)));
        assert forall|id: ObjId| with_field.contains_key(id) implies id.0 <= max_f by {
            if id != sig && id != field {
                assert(after.contains_key(id));
            }
        }
    }
    register_field(doc, plan, field);
    proof {
        let fin = objects_of(*doc);
        let m0 = model_of(d0);
        let m1 = model_of(*doc);
        assert(fin[sig] == with_field[sig]);
        assert(fin[field] == with_field[field]);
        assert forall|p: ObjId| objs0.contains_key(p) implies content_list(fin, p) == content_list(after, p) by {
            assert(after.contains_key(p)) by {
                assert(same_entry(objs0, after, p, "AcroForm"@));
            }
            assert(same_entry(after, with_field, p, "Contents"@));
            assert(same_entry(with_field, fin, p, "Contents"@));
            lemma_same_entry_view(after, with_field, p, "Contents"@);
            lemma_same_entry_view(with_field, fin, p, "Contents"@);
        }
        assert forall|p: ObjId| is_dict(objs0, p) implies is_dict(fin, p) by {
            assert(same_entry(objs0, after, p, "AcroForm"@));
            assert(same_entry(after, with_field, p, "Contents"@));
            assert(same_entry(with_field, fin, p, "Contents"@));
        }
        assert forall|id: ObjId| max0 < id.0 <= max1 && id.1 == 0 implies fin.contains_key(id)
            && fin[id] == PdfObj::Stream(content@) by {
            assert(after[id] == PdfObj::Stream(content@));
            assert(with_field[id] == after[id]);
            assert(same_entry(with_field, fin, id, "Contents"@));
        }
        assert(with_field == after.insert(sig, PdfObj::Dict(signature_value_dict(text.spec_bytes()))).insert(
            field,
            PdfObj::Dict(field_dict(sig)),
        ));
        assert(fin == final_store(m0, text.spec_bytes(), *options));
        assert(stamp_effect(m0, m1, text.spec_bytes(), *options, field));
    }
    let after_pages = page_ids(doc);
    if !same_ids(&pages, &after_pages) {
        return Err(SignError::Stamping);
    }
    Ok(field)
}

/// Stamping a document twice in sequence: both stampings leave the pages as
/// they were, and the form then lists the fields it had, followed by the two
/// new fields, which are distinct objects.
pub proof fn lemma_two_stamps_two_fields(
    m0: DocModel,
    m1: DocModel,
    m2: DocModel,
    first_text: Seq<u8>,
    second_text: Seq<u8>,
    first_options: StampOptions,
    second_options: StampOptions,
    first_field: ObjId,
    second_field: ObjId,
)
    requires
        stamp_post(m0, m1, first_text, first_options, first_field),
        stamp_post(m1, m2, second_text, second_options, second_field),
    ensures
        m2.pages == m0.pages,
        form_fields(m2.objects, m2.trailer) == form_fields(m0.objects, m0.trailer).push(
            ref_obj(first_field),
        ).push(ref_obj(second_field)),
        first_field != second_field,
{
}

/// A document that was stamped stays stampable: a second stamping, with
/// options whose pages the first document held as dictionaries, is owed
/// success as long as object numbers remain for both.
pub proof fn lemma_stamp_again_stampable(
    m0: DocModel,
    m1: DocModel,
    text: Seq<u8>,
    first_options: StampOptions,
    field: ObjId,
    second_options: StampOptions,
)
    requires
        stamp_post(m0, m1, text, first_options, field),
        stampable(m0, second_options),
        m0.max_id + 2 * m0.pages.len() + 8 < u32::MAX,
    ensures
        stampable(m1, second_options),
{
    assert forall|i: int| 0 <= i < m1.pages.len() && selected(second_options, i) implies is_dict(
        m1.objects,
        m1.pages[i],
    ) by {
        assert(m1.pages[i] == m0.pages[i]);
        assert(is_dict(m0.objects, m0.pages[i]));
    }
}

} // verus!
