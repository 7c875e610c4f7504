//! The PDF object store, as the mutator sees it through lopdf.
//!
//! A document is modelled by what its object store holds: a map from object
//! id to object value, the highest object number handed out so far, the
//! trailer dictionary, and the page list that lopdf walks from the catalog.
//! Dictionary keys are modelled by their text.

use vstd::prelude::*;

verus! {

/// An indirect object id: object number and generation.
pub type ObjId = (u32, u16);

/// An object value of the store.
pub enum PdfObj {
    Null,
    Boolean(bool),
    Integer(i64),
    /// A real number; its value is not modelled.
    Real,
    Name(Seq<u8>),
    Literal(Seq<u8>),
    Hex(Seq<u8>),
    Array(Seq<PdfObj>),
    Dict(Map<Seq<char>, PdfObj>),
    Stream(Seq<u8>),
    Reference(ObjId),
}

/// lopdf's document, opaque: the names below say what it holds.
#[verifier::external_type_specification]
#[verifier::external_body]
pub struct ExDocument(lopdf::Document);

/// lopdf's object value, opaque: it is only built and handed to lopdf.
#[verifier::external_type_specification]
#[verifier::external_body]
pub struct ExObject(lopdf::Object);

/// The objects that the document's store holds, by id.
pub uninterp spec fn objects_of(d: lopdf::Document) -> Map<ObjId, PdfObj>;

/// The highest object number that the document has handed out.
pub uninterp spec fn max_id_of(d: lopdf::Document) -> u32;

/// The document's trailer dictionary.
pub uninterp spec fn trailer_of(d: lopdf::Document) -> Map<Seq<char>, PdfObj>;

/// The page object ids, in page order, that lopdf's page-tree walk finds in
/// a store from the trailer's catalog. The walk reads nothing else: the
/// trailer's `Root`, the dictionaries' `Pages`, `Kids`, `Type` and
/// `Linearized` entries, and the number of objects, which bounds its steps.
pub uninterp spec fn page_walk(objects: Map<ObjId, PdfObj>, trailer: Map<Seq<char>, PdfObj>) -> Seq<ObjId>;

/// The document's page ids, in page order.
pub open spec fn pages_of(d: lopdf::Document) -> Seq<ObjId> {
    page_walk(objects_of(d), trailer_of(d))
}

/// The document's binary mark, written on the line after the header.
pub uninterp spec fn mark_of(d: lopdf::Document) -> Seq<u8>;

/// A binary mark that lopdf writes: every byte at least 128.
pub open spec fn mark_valid(mark: Seq<u8>) -> bool {
    forall|i: int| 0 <= i < mark.len() ==> mark[i] >= 128
}

/// A value that the library writes into a dictionary.
#[derive(Debug)]
pub enum Operand {
    Name(Vec<u8>),
    Literal(Vec<u8>),
    Hex(Vec<u8>),
    Integer(i64),
    Reference(ObjId),
    References(Vec<ObjId>),
}

/// How a dictionary entry looks to the mutator.
#[derive(Debug, Clone, Copy)]
pub enum Entry {
    /// The object is missing or is not a dictionary.
    NotDictionary,
    /// The dictionary has no such key.
    Absent,
    Reference(ObjId),
    Array,
    Dictionary,
    Other,
}

pub open spec fn ref_obj(id: ObjId) -> PdfObj {
    PdfObj::Reference(id)
}

/// The store value of an operand.
pub open spec fn operand_obj(v: Operand) -> PdfObj {
    match v {
        Operand::Name(n) => PdfObj::Name(n@),
        Operand::Literal(s) => PdfObj::Literal(s@),
        Operand::Hex(s) => PdfObj::Hex(s@),
        Operand::Integer(i) => PdfObj::Integer(i),
        Operand::Reference(r) => PdfObj::Reference(r),
        Operand::References(rs) => PdfObj::Array(rs@.map_values(|r: ObjId| ref_obj(r))),
    }
}

/// The dictionary that a list of entries builds, later keys winning.
pub open spec fn entries_dict(entries: Seq<(&str, Operand)>) -> Map<Seq<char>, PdfObj>
    decreases entries.len(),
{
    if entries.len() == 0 {
        Map::empty()
    } else {
        let last = entries.last();
        entries_dict(entries.drop_last()).insert(last.0@, operand_obj(last.1))
    }
}

pub open spec fn is_dict(objs: Map<ObjId, PdfObj>, id: ObjId) -> bool {
    objs.contains_key(id) && objs[id] is Dict
}

/// The entries of a dictionary value (none for any other value).
pub open spec fn dict_of(o: PdfObj) -> Map<Seq<char>, PdfObj> {
    match o {
        PdfObj::Dict(d) => d,
        _ => Map::empty(),
    }
}

/// The store after the dictionary `id` gets `key` set to `v`.
pub open spec fn with_entry(
    objs: Map<ObjId, PdfObj>,
    id: ObjId,
    key: Seq<char>,
    v: PdfObj,
) -> Map<ObjId, PdfObj> {
    objs.insert(id, PdfObj::Dict(dict_of(objs[id]).insert(key, v)))
}

/// How entry `key` looks in the dictionary `d`.
pub open spec fn entry_in(d: Map<Seq<char>, PdfObj>, key: Seq<char>) -> Entry {
    if !d.contains_key(key) {
        Entry::Absent
    } else {
        match d[key] {
            PdfObj::Reference(r) => Entry::Reference(r),
            PdfObj::Array(_) => Entry::Array,
            PdfObj::Dict(_) => Entry::Dictionary,
            _ => Entry::Other,
        }
    }
}

/// How entry `key` of object `id` looks.
pub open spec fn entry_view(objs: Map<ObjId, PdfObj>, id: ObjId, key: Seq<char>) -> Entry {
    if !is_dict(objs, id) {
        Entry::NotDictionary
    } else {
        entry_in(dict_of(objs[id]), key)
    }
}

/// The dictionary held directly under `outer` in the dictionary object `id`.
pub open spec fn inner_dict(objs: Map<ObjId, PdfObj>, id: ObjId, outer: Seq<char>) -> Map<Seq<char>, PdfObj> {
    dict_of(dict_of(objs[id])[outer])
}

/// How entry `key` looks in the dictionary held under `outer` in object `id`.
pub open spec fn nested_view(objs: Map<ObjId, PdfObj>, id: ObjId, outer: Seq<char>, key: Seq<char>) -> Entry {
    if entry_view(objs, id, outer) is Dictionary {
        entry_in(inner_dict(objs, id, outer), key)
    } else {
        Entry::NotDictionary
    }
}

/// The store after the dictionary under `outer` in object `id` gets `key`
/// set to `v`.
pub open spec fn with_nested_entry(
    objs: Map<ObjId, PdfObj>,
    id: ObjId,
    outer: Seq<char>,
    key: Seq<char>,
    v: PdfObj,
) -> Map<ObjId, PdfObj> {
    with_entry(objs, id, outer, PdfObj::Dict(inner_dict(objs, id, outer).insert(key, v)))
}

/// The items of an array value (none for any other value).
pub open spec fn array_items(o: PdfObj) -> Seq<PdfObj> {
    match o {
        PdfObj::Array(items) => items,
        _ => Seq::empty(),
    }
}

/// Every object number in the store is at most `max`.
pub open spec fn ids_within(objs: Map<ObjId, PdfObj>, max: u32) -> bool {
    forall|id: ObjId| objs.contains_key(id) ==> id.0 <= max
}

/// The object that the trailer's `Root` entry references, if any.
pub open spec fn root_ref(trailer: Map<Seq<char>, PdfObj>) -> Option<ObjId> {
    if trailer.contains_key("Root"@) {
        match trailer["Root"@] {
            PdfObj::Reference(r) => Some(r),
            _ => None,
        }
    } else {
        None
    }
}

/// A well-formed store: no object number above the highest one handed out.
pub open spec fn doc_wf(d: lopdf::Document) -> bool {
    ids_within(objects_of(d), max_id_of(d))
}

/// The store after adding `o` under the next object number.
pub open spec fn added(old: lopdf::Document, new: lopdf::Document, id: ObjId, o: PdfObj) -> bool {
    &&& id.0 == max_id_of(old) + 1
    &&& id.1 == 0
    &&& max_id_of(new) == id.0
    &&& objects_of(new) == objects_of(old).insert(id, o)
    &&& trailer_of(new) == trailer_of(old)
    &&& mark_of(new) == mark_of(old)
}

/// What the contracts see of a document: its store, its highest object
/// number, its trailer and its page list.
pub struct DocModel {
    pub objects: Map<ObjId, PdfObj>,
    pub max_id: u32,
    pub trailer: Map<Seq<char>, PdfObj>,
    pub pages: Seq<ObjId>,
    pub mark: Seq<u8>,
}

pub open spec fn model_of(d: lopdf::Document) -> DocModel {
    DocModel {
        objects: objects_of(d),
        max_id: max_id_of(d),
        trailer: trailer_of(d),
        pages: pages_of(d),
        mark: mark_of(d),
    }
}

/// The model of the document that lopdf loads from `bytes`; `None` where
/// lopdf does not read them as a PDF document.
pub uninterp spec fn loaded(bytes: Seq<u8>) -> Option<DocModel>;

/// The bytes that lopdf writes for a document; `None` where writing fails.
pub uninterp spec fn saved_of(d: lopdf::Document) -> Option<Seq<u8>>;

/// Relies on lopdf's Document::load_mem. With lopdf's `rayon` feature off,
/// loading runs sequentially, so the document depends on the bytes alone.
/// The loader keeps the default binary mark unless the file's own has
/// every byte at least 128.
#[verifier::external_body]
pub(crate) fn parse_document(bytes: &[u8]) -> (r: Option<lopdf::Document>)
    ensures
        r is Some == loaded(bytes@) is Some,
        r matches Some(d) ==> loaded(bytes@) == Some(model_of(d)),
        r matches Some(d) ==> mark_valid(mark_of(d)),
{
    lopdf::Document::load_mem(bytes).ok()
}

/// Relies on lopdf's Document::save_to, writing into memory: the output
/// follows from the document's fields (objects in id order, trailer,
/// version, binary mark). Writing into a Vec fails only on a binary mark
/// with a byte below 128. The writer adds one to the highest object number,
/// twice for a cross-reference stream, so that number stays below the
/// largest `u32` minus one.
#[verifier::external_body]
pub(crate) fn write_document(doc: &mut lopdf::Document) -> (r: Option<Vec<u8>>)
    requires
        max_id_of(*old(doc)) < u32::MAX - 1,
    ensures
        r is Some == mark_valid(mark_of(*old(doc))),
        r is Some == saved_of(*old(doc)) is Some,
        r matches Some(out) ==> saved_of(*old(doc)) == Some(out@),
{
    let mut out: Vec<u8> = Vec::new();
    doc.save_to(&mut out).ok().map(|_| out)
}

/// Relies on lopdf's Document::get_pages: the page ids in page order, as
/// its page-tree walk finds them from the store and the trailer.
#[verifier::external_body]
pub(crate) fn page_ids(doc: &lopdf::Document) -> (r: Vec<ObjId>)
    ensures
        r@ == page_walk(objects_of(*doc), trailer_of(*doc)),
{
    doc.get_pages().into_values().collect()
}

/// Relies on lopdf's Document::add_object with a new stream (Stream::new):
/// the stream goes under the next object number, generation 0.
#[verifier::external_body]
pub(crate) fn add_stream(doc: &mut lopdf::Document, content: Vec<u8>) -> (r: ObjId)
    requires
        max_id_of(*old(doc)) < u32::MAX,
    ensures
        added(*old(doc), *final(doc), r, PdfObj::Stream(content@)),
{
    doc.add_object(lopdf::Stream::new(lopdf::Dictionary::new(), content))
}

/// Builds lopdf's Object for an operand, one variant for each: a reference
/// list becomes an array of references.
#[verifier::external_body]
fn lopdf_object(v: Operand) -> lopdf::Object {
    match v {
        Operand::Name(n) => lopdf::Object::Name(n),
        Operand::Literal(s) => lopdf::Object::String(s, lopdf::StringFormat::Literal),
        Operand::Hex(s) => lopdf::Object::String(s, lopdf::StringFormat::Hexadecimal),
        Operand::Integer(i) => lopdf::Object::Integer(i),
        Operand::Reference(r) => lopdf::Object::Reference(r),
        Operand::References(rs) => rs.into_iter().map(lopdf::Object::Reference).collect::<Vec<_>>().into(),
    }
}

/// Relies on lopdf's Document::add_object with a dictionary built by
/// Dictionary::set, entry after entry: it goes under the next object number.
#[verifier::external_body]
pub(crate) fn add_dictionary(doc: &mut lopdf::Document, entries: Vec<(&str, Operand)>) -> (r: ObjId)
    requires
        max_id_of(*old(doc)) < u32::MAX,
    ensures
        added(*old(doc), *final(doc), r, PdfObj::Dict(entries_dict(entries@))),
{
    let mut dict = lopdf::Dictionary::new();
    for (key, value) in entries {
        dict.set(key, lopdf_object(value));
    }
    doc.add_object(dict)
}

/// Relies on lopdf's Dictionary::get on the store's object `id`.
#[verifier::external_body]
pub(crate) fn entry(doc: &lopdf::Document, id: ObjId, key: &str) -> (r: Entry)
    ensures
        r == entry_view(objects_of(*doc), id, key@),
{
    match doc.objects.get(&id) {
        Some(lopdf::Object::Dictionary(d)) => match d.get(key.as_bytes()) {
            Ok(lopdf::Object::Reference(r)) => Entry::Reference(*r),
            Ok(lopdf::Object::Array(_)) => Entry::Array,
            Ok(lopdf::Object::Dictionary(_)) => Entry::Dictionary,
            Ok(_) => Entry::Other,
            Err(_) => Entry::Absent,
        },
        _ => Entry::NotDictionary,
    }
}

/// Relies on lopdf's Dictionary::set on the store's dictionary object `id`.
#[verifier::external_body]
pub(crate) fn set_entry(doc: &mut lopdf::Document, id: ObjId, key: &str, value: Operand) -> (r: bool)
    ensures
        r == is_dict(objects_of(*old(doc)), id),
        objects_of(*final(doc)) == if r {
            with_entry(objects_of(*old(doc)), id, key@, operand_obj(value))
        } else {
            objects_of(*old(doc))
        },
        max_id_of(*final(doc)) == max_id_of(*old(doc)),
        trailer_of(*final(doc)) == trailer_of(*old(doc)),
        mark_of(*final(doc)) == mark_of(*old(doc)),
{
    match doc.objects.get_mut(&id) {
        Some(lopdf::Object::Dictionary(d)) => {
            d.set(key, lopdf_object(value));
            true
        },
        _ => false,
    }
}

/// Relies on lopdf's Dictionary::get_mut on the store's dictionary object
/// `id`: a reference is pushed onto the array under `key`.
#[verifier::external_body]
pub(crate) fn push_reference(doc: &mut lopdf::Document, id: ObjId, key: &str, item: ObjId) -> (r: bool)
    ensures
        r == (entry_view(objects_of(*old(doc)), id, key@) == Entry::Array),
        objects_of(*final(doc)) == if r {
            with_entry(
                objects_of(*old(doc)),
                id,
                key@,
                PdfObj::Array(array_items(dict_of(objects_of(*old(doc))[id])[key@]).push(ref_obj(item))),
            )
        } else {
            objects_of(*old(doc))
        },
        max_id_of(*final(doc)) == max_id_of(*old(doc)),
        trailer_of(*final(doc)) == trailer_of(*old(doc)),
        mark_of(*final(doc)) == mark_of(*old(doc)),
{
    match doc.objects.get_mut(&id) {
        Some(lopdf::Object::Dictionary(d)) => match d.get_mut(key.as_bytes()) {
            Ok(lopdf::Object::Array(items)) => {
                items.push(lopdf::Object::Reference(item));
                true
            },
            _ => false,
        },
        _ => false,
    }
}

/// Relies on lopdf's Dictionary::get on the dictionary held directly under
/// `outer` in the store's object `id`.
#[verifier::external_body]
pub(crate) fn nested_entry(doc: &lopdf::Document, id: ObjId, outer: &str, key: &str) -> (r: Entry)
    ensures
        r == nested_view(objects_of(*doc), id, outer@, key@),
{
    let d = match doc.objects.get(&id) {
        Some(lopdf::Object::Dictionary(d)) => d,
        _ => return Entry::NotDictionary,
    };
    let inner = match d.get(outer.as_bytes()) {
        Ok(lopdf::Object::Dictionary(inner)) => inner,
        _ => return Entry::NotDictionary,
    };
    match inner.get(key.as_bytes()) {
        Ok(lopdf::Object::Reference(r)) => Entry::Reference(*r),
        Ok(lopdf::Object::Array(_)) => Entry::Array,
        Ok(lopdf::Object::Dictionary(_)) => Entry::Dictionary,
        Ok(_) => Entry::Other,
        Err(_) => Entry::Absent,
    }
}

/// Relies on lopdf's Dictionary::set on the dictionary held directly under
/// `outer` in the store's object `id`.
#[verifier::external_body]
pub(crate) fn set_nested_entry(doc: &mut lopdf::Document, id: ObjId, outer: &str, key: &str, value: Operand) -> (r: bool)
    ensures
        r == (nested_view(objects_of(*old(doc)), id, outer@, key@) != Entry::NotDictionary),
        objects_of(*final(doc)) == if r {
            with_nested_entry(objects_of(*old(doc)), id, outer@, key@, operand_obj(value))
        } else {
            objects_of(*old(doc))
        },
        max_id_of(*final(doc)) == max_id_of(*old(doc)),
        trailer_of(*final(doc)) == trailer_of(*old(doc)),
        mark_of(*final(doc)) == mark_of(*old(doc)),
{
    match doc.objects.get_mut(&id) {
        Some(lopdf::Object::Dictionary(d)) => match d.get_mut(outer.as_bytes()) {
            Ok(lopdf::Object::Dictionary(inner)) => {
                inner.set(key, lopdf_object(value));
                true
            },
            _ => false,
        },
        _ => false,
    }
}

/// Relies on lopdf's Dictionary::get_mut on the dictionary held directly
/// under `outer` in the store's object `id`: a reference is pushed onto the
/// array under `key`.
#[verifier::external_body]
pub(crate) fn push_nested_reference(doc: &mut lopdf::Document, id: ObjId, outer: &str, key: &str, item: ObjId) -> (r: bool)
    ensures
        r == (nested_view(objects_of(*old(doc)), id, outer@, key@) == Entry::Array),
        objects_of(*final(doc)) == if r {
            with_nested_entry(
                objects_of(*old(doc)),
                id,
                outer@,
                key@,
                PdfObj::Array(array_items(inner_dict(objects_of(*old(doc)), id, outer@)[key@]).push(ref_obj(item))),
            )
        } else {
            objects_of(*old(doc))
        },
        max_id_of(*final(doc)) == max_id_of(*old(doc)),
        trailer_of(*final(doc)) == trailer_of(*old(doc)),
        mark_of(*final(doc)) == mark_of(*old(doc)),
{
    let d = match doc.objects.get_mut(&id) {
        Some(lopdf::Object::Dictionary(d)) => d,
        _ => return false,
    };
    match d.get_mut(outer.as_bytes()) {
        Ok(lopdf::Object::Dictionary(inner)) => match inner.get_mut(key.as_bytes()) {
            Ok(lopdf::Object::Array(items)) => {
                items.push(lopdf::Object::Reference(item));
                true
            },
            _ => false,
        },
        _ => false,
    }
}

/// Relies on lopdf's Dictionary::get on the trailer: the catalog's id.
#[verifier::external_body]
pub(crate) fn catalog_id(doc: &lopdf::Document) -> (r: Option<ObjId>)
    ensures
        r == root_ref(trailer_of(*doc)),
{
    doc.trailer.get(b"Root").and_then(lopdf::Object::as_reference).ok()
}

/// Relies on the order of lopdf's object store (a BTreeMap keyed by id): its
/// last key has the greatest object number; an empty store gives 0.
#[verifier::external_body]
pub(crate) fn greatest_object_number(doc: &lopdf::Document) -> (r: u32)
    ensures
        ids_within(objects_of(*doc), r),
        r == 0 || exists|id: ObjId| objects_of(*doc).contains_key(id) && id.0 == r,
{
    doc.objects.keys().next_back().map_or(0, |id| id.0)
}

/// Relies on lopdf's Document::max_id field: the highest object number so far.
#[verifier::external_body]
pub(crate) fn max_object_number(doc: &lopdf::Document) -> (r: u32)
    ensures
        r == max_id_of(*doc),
{
    doc.max_id
}

/// A content-stream operation: an operator with its operands.
pub struct ContentOp {
    pub operator: String,
    pub operands: Vec<Operand>,
}

pub open spec fn op_view(op: ContentOp) -> (Seq<char>, Seq<PdfObj>) {
    (op.operator@, op.operands@.map_values(|v: Operand| operand_obj(v)))
}

pub open spec fn ops_view(ops: Seq<ContentOp>) -> Seq<(Seq<char>, Seq<PdfObj>)> {
    ops.map_values(|op: ContentOp| op_view(op))
}

/// The bytes that lopdf's Content::encode writes for a sequence of
/// operations.
pub uninterp spec fn content_encoding(ops: Seq<(Seq<char>, Seq<PdfObj>)>) -> Seq<u8>;

/// Relies on lopdf's Content::encode, which writes only into a Vec and so
/// does not fail. Each operand is converted one for one.
#[verifier::external_body]
pub(crate) fn encode_operations(ops: Vec<ContentOp>) -> (r: Option<Vec<u8>>)
    ensures
        r is Some,
        r matches Some(b) ==> b@ == content_encoding(ops_view(ops@)),
{
    let mut operations = Vec::new();
    for op in ops {
        let operands = op.operands.into_iter().map(lopdf_object).collect();
        operations.push(lopdf::content::Operation::new(&op.operator, operands));
    }
    lopdf::content::Content { operations }.encode().ok()
}

} // verus!
