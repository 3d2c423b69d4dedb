//! The document side: a PDF byte buffer opened into an in-memory object
//! graph, the identifiers of its objects, and per-stream access limited to
//! exactly what the rewriter touches — the payload bytes and the
//! compression metadata of the stream's dictionary.

use vstd::prelude::*;

verus! {

#[verifier::external_type_specification]
#[verifier::external_body]
pub struct ExDocument(lopdf::Document);

#[verifier::external_type_specification]
#[verifier::external_body]
pub struct ExObject(lopdf::Object);

/// What the rewriter reads and writes of one content stream: its stored
/// payload bytes, whether its dictionary carries a compression filter or
/// decode parameters, and the declared length where that entry is an
/// integer.
#[verifier::ext_equal]
pub struct StreamModel {
    pub content: Seq<u8>,
    pub has_filter: bool,
    pub has_decode_parms: bool,
    pub length: Option<int>,
}

/// The stream objects a document holds, by object identifier: the contents
/// of the document seen as a collection of content streams.
pub uninterp spec fn doc_streams(d: lopdf::Document) -> Map<(u32, u16), StreamModel>;

/// The identifiers of all objects a document holds, in the order its
/// object table enumerates them: a function of the document alone.
pub uninterp spec fn doc_ids(d: lopdf::Document) -> Seq<(u32, u16)>;

/// The best-effort decoding of one stream's payload — decompressed where
/// the filters are known, the stored bytes otherwise: a function of the
/// document and the identifier alone.
pub uninterp spec fn decoded_payload(d: lopdf::Document, id: (u32, u16)) -> Seq<u8>;

/// All objects a document holds, by identifier, each as an opaque value:
/// the document seen as its full object table.
pub uninterp spec fn doc_objects(d: lopdf::Document) -> Map<(u32, u16), lopdf::Object>;

/// The entries of one stream's dictionary other than Filter, DecodeParms
/// and Length, each as an opaque value keyed by entry name: what the
/// rewriter never touches.
pub uninterp spec fn stream_dict_rest(d: lopdf::Document, id: (u32, u16)) -> Map<
    Seq<u8>,
    lopdf::Object,
>;

/// The document after one payload commit: storing the given bytes in the
/// stream at `id`, stripping its compression metadata and setting its
/// length is a deterministic in-place mutation, so the resulting document
/// is a function of the prior document, the identifier and the bytes
/// alone.
pub uninterp spec fn committed_doc(
    d: lopdf::Document,
    id: (u32, u16),
    bytes: Seq<u8>,
) -> lopdf::Document;

/// Whether serializing a document succeeds: the writer reads nothing but
/// the document and writes into an in-memory buffer, so success is a
/// function of the document alone.
pub uninterp spec fn doc_saves(d: lopdf::Document) -> bool;

/// The bytes a document serializes to, where serialization succeeds: a
/// function of the document alone, for the same reason.
pub uninterp spec fn saved_bytes(d: lopdf::Document) -> Seq<u8>;

/// Whether a byte buffer parses into a document: a function of the bytes
/// alone.
pub uninterp spec fn pdf_parses(bytes: Seq<u8>) -> bool;

/// The document a byte buffer parses into: parsing reads nothing but the
/// buffer, so the result is a function of the bytes alone.
pub uninterp spec fn parsed_document(bytes: Seq<u8>) -> lopdf::Document;

/// Relies on `lopdf::Document::load_mem`: parsing succeeds or fails
/// depending on the buffer's bytes alone and yields the buffer's one
/// parsed document; a failure is carried as its message.
#[verifier::external_body]
pub(crate) fn load_document(data: &[u8]) -> (r: Result<lopdf::Document, String>)
    ensures
        r is Ok <==> pdf_parses(data@),
        r is Ok ==> r->Ok_0 == parsed_document(data@),
{
    lopdf::Document::load_mem(data).map_err(|e| format!("Failed to load PDF: {}", e))
}

/// Relies on `BTreeMap::keys` over `lopdf::Document::objects`: the
/// identifiers of all objects present in the graph, each exactly once,
/// including those of every stream object.
#[verifier::external_body]
pub(crate) fn object_ids(doc: &lopdf::Document) -> (ids: Vec<(u32, u16)>)
    ensures
        ids@ == doc_ids(*doc),
        forall|id: (u32, u16)| doc_streams(*doc).contains_key(id) ==> ids@.contains(id),
        forall|i: int, j: int| 0 <= i < j < ids@.len() ==> ids@[i] != ids@[j],
{
    doc.objects.keys().cloned().collect()
}

/// Relies on `lopdf::Object::Stream` and `lopdf::Stream::decompressed_content`:
/// for an identifier that holds a stream object, its decoded payload — the
/// decompressed bytes where the filters are known, the stored bytes
/// unchanged where there is no filter entry or decoding fails; for any
/// other identifier, nothing.
#[verifier::external_body]
pub(crate) fn stream_decoded_bytes(doc: &lopdf::Document, id: (u32, u16)) -> (r: Option<Vec<u8>>)
    ensures
        r is Some <==> doc_streams(*doc).contains_key(id),
        r is Some ==> r->Some_0@ == decoded_payload(*doc, id),
        r is Some && !doc_streams(*doc)[id].has_filter ==> r->Some_0@ == doc_streams(
            *doc,
        )[id].content,
{
    match doc.objects.get(&id) {
        Some(lopdf::Object::Stream(s)) => {
            Some(s.decompressed_content().unwrap_or_else(|_| s.content.clone()))
        },
        _ => None,
    }
}

/// Relies on `lopdf::Dictionary::remove` and `lopdf::Dictionary::set`: for
/// an identifier that holds a stream object, stores `bytes` as the
/// stream's payload, drops the `Filter` and `DecodeParms` entries from its
/// dictionary, and sets `Length` to the payload's exact byte length — a
/// deterministic mutation of that one object. No object is added or
/// removed, no other object changes (so no other stream's decoded payload
/// changes), and no dictionary entry beyond those three is touched.
#[verifier::external_body]
pub(crate) fn commit_stream_payload(doc: &mut lopdf::Document, id: (u32, u16), bytes: &Vec<u8>)
    requires
        doc_streams(*old(doc)).contains_key(id),
        bytes@.len() <= i64::MAX,
    ensures
        *final(doc) == committed_doc(*old(doc), id, bytes@),
        doc_streams(*final(doc)) == doc_streams(*old(doc)).insert(
            id,
            (StreamModel {
                content: bytes@,
                has_filter: false,
                has_decode_parms: false,
                length: Some(bytes@.len() as int),
            }),
        ),
        doc_ids(*final(doc)) == doc_ids(*old(doc)),
        doc_objects(*final(doc)) == doc_objects(*old(doc)).insert(
            id,
            doc_objects(*final(doc))[id],
        ),
        forall|id2: (u32, u16)|
            id2 != id ==> decoded_payload(*final(doc), id2) == decoded_payload(*old(doc), id2),
        forall|id2: (u32, u16)|
            stream_dict_rest(*final(doc), id2) == stream_dict_rest(*old(doc), id2),
{
    if let Some(lopdf::Object::Stream(s)) = doc.objects.get_mut(&id) {
        s.content = bytes.clone();
        s.dict.remove(b"Filter");
        s.dict.remove(b"DecodeParms");
        s.dict.set("Length", lopdf::Object::Integer(bytes.len() as i64));
    }
}

/// Relies on `lopdf::Document::save_to`: serializes the graph back to a
/// byte buffer, or reports the failure as its message. The writer walks
/// the object table in its fixed order and writes into an in-memory
/// buffer, so whether it succeeds and what it writes are functions of the
/// document value at the call alone.
#[verifier::external_body]
pub(crate) fn save_document(doc: &mut lopdf::Document) -> (r: Result<Vec<u8>, String>)
    ensures
        r is Ok <==> doc_saves(*old(doc)),
        r is Ok ==> r->Ok_0@ == saved_bytes(*old(doc)),
{
    let mut out: Vec<u8> = Vec::new();
    match doc.save_to(&mut out) {
        Ok(_) => Ok(out),
        Err(e) => Err(format!("Failed to save PDF: {}", e)),
    }
}

} // verus!
