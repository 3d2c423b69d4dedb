//! The rewriting core: per stream, decode the payload best-effort, scan its
//! lossy text view for the tag pattern, replace every match with
//! same-length filler, and commit the new payload with consistent
//! metadata; per document, do that for every object and total the counts.

use vstd::prelude::*;

verus! {

use crate::counts::{sum_counts, total_matches};
use crate::doc::{
    StreamModel,
    commit_stream_payload,
    committed_doc,
    decoded_payload,
    doc_ids,
    doc_objects,
    doc_saves,
    doc_streams,
    load_document,
    object_ids,
    parsed_document,
    pdf_parses,
    save_document,
    saved_bytes,
    stream_decoded_bytes,
    stream_dict_rest,
};
use crate::pattern::{
    DEFAULT_TAG_PATTERN,
    compile_pattern,
    compiled_regex,
    find_spans,
    match_spans,
    pattern_ok,
};
use crate::text::{blank_of, blank_spans, blanked, lossy_normalized, lossy_utf8_bytes};

/// Why a whole-document rewrite failed, with the underlying diagnostic
/// message. Nothing is retried and no partial output is ever returned.
#[derive(Debug)]
pub enum RewriteError {
    /// The input bytes are not a structurally valid document.
    Parse(String),
    /// The supplied tag pattern does not compile.
    Pattern(String),
    /// The mutated graph could not be re-encoded to bytes.
    Serialize(String),
}

impl RewriteError {
    /// The diagnostic message carried by the failure.
    pub fn message(self) -> (m: String)
        ensures
            (match self {
                RewriteError::Parse(s) => m == s,
                RewriteError::Pattern(s) => m == s,
                RewriteError::Serialize(s) => m == s,
            }),
    {
        match self {
            RewriteError::Parse(s) => s,
            RewriteError::Pattern(s) => s,
            RewriteError::Serialize(s) => s,
        }
    }
}

/// The tag pattern in effect for a request: the supplied one, or the
/// default when none was supplied.
pub open spec fn effective_pattern(pattern: Option<&str>) -> Seq<char> {
    match pattern {
        Some(p) => p@,
        None => DEFAULT_TAG_PATTERN@,
    }
}

/// A stream whose metadata is consistent with a rewritten payload: stored
/// raw — no compression filter, no decode parameters — with the declared
/// length exactly the payload's byte length.
pub open spec fn rewritten_ok(m: StreamModel) -> bool {
    &&& !m.has_filter
    &&& !m.has_decode_parms
    &&& m.length == Some(m.content.len() as int)
}

/// The text view one stream is scanned in: the lossy UTF-8 normalization
/// of its best-effort decoded payload.
pub open spec fn stream_text(d: lopdf::Document, id: (u32, u16)) -> Seq<u8> {
    lossy_normalized(decoded_payload(d, id))
}

/// The match spans of the pattern in one stream's text view.
pub open spec fn stream_spans(re: regex::Regex, d: lopdf::Document, id: (u32, u16)) -> Seq<
    (usize, usize),
> {
    match_spans(re, stream_text(d, id))
}

/// How many matches the pattern has in one object of the document: the
/// span count of its text view for a stream, zero for anything else.
pub open spec fn stream_count(re: regex::Regex, d: lopdf::Document, id: (u32, u16)) -> int {
    if doc_streams(d).contains_key(id) {
        stream_spans(re, d, id).len() as int
    } else {
        0
    }
}

/// Sum of the pattern's per-object match counts over a sequence of
/// object identifiers.
pub open spec fn total_count_of(
    re: regex::Regex,
    d: lopdf::Document,
    ids: Seq<(u32, u16)>,
) -> int
    decreases ids.len(),
{
    if ids.len() == 0 {
        0
    } else {
        total_count_of(re, d, ids.drop_last()) + stream_count(re, d, ids.last())
    }
}

/// Total number of matches the pattern has across all of a document's
/// content streams, each stream counted independently.
pub open spec fn doc_match_total(re: regex::Regex, d: lopdf::Document) -> int {
    total_count_of(re, d, doc_ids(d))
}

/// One of the first `k` entries of `ids` is `id`.
spec fn appears_before(ids: Seq<(u32, u16)>, k: int, id: (u32, u16)) -> bool {
    exists|j: int| 0 <= j < k && ids[j] == id
}

/// One rewriting step over a single object: the commit of the blanked
/// text view where the pattern matches, the document unchanged where it
/// does not.
pub open spec fn rewrite_step(re: regex::Regex, d: lopdf::Document, id: (u32, u16)) -> lopdf::Document {
    if stream_count(re, d, id) > 0 {
        committed_doc(d, id, blank_of(stream_text(d, id), stream_spans(re, d, id)))
    } else {
        d
    }
}

/// The document after rewriting the listed objects in order.
pub open spec fn rewritten_document(
    re: regex::Regex,
    d: lopdf::Document,
    ids: Seq<(u32, u16)>,
) -> lopdf::Document
    decreases ids.len(),
{
    if ids.len() == 0 {
        d
    } else {
        rewrite_step(re, rewritten_document(re, d, ids.drop_last()), ids.last())
    }
}

/// The whole rewritten graph a request produces from its input bytes and
/// optional pattern: every object of the parsed document visited in
/// enumeration order.
pub open spec fn rewritten_graph(bytes: Seq<u8>, pattern: Option<&str>) -> lopdf::Document {
    rewritten_document(
        compiled_regex(effective_pattern(pattern)),
        parsed_document(bytes),
        doc_ids(parsed_document(bytes)),
    )
}

/// The final state one stream is owed after a whole-document pass: left
/// byte-for-byte as it was when its text view has no match, and otherwise
/// carrying exactly its blanked text view with consistent metadata.
pub open spec fn stream_outcome_ok(
    re: regex::Regex,
    d: lopdf::Document,
    id: (u32, u16),
    m: StreamModel,
) -> bool {
    if stream_count(re, d, id) == 0 {
        m == doc_streams(d)[id]
    } else {
        rewritten_ok(m) && blanked(stream_text(d, id), stream_spans(re, d, id), m.content)
    }
}

/// Rewriting one more listed object extends the chain by one step.
proof fn lemma_rewritten_take_step(
    re: regex::Regex,
    d: lopdf::Document,
    ids: Seq<(u32, u16)>,
    i: int,
)
    requires
        0 <= i < ids.len(),
    ensures
        rewritten_document(re, d, ids.take(i + 1)) == rewrite_step(
            re,
            rewritten_document(re, d, ids.take(i)),
            ids[i],
        ),
{
    assert(ids.take(i + 1).drop_last() == ids.take(i));
    assert(ids.take(i + 1).last() == ids[i]);
}

/// A sequence of counts that agrees pointwise with the pattern's
/// per-object match counts sums to their total.
proof fn lemma_counts_sum(
    re: regex::Regex,
    d: lopdf::Document,
    ids: Seq<(u32, u16)>,
    counts: Seq<usize>,
)
    requires
        counts.len() == ids.len(),
        forall|i: int|
            0 <= i < counts.len() ==> (#[trigger] counts[i]) as int == stream_count(re, d, ids[i]),
    ensures
        sum_counts(counts) == total_count_of(re, d, ids),
    decreases ids.len(),
{
    if ids.len() > 0 {
        assert(forall|i: int|
            0 <= i < counts.drop_last().len() ==> (#[trigger] counts.drop_last()[i]) as int
                == stream_count(re, d, ids.drop_last()[i]));
        lemma_counts_sum(re, d, ids.drop_last(), counts.drop_last());
    }
}

/// Rewrites one object of the document: for a stream, decodes its payload
/// best-effort, scans the lossy text view, and — only when there is at
/// least one match — replaces every match with same-length filler and
/// commits the new payload with consistent metadata. Returns exactly the
/// number of matches of the pattern in the stream's text view (zero for
/// an object that is not a stream); with zero matches the document is
/// left completely untouched, and with matches only this stream changes.
pub fn process_content_stream(doc: &mut lopdf::Document, id: (u32, u16), re: &regex::Regex) -> (count: usize)
    ensures
        count as int == stream_count(*re, *old(doc), id),
        *final(doc) == rewrite_step(*re, *old(doc), id),
        count == 0 ==> *final(doc) == *old(doc),
        count > 0 ==> doc_streams(*final(doc)).contains_key(id) && rewritten_ok(
            doc_streams(*final(doc))[id],
        ) && blanked(
            stream_text(*old(doc), id),
            stream_spans(*re, *old(doc), id),
            doc_streams(*final(doc))[id].content,
        ) && doc_streams(*final(doc)) == doc_streams(*old(doc)).insert(
            id,
            doc_streams(*final(doc))[id],
        ),
        count > 0 ==> doc_ids(*final(doc)) == doc_ids(*old(doc)) && doc_objects(*final(doc))
            == doc_objects(*old(doc)).insert(id, doc_objects(*final(doc))[id]) && (forall|
            id2: (u32, u16),
        |
            id2 != id ==> decoded_payload(*final(doc), id2) == decoded_payload(*old(doc), id2)),
        forall|id2: (u32, u16)|
            stream_dict_rest(*final(doc), id2) == stream_dict_rest(*old(doc), id2),
{
    let decoded_opt = stream_decoded_bytes(doc, id);
    match decoded_opt {
        None => 0,
        Some(decoded) => {
            let text = lossy_utf8_bytes(&decoded);
            let spans = find_spans(re, &text);
            let count = spans.len();
            if count > 0 {
                let out = blank_spans(&text, &spans);
                commit_stream_payload(doc, id, &out);
            }
            count
        },
    }
}

/// Rewrites every content stream of the document in turn, returning one
/// match count per object of the graph, in enumeration order. Afterwards
/// the document is exactly the chain of per-object rewrite steps: every
/// stream whose text view has no match is byte-for-byte what it was,
/// every stream with matches carries exactly its blanked text view with
/// consistent metadata, no object is added or removed, every non-stream
/// object is unchanged, and no dictionary entry beyond the compression
/// metadata is touched.
pub fn rewrite_all_streams(doc: &mut lopdf::Document, re: &regex::Regex) -> (counts: Vec<usize>)
    ensures
        counts@.len() == doc_ids(*old(doc)).len(),
        forall|i: int|
            0 <= i < counts@.len() ==> (#[trigger] counts@[i]) as int == stream_count(
                *re,
                *old(doc),
                doc_ids(*old(doc))[i],
            ),
        doc_streams(*final(doc)).dom() == doc_streams(*old(doc)).dom(),
        doc_ids(*final(doc)) == doc_ids(*old(doc)),
        forall|id: (u32, u16)| #[trigger]
            doc_streams(*old(doc)).contains_key(id) ==> stream_outcome_ok(
                *re,
                *old(doc),
                id,
                doc_streams(*final(doc))[id],
            ),
        *final(doc) == rewritten_document(*re, *old(doc), doc_ids(*old(doc))),
        forall|id: (u32, u16)|
            #![trigger doc_objects(*old(doc)).contains_key(id)]
            doc_objects(*old(doc)).contains_key(id) && !doc_streams(*old(doc)).contains_key(id)
                ==> doc_objects(*final(doc)).contains_key(id) && doc_objects(*final(doc))[id]
                == doc_objects(*old(doc))[id],
        forall|id: (u32, u16)|
            stream_dict_rest(*final(doc), id) == stream_dict_rest(*old(doc), id),
{
    let ids = object_ids(doc);
    let mut counts: Vec<usize> = Vec::new();
    let mut i: usize = 0;
    while i < ids.len()
        invariant
            i <= ids@.len(),
            counts@.len() == i,
            ids@ == doc_ids(*old(doc)),
            forall|p: int, q: int| 0 <= p < q < ids@.len() ==> ids@[p] != ids@[q],
            doc_streams(*doc).dom() == doc_streams(*old(doc)).dom(),
            doc_ids(*doc) == doc_ids(*old(doc)),
            forall|j: int|
                0 <= j < i ==> (#[trigger] counts@[j]) as int == stream_count(
                    *re,
                    *old(doc),
                    ids@[j],
                ),
            forall|id: (u32, u16)| #[trigger]
                doc_streams(*old(doc)).contains_key(id) && !appears_before(ids@, i as int, id)
                    ==> doc_streams(*doc)[id] == doc_streams(*old(doc))[id] && decoded_payload(
                    *doc,
                    id,
                ) == decoded_payload(*old(doc), id),
            forall|id: (u32, u16)| #[trigger]
                doc_streams(*old(doc)).contains_key(id) && appears_before(ids@, i as int, id)
                    ==> stream_outcome_ok(*re, *old(doc), id, doc_streams(*doc)[id]),
            *doc == rewritten_document(*re, *old(doc), ids@.take(i as int)),
            forall|id: (u32, u16)|
                #![trigger doc_objects(*old(doc)).contains_key(id)]
                doc_objects(*old(doc)).contains_key(id) && !doc_streams(*old(doc)).contains_key(
                    id,
                ) ==> doc_objects(*doc).contains_key(id) && doc_objects(*doc)[id] == doc_objects(
                    *old(doc),
                )[id],
            forall|id: (u32, u16)|
                stream_dict_rest(*doc, id) == stream_dict_rest(*old(doc), id),
        decreases ids@.len() - i,
    {
        let ghost prev = *doc;
        let id = ids[i];
        proof {
            assert(!appears_before(ids@, i as int, id)) by {
                if appears_before(ids@, i as int, id) {
                    let j = choose|j: int| 0 <= j < i as int && ids@[j] == id;
                    assert(ids@[j] == ids@[i as int]);
                }
            }
            if doc_streams(*old(doc)).contains_key(id) {
                assert(decoded_payload(*doc, id) == decoded_payload(*old(doc), id));
            }
        }
        let c = process_content_stream(doc, id, re);
        proof {
            // The count is stated against the document at the call; carry
            // it back to the original document, whose stream at `id` was
            // still untouched.
            assert(c as int == stream_count(*re, *old(doc), id));
            assert forall|id2: (u32, u16)| #[trigger]
                doc_streams(*old(doc)).contains_key(id2) && !appears_before(
                ids@,
                i as int + 1,
                id2,
            ) implies doc_streams(*doc)[id2] == doc_streams(*old(doc))[id2] && decoded_payload(
                *doc,
                id2,
            ) == decoded_payload(*old(doc), id2) by {
                assert(!appears_before(ids@, i as int, id2)) by {
                    if appears_before(ids@, i as int, id2) {
                        let j = choose|j: int| 0 <= j < i as int && ids@[j] == id2;
                        assert(0 <= j < i as int + 1 && ids@[j] == id2);
                    }
                }
                assert(id2 != id) by {
                    assert(ids@[i as int] == id);
                }
                if c > 0 {
                    assert(doc_streams(*doc)[id2] == doc_streams(prev)[id2]);
                }
            }
            assert forall|id2: (u32, u16)| #[trigger]
                doc_streams(*old(doc)).contains_key(id2) && appears_before(
                ids@,
                i as int + 1,
                id2,
            ) implies stream_outcome_ok(*re, *old(doc), id2, doc_streams(*doc)[id2]) by {
                if id2 == id {
                    if c == 0 {
                        assert(doc_streams(*doc)[id2] == doc_streams(prev)[id2]);
                        assert(doc_streams(prev)[id2] == doc_streams(*old(doc))[id2]);
                    } else {
                        assert(stream_text(prev, id) == stream_text(*old(doc), id));
                    }
                } else {
                    assert(appears_before(ids@, i as int, id2)) by {
                        let j = choose|j: int| 0 <= j < i as int + 1 && ids@[j] == id2;
                        assert(ids@[i as int] == id);
                        assert(j < i as int);
                    }
                    if c > 0 {
                        assert(doc_streams(*doc)[id2] == doc_streams(prev)[id2]);
                    }
                }
            }
            if c > 0 {
                assert(doc_streams(*doc).dom() =~= doc_streams(prev).dom());
            }
            lemma_rewritten_take_step(*re, *old(doc), ids@, i as int);
            assert forall|id2: (u32, u16)|
                doc_objects(*old(doc)).contains_key(id2) && !doc_streams(
                *old(doc),
            ).contains_key(id2) implies doc_objects(*doc).contains_key(id2) && doc_objects(
                *doc,
            )[id2] == doc_objects(*old(doc))[id2] by {
                if c > 0 {
                    assert(doc_streams(prev).contains_key(id));
                    assert(id2 != id);
                    assert(doc_objects(*doc)[id2] == doc_objects(prev)[id2]);
                    assert(doc_objects(*doc).contains_key(id2));
                }
            }
        }
        counts.push(c);
        i += 1;
    }
    proof {
        assert(ids@.take(ids@.len() as int) == ids@);
        assert forall|id: (u32, u16)| #[trigger]
            doc_streams(*old(doc)).contains_key(id) implies stream_outcome_ok(
            *re,
            *old(doc),
            id,
            doc_streams(*doc)[id],
        ) by {
            assert(ids@.contains(id));
            let j = choose|j: int| 0 <= j < ids@.len() && ids@[j] == id;
            assert(appears_before(ids@, ids@.len() as int, id));
        }
    }
    counts
}

/// Opens a PDF byte buffer, blanks every tag matched by the supplied or
/// default pattern in every content stream, and serializes the mutated
/// graph back to bytes, together with the total number of matches
/// replaced — exactly the sum of the per-stream match counts of the
/// parsed document. The returned bytes are exactly the serialization of
/// the rewritten graph. Fails with `Parse` exactly when the bytes do not
/// parse as a document, with `Pattern` exactly when the bytes parse but
/// the effective pattern does not compile, and with `Serialize` exactly
/// when the rewritten graph cannot be re-encoded; no partial output is
/// ever returned.
pub fn remove_tags_from_pdf(pdf_data: &[u8], pattern: Option<&str>) -> (r: Result<
    (Vec<u8>, usize),
    RewriteError,
>)
    ensures
        r matches Err(RewriteError::Parse(_)) <==> !pdf_parses(pdf_data@),
        r matches Err(RewriteError::Pattern(_)) <==> pdf_parses(pdf_data@) && !pattern_ok(
            effective_pattern(pattern),
        ),
        r matches Err(RewriteError::Serialize(_)) <==> pdf_parses(pdf_data@) && pattern_ok(
            effective_pattern(pattern),
        ) && !doc_saves(rewritten_graph(pdf_data@, pattern)),
        r is Ok <==> pdf_parses(pdf_data@) && pattern_ok(effective_pattern(pattern)) && doc_saves(
            rewritten_graph(pdf_data@, pattern),
        ),
        r is Ok ==> (r->Ok_0).0@ == saved_bytes(rewritten_graph(pdf_data@, pattern)),
        r is Ok ==> (r->Ok_0).1 as int == ({
            let total = doc_match_total(
                compiled_regex(effective_pattern(pattern)),
                parsed_document(pdf_data@),
            );
            if total <= usize::MAX {
                total
            } else {
                usize::MAX as int
            }
        }),
{
    let mut document = match load_document(pdf_data) {
        Ok(d) => d,
        Err(m) => {
            return Err(RewriteError::Parse(m));
        },
    };
    let pat: &str = match pattern {
        Some(p) => p,
        None => DEFAULT_TAG_PATTERN,
    };
    let re = match compile_pattern(pat) {
        Ok(re) => re,
        Err(m) => {
            return Err(RewriteError::Pattern(m));
        },
    };
    let counts = rewrite_all_streams(&mut document, &re);
    let total = total_matches(&counts);
    proof {
        lemma_counts_sum(re, parsed_document(pdf_data@), doc_ids(parsed_document(pdf_data@)), counts@);
    }
    match save_document(&mut document) {
        Ok(bytes) => Ok((bytes, total)),
        Err(m) => Err(RewriteError::Serialize(m)),
    }
}

} // verus!
