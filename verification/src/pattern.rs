//! The tag pattern: compiled once per document from the supplied pattern
//! text, or from the default `{{...}}` shape when none is supplied, and
//! used read-only to locate every match in a stream's text view.

use vstd::prelude::*;

verus! {

use crate::text::{lossy_normalized, spans_wf};

/// The default tag pattern: a tag opens with `{{`, holds one or more
/// non-`}` characters, and closes with `}}`.
pub const DEFAULT_TAG_PATTERN: &'static str = "\\{\\{[^}]+\\}\\}";

#[verifier::external_type_specification]
#[verifier::external_body]
pub struct ExRegex(regex::Regex);

/// Whether `regex::Regex::new` accepts a pattern: a function of the pattern
/// text alone.
pub uninterp spec fn pattern_ok(pat: Seq<char>) -> bool;

/// The regex a pattern text compiles to: a function of the pattern text
/// alone, since compilation reads nothing else.
pub uninterp spec fn compiled_regex(pat: Seq<char>) -> regex::Regex;

/// The match spans of a compiled pattern in a text, as byte ranges: the
/// successive non-overlapping, leftmost-first matches, a function of the
/// regex and the text alone.
pub uninterp spec fn match_spans(re: regex::Regex, text: Seq<u8>) -> Seq<(usize, usize)>;

/// Relies on `regex::Regex::new`: compilation succeeds or fails depending
/// on the pattern text alone, and yields the pattern's one compiled form;
/// a failure is carried as its message.
#[verifier::external_body]
pub(crate) fn compile_pattern(pat: &str) -> (r: Result<regex::Regex, String>)
    ensures
        r is Ok <==> pattern_ok(pat@),
        r is Ok ==> r->Ok_0 == compiled_regex(pat@),
{
    regex::Regex::new(pat).map_err(|e| format!("Invalid regex pattern: {}", e))
}

/// Relies on `regex::Regex::find_iter`: it yields exactly the pattern's
/// match spans in the haystack — successive non-overlapping matches, left
/// to right, as byte offsets with `start <= end <= len`. The haystack must
/// already be its own lossy UTF-8 normalization, so that the offsets refer
/// to `text` itself.
#[verifier::external_body]
pub(crate) fn find_spans(re: &regex::Regex, text: &Vec<u8>) -> (spans: Vec<(usize, usize)>)
    requires
        lossy_normalized(text@) == text@,
    ensures
        spans@ == match_spans(*re, text@),
        spans_wf(spans@, text@.len() as nat),
        forall|i: int, j: int|
            0 <= i < j < spans@.len() ==> (#[trigger] spans@[i]).1 <= (#[trigger] spans@[j]).0,
{
    let s = String::from_utf8_lossy(text);
    re.find_iter(&s).map(|m| (m.start(), m.end())).collect()
}

} // verus!
