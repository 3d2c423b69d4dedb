//! The layout-preserving replacement step: given a byte buffer and a set of
//! match spans, every byte inside a span becomes a space and every byte
//! outside the spans is kept, so the buffer's length never changes.

use vstd::prelude::*;

verus! {

/// The filler byte written over a matched span: an ASCII space, one byte per
/// replaced byte, so glyph positions after the span are unaffected.
pub const FILLER_BYTE: u8 = 32;

/// The lossy text view of a byte buffer, as UTF-8 bytes: what
/// `String::from_utf8_lossy` yields, a function of the bytes alone.
pub uninterp spec fn lossy_normalized(b: Seq<u8>) -> Seq<u8>;

/// Relies on `String::from_utf8_lossy`: invalid UTF-8 sequences are replaced
/// with the replacement character and valid ones are kept, so the result is
/// itself valid UTF-8 and normalizing it again changes nothing. The length
/// bound holds of every `Vec`, which never holds more than `isize::MAX`
/// bytes.
#[verifier::external_body]
pub(crate) fn lossy_utf8_bytes(b: &Vec<u8>) -> (r: Vec<u8>)
    ensures
        r@ == lossy_normalized(b@),
        lossy_normalized(r@) == r@,
        r@.len() <= i64::MAX,
{
    String::from_utf8_lossy(b).into_owned().into_bytes()
}

/// Every span lies within a buffer of length `n`, with its start not past
/// its end.
pub open spec fn spans_wf(spans: Seq<(usize, usize)>, n: nat) -> bool {
    forall|i: int|
        0 <= i < spans.len() ==> (#[trigger] spans[i]).0 <= spans[i].1 && spans[i].1 <= n
}

/// Position `j` falls inside at least one of the spans.
pub open spec fn covered(spans: Seq<(usize, usize)>, j: int) -> bool {
    exists|i: int| 0 <= i < spans.len() && (#[trigger] spans[i]).0 <= j <= spans[i].1 - 1
}

/// `out` is `text` with exactly the spans blanked: same length, filler
/// bytes on every covered position, original bytes everywhere else.
pub open spec fn blanked(text: Seq<u8>, spans: Seq<(usize, usize)>, out: Seq<u8>) -> bool {
    &&& out.len() == text.len()
    &&& forall|j: int| 0 <= j < out.len() && covered(spans, j) ==> out[j] == FILLER_BYTE
    &&& forall|j: int| 0 <= j < out.len() && !covered(spans, j) ==> out[j] == text[j]
}

/// The blanked form of a text under a set of spans, as a value: a filler
/// byte on every covered position, the original byte everywhere else.
pub open spec fn blank_of(text: Seq<u8>, spans: Seq<(usize, usize)>) -> Seq<u8> {
    Seq::new(
        text.len(),
        |j: int|
            if covered(spans, j) {
                FILLER_BYTE
            } else {
                text[j]
            },
    )
}

/// Replaces every given span of `text` with filler bytes of the same
/// length. Bytes outside the spans are returned unchanged, and the result
/// has exactly the length of the input; with no spans the input comes back
/// as it was.
pub fn blank_spans(text: &Vec<u8>, spans: &Vec<(usize, usize)>) -> (out: Vec<u8>)
    requires
        spans_wf(spans@, text@.len() as nat),
    ensures
        blanked(text@, spans@, out@),
        out@ == blank_of(text@, spans@),
        spans@.len() == 0 ==> out@ == text@,
{
    let mut out: Vec<u8> = Vec::new();
    let mut c: usize = 0;
    while c < text.len()
        invariant
            c <= text@.len(),
            out@ == text@.take(c as int),
        decreases text@.len() - c,
    {
        out.push(text[c]);
        c += 1;
    }
    assert(out@ == text@);

    let mut k: usize = 0;
    while k < spans.len()
        invariant
            out@.len() == text@.len(),
            spans_wf(spans@, text@.len() as nat),
            k <= spans@.len(),
            forall|j: int|
                0 <= j < out@.len() && covered(spans@.take(k as int), j) ==> out@[j]
                    == FILLER_BYTE,
            forall|j: int|
                0 <= j < out@.len() && !covered(spans@.take(k as int), j) ==> out@[j] == text@[j],
        decreases spans@.len() - k,
    {
        let (s, e) = spans[k];
        let mut j: usize = s;
        while j < e
            invariant
                out@.len() == text@.len(),
                spans_wf(spans@, text@.len() as nat),
                k < spans@.len(),
                (s, e) == spans@[k as int],
                s <= j <= e <= out@.len(),
                forall|j2: int|
                    0 <= j2 < out@.len() && covered(spans@.take(k as int), j2) ==> out@[j2]
                        == FILLER_BYTE,
                forall|j2: int| s <= j2 < j ==> out@[j2] == FILLER_BYTE,
                forall|j2: int|
                    0 <= j2 < out@.len() && !covered(spans@.take(k as int), j2) && !(s <= j2 < j)
                        ==> out@[j2] == text@[j2],
            decreases e - j,
        {
            out[j] = FILLER_BYTE;
            j += 1;
        }
        proof {
            assert forall|j2: int|
                0 <= j2 < out@.len() && covered(spans@.take(k as int + 1), j2) implies out@[j2]
                == FILLER_BYTE by {
                let i = choose|i: int|
                    0 <= i < spans@.take(k as int + 1).len() && (#[trigger] spans@.take(
                        k as int + 1,
                    )[i]).0 <= j2 <= spans@.take(k as int + 1)[i].1 - 1;
                if i < k as int {
                    assert(covered(spans@.take(k as int), j2));
                }
            }
            assert forall|j2: int|
                0 <= j2 < out@.len() && !covered(spans@.take(k as int + 1), j2) implies out@[j2]
                == text@[j2] by {
                assert(!covered(spans@.take(k as int), j2)) by {
                    if covered(spans@.take(k as int), j2) {
                        let i = choose|i: int|
                            0 <= i < spans@.take(k as int).len() && (#[trigger] spans@.take(
                                k as int,
                            )[i]).0 <= j2 <= spans@.take(k as int)[i].1 - 1;
                        assert(spans@.take(k as int + 1)[i] == spans@[i]);
                        assert(covered(spans@.take(k as int + 1), j2));
                    }
                }
                assert(!(spans@[k as int].0 <= j2 < spans@[k as int].1)) by {
                    if spans@[k as int].0 <= j2 < spans@[k as int].1 {
                        assert(spans@.take(k as int + 1)[k as int] == spans@[k as int]);
                        assert(covered(spans@.take(k as int + 1), j2));
                    }
                }
            }
        }
        k += 1;
    }
    proof {
        assert(spans@.take(spans@.len() as int) == spans@);
        assert(out@ =~= blank_of(text@, spans@));
    }
    out
}

} // verus!
