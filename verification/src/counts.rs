//! Totalling the per-stream match counts. The reported total is exactly the
//! sum of the counts found independently in each content stream, saturating
//! at `usize::MAX` where that sum cannot be represented.

use vstd::prelude::*;

verus! {

/// Mathematical sum of a sequence of counts.
pub open spec fn sum_counts(s: Seq<usize>) -> int
    decreases s.len(),
{
    if s.len() == 0 {
        0
    } else {
        sum_counts(s.drop_last()) + s.last()
    }
}

proof fn lemma_sum_take_step(s: Seq<usize>, i: int)
    requires
        0 <= i < s.len(),
    ensures
        sum_counts(s.take(i + 1)) == sum_counts(s.take(i)) + s[i],
{
    assert(s.take(i + 1).drop_last() == s.take(i));
    assert(s.take(i + 1).last() == s[i]);
}

/// Adds up the per-stream counts. The result equals their exact sum
/// whenever it fits in `usize`, and `usize::MAX` otherwise.
pub fn total_matches(counts: &Vec<usize>) -> (total: usize)
    ensures
        sum_counts(counts@) <= usize::MAX ==> total == sum_counts(counts@),
        sum_counts(counts@) > usize::MAX ==> total == usize::MAX,
{
    let mut total: usize = 0;
    let mut i: usize = 0;
    while i < counts.len()
        invariant
            i <= counts@.len(),
            sum_counts(counts@.take(i as int)) <= usize::MAX ==> total == sum_counts(
                counts@.take(i as int),
            ),
            sum_counts(counts@.take(i as int)) > usize::MAX ==> total == usize::MAX,
            total <= sum_counts(counts@.take(i as int)),
        decreases counts@.len() - i,
    {
        let c = counts[i];
        if total <= usize::MAX - c {
            total += c;
        } else {
            total = usize::MAX;
        }
        proof {
            lemma_sum_take_step(counts@, i as int);
        }
        i += 1;
    }
    proof {
        assert(counts@.take(counts@.len() as int) == counts@);
    }
    total
}

} // verus!
