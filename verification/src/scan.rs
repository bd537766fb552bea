//! A generic exclusive prefix sum (scan).
//!
//! The pipeline scans the per-splat tile-overlap counts to obtain the write
//! offset of every splat's first intersection entry; the last offset plus
//! the last count is the total intersection count.

use vstd::prelude::*;

verus! {

/// Sum of the first `i` elements of `s`.
pub open spec fn prefix_total(s: Seq<u32>, i: int) -> int
    decreases i,
{
    if i <= 0 {
        0
    } else {
        prefix_total(s, i - 1) + s[i - 1]
    }
}

/// Prefix sums of `u32` values grow by at most `u32::MAX` per element.
pub proof fn lemma_prefix_total_bound(s: Seq<u32>, i: int)
    requires
        0 <= i <= s.len(),
    ensures
        0 <= prefix_total(s, i) <= i * 0xffff_ffff,
    decreases i,
{
    if i > 0 {
        lemma_prefix_total_bound(s, i - 1);
        assert((i - 1) * 0xffff_ffff + 0xffff_ffff == i * 0xffff_ffff) by (nonlinear_arith);
    }
}

/// Exclusive scan: `r.0[i]` is the sum of the elements before `i`, and
/// `r.1` is the sum of all elements.
pub fn exclusive_scan(v: &Vec<u32>) -> (r: (Vec<u64>, u64))
    requires
        v@.len() < 4294967296,
    ensures
        r.0@.len() == v@.len(),
        forall|i: int| 0 <= i < v@.len() ==> r.0@[i] == prefix_total(v@, i),
        r.1 == prefix_total(v@, v@.len() as int),
{
    let n = v.len();
    let mut out: Vec<u64> = Vec::new();
    let mut acc: u64 = 0;
    let mut i: usize = 0;
    while i < n
        invariant
            i <= n,
            n == v@.len(),
            n < 4294967296,
            out@.len() == i,
            acc == prefix_total(v@, i as int),
            forall|j: int| 0 <= j < i ==> out@[j] == prefix_total(v@, j),
        decreases n - i,
    {
        out.push(acc);
        proof {
            lemma_prefix_total_bound(v@, i as int);
            assert((i as int) * 0xffff_ffff + 0xffff_ffff <= 4294967295 * 4294967296)
                by (nonlinear_arith)
                requires (i as int) < 4294967296;
        }
        acc = acc + (v[i] as u64);
        i += 1;
    }
    (out, acc)
}

/// Prefix sums agree wherever the elements agree.
pub proof fn lemma_prefix_total_congruent(a: Seq<u32>, b: Seq<u32>, i: int)
    requires
        0 <= i,
        forall|j: int| 0 <= j < i ==> a[j] == b[j],
    ensures
        prefix_total(a, i) == prefix_total(b, i),
    decreases i,
{
    if i > 0 {
        lemma_prefix_total_congruent(a, b, i - 1);
    }
}

/// A run of zeros adds nothing to a prefix sum.
pub proof fn lemma_prefix_total_zero_tail(s: Seq<u32>, i: int, j: int)
    requires
        0 <= i <= j,
        forall|k: int| i <= k < j ==> s[k] == 0,
    ensures
        prefix_total(s, j) == prefix_total(s, i),
    decreases j - i,
{
    if j > i {
        lemma_prefix_total_zero_tail(s, i, j - 1);
    }
}

} // verus!
