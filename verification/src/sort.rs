//! A generic, domain-independent radix sort over 64-bit words.
//!
//! Both ordering stages of the pipeline use it: the visibility sorter packs
//! a depth key above a global id, the intersection sorter packs a tile id
//! above a compact id, and each sorts the packed words.  Sorting the packed
//! word ascending is exactly "sort by key, ties by payload", which at both
//! call sites coincides with a stable sort by key because the payloads of
//! equal keys arrive in increasing order.
//!
//! The sort is a least-significant-digit radix sort with one-bit digits:
//! 64 partition passes, each of which keeps the relative order of words
//! with an equal current digit.  The contract pins the result completely:
//! the output is a permutation of the input (as a multiset) and is sorted,
//! which determines it uniquely.

use vstd::prelude::*;
use vstd::seq_lib::*;
use vstd::relations::{sorted_by, total_ordering};

verus! {

/// Ascending order over the whole sequence.
pub open spec fn sorted(s: Seq<u64>) -> bool {
    forall|i: int, j: int| 0 <= i < j < s.len() ==> s[i] <= s[j]
}

/// The order the sort sorts by.
pub open spec fn u64_le() -> spec_fn(u64, u64) -> bool {
    |a: u64, b: u64| a <= b
}

/// The sorted reordering of a sequence, as a spec-level function; the
/// executable sort returns exactly this.
pub open spec fn sort_spec(s: Seq<u64>) -> Seq<u64> {
    s.sort_by(u64_le())
}

/// Ascending order of the bits selected by the mask `m`.
pub open spec fn masked_sorted(s: Seq<u64>, m: u64) -> bool {
    forall|i: int, j: int| 0 <= i < j < s.len() ==> (s[i] & m) <= (s[j] & m)
}

/// The mask selecting the low `b` bits.
pub open spec fn low_mask(b: nat) -> u64 {
    if b >= 64 {
        u64::MAX
    } else {
        !(u64::MAX << (b as u64))
    }
}

/// Words whose digit at `bit` is zero.
pub open spec fn keep0(bit: u64) -> spec_fn(u64) -> bool {
    |x: u64| (x >> bit) & 1 == 0
}

/// Words whose digit at `bit` is one.
pub open spec fn keep1(bit: u64) -> spec_fn(u64) -> bool {
    |x: u64| (x >> bit) & 1 == 1
}

/// Appending one element extends a filtered sequence by that element
/// exactly when the element passes the predicate.
proof fn lemma_filter_push(s: Seq<u64>, pred: spec_fn(u64) -> bool, x: u64)
    ensures
        s.push(x).filter(pred) == (if pred(x) {
            s.filter(pred).push(x)
        } else {
            s.filter(pred)
        }),
{
    reveal(Seq::filter);
    let t = s.push(x);
    assert(t.drop_last() =~= s);
    assert(t.last() == x);
    if pred(x) {
        assert(t.filter(pred) =~= s.filter(pred).push(x));
    }
}

/// The two halves of a partition together carry the same multiset as the
/// sequence that was partitioned.
proof fn lemma_partition_multiset(s: Seq<u64>, p: spec_fn(u64) -> bool, q: spec_fn(u64) -> bool)
    requires
        forall|x: u64| #[trigger] p(x) <==> !q(x),
    ensures
        (s.filter(p) + s.filter(q)).to_multiset() == s.to_multiset(),
    decreases s.len(),
{
    broadcast use group_to_multiset_ensures;

    if s.len() == 0 {
        reveal(Seq::filter);
        assert(s.filter(p) + s.filter(q) =~= s);
    } else {
        let dl = s.drop_last();
        let x = s.last();
        lemma_partition_multiset(dl, p, q);
        assert(s =~= dl.push(x));
        lemma_filter_push(dl, p, x);
        lemma_filter_push(dl, q, x);
        lemma_multiset_commutative(dl.filter(p), dl.filter(q));
        lemma_multiset_commutative(s.filter(p), s.filter(q));
        if p(x) {
            assert(s.filter(p).to_multiset() == dl.filter(p).to_multiset().insert(x));
            assert((s.filter(p) + s.filter(q)).to_multiset() =~= (dl.filter(p) + dl.filter(
                q,
            )).to_multiset().insert(x));
        } else {
            assert(s.filter(q).to_multiset() == dl.filter(q).to_multiset().insert(x));
            assert((s.filter(p) + s.filter(q)).to_multiset() =~= (dl.filter(p) + dl.filter(
                q,
            )).to_multiset().insert(x));
        }
        assert(s.to_multiset() == dl.to_multiset().insert(x));
    }
}

/// Filtering keeps pairwise masked order: the filtered sequence is a
/// subsequence, so any two surviving elements keep their relative order.
proof fn lemma_filter_masked_sorted(s: Seq<u64>, pred: spec_fn(u64) -> bool, m: u64)
    requires
        masked_sorted(s, m),
    ensures
        masked_sorted(s.filter(pred), m),
    decreases s.len(),
{
    broadcast use group_filter_ensures;

    if s.len() == 0 {
        reveal(Seq::filter);
    } else {
        let dl = s.drop_last();
        let x = s.last();
        assert(masked_sorted(dl, m)) by {
            assert(forall|i: int| 0 <= i < dl.len() ==> dl[i] == s[i]);
        }
        lemma_filter_masked_sorted(dl, pred, m);
        assert(s =~= dl.push(x));
        lemma_filter_push(dl, pred, x);
        let f = s.filter(pred);
        assert forall|i: int, j: int| 0 <= i < j < f.len() implies (f[i] & m) <= (f[j] & m) by {
            let fd = dl.filter(pred);
            if j < fd.len() {
            } else {
                // j names the appended last element; f[i] comes from dl.
                assert(pred(x) && f[j] == x);
                assert(f[i] == fd[i]);
                dl.lemma_filter_contains_rev(pred, fd[i]);
                let k = choose|k: int| 0 <= k < dl.len() && dl[k] == fd[i];
                assert((s[k] & m) <= (s[s.len() - 1] & m));
            }
        }
    }
}

/// How the low-bit mask grows by one digit.
proof fn lemma_mask_step(bit: u64)
    requires
        bit < 64,
    ensures
        low_mask((bit + 1) as nat) == low_mask(bit as nat) | (1u64 << bit),
        low_mask(bit as nat) & (1u64 << bit) == 0,
        low_mask(bit as nat) < (1u64 << bit),
{
    if bit == 63 {
        assert(u64::MAX == !(u64::MAX << 63u64) | (1u64 << 63u64)) by (bit_vector);
        assert(!(u64::MAX << 63u64) & (1u64 << 63u64) == 0) by (bit_vector);
        assert(!(u64::MAX << 63u64) < (1u64 << 63u64)) by (bit_vector);
    } else {
        let b = bit;
        assert(!(u64::MAX << ((b + 1) as u64)) == !(u64::MAX << b) | (1u64 << b)) by (bit_vector)
            requires b < 63u64;
        assert(!(u64::MAX << b) & (1u64 << b) == 0) by (bit_vector)
            requires b < 63u64;
        assert(!(u64::MAX << b) < (1u64 << b)) by (bit_vector)
            requires b < 63u64;
    }
}

/// One partition pass extends the sorted-prefix mask by its digit: a
/// sequence sorted on the low bits, partitioned by the next bit, is sorted
/// on the low bits including that bit.
proof fn lemma_pass_step(s: Seq<u64>, bit: u64)
    requires
        bit < 64,
        masked_sorted(s, low_mask(bit as nat)),
    ensures
        masked_sorted(
            s.filter(keep0(bit)) + s.filter(keep1(bit)),
            low_mask((bit + 1) as nat),
        ),
{
    broadcast use group_filter_ensures;

    let m = low_mask(bit as nat);
    let m2 = low_mask((bit + 1) as nat);
    lemma_mask_step(bit);
    lemma_filter_masked_sorted(s, keep0(bit), m);
    lemma_filter_masked_sorted(s, keep1(bit), m);
    let f0 = s.filter(keep0(bit));
    let f1 = s.filter(keep1(bit));
    let f = f0 + f1;
    assert forall|i: int, j: int| 0 <= i < j < f.len() implies (f[i] & m2) <= (f[j] & m2) by {
        let a = f[i];
        let b = f[j];
        if j < f0.len() {
            assert((a >> bit) & 1 == 0 && (b >> bit) & 1 == 0 && (f0[i] & m) <= (f0[j] & m));
            assert((a & m2) <= (b & m2)) by (bit_vector)
                requires
                    (a >> bit) & 1 == 0,
                    (b >> bit) & 1 == 0,
                    (a & m) <= (b & m),
                    m2 == m | (1u64 << bit),
                    bit < 64u64;
        } else if i >= f0.len() {
            assert((a >> bit) & 1 == 1 && (b >> bit) & 1 == 1);
            assert((f1[i - f0.len()] & m) <= (f1[j - f0.len()] & m));
            assert((a & m2) <= (b & m2)) by (bit_vector)
                requires
                    (a >> bit) & 1 == 1,
                    (b >> bit) & 1 == 1,
                    (a & m) <= (b & m),
                    m2 == m | (1u64 << bit),
                    m & (1u64 << bit) == 0,
                    bit < 64u64;
        } else {
            assert((a >> bit) & 1 == 0 && (b >> bit) & 1 == 1);
            assert((a & m2) <= (b & m2)) by (bit_vector)
                requires
                    (a >> bit) & 1 == 0,
                    (b >> bit) & 1 == 1,
                    m2 == m | (1u64 << bit),
                    m & (1u64 << bit) == 0,
                    m < (1u64 << bit),
                    bit < 64u64;
        }
    }
}

/// One partition pass: keep the words whose digit at `bit` is zero, in
/// order, followed by the words whose digit is one, in order.
fn radix_pass(v: &Vec<u64>, bit: u64) -> (out: Vec<u64>)
    requires
        bit < 64,
    ensures
        out@ == v@.filter(keep0(bit)) + v@.filter(keep1(bit)),
{
    let mut zeros: Vec<u64> = Vec::new();
    let mut ones: Vec<u64> = Vec::new();
    let n = v.len();
    let mut i: usize = 0;
    while i < n
        invariant
            i <= n,
            n == v@.len(),
            bit < 64,
            zeros@ == v@.subrange(0, i as int).filter(keep0(bit)),
            ones@ == v@.subrange(0, i as int).filter(keep1(bit)),
        decreases n - i,
    {
        let x = v[i];
        proof {
            assert(v@.subrange(0, (i + 1) as int) =~= v@.subrange(0, i as int).push(v@[i as int]));
            lemma_filter_push(v@.subrange(0, i as int), keep0(bit), x);
            lemma_filter_push(v@.subrange(0, i as int), keep1(bit), x);
            assert((x >> bit) & 1 == 0 || (x >> bit) & 1 == 1) by (bit_vector);
        }
        if (x >> bit) & 1 == 0 {
            zeros.push(x);
        } else {
            ones.push(x);
        }
        i += 1;
    }
    proof {
        assert(v@.subrange(0, n as int) =~= v@);
    }
    let mut out = zeros;
    out.append(&mut ones);
    out
}

/// Radix sort of 64-bit words, least significant digit first.  The output
/// is the unique ascending reordering of the input.
pub fn radix_sort(v: Vec<u64>) -> (out: Vec<u64>)
    ensures
        out@.to_multiset() == v@.to_multiset(),
        sorted(out@),
        out@.len() == v@.len(),
        out@ == sort_spec(v@),
{
    let ghost orig = v@;
    let mut cur = v;
    let mut bit: u64 = 0;
    proof {
        assert forall|i: int, j: int|
            0 <= i < j < cur@.len() implies (cur@[i] & low_mask(0)) <= (cur@[j] & low_mask(
            0,
        )) by {
            let a = cur@[i];
            let b = cur@[j];
            assert((a & !(u64::MAX << 0u64)) <= (b & !(u64::MAX << 0u64))) by (bit_vector);
        }
    }
    while bit < 64
        invariant
            bit <= 64,
            cur@.to_multiset() == orig.to_multiset(),
            masked_sorted(cur@, low_mask(bit as nat)),
        decreases 64 - bit,
    {
        let next = radix_pass(&cur, bit);
        proof {
            assert forall|x: u64| #[trigger] keep0(bit)(x) <==> !(keep1(bit)(x)) by {
                assert((x >> bit) & 1 == 0 || (x >> bit) & 1 == 1) by (bit_vector);
            }
            lemma_partition_multiset(cur@, keep0(bit), keep1(bit));
            lemma_pass_step(cur@, bit);
        }
        cur = next;
        bit += 1;
    }
    proof {
        assert forall|i: int, j: int| 0 <= i < j < cur@.len() implies cur@[i] <= cur@[j] by {
            let a = cur@[i];
            let b = cur@[j];
            assert((a & low_mask(64)) <= (b & low_mask(64)));
            assert((a & u64::MAX) == a && (b & u64::MAX) == b) by (bit_vector);
        }
        broadcast use group_to_multiset_ensures;

        assert(cur@.to_multiset().len() == cur@.len());
        assert(orig.to_multiset().len() == orig.len());
        assert(cur@.len() == orig.len());
        assert(total_ordering(u64_le()));
        orig.lemma_sort_by_ensures(u64_le());
        assert(sorted_by(cur@, u64_le()));
        assert(sorted_by(sort_spec(orig), u64_le()));
        assert(cur@.to_multiset() == sort_spec(orig).to_multiset());
        lemma_sorted_unique(cur@, sort_spec(orig), u64_le());
        assert(cur@ =~= sort_spec(orig));
    }
    cur
}

/// Pack a 32-bit key above a 32-bit payload; sorting the packed word
/// ascending orders by key, ties by payload.
pub open spec fn pack_s(key: u32, payload: u32) -> u64 {
    ((key as u64) << 32u64) | (payload as u64)
}

/// The key half of a packed word.
pub open spec fn key_of(x: u64) -> u32 {
    (x >> 32u64) as u32
}

/// The payload half of a packed word.
pub open spec fn payload_of(x: u64) -> u32 {
    (x & 0xffff_ffffu64) as u32
}

/// Packing is the inverse of the two projections.
pub proof fn lemma_pack_unpack(key: u32, payload: u32)
    ensures
        key_of(pack_s(key, payload)) == key,
        payload_of(pack_s(key, payload)) == payload,
{
    let k = key as u64;
    let p = payload as u64;
    assert((((k << 32u64) | p) >> 32u64) == k) by (bit_vector)
        requires k < 0x1_0000_0000u64 && p < 0x1_0000_0000u64;
    assert((((k << 32u64) | p) & 0xffff_ffffu64) == p) by (bit_vector)
        requires k < 0x1_0000_0000u64 && p < 0x1_0000_0000u64;
}

/// Packed order is lexicographic order of (key, payload).
pub proof fn lemma_pack_order(a: u64, b: u64)
    ensures
        a <= b <==> (key_of(a) < key_of(b) || (key_of(a) == key_of(b) && payload_of(a)
            <= payload_of(b))),
{
    assert(a <= b <==> ((a >> 32u64) < (b >> 32u64) || ((a >> 32u64) == (b >> 32u64) && (a
        & 0xffff_ffffu64) <= (b & 0xffff_ffffu64)))) by (bit_vector);
    assert(a >> 32u64 <= 0xffff_ffffu64 && b >> 32u64 <= 0xffff_ffffu64 && (a & 0xffff_ffffu64)
        <= 0xffff_ffffu64 && (b & 0xffff_ffffu64) <= 0xffff_ffffu64) by (bit_vector);
}

/// Executable packing.
pub fn pack(key: u32, payload: u32) -> (r: u64)
    ensures
        r == pack_s(key, payload),
{
    ((key as u64) << 32u64) | (payload as u64)
}

/// Executable key projection.
pub fn unpack_key(x: u64) -> (r: u32)
    ensures
        r == key_of(x),
{
    (x >> 32u64) as u32
}

/// Executable payload projection.
pub fn unpack_payload(x: u64) -> (r: u32)
    ensures
        r == payload_of(x),
{
    (x & 0xffff_ffffu64) as u32
}

/// Every element of a permutation occurs somewhere in the sequence it
/// rearranges.
pub proof fn lemma_permutation_element(a: Seq<u64>, b: Seq<u64>, k: int)
    requires
        a.to_multiset() == b.to_multiset(),
        0 <= k < b.len(),
    ensures
        exists|j: int| 0 <= j < a.len() && a[j] == b[k],
{
    broadcast use group_to_multiset_ensures;

    assert(b.contains(b[k]));
    assert(b.to_multiset().count(b[k]) > 0);
    assert(a.contains(b[k]));
    let j = choose|j: int| 0 <= j < a.len() && a[j] == b[k];
    assert(0 <= j < a.len() && a[j] == b[k]);
}

/// Keys of sorted packed words appear in nondecreasing order.
pub proof fn lemma_sorted_keys_sorted(s: Seq<u64>)
    requires
        sorted(s),
    ensures
        forall|i: int, j: int| 0 <= i < j < s.len() ==> key_of(#[trigger] s[i]) <= key_of(
            #[trigger] s[j]),
{
    assert forall|i: int, j: int|
        0 <= i < j < s.len() implies key_of(#[trigger] s[i]) <= key_of(#[trigger] s[j]) by {
        lemma_pack_order(s[i], s[j]);
    }
}

} // verus!
