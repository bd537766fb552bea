//! Tile mapping and binning.
//!
//! The mapper expands every visible splat into one (tile, splat) entry per
//! overlapping tile, enumerated in a fixed row-major order, at positions
//! given by the exclusive scan of the overlap counts; the intersection
//! buffer has a hard capacity ceiling and entries past it are dropped.
//! After the tile sort, the binner computes for every tile the [start,
//! end) range of its run in the sorted list; the ranges partition the
//! list exactly.

use vstd::prelude::*;
use crate::sort::{pack, pack_s, key_of, payload_of};
use crate::scan::prefix_total;
use crate::project::TILE_ONE;

verus! {

/// The capacity ceiling of the intersection buffer.
pub const MAX_INTERSECTIONS: u64 = 8388480;

/// The quantized depth key a visible primitive is sorted by: the depth
/// dropped to 16 fractional bits, saturated at 32 bits.
pub open spec fn depth_key_s(depth: i64) -> u32 {
    if depth < 0 {
        0
    } else {
        let q = (depth as u64) >> 16u64;
        if q > 0xffff_ffffu64 {
            0xffff_ffffu32
        } else {
            q as u32
        }
    }
}

/// Executable depth key.
#[verifier::when_used_as_spec(depth_key_s)]
pub fn depth_key(depth: i64) -> (r: u32)
    ensures
        r == depth_key_s(depth),
{
    if depth < 0 {
        0
    } else {
        let q = (depth as u64) >> 16u64;
        if q > 0xffff_ffffu64 {
            0xffff_ffffu32
        } else {
            q as u32
        }
    }
}

/// The tile index of a nonnegative fixed-point pixel coordinate.
pub open spec fn tile_of_s(v: i64) -> u64 {
    if v < 0 {
        0
    } else {
        ((v as int) / (TILE_ONE as int)) as u64
    }
}

/// Executable tile index.
#[verifier::when_used_as_spec(tile_of_s)]
pub fn tile_of(v: i64) -> (r: u64)
    ensures
        r == tile_of_s(v),
{
    if v < 0 {
        0
    } else {
        (v as u64) / 68719476736u64
    }
}

/// The clamped tile interval [lo, hi) covered by a footprint centered at
/// `center` with the given radius, along an axis with `n_tiles` tiles.
pub open spec fn tile_range_s(center: i64, radius: i64, n_tiles: u32) -> (u32, u32) {
    let lo_f = crate::fixed::sat_sub_fx(center, radius);
    let hi_f = crate::fixed::sat_add_fx(center, radius);
    let lo_t = tile_of_s(lo_f);
    let hi_t = tile_of_s(hi_f) + 1;
    let lo = if lo_t > n_tiles as u64 {
        n_tiles
    } else {
        lo_t as u32
    };
    let hi0 = if hi_t > n_tiles as u64 {
        n_tiles
    } else {
        hi_t as u32
    };
    let hi = if hi0 < lo {
        lo
    } else {
        hi0
    };
    (lo, hi)
}

/// Executable tile interval.
#[verifier::when_used_as_spec(tile_range_s)]
pub fn tile_range(center: i64, radius: i64, n_tiles: u32) -> (r: (u32, u32))
    ensures
        r == tile_range_s(center, radius, n_tiles),
        r.0 <= r.1 <= n_tiles,
{
    let lo_f = crate::fixed::sat_sub(center, radius);
    let hi_f = crate::fixed::sat_add(center, radius);
    let lo_t = tile_of(lo_f);
    let hi_t = tile_of(hi_f) + 1;
    let lo = if lo_t > n_tiles as u64 {
        n_tiles
    } else {
        lo_t as u32
    };
    let hi0 = if hi_t > n_tiles as u64 {
        n_tiles
    } else {
        hi_t as u32
    };
    let hi = if hi0 < lo {
        lo
    } else {
        hi0
    };
    (lo, hi)
}

/// The tile id of tile coordinates, row major.
pub open spec fn tile_id_s(tx: int, ty: int, tile_w: u32) -> u32 {
    (ty * (tile_w as int) + tx) as u32
}

/// The tile rectangle a splat's footprint covers, with its entry count.
#[derive(Clone, Copy, PartialEq, Eq, Structural, Debug)]
pub struct TileRect {
    pub tx0: u32,
    pub tx1: u32,
    pub ty0: u32,
    pub ty1: u32,
}

impl TileRect {
    /// A well-formed rectangle inside a grid of `tile_w` by `tile_h`.
    pub open spec fn wf(self, tile_w: u32, tile_h: u32) -> bool {
        self.tx0 <= self.tx1 <= tile_w && self.ty0 <= self.ty1 <= tile_h
    }

    /// The number of covered tiles.
    pub open spec fn count_s(self) -> int {
        (self.tx1 - self.tx0) * (self.ty1 - self.ty0)
    }

    /// Width of the rectangle in tiles.
    pub open spec fn width_s(self) -> int {
        self.tx1 - self.tx0
    }
}

/// The (tile, splat) entries of one splat, in row-major order of its
/// rectangle, packed for the intersection sorter.
pub open spec fn splat_entries_s(rect: TileRect, c: u32, tile_w: u32) -> Seq<u64> {
    Seq::new(
        rect.count_s() as nat,
        |k: int|
            pack_s(
                tile_id_s(
                    rect.tx0 + (k % rect.width_s()),
                    rect.ty0 + (k / rect.width_s()),
                    tile_w,
                ),
                c,
            ),
    )
}

/// All entries of the first `c` splats, in compact order.
pub open spec fn entries_up_to_s(rects: Seq<TileRect>, tile_w: u32, c: int) -> Seq<u64>
    decreases c,
{
    if c <= 0 {
        Seq::empty()
    } else {
        entries_up_to_s(rects, tile_w, c - 1) + splat_entries_s(
            rects[c - 1],
            ((c - 1) as u32),
            tile_w,
        )
    }
}

/// The number of entries before splat `c` is the prefix sum of the counts:
/// the scan of the overlap counts allocates exactly the mapper's layout.
pub proof fn lemma_entries_offset(rects: Seq<TileRect>, counts: Seq<u32>, tile_w: u32, c: int)
    requires
        0 <= c <= rects.len(),
        counts.len() == rects.len(),
        forall|i: int| 0 <= i < rects.len() ==> (counts[i] as int) == rects[i].count_s(),
    ensures
        entries_up_to_s(rects, tile_w, c).len() == prefix_total(counts, c),
    decreases c,
{
    if c > 0 {
        lemma_entries_offset(rects, counts, tile_w, c - 1);
    }
}

/// A sequence cut off at a capacity: unchanged when it fits.
pub open spec fn clip_s(s: Seq<u64>, cap: int) -> Seq<u64> {
    if s.len() <= cap {
        s
    } else {
        s.take(cap)
    }
}

/// How clipping interacts with appending one entry.
proof fn lemma_clip_push(s: Seq<u64>, x: u64, cap: int)
    requires
        cap >= 0,
    ensures
        clip_s(s.push(x), cap) == (if s.len() < cap {
            clip_s(s, cap).push(x)
        } else {
            clip_s(s, cap)
        }),
{
    if s.len() < cap {
        assert(clip_s(s.push(x), cap) =~= clip_s(s, cap).push(x));
    } else {
        assert(s.push(x).take(cap) =~= clip_s(s, cap));
    }
}

/// Expand the visible splats into packed (tile, splat) entries: for each
/// splat, in compact order, one entry per covered tile in row-major
/// order; entries past the capacity ceiling are dropped.
pub fn map_intersections(rects: &Vec<TileRect>, tile_w: u32, tile_h: u32, cap: usize) -> (out: Vec<
    u64,
>)
    requires
        rects@.len() < 0x1_0000_0000,
        forall|i: int| 0 <= i < rects@.len() ==> (#[trigger] rects@[i]).wf(tile_w, tile_h),
        (tile_w as int) * (tile_h as int) < 0x1_0000_0000,
    ensures
        out@ == clip_s(entries_up_to_s(rects@, tile_w, rects@.len() as int), cap as int),
        out@.len() <= cap,
        forall|k: int|
            0 <= k < out@.len() ==> key_of(#[trigger] out@[k]) < tile_w * tile_h && payload_of(
                out@[k],
            ) < rects@.len(),
{
    let n = rects.len();
    let mut out: Vec<u64> = Vec::new();
    let mut c: usize = 0;
    while c < n
        invariant
            c <= n,
            n == rects@.len(),
            n < 0x1_0000_0000,
            forall|i: int| 0 <= i < rects@.len() ==> (#[trigger] rects@[i]).wf(tile_w, tile_h),
            (tile_w as int) * (tile_h as int) < 0x1_0000_0000,
            out@ == clip_s(entries_up_to_s(rects@, tile_w, c as int), cap as int),
            out@.len() <= cap,
            forall|k: int|
                0 <= k < out@.len() ==> key_of(#[trigger] out@[k]) < tile_w * tile_h
                    && payload_of(out@[k]) < rects@.len(),
        decreases n - c,
    {
        let rect = rects[c];
        let rw = rect.tx1 - rect.tx0;
        let ghost se = splat_entries_s(rect, c as u32, tile_w);
        let ghost prev = entries_up_to_s(rects@, tile_w, c as int);
        proof {
            assert(se.len() == rect.count_s());
            assert(prev + se.subrange(0, 0) =~= prev);
        }
        let mut ty = rect.ty0;
        while ty < rect.ty1
            invariant
                rect.ty0 <= ty <= rect.ty1,
                rect.wf(tile_w, tile_h),
                rw == rect.tx1 - rect.tx0,
                c < n,
                n == rects@.len(),
                n < 0x1_0000_0000,
                (tile_w as int) * (tile_h as int) < 0x1_0000_0000,
                se == splat_entries_s(rect, c as u32, tile_w),
                prev == entries_up_to_s(rects@, tile_w, c as int),
                out@ == clip_s(prev + se.subrange(0, (ty - rect.ty0) * (rw as int)), cap as int),
                out@.len() <= cap,
                forall|k: int|
                    0 <= k < out@.len() ==> key_of(#[trigger] out@[k]) < tile_w * tile_h
                        && payload_of(out@[k]) < rects@.len(),
            decreases rect.ty1 - ty,
        {
            let mut tx = rect.tx0;
            while tx < rect.tx1
                invariant
                    rect.tx0 <= tx <= rect.tx1,
                    rect.ty0 <= ty < rect.ty1,
                    rect.wf(tile_w, tile_h),
                    rw == rect.tx1 - rect.tx0,
                    c < n,
                    n == rects@.len(),
                    n < 0x1_0000_0000,
                    (tile_w as int) * (tile_h as int) < 0x1_0000_0000,
                    se == splat_entries_s(rect, c as u32, tile_w),
                    prev == entries_up_to_s(rects@, tile_w, c as int),
                    out@ == clip_s(
                        prev + se.subrange(
                            0,
                            (ty - rect.ty0) * (rw as int) + (tx - rect.tx0),
                        ),
                        cap as int,
                    ),
                    out@.len() <= cap,
                    forall|k: int|
                        0 <= k < out@.len() ==> key_of(#[trigger] out@[k]) < tile_w * tile_h
                            && payload_of(out@[k]) < rects@.len(),
                decreases rect.tx1 - tx,
            {
                let ghost idx = (ty - rect.ty0) * (rw as int) + (tx - rect.tx0);
                proof {
                    assert(0 <= idx < se.len() && idx % (rw as int) == (tx - rect.tx0) && idx / (
                    rw as int) == (ty - rect.ty0)) by (nonlinear_arith)
                        requires
                            idx == (ty - rect.ty0) * (rw as int) + (tx - rect.tx0),
                            se.len() == (rect.tx1 - rect.tx0) * (rect.ty1 - rect.ty0),
                            rw == rect.tx1 - rect.tx0,
                            rect.tx0 <= tx < rect.tx1,
                            rect.ty0 <= ty < rect.ty1;
                    assert((ty as int) * (tile_w as int) + (tx as int) < (tile_w as int) * (
                    tile_h as int)) by (nonlinear_arith)
                        requires tx < tile_w && ty < tile_h;
                    assert(se[idx] == pack_s(tile_id_s(tx as int, ty as int, tile_w), c as u32));
                }
                let tid: u32 = ty * tile_w + tx;
                let e = pack(tid, c as u32);
                proof {
                    crate::sort::lemma_pack_unpack(tid, c as u32);
                    lemma_clip_push(prev + se.subrange(0, idx), e, cap as int);
                    assert((prev + se.subrange(0, idx)).push(e) =~= prev + se.subrange(
                        0,
                        idx + 1,
                    ));
                }
                if out.len() < cap {
                    out.push(e);
                } else {
                    proof {
                        assert((prev + se.subrange(0, idx)).len() >= cap);
                    }
                }
                tx += 1;
            }
            proof {
                assert((ty + 1 - rect.ty0) * (rw as int) == (ty - rect.ty0) * (rw as int)
                    + (rw as int)) by (nonlinear_arith);
            }
            ty += 1;
        }
        proof {
            assert(se.subrange(0, (rect.ty1 - rect.ty0) * (rw as int)) =~= se) by {
                assert(se.len() == (rect.tx1 - rect.tx0) * (rect.ty1 - rect.ty0));
                assert((rect.ty1 - rect.ty0) * (rw as int) == (rect.tx1 - rect.tx0) * (rect.ty1
                    - rect.ty0)) by (nonlinear_arith)
                    requires rw == rect.tx1 - rect.tx0;
            }
            assert(entries_up_to_s(rects@, tile_w, c + 1) == prev + se);
        }
        c += 1;
    }
    out
}

/// Tile keys appear in nondecreasing order.
pub open spec fn keys_sorted(s: Seq<u64>) -> bool {
    forall|i: int, j: int| 0 <= i < j < s.len() ==> key_of(s[i]) <= key_of(s[j])
}

/// How many entries carry exactly tile `t`.
pub open spec fn count_eq_s(s: Seq<u64>, t: u32) -> int
    decreases s.len(),
{
    if s.len() == 0 {
        0
    } else {
        count_eq_s(s.drop_last(), t) + if key_of(s.last()) == t {
            1int
        } else {
            0int
        }
    }
}

/// How many entries carry a tile below `t`.
pub open spec fn count_lt_s(s: Seq<u64>, t: u32) -> int
    decreases s.len(),
{
    if s.len() == 0 {
        0
    } else {
        count_lt_s(s.drop_last(), t) + if key_of(s.last()) < t {
            1int
        } else {
            0int
        }
    }
}

/// The counts lie between zero and the length.
pub proof fn lemma_count_bounds(s: Seq<u64>, t: u32)
    ensures
        0 <= count_eq_s(s, t) <= s.len(),
        0 <= count_lt_s(s, t) <= s.len(),
    decreases s.len(),
{
    if s.len() > 0 {
        lemma_count_bounds(s.drop_last(), t);
    }
}

/// Counting below `t + 1` adds the entries at exactly `t`.
pub proof fn lemma_count_lt_succ(s: Seq<u64>, t: u32)
    requires
        t < 0xffff_ffffu32,
    ensures
        count_lt_s(s, (t + 1) as u32) == count_lt_s(s, t) + count_eq_s(s, t),
    decreases s.len(),
{
    if s.len() > 0 {
        lemma_count_lt_succ(s.drop_last(), t);
    }
}

/// Nothing is below tile zero.
pub proof fn lemma_count_lt_zero(s: Seq<u64>)
    ensures
        count_lt_s(s, 0) == 0,
    decreases s.len(),
{
    if s.len() > 0 {
        lemma_count_lt_zero(s.drop_last());
    }
}

/// When every key is below `t`, all entries are counted.
pub proof fn lemma_count_lt_all(s: Seq<u64>, t: u32)
    requires
        forall|k: int| 0 <= k < s.len() ==> key_of(#[trigger] s[k]) < t,
    ensures
        count_lt_s(s, t) == s.len(),
    decreases s.len(),
{
    if s.len() > 0 {
        assert(forall|k: int|
            0 <= k < s.drop_last().len() ==> key_of(#[trigger] s.drop_last()[k]) < t);
        lemma_count_lt_all(s.drop_last(), t);
    }
}

/// In a key-sorted sequence the entries below `t` are exactly the prefix
/// of length `count_lt_s`.
pub proof fn lemma_sorted_boundary(s: Seq<u64>, t: u32)
    requires
        keys_sorted(s),
    ensures
        forall|k: int| 0 <= k < s.len() ==> (key_of(#[trigger] s[k]) < t <==> k < count_lt_s(s, t)),
    decreases s.len(),
{
    lemma_count_bounds(s, t);
    if s.len() > 0 {
        let dl = s.drop_last();
        assert(forall|i: int| 0 <= i < dl.len() ==> dl[i] == s[i]);
        assert(keys_sorted(dl));
        lemma_sorted_boundary(dl, t);
        lemma_count_bounds(dl, t);
        let m = count_lt_s(s, t);
        let md = count_lt_s(dl, t);
        if key_of(s.last()) < t {
            assert forall|k: int| 0 <= k < dl.len() implies key_of(#[trigger] dl[k]) < t by {
                assert(key_of(s[k]) <= key_of(s[s.len() - 1]));
            }
            lemma_count_lt_all(dl, t);
            assert(m == s.len());
            assert forall|k: int|
                0 <= k < s.len() implies (key_of(#[trigger] s[k]) < t <==> k < m) by {
                if k < s.len() - 1 {
                    assert(key_of(dl[k]) < t);
                }
            }
        } else {
            assert(m == md);
            assert forall|k: int|
                0 <= k < s.len() implies (key_of(#[trigger] s[k]) < t <==> k < m) by {
                if k < s.len() - 1 {
                    assert(key_of(dl[k]) < t <==> k < md);
                } else {
                    assert(!(key_of(s[k]) < t));
                    assert(md <= dl.len());
                }
            }
        }
    }
}

/// Compute the per-tile entry counts of a key-sorted intersection list.
fn tile_counts(sorted: &Vec<u64>, num_tiles: u32) -> (counts: Vec<u32>)
    requires
        forall|k: int| 0 <= k < sorted@.len() ==> key_of(#[trigger] sorted@[k]) < num_tiles,
        sorted@.len() < 0x1_0000_0000,
    ensures
        counts@.len() == num_tiles,
        forall|t: int| 0 <= t < num_tiles ==> (counts@[t] as int) == count_eq_s(sorted@, t as u32),
{
    let mut counts: Vec<u32> = Vec::new();
    let mut t: u32 = 0;
    while t < num_tiles
        invariant
            t <= num_tiles,
            counts@.len() == t,
            forall|u: int| 0 <= u < t ==> counts@[u] == 0,
        decreases num_tiles - t,
    {
        counts.push(0);
        t += 1;
    }
    proof {
        assert forall|u: int| 0 <= u < num_tiles implies (counts@[u] as int) == count_eq_s(
            sorted@.subrange(0, 0),
            u as u32,
        ) by {
            assert(sorted@.subrange(0, 0).len() == 0);
        }
    }
    let n = sorted.len();
    let mut i: usize = 0;
    while i < n
        invariant
            i <= n,
            n == sorted@.len(),
            n < 0x1_0000_0000,
            counts@.len() == num_tiles,
            forall|k: int| 0 <= k < sorted@.len() ==> key_of(#[trigger] sorted@[k]) < num_tiles,
            forall|u: int|
                0 <= u < num_tiles ==> (#[trigger] counts@[u] as int) == count_eq_s(
                    sorted@.subrange(0, i as int),
                    u as u32,
                ),
        decreases n - i,
    {
        let key = crate::sort::unpack_key(sorted[i]);
        proof {
            let pre = sorted@.subrange(0, i as int);
            let post = sorted@.subrange(0, (i + 1) as int);
            assert(post.drop_last() =~= pre);
            assert(post.last() == sorted@[i as int]);
            assert forall|u: int| 0 <= u < num_tiles implies #[trigger] count_eq_s(post, u as u32)
                == count_eq_s(pre, u as u32) + (if key_of(sorted@[i as int]) == u {
                1int
            } else {
                0int
            }) by {}
            lemma_count_bounds(pre, key);
        }
        let c = counts[key as usize];
        counts.set(key as usize, c + 1);
        i += 1;
    }
    proof {
        assert(sorted@.subrange(0, n as int) =~= sorted@);
    }
    counts
}

/// Compute the per-tile [start, end) bins of a key-sorted intersection
/// list: tile `t` owns the entries counted below `t` up to those counted
/// below `t` plus its own.
pub fn tile_bins_from_sorted(sorted: &Vec<u64>, num_tiles: u32) -> (bins: Vec<(u32, u32)>)
    requires
        keys_sorted(sorted@),
        forall|k: int| 0 <= k < sorted@.len() ==> key_of(#[trigger] sorted@[k]) < num_tiles,
        sorted@.len() < 0x1_0000_0000,
        num_tiles < 0xffff_ffffu32,
    ensures
        bins@.len() == num_tiles,
        forall|t: int|
            0 <= t < num_tiles ==> ((#[trigger] bins@[t]).0 as int) == count_lt_s(
                sorted@,
                t as u32,
            ) && (bins@[t].1 as int) == count_lt_s(sorted@, t as u32) + count_eq_s(
                sorted@,
                t as u32,
            ),
{
    let counts = tile_counts(sorted, num_tiles);
    let mut bins: Vec<(u32, u32)> = Vec::new();
    let mut acc: u32 = 0;
    let mut t: u32 = 0;
    proof {
        lemma_count_lt_zero(sorted@);
    }
    while t < num_tiles
        invariant
            t <= num_tiles,
            num_tiles < 0xffff_ffffu32,
            bins@.len() == t,
            counts@.len() == num_tiles,
            sorted@.len() < 0x1_0000_0000,
            forall|u: int|
                0 <= u < num_tiles ==> (#[trigger] counts@[u] as int) == count_eq_s(
                    sorted@,
                    u as u32,
                ),
            (acc as int) == count_lt_s(sorted@, t as u32),
            forall|u: int|
                0 <= u < t ==> ((#[trigger] bins@[u]).0 as int) == count_lt_s(sorted@, u as u32)
                    && (bins@[u].1 as int) == count_lt_s(sorted@, u as u32) + count_eq_s(
                    sorted@,
                    u as u32,
                ),
        decreases num_tiles - t,
    {
        let cnt = counts[t as usize];
        proof {
            lemma_count_lt_succ(sorted@, t);
            lemma_count_bounds(sorted@, (t + 1) as u32);
        }
        bins.push((acc, acc + cnt));
        acc = acc + cnt;
        t += 1;
    }
    bins
}

/// The bins partition the sorted intersection list exactly: the first
/// range starts at zero, each range ends where the next begins, the last
/// range ends at the list's length, and the entries of a range all carry
/// that range's tile.
/// An entry inside tile `t`'s counted run carries tile `t`.
proof fn lemma_run_member(s: Seq<u64>, t: u32, k: int)
    requires
        keys_sorted(s),
        t < 0xffff_ffffu32,
        0 <= k < s.len(),
        count_lt_s(s, t) <= k < count_lt_s(s, t) + count_eq_s(s, t),
    ensures
        key_of(s[k]) == t,
{
    lemma_sorted_boundary(s, t);
    lemma_sorted_boundary(s, (t + 1) as u32);
    lemma_count_lt_succ(s, t);
    assert(!(key_of(s[k]) < t));
    assert(key_of(s[k]) < (t + 1) as u32);
}

/// The bins partition the sorted intersection list exactly: the first
/// range starts at zero, each range ends where the next begins, the last
/// range ends at the list's length, and the entries of a range all carry
/// that range's tile.
#[verifier::rlimit(100)]
#[verifier::spinoff_prover]
pub proof fn lemma_bins_partition(s: Seq<u64>, bins: Seq<(u32, u32)>, num_tiles: u32)
    requires
        keys_sorted(s),
        forall|k: int| 0 <= k < s.len() ==> key_of(#[trigger] s[k]) < num_tiles,
        0 < num_tiles < 0xffff_ffffu32,
        bins.len() == num_tiles,
        forall|t: int|
            0 <= t < num_tiles ==> ((#[trigger] bins[t]).0 as int) == count_lt_s(s, t as u32) && (
            bins[t].1 as int) == count_lt_s(s, t as u32) + count_eq_s(s, t as u32),
    ensures
        (bins[0].0 as int) == 0,
        forall|t: int| 0 <= t < num_tiles ==> (#[trigger] bins[t]).0 <= bins[t].1,
        forall|t: int| 0 <= t < num_tiles - 1 ==> (#[trigger] bins[t]).1 == bins[t + 1].0,
        (bins[num_tiles - 1].1 as int) == s.len(),
{
    lemma_count_lt_zero(s);
    assert forall|t: int| 0 <= t < num_tiles implies (#[trigger] bins[t]).0 <= bins[t].1 by {
        lemma_count_bounds(s, t as u32);
    }
    assert forall|t: int| 0 <= t < num_tiles - 1 implies (#[trigger] bins[t]).1 == bins[t + 1].0 by {
        lemma_count_lt_succ(s, t as u32);
    }
    assert((bins[num_tiles - 1].1 as int) == s.len()) by {
        lemma_count_lt_succ(s, (num_tiles - 1) as u32);
        lemma_count_lt_all(s, num_tiles);
        assert(count_lt_s(s, (((num_tiles - 1) as u32) + 1) as u32) == s.len());
    }
}


/// Every entry of a bin's range carries that bin's tile.
pub proof fn lemma_bins_membership(s: Seq<u64>, bins: Seq<(u32, u32)>, num_tiles: u32)
    requires
        keys_sorted(s),
        num_tiles < 0xffff_ffffu32,
        bins.len() == num_tiles,
        forall|t: int|
            0 <= t < num_tiles ==> ((#[trigger] bins[t]).0 as int) == count_lt_s(s, t as u32) && (
            bins[t].1 as int) == count_lt_s(s, t as u32) + count_eq_s(s, t as u32),
    ensures
        forall|t: int, k: int|
            #![trigger bins[t], s[k]]
            0 <= t < num_tiles && bins[t].0 <= k < bins[t].1 ==> key_of(s[k]) == t,
{
    assert forall|t: int, k: int|
        #![trigger bins[t], s[k]]
        0 <= t < num_tiles && bins[t].0 <= k < bins[t].1 implies key_of(s[k]) == t by {
        lemma_count_bounds(s, t as u32);
        lemma_count_lt_succ(s, t as u32);
        lemma_count_bounds(s, ((t as u32) + 1) as u32);
        lemma_run_member(s, t as u32, k);
    }
}

} // verus!
