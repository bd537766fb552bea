//! The forward rasterizer: per-pixel front-to-back alpha compositing.
//!
//! Each pixel walks its tile's bin range in depth order.  For every splat
//! the Gaussian weight is evaluated from the conic and the pixel offset,
//! scaled by the splat's opacity and clamped just below one; the color
//! accumulates `T * alpha * color` and the transmittance shrinks by
//! `1 - alpha`, stopping early once it falls under a small floor.  The
//! pixel's alpha is exactly one minus the final transmittance, and the
//! accumulated color channels never exceed it.

use vstd::prelude::*;
use crate::fixed::{
    fmul, sat_add, sat_sub, exp_neg, fmul_fx, sat_add_fx, sat_sub_fx, exp_neg_fx, tdiv, ONE, HALF,
};
use crate::types::ProjectedSplat;

verus! {

/// The alpha ceiling, just below one, which keeps the backward pass's
/// transmittance reconstruction well defined.
pub const ALPHA_MAX: i64 = 4290672329;

/// The transmittance floor under which a pixel stops compositing.
pub const T_MIN: i64 = 429497;

/// Per-pixel compositing state: accumulated color and transmittance.
#[derive(Clone, Copy, PartialEq, Eq, Structural, Debug)]
pub struct PixState {
    pub r: i64,
    pub g: i64,
    pub b: i64,
    pub t: i64,
}

/// The state every pixel starts from.
pub open spec fn init_state_s() -> PixState {
    PixState { r: 0, g: 0, b: 0, t: ONE }
}

/// A well-formed compositing state: the transmittance lies in the unit
/// interval and each color channel lies between zero and the opacity
/// accumulated so far (one minus the transmittance).
pub open spec fn state_wf_s(st: PixState) -> bool {
    0 <= st.t <= ONE && 0 <= st.r <= ONE - st.t && 0 <= st.g <= ONE - st.t && 0 <= st.b <= ONE
        - st.t
}

/// A splat whose opacity and color channels lie in the unit interval, as
/// the evaluator produces them.
pub open spec fn unit_splat_s(sp: ProjectedSplat) -> bool {
    0 <= sp.opacity <= ONE && 0 <= sp.color_r <= ONE && 0 <= sp.color_g <= ONE && 0 <= sp.color_b
        <= ONE
}

/// The Gaussian exponent at a pixel: half the quadratic form of the conic
/// over the offset from the splat center.
pub open spec fn sigma_s(sp: ProjectedSplat, px: i64, py: i64) -> i64 {
    let dx = sat_sub_fx(px, sp.x);
    let dy = sat_sub_fx(py, sp.y);
    sat_add_fx(
        fmul_fx(
            HALF,
            sat_add_fx(fmul_fx(fmul_fx(dx, dx), sp.conic_a), fmul_fx(fmul_fx(dy, dy), sp.conic_c)),
        ),
        fmul_fx(fmul_fx(dx, dy), sp.conic_b),
    )
}

/// The alpha a splat contributes at a pixel: opacity times the Gaussian
/// weight, clamped at the ceiling; a negative exponent (outside the
/// ellipse's numeric domain) contributes nothing.
pub open spec fn splat_alpha_s(sp: ProjectedSplat, px: i64, py: i64) -> i64 {
    let sigma = sigma_s(sp, px, py);
    if sigma < 0 {
        0
    } else {
        let a0 = fmul_fx(sp.opacity, exp_neg_fx(sigma));
        if a0 > ALPHA_MAX {
            ALPHA_MAX
        } else {
            a0
        }
    }
}

/// One compositing step: blend a splat into the state front to back.
pub open spec fn step_s(st: PixState, sp: ProjectedSplat, px: i64, py: i64) -> PixState {
    let alpha = splat_alpha_s(sp, px, py);
    let w = fmul_fx(st.t, alpha);
    PixState {
        r: sat_add_fx(st.r, fmul_fx(w, sp.color_r)),
        g: sat_add_fx(st.g, fmul_fx(w, sp.color_g)),
        b: sat_add_fx(st.b, fmul_fx(w, sp.color_b)),
        t: fmul_fx(st.t, sat_sub_fx(ONE, alpha)),
    }
}

/// The state after walking the bin entries `start .. k`, stopping once
/// the transmittance falls under the floor.
pub open spec fn walk_s(
    splats: Seq<ProjectedSplat>,
    cids: Seq<u32>,
    start: int,
    px: i64,
    py: i64,
    k: int,
) -> PixState
    decreases k - start,
{
    if k <= start {
        init_state_s()
    } else {
        let prev = walk_s(splats, cids, start, px, py, k - 1);
        if prev.t < T_MIN {
            prev
        } else {
            step_s(prev, splats[cids[k - 1] as int], px, py)
        }
    }
}

/// One past the last entry the walk processed: the terminal index the
/// backward pass replays from.
pub open spec fn fin_s(
    splats: Seq<ProjectedSplat>,
    cids: Seq<u32>,
    start: int,
    px: i64,
    py: i64,
    k: int,
) -> int
    decreases k - start,
{
    if k <= start {
        start
    } else {
        let prev = walk_s(splats, cids, start, px, py, k - 1);
        if prev.t < T_MIN {
            fin_s(splats, cids, start, px, py, k - 1)
        } else {
            k
        }
    }
}

/// Multiplying unit-interval values shrinks: `0 <= a*b <= a`.
pub proof fn lemma_fmul_unit(a: i64, b: i64)
    requires
        0 <= a,
        0 <= b <= ONE,
    ensures
        0 <= fmul_fx(a, b) <= a,
{
    assert(0 <= (a as int) * (b as int) <= (a as int) * (ONE as int)) by (nonlinear_arith)
        requires 0 <= a && 0 <= b <= ONE;
    assert(tdiv((a as int) * (b as int), ONE as int) >= 0);
    assert(tdiv((a as int) * (b as int), ONE as int) <= tdiv(
        (a as int) * (ONE as int),
        ONE as int,
    )) by (nonlinear_arith)
        requires
            0 <= (a as int) * (b as int) <= (a as int) * (ONE as int) && ONE == 4294967296;
    assert(tdiv((a as int) * (ONE as int), ONE as int) == a) by (nonlinear_arith)
        requires ONE == 4294967296;
}

/// The two shares of the transmittance split at a step never exceed the
/// whole: `t*alpha + t*(1-alpha) <= t` in truncating fixed point.
pub proof fn lemma_split_le(t: i64, alpha: i64)
    requires
        0 <= t,
        0 <= alpha <= ONE,
    ensures
        fmul_fx(t, alpha) + fmul_fx(t, sat_sub_fx(ONE, alpha)) <= t,
{
    let x = (t as int) * (alpha as int);
    let y = (t as int) * ((ONE - alpha) as int);
    assert(x >= 0 && y >= 0 && x + y == (t as int) * (ONE as int)) by (nonlinear_arith)
        requires
            0 <= t && 0 <= alpha <= ONE,
            x == (t as int) * (alpha as int),
            y == (t as int) * ((ONE - alpha) as int);
    assert(x / (ONE as int) + y / (ONE as int) <= (x + y) / (ONE as int)) by (nonlinear_arith)
        requires x >= 0 && y >= 0 && ONE == 4294967296;
    assert((x + y) / (ONE as int) == t) by (nonlinear_arith)
        requires x + y == (t as int) * (ONE as int) && ONE == 4294967296;
}

/// A compositing step keeps the state well formed.
pub proof fn lemma_step_wf(st: PixState, sp: ProjectedSplat, px: i64, py: i64)
    requires
        state_wf_s(st),
        unit_splat_s(sp),
    ensures
        state_wf_s(step_s(st, sp, px, py)),
        0 <= step_s(st, sp, px, py).t <= st.t,
{
    let alpha = splat_alpha_s(sp, px, py);
    let sigma = sigma_s(sp, px, py);
    if sigma >= 0 {
        assert(0 <= exp_neg_fx(sigma) <= ONE) by {
            crate::fixed::lemma_exp_neg_range(sigma);
        }
        lemma_fmul_unit(sp.opacity, exp_neg_fx(sigma));
    }
    assert(0 <= alpha <= ONE);
    let w = fmul_fx(st.t, alpha);
    lemma_fmul_unit(st.t, alpha);
    lemma_fmul_unit(st.t, sat_sub_fx(ONE, alpha));
    lemma_fmul_unit(w, sp.color_r);
    lemma_fmul_unit(w, sp.color_g);
    lemma_fmul_unit(w, sp.color_b);
    lemma_split_le(st.t, alpha);
}

/// A splat of zero opacity leaves the compositing state exactly
/// unchanged: it contributes no color and keeps the transmittance.
pub proof fn lemma_step_zero_opacity(st: PixState, sp: ProjectedSplat, px: i64, py: i64)
    requires
        sp.opacity == 0,
        0 <= st.t,
        0 <= st.r,
        0 <= st.g,
        0 <= st.b,
    ensures
        step_s(st, sp, px, py) == st,
{
    let sigma = sigma_s(sp, px, py);
    if sigma >= 0 {
        assert(0 <= exp_neg_fx(sigma) <= ONE) by {
            crate::fixed::lemma_exp_neg_range(sigma);
        }
        assert(fmul_fx(0i64, exp_neg_fx(sigma)) == 0) by {
            lemma_fmul_unit(0i64, exp_neg_fx(sigma));
        }
    }
    let alpha = splat_alpha_s(sp, px, py);
    assert(alpha == 0);
    assert(fmul_fx(st.t, 0i64) == 0) by (nonlinear_arith)
        requires ONE == 4294967296;
    assert(fmul_fx(0i64, sp.color_r) == 0) by (nonlinear_arith)
        requires ONE == 4294967296;
    assert(fmul_fx(0i64, sp.color_g) == 0) by (nonlinear_arith)
        requires ONE == 4294967296;
    assert(fmul_fx(0i64, sp.color_b) == 0) by (nonlinear_arith)
        requires ONE == 4294967296;
    assert(sat_sub_fx(ONE, 0i64) == ONE);
    assert(fmul_fx(st.t, ONE) == st.t) by (nonlinear_arith)
        requires ONE == 4294967296 && i64::MIN <= st.t <= i64::MAX;
}

/// A run of zero-opacity splats contributes nothing: walking any number
/// of them leaves the pixel in its initial state, with full
/// transmittance and no color.
pub proof fn lemma_walk_zero_opacity(
    splats: Seq<ProjectedSplat>,
    cids: Seq<u32>,
    start: int,
    px: i64,
    py: i64,
    k: int,
)
    requires
        start <= k,
        forall|j: int| start <= j < k ==> (#[trigger] cids[j] as int) < splats.len(),
        forall|j: int| start <= j < k ==> splats[#[trigger] cids[j] as int].opacity == 0,
    ensures
        walk_s(splats, cids, start, px, py, k) == init_state_s(),
    decreases k - start,
{
    if k > start {
        lemma_walk_zero_opacity(splats, cids, start, px, py, k - 1);
        let prev = walk_s(splats, cids, start, px, py, k - 1);
        lemma_step_zero_opacity(prev, splats[cids[k - 1] as int], px, py);
    }
}

/// The walk reads only the entries before `k`: id sequences that agree
/// there walk identically.
pub proof fn lemma_walk_prefix(
    splats: Seq<ProjectedSplat>,
    a: Seq<u32>,
    b: Seq<u32>,
    px: i64,
    py: i64,
    k: int,
)
    requires
        forall|i: int| 0 <= i < k ==> #[trigger] a[i] == b[i],
    ensures
        walk_s(splats, a, 0, px, py, k) == walk_s(splats, b, 0, px, py, k),
    decreases k,
{
    if k > 0 {
        lemma_walk_prefix(splats, a, b, px, py, k - 1);
    }
}

/// A zero-opacity splat contributes neither color nor opacity to a
/// pixel: removing its entry from the walked range leaves the pixel's
/// final state exactly unchanged.
pub proof fn lemma_walk_drop_zero_opacity(
    splats: Seq<ProjectedSplat>,
    cids: Seq<u32>,
    j: int,
    px: i64,
    py: i64,
)
    requires
        0 <= j < cids.len(),
        forall|k: int| 0 <= k < cids.len() ==> (#[trigger] cids[k] as int) < splats.len(),
        forall|i: int| 0 <= i < splats.len() ==> unit_splat_s(#[trigger] splats[i]),
        splats[cids[j] as int].opacity == 0,
    ensures
        walk_s(splats, cids, 0, px, py, cids.len() as int) == walk_s(
            splats,
            cids.remove(j),
            0,
            px,
            py,
            cids.len() - 1,
        ),
    decreases cids.len(),
{
    let l = cids.len() as int;
    if j == l - 1 {
        let prev = walk_s(splats, cids, 0, px, py, l - 1);
        lemma_walk_wf(splats, cids, 0, px, py, l - 1);
        if prev.t >= T_MIN {
            lemma_step_zero_opacity(prev, splats[cids[l - 1] as int], px, py);
        }
        assert(forall|i: int| 0 <= i < l - 1 ==> #[trigger] cids[i] == cids.remove(j)[i]);
        lemma_walk_prefix(splats, cids, cids.remove(j), px, py, l - 1);
    } else {
        let pre = cids.take(l - 1);
        assert(forall|i: int| 0 <= i < l - 1 ==> #[trigger] pre[i] == cids[i]);
        assert(forall|k: int| 0 <= k < pre.len() ==> (#[trigger] pre[k] as int) < splats.len());
        assert(splats[pre[j] as int].opacity == 0);
        lemma_walk_drop_zero_opacity(splats, pre, j, px, py);
        lemma_walk_prefix(splats, cids, pre, px, py, l - 1);
        assert(forall|i: int|
            0 <= i < l - 2 ==> #[trigger] pre.remove(j)[i] == cids.remove(j)[i]);
        lemma_walk_prefix(splats, pre.remove(j), cids.remove(j), px, py, l - 2);
        let prev = walk_s(splats, cids.remove(j), 0, px, py, l - 2);
        assert(prev == walk_s(splats, cids, 0, px, py, l - 1));
        assert(cids.remove(j)[l - 2] == cids[l - 1]);
    }
}

/// Every walked state is well formed, and the transmittance never grows.
pub proof fn lemma_walk_wf(
    splats: Seq<ProjectedSplat>,
    cids: Seq<u32>,
    start: int,
    px: i64,
    py: i64,
    k: int,
)
    requires
        forall|j: int| 0 <= j < splats.len() ==> unit_splat_s(#[trigger] splats[j]),
        forall|j: int| start <= j < k ==> (#[trigger] cids[j] as int) < splats.len(),
    ensures
        state_wf_s(walk_s(splats, cids, start, px, py, k)),
    decreases k - start,
{
    if k <= start {
    } else {
        lemma_walk_wf(splats, cids, start, px, py, k - 1);
        let prev = walk_s(splats, cids, start, px, py, k - 1);
        if prev.t >= T_MIN {
            lemma_step_wf(prev, splats[cids[k - 1] as int], px, py);
        }
    }
}

/// Once the transmittance is under the floor, walking further changes
/// nothing.
pub proof fn lemma_walk_frozen(
    splats: Seq<ProjectedSplat>,
    cids: Seq<u32>,
    start: int,
    px: i64,
    py: i64,
    k: int,
    j: int,
)
    requires
        start <= k <= j,
        walk_s(splats, cids, start, px, py, k).t < T_MIN,
    ensures
        walk_s(splats, cids, start, px, py, j) == walk_s(splats, cids, start, px, py, k),
        fin_s(splats, cids, start, px, py, j) == fin_s(splats, cids, start, px, py, k),
    decreases j - k,
{
    if j > k {
        lemma_walk_frozen(splats, cids, start, px, py, k, j - 1);
    }
}

/// One executable compositing step.
fn step(st: PixState, sp: ProjectedSplat, px: i64, py: i64) -> (r: PixState)
    ensures
        r == step_s(st, sp, px, py),
{
    let dx = sat_sub(px, sp.x);
    let dy = sat_sub(py, sp.y);
    let sigma = sat_add(
        fmul(HALF, sat_add(fmul(fmul(dx, dx), sp.conic_a), fmul(fmul(dy, dy), sp.conic_c))),
        fmul(fmul(dx, dy), sp.conic_b),
    );
    let alpha = if sigma < 0 {
        0
    } else {
        let a0 = fmul(sp.opacity, exp_neg(sigma));
        if a0 > ALPHA_MAX {
            ALPHA_MAX
        } else {
            a0
        }
    };
    let w = fmul(st.t, alpha);
    PixState {
        r: sat_add(st.r, fmul(w, sp.color_r)),
        g: sat_add(st.g, fmul(w, sp.color_g)),
        b: sat_add(st.b, fmul(w, sp.color_b)),
        t: fmul(st.t, sat_sub(ONE, alpha)),
    }
}

/// Composite one pixel over its tile's bin range, front to back, stopping
/// at the transmittance floor; returns the final state and one past the
/// last entry walked.  The pixel's alpha is one minus the returned
/// transmittance, which lies in the unit interval.
pub fn composite_pixel(
    splats: &Vec<ProjectedSplat>,
    cids: &Vec<u32>,
    start: usize,
    end: usize,
    px: i64,
    py: i64,
) -> (r: (PixState, usize))
    requires
        start <= end <= cids@.len(),
        forall|k: int| start <= k < end ==> (#[trigger] cids@[k] as int) < splats@.len(),
        forall|j: int| 0 <= j < splats@.len() ==> unit_splat_s(#[trigger] splats@[j]),
    ensures
        r.0 == walk_s(splats@, cids@, start as int, px, py, end as int),
        r.1 == fin_s(splats@, cids@, start as int, px, py, end as int),
        state_wf_s(r.0),
        start <= r.1 <= end,
{
    let mut st = PixState { r: 0, g: 0, b: 0, t: ONE };
    let mut fin = start;
    let mut k = start;
    while k < end && st.t >= T_MIN
        invariant
            start <= fin <= k <= end,
            end <= cids@.len(),
            forall|j: int| start <= j < end ==> (#[trigger] cids@[j] as int) < splats@.len(),
            forall|j: int| 0 <= j < splats@.len() ==> unit_splat_s(#[trigger] splats@[j]),
            st == walk_s(splats@, cids@, start as int, px, py, k as int),
            fin == fin_s(splats@, cids@, start as int, px, py, k as int),
        decreases end - k,
    {
        let c = cids[k] as usize;
        st = step(st, splats[c], px, py);
        fin = k + 1;
        k += 1;
    }
    proof {
        lemma_walk_wf(splats@, cids@, start as int, px, py, k as int);
        if k < end {
            lemma_walk_frozen(splats@, cids@, start as int, px, py, k as int, end as int);
        }
    }
    (st, fin)
}

} // verus!
