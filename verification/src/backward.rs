//! The backward rasterizer and gradient back-projection.
//!
//! Per pixel, the bin range is replayed back to front from the terminal
//! index the forward pass recorded, reconstructing the transmittance by
//! inverting the forward recursion, and the alpha-compositing chain rule
//! accumulates gradients on each walked splat's screen position, conic,
//! color and opacity.  The gather stage then scatters those compact-id
//! gradients to global ids through the stored permutation and chains them
//! through the spherical-harmonic encoding, the opacity nonlinearity and
//! the projection Jacobian onto the primitive parameters.
//!
//! Every stage is pinned to a spec-level mirror of its computation, so
//! the gradient pass is a mathematical function of the scene, the camera,
//! the auxiliary bundle and the loss gradient.  All gradient buffers are
//! dense, zero-initialized arrays over the original primitive count, so a
//! primitive never touched by the forward pass receives exactly zero
//! gradient; and a walked splat of zero opacity also receives exactly
//! zero gradient, because every one of its per-pixel contributions
//! vanishes with its alpha and the opacity chain is scaled by the
//! logistic slope, which is zero there.

use vstd::prelude::*;
use crate::fixed::{
    fmul, fdiv, sat_add, sat_sub, exp_neg, exp_pos, fsqrt, sigmoid, fmul_fx, sat_add_fx,
    sat_sub_fx, ONE, HALF,
};
use crate::types::{
    V3, Q4, M3, Camera, Splats, ProjectedSplat, RenderAux, RenderError, m3_mul_v3, m3_mul_m3,
    m3_transpose, v3_sub, v3_dot, v3_add, q4_add,
};
use crate::project::{normalize_quat, rot_from_quat, quat_norm_sq, NEAR};
use crate::sh::{
    K2, sh_degree_from_coeffs, sh_basis, sh_basis_dx, sh_basis_dy, sh_basis_dz,
    eval_sh_channel_raw, lemma_sh_counts,
};
use crate::fixed::{sigmoid_fx, lemma_fmul_zero, lemma_fmul_zero_l};
use crate::raster::ALPHA_MAX;
use crate::render::validate_s;

verus! {

/// All per-compact-id local gradient buffers of the backward rasterizer.
pub struct LocalGrads {
    pub vr: Vec<i64>,
    pub vg: Vec<i64>,
    pub vb: Vec<i64>,
    pub vo: Vec<i64>,
    pub vx: Vec<i64>,
    pub vy: Vec<i64>,
    pub vca: Vec<i64>,
    pub vcb: Vec<i64>,
    pub vcc: Vec<i64>,
}

impl LocalGrads {
    /// All buffers span the compact id space.
    pub open spec fn wf(self, nv: int) -> bool {
        &&& self.vr@.len() == nv
        &&& self.vg@.len() == nv
        &&& self.vb@.len() == nv
        &&& self.vo@.len() == nv
        &&& self.vx@.len() == nv
        &&& self.vy@.len() == nv
        &&& self.vca@.len() == nv
        &&& self.vcb@.len() == nv
        &&& self.vcc@.len() == nv
    }

    /// Every buffer of compact id `c` except the opacity channel holds
    /// the same value in both bundles.
    pub open spec fn same_except_opacity_at(self, other: LocalGrads, c: int) -> bool {
        &&& self.vr@[c] == other.vr@[c]
        &&& self.vg@[c] == other.vg@[c]
        &&& self.vb@[c] == other.vb@[c]
        &&& self.vx@[c] == other.vx@[c]
        &&& self.vy@[c] == other.vy@[c]
        &&& self.vca@[c] == other.vca@[c]
        &&& self.vcb@[c] == other.vcb@[c]
        &&& self.vcc@[c] == other.vcc@[c]
    }

    /// Every buffer of compact id `c` holds the same value in both
    /// bundles.
    pub open spec fn same_at(self, other: LocalGrads, c: int) -> bool {
        self.same_except_opacity_at(other, c) && self.vo@[c] == other.vo@[c]
    }
}

/// Accumulate into one slot of a gradient buffer, saturating.  This is
/// the single accumulation point of the backward rasterizer; on parallel
/// targets it is the one operation that must be atomic.
fn accum(buf: Vec<i64>, idx: usize, inc: i64) -> (r: Vec<i64>)
    requires
        idx < buf@.len(),
    ensures
        r@ == buf@.update(idx as int, sat_add_fx(buf@[idx as int], inc)),
        r@.len() == buf@.len(),
        inc == 0 ==> r@ == buf@,
{
    let cur = buf[idx];
    let mut out = buf;
    out.set(idx, sat_add(cur, inc));
    proof {
        if inc == 0 {
            assert(out@ =~= buf@);
        }
    }
    out
}

/// The spec-level view of the local gradient buffers.
pub struct GradSeqs {
    pub vr: Seq<i64>,
    pub vg: Seq<i64>,
    pub vb: Seq<i64>,
    pub vo: Seq<i64>,
    pub vx: Seq<i64>,
    pub vy: Seq<i64>,
    pub vca: Seq<i64>,
    pub vcb: Seq<i64>,
    pub vcc: Seq<i64>,
}

/// The view of a gradient bundle.
pub open spec fn lg_view(lg: LocalGrads) -> GradSeqs {
    GradSeqs {
        vr: lg.vr@,
        vg: lg.vg@,
        vb: lg.vb@,
        vo: lg.vo@,
        vx: lg.vx@,
        vy: lg.vy@,
        vca: lg.vca@,
        vcb: lg.vcb@,
        vcc: lg.vcc@,
    }
}

/// The state of the back-to-front replay: the gradient buffers, the
/// transmittance behind the current splat, and the color accumulated
/// behind it.
pub struct BState {
    pub gs: GradSeqs,
    pub t_after: i64,
    pub acc_r: i64,
    pub acc_g: i64,
    pub acc_b: i64,
}

/// One back-to-front gradient step at intersection entry `k`: the same
/// computation, step for step, as the loop body of `backward_pixel`.
#[verifier::opaque]
pub open spec fn bstep_s(
    splats: Seq<ProjectedSplat>,
    cids: Seq<u32>,
    px: i64,
    py: i64,
    t_fin: i64,
    vout: (i64, i64, i64, i64),
    k: int,
    st: BState,
) -> BState {
    let c = cids[k] as int;
    let sp = splats[c];
    let dx = sat_sub(px, sp.x);
    let dy = sat_sub(py, sp.y);
    let sigma = sat_add(
        fmul(HALF, sat_add(fmul(fmul(dx, dx), sp.conic_a), fmul(fmul(dy, dy), sp.conic_c))),
        fmul(fmul(dx, dy), sp.conic_b),
    );
    if sigma >= 0 {
        let w = crate::fixed::exp_neg_fx(sigma);
        let a0 = fmul(sp.opacity, w);
        let alpha = if a0 > ALPHA_MAX {
            ALPHA_MAX
        } else {
            a0
        };
        let one_m_alpha = sat_sub(ONE, alpha);
        let t_cur = if one_m_alpha > 0 {
            fdiv(st.t_after, one_m_alpha)
        } else {
            st.t_after
        };
        let ta = fmul(t_cur, alpha);
        let inc_r = fmul(vout.0, ta);
        let inc_g = fmul(vout.1, ta);
        let inc_b = fmul(vout.2, ta);
        let inv_oma: i64 = if one_m_alpha > 0 {
            one_m_alpha
        } else {
            1
        };
        let v_alpha = sat_add(
            sat_add(
                sat_add(
                    fmul(vout.0, sat_sub(fmul(t_cur, sp.color_r), fdiv(st.acc_r, inv_oma))),
                    fmul(vout.1, sat_sub(fmul(t_cur, sp.color_g), fdiv(st.acc_g, inv_oma))),
                ),
                fmul(vout.2, sat_sub(fmul(t_cur, sp.color_b), fdiv(st.acc_b, inv_oma))),
            ),
            fmul(vout.3, fdiv(t_fin, inv_oma)),
        );
        let inc_o = fmul(v_alpha, w);
        let v_sigma = sat_sub(0, fmul(fmul(v_alpha, sp.opacity), w));
        let inc_ca = fmul(v_sigma, fmul(HALF, fmul(dx, dx)));
        let inc_cb = fmul(v_sigma, fmul(dx, dy));
        let inc_cc = fmul(v_sigma, fmul(HALF, fmul(dy, dy)));
        let inc_x = sat_sub(0, fmul(v_sigma, sat_add(fmul(sp.conic_a, dx), fmul(sp.conic_b, dy))));
        let inc_y = sat_sub(0, fmul(v_sigma, sat_add(fmul(sp.conic_c, dy), fmul(sp.conic_b, dx))));
        BState {
            gs: GradSeqs {
                vr: st.gs.vr.update(c, sat_add(st.gs.vr[c], inc_r)),
                vg: st.gs.vg.update(c, sat_add(st.gs.vg[c], inc_g)),
                vb: st.gs.vb.update(c, sat_add(st.gs.vb[c], inc_b)),
                vo: st.gs.vo.update(c, sat_add(st.gs.vo[c], inc_o)),
                vx: st.gs.vx.update(c, sat_add(st.gs.vx[c], inc_x)),
                vy: st.gs.vy.update(c, sat_add(st.gs.vy[c], inc_y)),
                vca: st.gs.vca.update(c, sat_add(st.gs.vca[c], inc_ca)),
                vcb: st.gs.vcb.update(c, sat_add(st.gs.vcb[c], inc_cb)),
                vcc: st.gs.vcc.update(c, sat_add(st.gs.vcc[c], inc_cc)),
            },
            t_after: t_cur,
            acc_r: sat_add(st.acc_r, fmul(ta, sp.color_r)),
            acc_g: sat_add(st.acc_g, fmul(ta, sp.color_g)),
            acc_b: sat_add(st.acc_b, fmul(ta, sp.color_b)),
        }
    } else {
        st
    }
}

/// The state after replaying entries `hi - 1` down to `lo`.
pub open spec fn bpart_s(
    splats: Seq<ProjectedSplat>,
    cids: Seq<u32>,
    px: i64,
    py: i64,
    t_fin: i64,
    vout: (i64, i64, i64, i64),
    lo: int,
    hi: int,
    st: BState,
) -> BState
    decreases hi - lo,
{
    if hi <= lo {
        st
    } else {
        bpart_s(splats, cids, px, py, t_fin, vout, lo, hi - 1, bstep_s(splats, cids, px, py, t_fin, vout, hi - 1, st))
    }
}

/// Replaying down to `lo` is one step at `lo` after replaying down to
/// `lo + 1`.
proof fn lemma_bpart_unfold_low(
    splats: Seq<ProjectedSplat>,
    cids: Seq<u32>,
    px: i64,
    py: i64,
    t_fin: i64,
    vout: (i64, i64, i64, i64),
    lo: int,
    hi: int,
    st: BState,
)
    requires
        lo < hi,
    ensures
        bpart_s(splats, cids, px, py, t_fin, vout, lo, hi, st) == bstep_s(
            splats,
            cids,
            px,
            py,
            t_fin,
            vout,
            lo,
            bpart_s(splats, cids, px, py, t_fin, vout, lo + 1, hi, st),
        ),
    decreases hi - lo,
{
    if hi - 1 > lo {
        lemma_bpart_unfold_low(
            splats,
            cids,
            px,
            py,
            t_fin,
            vout,
            lo,
            hi - 1,
            bstep_s(splats, cids, px, py, t_fin, vout, hi - 1, st),
        );
    } else {
        let stepped = bstep_s(splats, cids, px, py, t_fin, vout, lo, st);
        assert(bpart_s(splats, cids, px, py, t_fin, vout, lo, hi, st) == bpart_s(
            splats,
            cids,
            px,
            py,
            t_fin,
            vout,
            lo,
            lo,
            stepped,
        ));
        assert(bpart_s(splats, cids, px, py, t_fin, vout, lo, lo, stepped) == stepped);
        assert(bpart_s(splats, cids, px, py, t_fin, vout, lo + 1, hi, st) == st);
    }
}

/// The gradient buffers after one pixel's whole replay, starting from
/// the recorded final transmittance with no color behind the last splat.
pub open spec fn bpixel_s(
    splats: Seq<ProjectedSplat>,
    cids: Seq<u32>,
    px: i64,
    py: i64,
    t_fin: i64,
    vout: (i64, i64, i64, i64),
    start: int,
    fin: int,
    gs: GradSeqs,
) -> GradSeqs {
    bpart_s(
        splats,
        cids,
        px,
        py,
        t_fin,
        vout,
        start,
        fin,
        BState { gs, t_after: t_fin, acc_r: 0, acc_g: 0, acc_b: 0 },
    ).gs
}

/// Replay one pixel's walked range back to front and accumulate the
/// local gradients of every walked splat.
///
/// `t_fin` is the pixel's final transmittance from the forward pass, and
/// `vout` the loss gradient of the pixel (red, green, blue, alpha).
/// Splats outside the replayed range are untouched, and a walked splat of
/// zero opacity receives only an opacity-channel update, never color,
/// position or conic.
#[verifier::rlimit(100)]
fn backward_pixel(
    splats: &Vec<ProjectedSplat>,
    cids: &Vec<u32>,
    lg: LocalGrads,
    start: usize,
    fin: usize,
    px: i64,
    py: i64,
    t_fin: i64,
    vout: (i64, i64, i64, i64),
) -> (r: LocalGrads)
    requires
        lg.wf(splats@.len() as int),
        start <= fin <= cids@.len(),
        forall|k: int| 0 <= k < cids@.len() ==> (#[trigger] cids@[k] as int) < splats@.len(),
    ensures
        r.wf(splats@.len() as int),
        forall|j: int|
            0 <= j < splats@.len() && (forall|k: int|
                start <= k < fin ==> (#[trigger] cids@[k] as int) != j) ==> #[trigger] r.same_at(
                lg,
                j,
            ),
        forall|j: int|
            0 <= j < splats@.len() && (#[trigger] splats@[j]).opacity == 0 ==> r.same_except_opacity_at(
                lg,
                j,
            ),
        lg_view(r) == bpixel_s(splats@, cids@, px, py, t_fin, vout, start as int, fin as int, lg_view(lg)),
{
    let ghost st0 = BState { gs: lg_view(lg), t_after: t_fin, acc_r: 0, acc_g: 0, acc_b: 0 };
    let mut g = lg;
    let mut t_after: i64 = t_fin;
    let mut acc_r: i64 = 0;
    let mut acc_g: i64 = 0;
    let mut acc_b: i64 = 0;
    let mut k = fin;
    while k > start
        invariant
            start <= k <= fin <= cids@.len(),
            forall|j: int| 0 <= j < cids@.len() ==> (#[trigger] cids@[j] as int) < splats@.len(),
            g.wf(splats@.len() as int),
            st0 == (BState { gs: lg_view(lg), t_after: t_fin, acc_r: 0, acc_g: 0, acc_b: 0 }),
            (BState { gs: lg_view(g), t_after: t_after, acc_r: acc_r, acc_g: acc_g, acc_b: acc_b })
                == bpart_s(splats@, cids@, px, py, t_fin, vout, k as int, fin as int, st0),
            forall|j: int|
                0 <= j < splats@.len() && (forall|i: int|
                    start <= i < fin ==> (#[trigger] cids@[i] as int) != j) ==> #[trigger] g.same_at(
                    lg,
                    j,
                ),
            forall|j: int|
                0 <= j < splats@.len() && (#[trigger] splats@[j]).opacity == 0
                    ==> #[trigger] g.same_except_opacity_at(lg, j),
        decreases k,
    {
        k = k - 1;
        let ghost st_pre = BState {
            gs: lg_view(g),
            t_after: t_after,
            acc_r: acc_r,
            acc_g: acc_g,
            acc_b: acc_b,
        };
        proof {
            lemma_bpart_unfold_low(splats@, cids@, px, py, t_fin, vout, k as int, fin as int, st0);
        }
        let c = cids[k] as usize;
        let sp = splats[c];
        let dx = sat_sub(px, sp.x);
        let dy = sat_sub(py, sp.y);
        let sigma = sat_add(
            fmul(HALF, sat_add(fmul(fmul(dx, dx), sp.conic_a), fmul(fmul(dy, dy), sp.conic_c))),
            fmul(fmul(dx, dy), sp.conic_b),
        );
        if sigma >= 0 {
            let w = exp_neg(sigma);
            let a0 = fmul(sp.opacity, w);
            let alpha = if a0 > ALPHA_MAX {
                ALPHA_MAX
            } else {
                a0
            };
            let one_m_alpha = sat_sub(ONE, alpha);
            // one_m_alpha >= ONE - ALPHA_MAX > 0, so the inversion divides
            // by a positive value.
            let t_cur = if one_m_alpha > 0 {
                fdiv(t_after, one_m_alpha)
            } else {
                t_after
            };
            // d(color)/d(this splat's color channel) = T * alpha
            let ta = fmul(t_cur, alpha);
            let inc_r = fmul(vout.0, ta);
            let inc_g = fmul(vout.1, ta);
            let inc_b = fmul(vout.2, ta);
            // d(color)/d(alpha) per channel: T*c - acc/(1-alpha);
            // d(final alpha)/d(alpha) = t_fin/(1-alpha)
            let inv_oma: i64 = if one_m_alpha > 0 {
                one_m_alpha
            } else {
                1
            };
            let v_alpha = sat_add(
                sat_add(
                    sat_add(
                        fmul(vout.0, sat_sub(fmul(t_cur, sp.color_r), fdiv(acc_r, inv_oma))),
                        fmul(vout.1, sat_sub(fmul(t_cur, sp.color_g), fdiv(acc_g, inv_oma))),
                    ),
                    fmul(vout.2, sat_sub(fmul(t_cur, sp.color_b), fdiv(acc_b, inv_oma))),
                ),
                fmul(vout.3, fdiv(t_fin, inv_oma)),
            );
            // alpha = opacity * w, w = exp(-sigma)
            let inc_o = fmul(v_alpha, w);
            let v_sigma = sat_sub(0, fmul(fmul(v_alpha, sp.opacity), w));
            let inc_ca = fmul(v_sigma, fmul(HALF, fmul(dx, dx)));
            let inc_cb = fmul(v_sigma, fmul(dx, dy));
            let inc_cc = fmul(v_sigma, fmul(HALF, fmul(dy, dy)));
            let inc_x = sat_sub(
                0,
                fmul(v_sigma, sat_add(fmul(sp.conic_a, dx), fmul(sp.conic_b, dy))),
            );
            let inc_y = sat_sub(
                0,
                fmul(v_sigma, sat_add(fmul(sp.conic_c, dy), fmul(sp.conic_b, dx))),
            );
            let ghost gpre = g;
            proof {
                if sp.opacity == 0 {
                    crate::fixed::lemma_exp_neg_range(sigma);
                    crate::raster::lemma_fmul_unit(0i64, w);
                    assert(a0 == 0 && alpha == 0);
                    crate::fixed::lemma_fmul_zero(t_cur);
                    assert(ta == 0);
                    crate::fixed::lemma_fmul_zero(vout.0);
                    crate::fixed::lemma_fmul_zero(vout.1);
                    crate::fixed::lemma_fmul_zero(vout.2);
                    assert(inc_r == 0 && inc_g == 0 && inc_b == 0);
                    crate::fixed::lemma_fmul_zero(v_alpha);
                    assert(fmul_fx(v_alpha, sp.opacity) == 0);
                    crate::fixed::lemma_fmul_zero_l(w);
                    assert(v_sigma == 0);
                    crate::fixed::lemma_fmul_zero_l(fmul(HALF, fmul(dx, dx)));
                    crate::fixed::lemma_fmul_zero_l(fmul(dx, dy));
                    crate::fixed::lemma_fmul_zero_l(fmul(HALF, fmul(dy, dy)));
                    crate::fixed::lemma_fmul_zero_l(
                        sat_add(fmul(sp.conic_a, dx), fmul(sp.conic_b, dy)),
                    );
                    crate::fixed::lemma_fmul_zero_l(
                        sat_add(fmul(sp.conic_c, dy), fmul(sp.conic_b, dx)),
                    );
                    assert(inc_ca == 0 && inc_cb == 0 && inc_cc == 0 && inc_x == 0 && inc_y == 0);
                }
            }
            g = LocalGrads {
                vr: accum(g.vr, c, inc_r),
                vg: accum(g.vg, c, inc_g),
                vb: accum(g.vb, c, inc_b),
                vo: accum(g.vo, c, inc_o),
                vx: accum(g.vx, c, inc_x),
                vy: accum(g.vy, c, inc_y),
                vca: accum(g.vca, c, inc_ca),
                vcb: accum(g.vcb, c, inc_cb),
                vcc: accum(g.vcc, c, inc_cc),
            };
            proof {
                assert forall|j: int|
                    0 <= j < splats@.len() && (forall|i: int|
                        start <= i < fin ==> (#[trigger] cids@[i] as int) != j)
                    implies #[trigger] g.same_at(lg, j) by {
                    assert(gpre.same_at(lg, j));
                    assert((cids@[k as int] as int) != j);
                }
                assert forall|j: int|
                    0 <= j < splats@.len() && (#[trigger] splats@[j]).opacity == 0
                    implies #[trigger] g.same_except_opacity_at(lg, j) by {
                    assert(gpre.same_except_opacity_at(lg, j));
                    if j == c as int {
                        assert(g.vr@ == gpre.vr@);
                        assert(g.vg@ == gpre.vg@);
                        assert(g.vb@ == gpre.vb@);
                        assert(g.vx@ == gpre.vx@);
                        assert(g.vy@ == gpre.vy@);
                        assert(g.vca@ == gpre.vca@);
                        assert(g.vcb@ == gpre.vcb@);
                        assert(g.vcc@ == gpre.vcc@);
                    }
                }
            }
            // accumulated color behind the current splat, and the
            // transmittance in front of it
            acc_r = sat_add(acc_r, fmul(ta, sp.color_r));
            acc_g = sat_add(acc_g, fmul(ta, sp.color_g));
            acc_b = sat_add(acc_b, fmul(ta, sp.color_b));
            t_after = t_cur;
        }
        proof {
            reveal(bstep_s);
            assert((BState {
                gs: lg_view(g),
                t_after: t_after,
                acc_r: acc_r,
                acc_g: acc_g,
                acc_b: acc_b,
            }) == bstep_s(splats@, cids@, px, py, t_fin, vout, k as int, st_pre));
        }
    }
    g
}


/// A zero-initialized gradient buffer.
fn zeros_vec(n: usize) -> (r: Vec<i64>)
    ensures
        r@.len() == n,
        forall|i: int| 0 <= i < n ==> #[trigger] r@[i] == 0,
{
    let mut out: Vec<i64> = Vec::new();
    let mut i: usize = 0;
    while i < n
        invariant
            i <= n,
            out@.len() == i,
            forall|j: int| 0 <= j < i ==> #[trigger] out@[j] == 0,
        decreases n - i,
    {
        out.push(0);
        i += 1;
    }
    out
}

/// The zero gradient buffers over `nv` compact ids.
pub open spec fn zero_gs(nv: int) -> GradSeqs {
    GradSeqs {
        vr: Seq::new(nv as nat, |i: int| 0i64),
        vg: Seq::new(nv as nat, |i: int| 0i64),
        vb: Seq::new(nv as nat, |i: int| 0i64),
        vo: Seq::new(nv as nat, |i: int| 0i64),
        vx: Seq::new(nv as nat, |i: int| 0i64),
        vy: Seq::new(nv as nat, |i: int| 0i64),
        vca: Seq::new(nv as nat, |i: int| 0i64),
        vcb: Seq::new(nv as nat, |i: int| 0i64),
        vcc: Seq::new(nv as nat, |i: int| 0i64),
    }
}

/// One pixel's contribution to the local gradients: the same parameter
/// derivation, step for step, as the loop body of `backward_raster`.
#[verifier::opaque]
pub open spec fn braster_px_s(
    splats: Seq<ProjectedSplat>,
    cids: Seq<u32>,
    bins: Seq<(u32, u32)>,
    fins: Seq<u32>,
    out_img: Seq<i64>,
    v_output: Seq<i64>,
    tile_w: u32,
    img_w: u32,
    p: int,
    gs: GradSeqs,
) -> GradSeqs {
    let ix = p % (img_w as int);
    let iy = p / (img_w as int);
    let tile = (iy / 16) * (tile_w as int) + ix / 16;
    let b = bins[tile];
    let start = b.0 as int;
    let end = b.1 as int;
    let f0 = fins[p] as int;
    let fin = if f0 < start {
        start
    } else if f0 > end {
        end
    } else {
        f0
    };
    let px = crate::render::center_s(ix);
    let py = crate::render::center_s(iy);
    let t_fin = sat_sub(ONE, out_img[4 * p + 3]);
    let vout = (v_output[4 * p], v_output[4 * p + 1], v_output[4 * p + 2], v_output[4 * p + 3]);
    bpixel_s(splats, cids, px, py, t_fin, vout, start, fin, gs)
}

/// The local gradients after replaying the first `p` pixels.
pub open spec fn braster_s(
    splats: Seq<ProjectedSplat>,
    cids: Seq<u32>,
    bins: Seq<(u32, u32)>,
    fins: Seq<u32>,
    out_img: Seq<i64>,
    v_output: Seq<i64>,
    tile_w: u32,
    img_w: u32,
    p: int,
    gs0: GradSeqs,
) -> GradSeqs
    decreases p,
{
    if p <= 0 {
        gs0
    } else {
        braster_px_s(
            splats,
            cids,
            bins,
            fins,
            out_img,
            v_output,
            tile_w,
            img_w,
            p - 1,
            braster_s(splats, cids, bins, fins, out_img, v_output, tile_w, img_w, p - 1, gs0),
        )
    }
}

/// The backward rasterizer: replay every pixel back to front from its
/// recorded terminal index and accumulate the per-compact-id local
/// gradients.  A splat referenced by no intersection entry keeps zero in
/// every buffer; a splat of zero opacity keeps zero in every buffer but
/// the opacity channel.
#[verifier::rlimit(100)]
fn backward_raster(
    splats: &Vec<ProjectedSplat>,
    cids: &Vec<u32>,
    bins: &Vec<(u32, u32)>,
    fins: &Vec<u32>,
    out_img: &Vec<i64>,
    v_output: &Vec<i64>,
    tile_w: u32,
    tile_h: u32,
    img_w: u32,
    img_h: u32,
) -> (r: LocalGrads)
    requires
        1 <= img_w <= 32768,
        1 <= img_h <= 32768,
        tile_w <= 2048,
        tile_h <= 2048,
        (tile_w as int) * 16 >= img_w,
        (tile_h as int) * 16 >= img_h,
        bins@.len() == (tile_w as int) * (tile_h as int),
        forall|t: int| 0 <= t < bins@.len() ==> (#[trigger] bins@[t]).0 <= bins@[t].1 <= cids@.len(),
        forall|k: int| 0 <= k < cids@.len() ==> (#[trigger] cids@[k] as int) < splats@.len(),
        fins@.len() == (img_h as int) * (img_w as int),
        out_img@.len() == 4 * ((img_h as int) * (img_w as int)),
        v_output@.len() == 4 * ((img_h as int) * (img_w as int)),
    ensures
        r.wf(splats@.len() as int),
        forall|j: int|
            0 <= j < splats@.len() && (forall|k: int|
                0 <= k < cids@.len() ==> (#[trigger] cids@[k] as int) != j) ==> #[trigger] r.same_at(
                r,
                j,
            ) && r.vr@[j] == 0 && r.vg@[j] == 0 && r.vb@[j] == 0 && r.vo@[j] == 0 && r.vx@[j] == 0
                && r.vy@[j] == 0 && r.vca@[j] == 0 && r.vcb@[j] == 0 && r.vcc@[j] == 0,
        forall|j: int|
            0 <= j < splats@.len() && (#[trigger] splats@[j]).opacity == 0 ==> r.vr@[j] == 0
                && r.vg@[j] == 0 && r.vb@[j] == 0 && r.vx@[j] == 0 && r.vy@[j] == 0 && r.vca@[j]
                == 0 && r.vcb@[j] == 0 && r.vcc@[j] == 0,
        lg_view(r) == braster_s(
            splats@,
            cids@,
            bins@,
            fins@,
            out_img@,
            v_output@,
            tile_w,
            img_w,
            (img_h as int) * (img_w as int),
            zero_gs(splats@.len() as int),
        ),
{
    let nv = splats.len();
    let mut g = LocalGrads {
        vr: zeros_vec(nv),
        vg: zeros_vec(nv),
        vb: zeros_vec(nv),
        vo: zeros_vec(nv),
        vx: zeros_vec(nv),
        vy: zeros_vec(nv),
        vca: zeros_vec(nv),
        vcb: zeros_vec(nv),
        vcc: zeros_vec(nv),
    };
    let ghost g0 = g;
    let w = img_w as usize;
    let h = img_h as usize;
    proof {
        assert((img_h as int) * (img_w as int) <= 32768 * 32768) by (nonlinear_arith)
            requires 1 <= img_w <= 32768 && 1 <= img_h <= 32768;
        assert(g.vr@ =~= Seq::new(nv as nat, |i: int| 0i64));
        assert(g.vg@ =~= Seq::new(nv as nat, |i: int| 0i64));
        assert(g.vb@ =~= Seq::new(nv as nat, |i: int| 0i64));
        assert(g.vo@ =~= Seq::new(nv as nat, |i: int| 0i64));
        assert(g.vx@ =~= Seq::new(nv as nat, |i: int| 0i64));
        assert(g.vy@ =~= Seq::new(nv as nat, |i: int| 0i64));
        assert(g.vca@ =~= Seq::new(nv as nat, |i: int| 0i64));
        assert(g.vcb@ =~= Seq::new(nv as nat, |i: int| 0i64));
        assert(g.vcc@ =~= Seq::new(nv as nat, |i: int| 0i64));
        assert(lg_view(g) == zero_gs(nv as int));
    }
    let npix = h * w;
    let mut p: usize = 0;
    while p < npix
        invariant
            p <= npix,
            npix == (img_h as int) * (img_w as int),
            npix <= 32768 * 32768,
            w == img_w,
            h == img_h,
            1 <= img_w <= 32768,
            1 <= img_h <= 32768,
            tile_w <= 2048,
            tile_h <= 2048,
            (tile_w as int) * 16 >= img_w,
            (tile_h as int) * 16 >= img_h,
            bins@.len() == (tile_w as int) * (tile_h as int),
            forall|t: int|
                0 <= t < bins@.len() ==> (#[trigger] bins@[t]).0 <= bins@[t].1 <= cids@.len(),
            forall|k: int| 0 <= k < cids@.len() ==> (#[trigger] cids@[k] as int) < splats@.len(),
            fins@.len() == npix,
            out_img@.len() == 4 * (npix as int),
            v_output@.len() == 4 * (npix as int),
            g.wf(splats@.len() as int),
            g0.wf(splats@.len() as int),
            forall|j: int| 0 <= j < splats@.len() ==> g0.vr@[j] == 0 && g0.vg@[j] == 0
                && g0.vb@[j] == 0 && (#[trigger] g0.vo@[j]) == 0 && g0.vx@[j] == 0 && g0.vy@[j]
                == 0 && g0.vca@[j] == 0 && g0.vcb@[j] == 0 && g0.vcc@[j] == 0,
            forall|j: int|
                0 <= j < splats@.len() && (forall|k: int|
                    0 <= k < cids@.len() ==> (#[trigger] cids@[k] as int) != j)
                    ==> #[trigger] g.same_at(g0, j),
            forall|j: int|
                0 <= j < splats@.len() && (#[trigger] splats@[j]).opacity == 0
                    ==> #[trigger] g.same_except_opacity_at(g0, j),
            lg_view(g) == braster_s(
                splats@,
                cids@,
                bins@,
                fins@,
                out_img@,
                v_output@,
                tile_w,
                img_w,
                p as int,
                zero_gs(splats@.len() as int),
            ),
        decreases npix - p,
    {
        let ix = p % w;
        let iy = p / w;
        proof {
            assert(iy < img_h) by (nonlinear_arith)
                requires
                    (p as int) < (img_h as int) * (img_w as int),
                    w == img_w,
                    img_w >= 1,
                    iy == (p as int) / (img_w as int),
                    ix == (p as int) % (img_w as int);
            assert((ix as int) / 16 < tile_w && (iy as int) / 16 < tile_h) by (nonlinear_arith)
                requires
                    (ix as int) < img_w,
                    (iy as int) < img_h,
                    (tile_w as int) * 16 >= img_w,
                    (tile_h as int) * 16 >= img_h;
            assert(((iy as int) / 16) * (tile_w as int) + (ix as int) / 16 < (tile_w as int) * (
            tile_h as int)) by (nonlinear_arith)
                requires (ix as int) / 16 < tile_w && (iy as int) / 16 < tile_h;
            assert((tile_w as int) * (tile_h as int) <= 2048 * 2048) by (nonlinear_arith)
                requires tile_w <= 2048 && tile_h <= 2048;
        }
        let tile = (iy / 16) * (tile_w as usize) + ix / 16;
        let b = bins[tile];
        let start = b.0 as usize;
        let end = b.1 as usize;
        let f0 = fins[p] as usize;
        let fin = if f0 < start {
            start
        } else if f0 > end {
            end
        } else {
            f0
        };
        let px = (ix as i64) * 4294967296i64 + 2147483648i64;
        let py = (iy as i64) * 4294967296i64 + 2147483648i64;
        let t_fin = sat_sub(ONE, out_img[4 * p + 3]);
        let vout = (v_output[4 * p], v_output[4 * p + 1], v_output[4 * p + 2], v_output[4 * p
            + 3]);
        let ghost gpre = g;
        g = backward_pixel(splats, cids, g, start, fin, px, py, t_fin, vout);
        proof {
            assert forall|j: int|
                0 <= j < splats@.len() && (forall|k: int|
                    0 <= k < cids@.len() ==> (#[trigger] cids@[k] as int) != j)
                implies #[trigger] g.same_at(g0, j) by {
                assert(gpre.same_at(g0, j));
                assert(g.same_at(gpre, j));
            }
            assert forall|j: int|
                0 <= j < splats@.len() && (#[trigger] splats@[j]).opacity == 0
                implies #[trigger] g.same_except_opacity_at(g0, j) by {
                assert(gpre.same_except_opacity_at(g0, j));
                assert(g.same_except_opacity_at(gpre, j));
            }
            reveal(braster_px_s);
            assert(crate::render::center_s(ix as int) == px);
            assert(crate::render::center_s(iy as int) == py);
            assert(lg_view(g) == braster_px_s(
                splats@,
                cids@,
                bins@,
                fins@,
                out_img@,
                v_output@,
                tile_w,
                img_w,
                p as int,
                lg_view(gpre),
            ));
        }
        p += 1;
    }
    proof {
        assert forall|j: int|
            0 <= j < splats@.len() && (forall|k: int|
                0 <= k < cids@.len() ==> (#[trigger] cids@[k] as int) != j) implies g.vr@[j] == 0
            && g.vg@[j] == 0 && g.vb@[j] == 0 && g.vo@[j] == 0 && g.vx@[j] == 0 && g.vy@[j] == 0
            && g.vca@[j] == 0 && g.vcb@[j] == 0 && g.vcc@[j] == 0 by {
            assert(g.same_at(g0, j));
        }
        assert forall|j: int|
            0 <= j < splats@.len() && (#[trigger] splats@[j]).opacity == 0 implies g.vr@[j] == 0
            && g.vg@[j] == 0 && g.vb@[j] == 0 && g.vx@[j] == 0 && g.vy@[j] == 0 && g.vca@[j] == 0
            && g.vcb@[j] == 0 && g.vcc@[j] == 0 by {
            assert(g.same_except_opacity_at(g0, j));
        }
    }
    g
}


/// The whole gradient back-projection of one splat, as a spec value: the
/// same computation, step for step, as the executable
/// `project_backward_one`.
#[verifier::opaque]
pub open spec fn project_backward_one_s(
    cam: Camera,
    mean: V3,
    log_scale: V3,
    quat: Q4,
    vx: i64,
    vy: i64,
    vca: i64,
    vcb: i64,
    vcc: i64,
) -> (V3, V3, Q4) {
    let zero3 = V3 { x: 0, y: 0, z: 0 };
    let zeroq = Q4 { w: 0, x: 0, y: 0, z: 0 };
    if vx == 0 && vy == 0 && vca == 0 && vcb == 0 && vcc == 0 {
        (zero3, zero3, zeroq)
    } else {
    // Recompute the forward projection, as the projector does.
    let p = m3_mul_v3(cam.rot, v3_sub(mean, cam.pos));
    let nq = normalize_quat(quat);
        if p.z <= NEAR || !nq.1 {
        (zero3, zero3, zeroq)
    } else {
    let depth = p.z;
    let iz = fdiv(ONE, depth);
    let xnd = fmul(p.x, iz);
    let ynd = fmul(p.y, iz);
    let rotm = rot_from_quat(nq.0);
    let s0 = exp_pos(log_scale.x);
    let s1 = exp_pos(log_scale.y);
    let s2 = exp_pos(log_scale.z);
    let r0 = V3 { x: fmul(rotm.m00, s0), y: fmul(rotm.m01, s1), z: fmul(rotm.m02, s2) };
    let r1 = V3 { x: fmul(rotm.m10, s0), y: fmul(rotm.m11, s1), z: fmul(rotm.m12, s2) };
    let r2 = V3 { x: fmul(rotm.m20, s0), y: fmul(rotm.m21, s1), z: fmul(rotm.m22, s2) };
    let sig0 = V3 { x: v3_dot(r0, r0), y: v3_dot(r0, r1), z: v3_dot(r0, r2) };
    let sig1 = V3 { x: sig0.y, y: v3_dot(r1, r1), z: v3_dot(r1, r2) };
    let sig2 = V3 { x: sig0.z, y: sig1.z, z: v3_dot(r2, r2) };
    let fxiz = fmul(cam.fx, iz);
    let fyiz = fmul(cam.fy, iz);
    let j02 = sat_sub(0, fmul(fmul(cam.fx, xnd), iz));
    let j12 = sat_sub(0, fmul(fmul(cam.fy, ynd), iz));
    let t0 = V3 {
        x: sat_add(fmul(fxiz, cam.rot.m00), fmul(j02, cam.rot.m20)),
        y: sat_add(fmul(fxiz, cam.rot.m01), fmul(j02, cam.rot.m21)),
        z: sat_add(fmul(fxiz, cam.rot.m02), fmul(j02, cam.rot.m22)),
    };
    let t1 = V3 {
        x: sat_add(fmul(fyiz, cam.rot.m10), fmul(j12, cam.rot.m20)),
        y: sat_add(fmul(fyiz, cam.rot.m11), fmul(j12, cam.rot.m21)),
        z: sat_add(fmul(fyiz, cam.rot.m12), fmul(j12, cam.rot.m22)),
    };
    let u0 = V3 { x: v3_dot(sig0, t0), y: v3_dot(sig1, t0), z: v3_dot(sig2, t0) };
    let u1 = V3 { x: v3_dot(sig0, t1), y: v3_dot(sig1, t1), z: v3_dot(sig2, t1) };
    let ca = v3_dot(t0, u0);
    let cb = v3_dot(t0, u1);
    let cc = v3_dot(t1, u1);
    let det = sat_sub(fmul(ca, cc), fmul(cb, cb));
        if det <= 0 || ca <= 0 || cc <= 0 {
        (zero3, zero3, zeroq)
    } else {
    let ia = fdiv(cc, det);
    let ib = sat_sub(0, fdiv(cb, det));
    let ic = fdiv(ca, det);

    // Conic is the inverse of the projected covariance:
    // v_cov = -conic * v_conic * conic, with the off-diagonal halved.
    let vh = fmul(vcb, HALF);
    let cv00 = sat_add(fmul(ia, vca), fmul(ib, vh));
    let cv01 = sat_add(fmul(ia, vh), fmul(ib, vcc));
    let cv10 = sat_add(fmul(ib, vca), fmul(ic, vh));
    let cv11 = sat_add(fmul(ib, vh), fmul(ic, vcc));
    let va = sat_sub(0, sat_add(fmul(cv00, ia), fmul(cv01, ib)));
    let vbm = sat_sub(
        0,
        sat_add(
            sat_add(fmul(cv00, ib), fmul(cv01, ic)),
            sat_add(fmul(cv10, ia), fmul(cv11, ib)),
        ),
    );
    let vc = sat_sub(0, sat_add(fmul(cv10, ib), fmul(cv11, ic)));

    // cov2 = T * cov3 * T^T
    let vt0 = V3 {
        x: sat_add(fmul(fmul(va, K2), u0.x), fmul(vbm, u1.x)),
        y: sat_add(fmul(fmul(va, K2), u0.y), fmul(vbm, u1.y)),
        z: sat_add(fmul(fmul(va, K2), u0.z), fmul(vbm, u1.z)),
    };
    let vt1 = V3 {
        x: sat_add(fmul(fmul(vc, K2), u1.x), fmul(vbm, u0.x)),
        y: sat_add(fmul(fmul(vc, K2), u1.y), fmul(vbm, u0.y)),
        z: sat_add(fmul(fmul(vc, K2), u1.z), fmul(vbm, u0.z)),
    };
    // v_cov3 (full-matrix view) = va t0 t0^T + vb t0 t1^T + vc t1 t1^T
    let vs = M3 {
        m00: sat_add(
            sat_add(fmul(va, fmul(t0.x, t0.x)), fmul(vbm, fmul(t0.x, t1.x))),
            fmul(vc, fmul(t1.x, t1.x)),
        ),
        m01: sat_add(
            sat_add(fmul(va, fmul(t0.x, t0.y)), fmul(vbm, fmul(t0.x, t1.y))),
            fmul(vc, fmul(t1.x, t1.y)),
        ),
        m02: sat_add(
            sat_add(fmul(va, fmul(t0.x, t0.z)), fmul(vbm, fmul(t0.x, t1.z))),
            fmul(vc, fmul(t1.x, t1.z)),
        ),
        m10: sat_add(
            sat_add(fmul(va, fmul(t0.y, t0.x)), fmul(vbm, fmul(t0.y, t1.x))),
            fmul(vc, fmul(t1.y, t1.x)),
        ),
        m11: sat_add(
            sat_add(fmul(va, fmul(t0.y, t0.y)), fmul(vbm, fmul(t0.y, t1.y))),
            fmul(vc, fmul(t1.y, t1.y)),
        ),
        m12: sat_add(
            sat_add(fmul(va, fmul(t0.y, t0.z)), fmul(vbm, fmul(t0.y, t1.z))),
            fmul(vc, fmul(t1.y, t1.z)),
        ),
        m20: sat_add(
            sat_add(fmul(va, fmul(t0.z, t0.x)), fmul(vbm, fmul(t0.z, t1.x))),
            fmul(vc, fmul(t1.z, t1.x)),
        ),
        m21: sat_add(
            sat_add(fmul(va, fmul(t0.z, t0.y)), fmul(vbm, fmul(t0.z, t1.y))),
            fmul(vc, fmul(t1.z, t1.y)),
        ),
        m22: sat_add(
            sat_add(fmul(va, fmul(t0.z, t0.z)), fmul(vbm, fmul(t0.z, t1.z))),
            fmul(vc, fmul(t1.z, t1.z)),
        ),
    };
    // cov3 = M * M^T: v_M = (v_cov3 + v_cov3^T) * M
    let vssym = M3 {
        m00: sat_add(vs.m00, vs.m00),
        m01: sat_add(vs.m01, vs.m10),
        m02: sat_add(vs.m02, vs.m20),
        m10: sat_add(vs.m10, vs.m01),
        m11: sat_add(vs.m11, vs.m11),
        m12: sat_add(vs.m12, vs.m21),
        m20: sat_add(vs.m20, vs.m02),
        m21: sat_add(vs.m21, vs.m12),
        m22: sat_add(vs.m22, vs.m22),
    };
    let mmat = M3 {
        m00: r0.x,
        m01: r0.y,
        m02: r0.z,
        m10: r1.x,
        m11: r1.y,
        m12: r1.z,
        m20: r2.x,
        m21: r2.y,
        m22: r2.z,
    };
    let vm = m3_mul_m3(vssym, mmat);
    // M = R * diag(s): column gradients
    let vls = V3 {
        x: fmul(
            sat_add(
                sat_add(fmul(rotm.m00, vm.m00), fmul(rotm.m10, vm.m10)),
                fmul(rotm.m20, vm.m20),
            ),
            s0,
        ),
        y: fmul(
            sat_add(
                sat_add(fmul(rotm.m01, vm.m01), fmul(rotm.m11, vm.m11)),
                fmul(rotm.m21, vm.m21),
            ),
            s1,
        ),
        z: fmul(
            sat_add(
                sat_add(fmul(rotm.m02, vm.m02), fmul(rotm.m12, vm.m12)),
                fmul(rotm.m22, vm.m22),
            ),
            s2,
        ),
    };
    // v_R = v_M scaled by the columns' scales
    let vr00 = fmul(vm.m00, s0);
    let vr01 = fmul(vm.m01, s1);
    let vr02 = fmul(vm.m02, s2);
    let vr10 = fmul(vm.m10, s0);
    let vr11 = fmul(vm.m11, s1);
    let vr12 = fmul(vm.m12, s2);
    let vr20 = fmul(vm.m20, s0);
    let vr21 = fmul(vm.m21, s1);
    let vr22 = fmul(vm.m22, s2);
    // quaternion gradient of the rotation matrix
    let qn = nq.0;
    let vqw = fmul(
        K2,
        sat_add(
            sat_add(fmul(qn.x, sat_sub(vr21, vr12)), fmul(qn.y, sat_sub(vr02, vr20))),
            fmul(qn.z, sat_sub(vr10, vr01)),
        ),
    );
    let vqx = fmul(
        K2,
        sat_add(
            sat_add(
                sat_sub(
                    sat_add(fmul(qn.y, sat_add(vr01, vr10)), fmul(qn.z, sat_add(vr02, vr20))),
                    fmul(fmul(qn.x, K2), sat_add(vr11, vr22)),
                ),
                fmul(qn.w, sat_sub(vr21, vr12)),
            ),
            0,
        ),
    );
    let vqy = fmul(
        K2,
        sat_add(
            sat_add(
                sat_sub(
                    sat_add(fmul(qn.x, sat_add(vr01, vr10)), fmul(qn.z, sat_add(vr12, vr21))),
                    fmul(fmul(qn.y, K2), sat_add(vr00, vr22)),
                ),
                fmul(qn.w, sat_sub(vr02, vr20)),
            ),
            0,
        ),
    );
    let vqz = fmul(
        K2,
        sat_add(
            sat_add(
                sat_sub(
                    sat_add(fmul(qn.x, sat_add(vr02, vr20)), fmul(qn.y, sat_add(vr12, vr21))),
                    fmul(fmul(qn.z, K2), sat_add(vr00, vr11)),
                ),
                fmul(qn.w, sat_sub(vr10, vr01)),
            ),
            0,
        ),
    );
    // back through the normalization
    let nsq = quat_norm_sq(quat);
    let sn = fsqrt(nsq);
    let invn = if sn > 0 {
        fdiv(ONE, sn)
    } else {
        0
    };
    let qdot = sat_add(
        sat_add(sat_add(fmul(qn.w, vqw), fmul(qn.x, vqx)), fmul(qn.y, vqy)),
        fmul(qn.z, vqz),
    );
    let vq = Q4 {
        w: fmul(sat_sub(vqw, fmul(qn.w, qdot)), invn),
        x: fmul(sat_sub(vqx, fmul(qn.x, qdot)), invn),
        y: fmul(sat_sub(vqy, fmul(qn.y, qdot)), invn),
        z: fmul(sat_sub(vqz, fmul(qn.z, qdot)), invn),
    };
    // T = J * W: gradients of the used Jacobian entries
    let w_row0 = V3 { x: cam.rot.m00, y: cam.rot.m01, z: cam.rot.m02 };
    let w_row1 = V3 { x: cam.rot.m10, y: cam.rot.m11, z: cam.rot.m12 };
    let w_row2 = V3 { x: cam.rot.m20, y: cam.rot.m21, z: cam.rot.m22 };
    let vj00 = v3_dot(w_row0, vt0);
    let vj02 = v3_dot(w_row2, vt0);
    let vj11 = v3_dot(w_row1, vt1);
    let vj12 = v3_dot(w_row2, vt1);
    // screen position
    let v_xnd0 = fmul(cam.fx, vx);
    let v_ynd0 = fmul(cam.fy, vy);
    // j02 = -fx * xnd * iz, j12 = -fy * ynd * iz
    let v_xnd = sat_sub(v_xnd0, fmul(fmul(cam.fx, iz), vj02));
    let v_ynd = sat_sub(v_ynd0, fmul(fmul(cam.fy, iz), vj12));
    let v_iz = sat_sub(
        sat_add(
            sat_add(fmul(cam.fx, vj00), fmul(cam.fy, vj11)),
            sat_add(fmul(p.x, v_xnd), fmul(p.y, v_ynd)),
        ),
        sat_add(fmul(fmul(cam.fx, xnd), vj02), fmul(fmul(cam.fy, ynd), vj12)),
    );
    // iz = 1 / depth
    let v_zc = sat_sub(0, fmul(fmul(iz, iz), v_iz));
    let v_pc = V3 { x: fmul(v_xnd, iz), y: fmul(v_ynd, iz), z: v_zc };
    let v_mean = m3_mul_v3(m3_transpose(cam.rot), v_pc);
    (v_mean, vls, vq)
    }
    }
    }
}

/// Back-project one splat's screen-space and conic gradients through the
/// projection Jacobian onto its position, log-scale and quaternion.  The
/// forward intermediates are recomputed exactly as the projector computes
/// them; a splat the projector culls, or one whose incoming gradients are
/// all zero, yields exactly zero gradients.
#[verifier::rlimit(100)]
fn project_backward_one(
    cam: Camera,
    mean: V3,
    log_scale: V3,
    quat: Q4,
    vx: i64,
    vy: i64,
    vca: i64,
    vcb: i64,
    vcc: i64,
) -> (r: (V3, V3, Q4))
    ensures
        r == project_backward_one_s(cam, mean, log_scale, quat, vx, vy, vca, vcb, vcc),
        (vx == 0 && vy == 0 && vca == 0 && vcb == 0 && vcc == 0) ==> r == (
            V3 { x: 0, y: 0, z: 0 },
            V3 { x: 0, y: 0, z: 0 },
            Q4 { w: 0, x: 0, y: 0, z: 0 },
        ),
{
    proof {
        reveal(project_backward_one_s);
    }
    let zero3 = V3 { x: 0, y: 0, z: 0 };
    let zeroq = Q4 { w: 0, x: 0, y: 0, z: 0 };
    if vx == 0 && vy == 0 && vca == 0 && vcb == 0 && vcc == 0 {
        (zero3, zero3, zeroq)
    } else {
    // Recompute the forward projection, as the projector does.
    let p = m3_mul_v3(cam.rot, v3_sub(mean, cam.pos));
    let nq = normalize_quat(quat);
        if p.z <= NEAR || !nq.1 {
        (zero3, zero3, zeroq)
    } else {
    let depth = p.z;
    let iz = fdiv(ONE, depth);
    let xnd = fmul(p.x, iz);
    let ynd = fmul(p.y, iz);
    let rotm = rot_from_quat(nq.0);
    let s0 = exp_pos(log_scale.x);
    let s1 = exp_pos(log_scale.y);
    let s2 = exp_pos(log_scale.z);
    let r0 = V3 { x: fmul(rotm.m00, s0), y: fmul(rotm.m01, s1), z: fmul(rotm.m02, s2) };
    let r1 = V3 { x: fmul(rotm.m10, s0), y: fmul(rotm.m11, s1), z: fmul(rotm.m12, s2) };
    let r2 = V3 { x: fmul(rotm.m20, s0), y: fmul(rotm.m21, s1), z: fmul(rotm.m22, s2) };
    let sig0 = V3 { x: v3_dot(r0, r0), y: v3_dot(r0, r1), z: v3_dot(r0, r2) };
    let sig1 = V3 { x: sig0.y, y: v3_dot(r1, r1), z: v3_dot(r1, r2) };
    let sig2 = V3 { x: sig0.z, y: sig1.z, z: v3_dot(r2, r2) };
    let fxiz = fmul(cam.fx, iz);
    let fyiz = fmul(cam.fy, iz);
    let j02 = sat_sub(0, fmul(fmul(cam.fx, xnd), iz));
    let j12 = sat_sub(0, fmul(fmul(cam.fy, ynd), iz));
    let t0 = V3 {
        x: sat_add(fmul(fxiz, cam.rot.m00), fmul(j02, cam.rot.m20)),
        y: sat_add(fmul(fxiz, cam.rot.m01), fmul(j02, cam.rot.m21)),
        z: sat_add(fmul(fxiz, cam.rot.m02), fmul(j02, cam.rot.m22)),
    };
    let t1 = V3 {
        x: sat_add(fmul(fyiz, cam.rot.m10), fmul(j12, cam.rot.m20)),
        y: sat_add(fmul(fyiz, cam.rot.m11), fmul(j12, cam.rot.m21)),
        z: sat_add(fmul(fyiz, cam.rot.m12), fmul(j12, cam.rot.m22)),
    };
    let u0 = V3 { x: v3_dot(sig0, t0), y: v3_dot(sig1, t0), z: v3_dot(sig2, t0) };
    let u1 = V3 { x: v3_dot(sig0, t1), y: v3_dot(sig1, t1), z: v3_dot(sig2, t1) };
    let ca = v3_dot(t0, u0);
    let cb = v3_dot(t0, u1);
    let cc = v3_dot(t1, u1);
    let det = sat_sub(fmul(ca, cc), fmul(cb, cb));
        if det <= 0 || ca <= 0 || cc <= 0 {
        (zero3, zero3, zeroq)
    } else {
    let ia = fdiv(cc, det);
    let ib = sat_sub(0, fdiv(cb, det));
    let ic = fdiv(ca, det);

    // Conic is the inverse of the projected covariance:
    // v_cov = -conic * v_conic * conic, with the off-diagonal halved.
    let vh = fmul(vcb, HALF);
    let cv00 = sat_add(fmul(ia, vca), fmul(ib, vh));
    let cv01 = sat_add(fmul(ia, vh), fmul(ib, vcc));
    let cv10 = sat_add(fmul(ib, vca), fmul(ic, vh));
    let cv11 = sat_add(fmul(ib, vh), fmul(ic, vcc));
    let va = sat_sub(0, sat_add(fmul(cv00, ia), fmul(cv01, ib)));
    let vbm = sat_sub(
        0,
        sat_add(
            sat_add(fmul(cv00, ib), fmul(cv01, ic)),
            sat_add(fmul(cv10, ia), fmul(cv11, ib)),
        ),
    );
    let vc = sat_sub(0, sat_add(fmul(cv10, ib), fmul(cv11, ic)));

    // cov2 = T * cov3 * T^T
    let vt0 = V3 {
        x: sat_add(fmul(fmul(va, K2), u0.x), fmul(vbm, u1.x)),
        y: sat_add(fmul(fmul(va, K2), u0.y), fmul(vbm, u1.y)),
        z: sat_add(fmul(fmul(va, K2), u0.z), fmul(vbm, u1.z)),
    };
    let vt1 = V3 {
        x: sat_add(fmul(fmul(vc, K2), u1.x), fmul(vbm, u0.x)),
        y: sat_add(fmul(fmul(vc, K2), u1.y), fmul(vbm, u0.y)),
        z: sat_add(fmul(fmul(vc, K2), u1.z), fmul(vbm, u0.z)),
    };
    // v_cov3 (full-matrix view) = va t0 t0^T + vb t0 t1^T + vc t1 t1^T
    let vs = M3 {
        m00: sat_add(
            sat_add(fmul(va, fmul(t0.x, t0.x)), fmul(vbm, fmul(t0.x, t1.x))),
            fmul(vc, fmul(t1.x, t1.x)),
        ),
        m01: sat_add(
            sat_add(fmul(va, fmul(t0.x, t0.y)), fmul(vbm, fmul(t0.x, t1.y))),
            fmul(vc, fmul(t1.x, t1.y)),
        ),
        m02: sat_add(
            sat_add(fmul(va, fmul(t0.x, t0.z)), fmul(vbm, fmul(t0.x, t1.z))),
            fmul(vc, fmul(t1.x, t1.z)),
        ),
        m10: sat_add(
            sat_add(fmul(va, fmul(t0.y, t0.x)), fmul(vbm, fmul(t0.y, t1.x))),
            fmul(vc, fmul(t1.y, t1.x)),
        ),
        m11: sat_add(
            sat_add(fmul(va, fmul(t0.y, t0.y)), fmul(vbm, fmul(t0.y, t1.y))),
            fmul(vc, fmul(t1.y, t1.y)),
        ),
        m12: sat_add(
            sat_add(fmul(va, fmul(t0.y, t0.z)), fmul(vbm, fmul(t0.y, t1.z))),
            fmul(vc, fmul(t1.y, t1.z)),
        ),
        m20: sat_add(
            sat_add(fmul(va, fmul(t0.z, t0.x)), fmul(vbm, fmul(t0.z, t1.x))),
            fmul(vc, fmul(t1.z, t1.x)),
        ),
        m21: sat_add(
            sat_add(fmul(va, fmul(t0.z, t0.y)), fmul(vbm, fmul(t0.z, t1.y))),
            fmul(vc, fmul(t1.z, t1.y)),
        ),
        m22: sat_add(
            sat_add(fmul(va, fmul(t0.z, t0.z)), fmul(vbm, fmul(t0.z, t1.z))),
            fmul(vc, fmul(t1.z, t1.z)),
        ),
    };
    // cov3 = M * M^T: v_M = (v_cov3 + v_cov3^T) * M
    let vssym = M3 {
        m00: sat_add(vs.m00, vs.m00),
        m01: sat_add(vs.m01, vs.m10),
        m02: sat_add(vs.m02, vs.m20),
        m10: sat_add(vs.m10, vs.m01),
        m11: sat_add(vs.m11, vs.m11),
        m12: sat_add(vs.m12, vs.m21),
        m20: sat_add(vs.m20, vs.m02),
        m21: sat_add(vs.m21, vs.m12),
        m22: sat_add(vs.m22, vs.m22),
    };
    let mmat = M3 {
        m00: r0.x,
        m01: r0.y,
        m02: r0.z,
        m10: r1.x,
        m11: r1.y,
        m12: r1.z,
        m20: r2.x,
        m21: r2.y,
        m22: r2.z,
    };
    let vm = m3_mul_m3(vssym, mmat);
    // M = R * diag(s): column gradients
    let vls = V3 {
        x: fmul(
            sat_add(
                sat_add(fmul(rotm.m00, vm.m00), fmul(rotm.m10, vm.m10)),
                fmul(rotm.m20, vm.m20),
            ),
            s0,
        ),
        y: fmul(
            sat_add(
                sat_add(fmul(rotm.m01, vm.m01), fmul(rotm.m11, vm.m11)),
                fmul(rotm.m21, vm.m21),
            ),
            s1,
        ),
        z: fmul(
            sat_add(
                sat_add(fmul(rotm.m02, vm.m02), fmul(rotm.m12, vm.m12)),
                fmul(rotm.m22, vm.m22),
            ),
            s2,
        ),
    };
    // v_R = v_M scaled by the columns' scales
    let vr00 = fmul(vm.m00, s0);
    let vr01 = fmul(vm.m01, s1);
    let vr02 = fmul(vm.m02, s2);
    let vr10 = fmul(vm.m10, s0);
    let vr11 = fmul(vm.m11, s1);
    let vr12 = fmul(vm.m12, s2);
    let vr20 = fmul(vm.m20, s0);
    let vr21 = fmul(vm.m21, s1);
    let vr22 = fmul(vm.m22, s2);
    // quaternion gradient of the rotation matrix
    let qn = nq.0;
    let vqw = fmul(
        K2,
        sat_add(
            sat_add(fmul(qn.x, sat_sub(vr21, vr12)), fmul(qn.y, sat_sub(vr02, vr20))),
            fmul(qn.z, sat_sub(vr10, vr01)),
        ),
    );
    let vqx = fmul(
        K2,
        sat_add(
            sat_add(
                sat_sub(
                    sat_add(fmul(qn.y, sat_add(vr01, vr10)), fmul(qn.z, sat_add(vr02, vr20))),
                    fmul(fmul(qn.x, K2), sat_add(vr11, vr22)),
                ),
                fmul(qn.w, sat_sub(vr21, vr12)),
            ),
            0,
        ),
    );
    let vqy = fmul(
        K2,
        sat_add(
            sat_add(
                sat_sub(
                    sat_add(fmul(qn.x, sat_add(vr01, vr10)), fmul(qn.z, sat_add(vr12, vr21))),
                    fmul(fmul(qn.y, K2), sat_add(vr00, vr22)),
                ),
                fmul(qn.w, sat_sub(vr02, vr20)),
            ),
            0,
        ),
    );
    let vqz = fmul(
        K2,
        sat_add(
            sat_add(
                sat_sub(
                    sat_add(fmul(qn.x, sat_add(vr02, vr20)), fmul(qn.y, sat_add(vr12, vr21))),
                    fmul(fmul(qn.z, K2), sat_add(vr00, vr11)),
                ),
                fmul(qn.w, sat_sub(vr10, vr01)),
            ),
            0,
        ),
    );
    // back through the normalization
    let nsq = quat_norm_sq(quat);
    proof {
        crate::project::lemma_fmul_self_nonneg(quat.w);
        crate::project::lemma_fmul_self_nonneg(quat.x);
        crate::project::lemma_fmul_self_nonneg(quat.y);
        crate::project::lemma_fmul_self_nonneg(quat.z);
    }
    let sn = fsqrt(nsq);
    let invn = if sn > 0 {
        fdiv(ONE, sn)
    } else {
        0
    };
    let qdot = sat_add(
        sat_add(sat_add(fmul(qn.w, vqw), fmul(qn.x, vqx)), fmul(qn.y, vqy)),
        fmul(qn.z, vqz),
    );
    let vq = Q4 {
        w: fmul(sat_sub(vqw, fmul(qn.w, qdot)), invn),
        x: fmul(sat_sub(vqx, fmul(qn.x, qdot)), invn),
        y: fmul(sat_sub(vqy, fmul(qn.y, qdot)), invn),
        z: fmul(sat_sub(vqz, fmul(qn.z, qdot)), invn),
    };
    // T = J * W: gradients of the used Jacobian entries
    let w_row0 = V3 { x: cam.rot.m00, y: cam.rot.m01, z: cam.rot.m02 };
    let w_row1 = V3 { x: cam.rot.m10, y: cam.rot.m11, z: cam.rot.m12 };
    let w_row2 = V3 { x: cam.rot.m20, y: cam.rot.m21, z: cam.rot.m22 };
    let vj00 = v3_dot(w_row0, vt0);
    let vj02 = v3_dot(w_row2, vt0);
    let vj11 = v3_dot(w_row1, vt1);
    let vj12 = v3_dot(w_row2, vt1);
    // screen position
    let v_xnd0 = fmul(cam.fx, vx);
    let v_ynd0 = fmul(cam.fy, vy);
    // j02 = -fx * xnd * iz, j12 = -fy * ynd * iz
    let v_xnd = sat_sub(v_xnd0, fmul(fmul(cam.fx, iz), vj02));
    let v_ynd = sat_sub(v_ynd0, fmul(fmul(cam.fy, iz), vj12));
    let v_iz = sat_sub(
        sat_add(
            sat_add(fmul(cam.fx, vj00), fmul(cam.fy, vj11)),
            sat_add(fmul(p.x, v_xnd), fmul(p.y, v_ynd)),
        ),
        sat_add(fmul(fmul(cam.fx, xnd), vj02), fmul(fmul(cam.fy, ynd), vj12)),
    );
    // iz = 1 / depth
    let v_zc = sat_sub(0, fmul(fmul(iz, iz), v_iz));
    let v_pc = V3 { x: fmul(v_xnd, iz), y: fmul(v_ynd, iz), z: v_zc };
    let v_mean = m3_mul_v3(m3_transpose(cam.rot), v_pc);
    (v_mean, vls, vq)
    }
    }
    }
}


/// The gradients of the loss with respect to every primitive parameter,
/// dense over the original primitive count, plus the auxiliary
/// screen-position gradient external callers read.
pub struct Gradients {
    pub v_means: Vec<V3>,
    pub v_log_scales: Vec<V3>,
    pub v_quats: Vec<Q4>,
    pub v_sh_coeffs: Vec<i64>,
    pub v_opacities: Vec<i64>,
    pub v_xys: Vec<(i64, i64)>,
}

/// `g` is hit by none of the first `c` compact ids.
pub open spec fn not_among(gids: Seq<u32>, c: int, g: int) -> bool {
    forall|j: int| 0 <= j < c ==> (#[trigger] gids[j] as int) != g
}

/// The zero-opacity premise of the gradient guarantee: the primitive's
/// logistic opacity rounds to zero, and so does the stored opacity of
/// every compact entry that refers to it.
pub open spec fn zero_opacity_cond(
    raw_opacities: Seq<i64>,
    splats: Seq<ProjectedSplat>,
    gids: Seq<u32>,
    g: int,
) -> bool {
    &&& sigmoid_fx(raw_opacities[g]) == 0
    &&& forall|j: int|
        0 <= j < gids.len() ==> ((#[trigger] gids[j] as int) == g ==> splats[j].opacity == 0)
}

/// Every gradient of primitive `g` is exactly zero.
pub open spec fn grads_zero_at(gr: Gradients, cpc: int, g: int) -> bool {
    &&& gr.v_means@[g] == (V3 { x: 0, y: 0, z: 0 })
    &&& gr.v_log_scales@[g] == (V3 { x: 0, y: 0, z: 0 })
    &&& gr.v_quats@[g] == (Q4 { w: 0, x: 0, y: 0, z: 0 })
    &&& gr.v_opacities@[g] == 0
    &&& gr.v_xys@[g] == (0i64, 0i64)
    &&& forall|i: int|
        g * (cpc * 3) <= i < (g + 1) * (cpc * 3) ==> #[trigger] gr.v_sh_coeffs@[i] == 0
}

/// Every gradient slot of primitive `g` across the working buffers is
/// exactly zero.
pub open spec fn zero_slot(
    means: Seq<V3>,
    lss: Seq<V3>,
    quats: Seq<Q4>,
    coeffs: Seq<i64>,
    opacs: Seq<i64>,
    xys: Seq<(i64, i64)>,
    cpc: int,
    g: int,
) -> bool {
    &&& means[g] == (V3 { x: 0, y: 0, z: 0 })
    &&& lss[g] == (V3 { x: 0, y: 0, z: 0 })
    &&& quats[g] == (Q4 { w: 0, x: 0, y: 0, z: 0 })
    &&& opacs[g] == 0
    &&& xys[g] == (0i64, 0i64)
    &&& forall|i: int| g * (cpc * 3) <= i < (g + 1) * (cpc * 3) ==> #[trigger] coeffs[i] == 0
}

/// A zero-initialized vector-gradient buffer.
fn zeros_v3(n: usize) -> (r: Vec<V3>)
    ensures
        r@.len() == n,
        forall|i: int| 0 <= i < n ==> #[trigger] r@[i] == (V3 { x: 0, y: 0, z: 0 }),
{
    let mut out: Vec<V3> = Vec::new();
    let mut i: usize = 0;
    while i < n
        invariant
            i <= n,
            out@.len() == i,
            forall|j: int| 0 <= j < i ==> #[trigger] out@[j] == (V3 { x: 0, y: 0, z: 0 }),
        decreases n - i,
    {
        out.push(V3 { x: 0, y: 0, z: 0 });
        i += 1;
    }
    out
}

/// A zero-initialized quaternion-gradient buffer.
fn zeros_q4(n: usize) -> (r: Vec<Q4>)
    ensures
        r@.len() == n,
        forall|i: int| 0 <= i < n ==> #[trigger] r@[i] == (Q4 { w: 0, x: 0, y: 0, z: 0 }),
{
    let mut out: Vec<Q4> = Vec::new();
    let mut i: usize = 0;
    while i < n
        invariant
            i <= n,
            out@.len() == i,
            forall|j: int| 0 <= j < i ==> #[trigger] out@[j] == (Q4 { w: 0, x: 0, y: 0, z: 0 }),
        decreases n - i,
    {
        out.push(Q4 { w: 0, x: 0, y: 0, z: 0 });
        i += 1;
    }
    out
}

/// A zero-initialized pair buffer.
fn zeros_pairs(n: usize) -> (r: Vec<(i64, i64)>)
    ensures
        r@.len() == n,
        forall|i: int| 0 <= i < n ==> #[trigger] r@[i] == (0i64, 0i64),
{
    let mut out: Vec<(i64, i64)> = Vec::new();
    let mut i: usize = 0;
    while i < n
        invariant
            i <= n,
            out@.len() == i,
            forall|j: int| 0 <= j < i ==> #[trigger] out@[j] == (0i64, 0i64),
        decreases n - i,
    {
        out.push((0, 0));
        i += 1;
    }
    out
}

/// The coefficient block after accumulating the first `i` basis values:
/// the same three channel updates, in order, as the loop body of
/// `accum_coeffs`.
pub open spec fn accum_coeffs_s(
    dst: Seq<i64>,
    base: int,
    basis: Seq<i64>,
    vr: i64,
    vg: i64,
    vb: i64,
    i: int,
) -> Seq<i64>
    decreases i,
{
    if i <= 0 {
        dst
    } else {
        let prev = accum_coeffs_s(dst, base, basis, vr, vg, vb, i - 1);
        let b = basis[i - 1];
        let s1 = prev.update(base + (i - 1) * 3, sat_add(prev[base + (i - 1) * 3], fmul(b, vr)));
        let s2 = s1.update(
            base + (i - 1) * 3 + 1,
            sat_add(s1[base + (i - 1) * 3 + 1], fmul(b, vg)),
        );
        s2.update(base + (i - 1) * 3 + 2, sat_add(s2[base + (i - 1) * 3 + 2], fmul(b, vb)))
    }
}

/// Accumulate one splat's coefficient gradients into its block of the
/// dense buffer: coefficient `i` of channel `ch` gains
/// `basis[i] * v_ch`.  Slots outside the block are untouched, and zero
/// channel gradients leave the buffer exactly as it was.
fn accum_coeffs(
    dst: Vec<i64>,
    base: usize,
    basis: &Vec<i64>,
    vr: i64,
    vg: i64,
    vb: i64,
) -> (r: Vec<i64>)
    requires
        base + basis@.len() * 3 <= dst@.len(),
    ensures
        r@.len() == dst@.len(),
        forall|i: int|
            0 <= i < dst@.len() && (i < base || i >= base + basis@.len() * 3) ==> #[trigger] r@[i]
                == dst@[i],
        (vr == 0 && vg == 0 && vb == 0) ==> r@ == dst@,
        r@ == accum_coeffs_s(dst@, base as int, basis@, vr, vg, vb, basis@.len() as int),
{
    let n = basis.len();
    let dlen = dst.len();
    let mut out = dst;
    let ghost dst0 = out@;
    let mut i: usize = 0;
    while i < n
        invariant
            i <= n,
            n == basis@.len(),
            out@.len() == dlen,
            dlen == dst0.len(),
            base + n * 3 <= dlen,
            forall|j: int|
                0 <= j < dst0.len() && (j < base || j >= base + n * 3) ==> #[trigger] out@[j]
                    == dst0[j],
            (vr == 0 && vg == 0 && vb == 0) ==> out@ == dst0,
            out@ == accum_coeffs_s(dst0, base as int, basis@, vr, vg, vb, i as int),
        decreases n - i,
    {
        proof {
            assert((i as int) * 3 + 3 <= (n as int) * 3) by (nonlinear_arith)
                requires (i as int) < (n as int);
        }
        let ghost pre = out@;
        let b = basis[i];
        let c0 = out[base + i * 3];
        out.set(base + i * 3, sat_add(c0, fmul(b, vr)));
        let c1 = out[base + i * 3 + 1];
        out.set(base + i * 3 + 1, sat_add(c1, fmul(b, vg)));
        let c2 = out[base + i * 3 + 2];
        out.set(base + i * 3 + 2, sat_add(c2, fmul(b, vb)));
        proof {
            if vr == 0 && vg == 0 && vb == 0 {
                lemma_fmul_zero(b);
                assert(out@ =~= pre);
            }
        }
        i += 1;
    }
    out
}


/// The view-direction gradient accumulated over the first `i` basis
/// values: the same sums, in order, as the inner loop of the gather
/// stage.
pub open spec fn dir_grad_s(
    dbx: Seq<i64>,
    dby: Seq<i64>,
    dbz: Seq<i64>,
    coeffs: Seq<i64>,
    base: int,
    vr: i64,
    vg: i64,
    vb: i64,
    i: int,
) -> (i64, i64, i64)
    decreases i,
{
    if i <= 0 {
        (0i64, 0i64, 0i64)
    } else {
        let prev = dir_grad_s(dbx, dby, dbz, coeffs, base, vr, vg, vb, i - 1);
        let wsum = sat_add(
            sat_add(fmul(vr, coeffs[base + (i - 1) * 3]), fmul(vg, coeffs[base + (i - 1) * 3 + 1])),
            fmul(vb, coeffs[base + (i - 1) * 3 + 2]),
        );
        (
            sat_add(prev.0, fmul(dbx[i - 1], wsum)),
            sat_add(prev.1, fmul(dby[i - 1], wsum)),
            sat_add(prev.2, fmul(dbz[i - 1], wsum)),
        )
    }
}

/// The spec-level view of the six parameter-gradient buffers.
pub struct ParamGrads {
    pub means: Seq<V3>,
    pub lss: Seq<V3>,
    pub quats: Seq<Q4>,
    pub coeffs: Seq<i64>,
    pub opacs: Seq<i64>,
    pub xys: Seq<(i64, i64)>,
}

/// The zero parameter gradients over `n` primitives with a coefficient
/// buffer of length `clen`.
pub open spec fn zero_pg(n: int, clen: int) -> ParamGrads {
    ParamGrads {
        means: Seq::new(n as nat, |i: int| V3 { x: 0, y: 0, z: 0 }),
        lss: Seq::new(n as nat, |i: int| V3 { x: 0, y: 0, z: 0 }),
        quats: Seq::new(n as nat, |i: int| Q4 { w: 0, x: 0, y: 0, z: 0 }),
        coeffs: Seq::new(clen as nat, |i: int| 0i64),
        opacs: Seq::new(n as nat, |i: int| 0i64),
        xys: Seq::new(n as nat, |i: int| (0i64, 0i64)),
    }
}

/// One compact id's scatter onto its primitive's parameters: the same
/// computation, step for step, as the loop body of the gather stage of
/// `render_backward`.
#[verifier::opaque]
pub open spec fn gather_one_s(
    sp: Splats,
    cam: Camera,
    lgs: GradSeqs,
    gids: Seq<u32>,
    c: int,
    pg: ParamGrads,
) -> ParamGrads {
    let gdx = gids[c] as int;
    let base = gdx * ((sp.coeffs_per_channel as int) * 3);
    let mean = sp.means@[gdx];
    let d = v3_sub(mean, cam.pos);
    let nsq = v3_dot(d, d);
    let sn = fsqrt(nsq);
    let has_dir = sn > 0;
    let invn = if sn > 0 {
        fdiv(ONE, sn)
    } else {
        0
    };
    let dir = if sn <= 0 {
        V3 { x: 0, y: 0, z: ONE }
    } else {
        V3 { x: fmul(d.x, invn), y: fmul(d.y, invn), z: fmul(d.z, invn) }
    };
    let degree = crate::sh::sh_degree_s(sp.coeffs_per_channel);
    let basis = crate::sh::sh_basis_s(degree, dir.x, dir.y, dir.z);
    let pre_r = crate::sh::sh_dot_s(basis, sp.sh_coeffs@, base, 0, basis.len() as int);
    let pre_g = crate::sh::sh_dot_s(basis, sp.sh_coeffs@, base, 1, basis.len() as int);
    let pre_b = crate::sh::sh_dot_s(basis, sp.sh_coeffs@, base, 2, basis.len() as int);
    let vr_m: i64 = if pre_r < 0 || pre_r > ONE {
        0
    } else {
        lgs.vr[c]
    };
    let vg_m: i64 = if pre_g < 0 || pre_g > ONE {
        0
    } else {
        lgs.vg[c]
    };
    let vb_m: i64 = if pre_b < 0 || pre_b > ONE {
        0
    } else {
        lgs.vb[c]
    };
    let step1 = if !(vr_m == 0 && vg_m == 0 && vb_m == 0) {
        let coeffs1 = accum_coeffs_s(pg.coeffs, base, basis, vr_m, vg_m, vb_m, basis.len() as int);
        if has_dir {
            let dbx = crate::sh::sh_basis_dx_s(degree, dir.x, dir.y, dir.z);
            let dby = crate::sh::sh_basis_dy_s(degree, dir.x, dir.y, dir.z);
            let dbz = crate::sh::sh_basis_dz_s(degree, dir.x, dir.y, dir.z);
            let vd = dir_grad_s(
                dbx,
                dby,
                dbz,
                sp.sh_coeffs@,
                base,
                vr_m,
                vg_m,
                vb_m,
                basis.len() as int,
            );
            let ddot = sat_add(sat_add(fmul(dir.x, vd.0), fmul(dir.y, vd.1)), fmul(dir.z, vd.2));
            let vdir = V3 {
                x: fmul(sat_sub(vd.0, fmul(dir.x, ddot)), invn),
                y: fmul(sat_sub(vd.1, fmul(dir.y, ddot)), invn),
                z: fmul(sat_sub(vd.2, fmul(dir.z, ddot)), invn),
            };
            (coeffs1, pg.means.update(gdx, v3_add(pg.means[gdx], vdir)))
        } else {
            (coeffs1, pg.means)
        }
    } else {
        (pg.coeffs, pg.means)
    };
    let op = sigmoid(sp.raw_opacities@[gdx]);
    let vop_inc = fmul(lgs.vo[c], fmul(op, sat_sub(ONE, op)));
    let opacs1 = pg.opacs.update(gdx, sat_add(pg.opacs[gdx], vop_inc));
    let vxc = lgs.vx[c];
    let vyc = lgs.vy[c];
    let xys1 = pg.xys.update(gdx, (sat_add(pg.xys[gdx].0, vxc), sat_add(pg.xys[gdx].1, vyc)));
    let pb = project_backward_one_s(
        cam,
        mean,
        sp.log_scales@[gdx],
        sp.quats@[gdx],
        vxc,
        vyc,
        lgs.vca[c],
        lgs.vcb[c],
        lgs.vcc[c],
    );
    ParamGrads {
        means: step1.1.update(gdx, v3_add(step1.1[gdx], pb.0)),
        lss: pg.lss.update(gdx, v3_add(pg.lss[gdx], pb.1)),
        quats: pg.quats.update(gdx, q4_add(pg.quats[gdx], pb.2)),
        coeffs: step1.0,
        opacs: opacs1,
        xys: xys1,
    }
}

/// The parameter gradients after scattering the first `c` compact ids.
pub open spec fn gather_s(
    sp: Splats,
    cam: Camera,
    lgs: GradSeqs,
    gids: Seq<u32>,
    c: int,
    pg0: ParamGrads,
) -> ParamGrads
    decreases c,
{
    if c <= 0 {
        pg0
    } else {
        gather_one_s(sp, cam, lgs, gids, c - 1, gather_s(sp, cam, lgs, gids, c - 1, pg0))
    }
}

/// The shape the auxiliary bundle and the image buffers must have for
/// the gradient pass; `render_backward` accepts a call exactly when the
/// configuration validates and this holds.
pub open spec fn aux_shape_s(
    sp: Splats,
    aux: RenderAux,
    out_img: Seq<i64>,
    v_output: Seq<i64>,
    img_w: u32,
    img_h: u32,
) -> bool {
    let n = sp.len_s();
    let nv = aux.projected_splats@.len() as int;
    let ni = aux.compact_gid_from_isect@.len() as int;
    let num_tiles = (crate::render::tiles_along_s(img_w) as int) * (crate::render::tiles_along_s(
        img_h,
    ) as int);
    let npix = (img_h as int) * (img_w as int);
    &&& aux.global_from_compact_gid@.len() == nv
    &&& aux.tile_bins@.len() == num_tiles
    &&& out_img.len() == 4 * npix
    &&& v_output.len() == 4 * npix
    &&& (aux.final_index matches Some(f) && f@.len() == npix)
    &&& (forall|k: int| 0 <= k < ni ==> (#[trigger] aux.compact_gid_from_isect@[k] as int) < nv)
    &&& (forall|t: int|
        0 <= t < num_tiles ==> (#[trigger] aux.tile_bins@[t]).0 <= aux.tile_bins@[t].1 <= ni)
    &&& (forall|j: int| 0 <= j < nv ==> (#[trigger] aux.global_from_compact_gid@[j] as int) < n)
}

/// Scatter the per-compact-id local gradients to global ids and chain
/// them through the spherical-harmonic encoding, the opacity
/// nonlinearity and the projection Jacobian.  The result is pinned to
/// `gather_s`; a primitive hit by no compact id, or one whose logistic
/// opacity and per-entry stored opacities are zero, receives exactly
/// zero gradients.
#[verifier::rlimit(100)]
#[verifier::loop_isolation(false)]
fn gather_grads(
    sp: &Splats,
    cam: Camera,
    splats: &Vec<ProjectedSplat>,
    gids: &Vec<u32>,
    lg: LocalGrads,
) -> (gr: Gradients)
    requires
        sp.wf(),
        sp.len_s() < 0x1_0000_0000,
        splats@.len() == gids@.len(),
        lg.wf(splats@.len() as int),
        forall|j: int| 0 <= j < gids@.len() ==> (#[trigger] gids@[j] as int) < sp.len_s(),
        forall|j: int|
            0 <= j < splats@.len() && (#[trigger] splats@[j]).opacity == 0 ==> lg.vr@[j] == 0
                && lg.vg@[j] == 0 && lg.vb@[j] == 0 && lg.vx@[j] == 0 && lg.vy@[j] == 0
                && lg.vca@[j] == 0 && lg.vcb@[j] == 0 && lg.vcc@[j] == 0,
    ensures
        gr.v_means@.len() == sp.len_s(),
        gr.v_log_scales@.len() == sp.len_s(),
        gr.v_quats@.len() == sp.len_s(),
        gr.v_opacities@.len() == sp.len_s(),
        gr.v_xys@.len() == sp.len_s(),
        gr.v_sh_coeffs@.len() == sp.len_s() * ((sp.coeffs_per_channel as int) * 3),
        (ParamGrads {
            means: gr.v_means@,
            lss: gr.v_log_scales@,
            quats: gr.v_quats@,
            coeffs: gr.v_sh_coeffs@,
            opacs: gr.v_opacities@,
            xys: gr.v_xys@,
        }) == gather_s(
            *sp,
            cam,
            lg_view(lg),
            gids@,
            gids@.len() as int,
            zero_pg(sp.len_s() as int, sp.len_s() * ((sp.coeffs_per_channel as int) * 3)),
        ),
        forall|g: int|
            0 <= g < sp.len_s() && not_among(gids@, gids@.len() as int, g)
                ==> #[trigger] grads_zero_at(gr, sp.coeffs_per_channel as int, g),
        forall|g: int|
            0 <= g < sp.len_s() && zero_opacity_cond(sp.raw_opacities@, splats@, gids@, g)
                ==> #[trigger] grads_zero_at(gr, sp.coeffs_per_channel as int, g),
{
    let n = sp.len();
    let nv = splats.len();
    let cpc = sp.coeffs_per_channel as usize;
    let blk = cpc * 3;
    let clen = sp.sh_coeffs.len();
    proof {
        lemma_sh_counts();
        assert((n as int) * (cpc as int) * 3 == (n as int) * ((cpc as int) * 3))
            by (nonlinear_arith);
        assert(clen == (n as int) * ((cpc as int) * 3));
    }
    let mut v_means = zeros_v3(n);
    let mut v_log_scales = zeros_v3(n);
    let mut v_quats = zeros_q4(n);
    let mut v_sh_coeffs = zeros_vec(clen);
    let mut v_opacities = zeros_vec(n);
    let mut v_xys = zeros_pairs(n);
    proof {
        assert forall|g: int| 0 <= g < n implies #[trigger] zero_slot(
            v_means@,
            v_log_scales@,
            v_quats@,
            v_sh_coeffs@,
            v_opacities@,
            v_xys@,
            cpc as int,
            g,
        ) by {
            assert forall|i: int|
                g * ((cpc as int) * 3) <= i < (g + 1) * ((cpc as int) * 3)
                implies #[trigger] v_sh_coeffs@[i] == 0 by {
                assert(0 <= i < clen) by (nonlinear_arith)
                    requires
                        g * ((cpc as int) * 3) <= i < (g + 1) * ((cpc as int) * 3),
                        0 <= g < n,
                        clen == (n as int) * ((cpc as int) * 3),
                        cpc >= 1;
            }
        }
    }
    proof {
        assert(v_means@ =~= Seq::new(n as nat, |i: int| V3 { x: 0, y: 0, z: 0 }));
        assert(v_log_scales@ =~= Seq::new(n as nat, |i: int| V3 { x: 0, y: 0, z: 0 }));
        assert(v_quats@ =~= Seq::new(n as nat, |i: int| Q4 { w: 0, x: 0, y: 0, z: 0 }));
        assert(v_sh_coeffs@ =~= Seq::new(clen as nat, |i: int| 0i64));
        assert(v_opacities@ =~= Seq::new(n as nat, |i: int| 0i64));
        assert(v_xys@ =~= Seq::new(n as nat, |i: int| (0i64, 0i64)));
    }
    let mut c: usize = 0;
    while c < nv
        invariant
            c <= nv,
            nv == splats@.len(),
            nv == gids@.len(),
            n == sp.len_s(),
            n < 0x1_0000_0000,
            sp.wf(),
            cpc == sp.coeffs_per_channel,
            blk == (cpc as int) * 3,
            clen == sp.sh_coeffs@.len(),
            clen == (n as int) * ((cpc as int) * 3),
            lg.wf(nv as int),
            forall|j: int| 0 <= j < nv ==> (#[trigger] gids@[j] as int) < n,
            forall|j: int|
                0 <= j < nv && (#[trigger] splats@[j]).opacity == 0 ==> lg.vr@[j] == 0
                    && lg.vg@[j] == 0 && lg.vb@[j] == 0 && lg.vx@[j] == 0 && lg.vy@[j] == 0
                    && lg.vca@[j] == 0 && lg.vcb@[j] == 0 && lg.vcc@[j] == 0,
            v_means@.len() == n,
            v_log_scales@.len() == n,
            v_quats@.len() == n,
            v_sh_coeffs@.len() == clen,
            v_opacities@.len() == n,
            v_xys@.len() == n,
            forall|g: int|
                0 <= g < n && not_among(gids@, c as int, g) ==> #[trigger] zero_slot(
                    v_means@,
                    v_log_scales@,
                    v_quats@,
                    v_sh_coeffs@,
                    v_opacities@,
                    v_xys@,
                    cpc as int,
                    g,
                ),
            forall|g: int|
                0 <= g < n && zero_opacity_cond(sp.raw_opacities@, splats@, gids@, g)
                    ==> #[trigger] zero_slot(
                    v_means@,
                    v_log_scales@,
                    v_quats@,
                    v_sh_coeffs@,
                    v_opacities@,
                    v_xys@,
                    cpc as int,
                    g,
                ),
            (ParamGrads {
                means: v_means@,
                lss: v_log_scales@,
                quats: v_quats@,
                coeffs: v_sh_coeffs@,
                opacs: v_opacities@,
                xys: v_xys@,
            }) == gather_s(
                *sp,
                cam,
                lg_view(lg),
                gids@,
                c as int,
                zero_pg(n as int, clen as int),
            ),
        decreases nv - c,
    {
        let gdx = gids[c] as usize;
        let ghost means0 = v_means@;
        let ghost ls0 = v_log_scales@;
        let ghost quats0 = v_quats@;
        let ghost coeffs0 = v_sh_coeffs@;
        let ghost opac0 = v_opacities@;
        let ghost xys0 = v_xys@;
        proof {
            assert((gdx as int) * ((cpc as int) * 3) + (cpc as int) * 3 <= (n as int) * ((
            cpc as int) * 3)) by (nonlinear_arith)
                requires (gdx as int) < (n as int) && cpc >= 1;
            assert((gdx as int) * ((cpc as int) * 3) >= 0) by (nonlinear_arith)
                requires (gdx as int) >= 0 && cpc >= 1;
        }
        let base = gdx * blk;
        let mean = sp.means[gdx];
        // view direction and its basis, as the evaluator computes them
        let d = v3_sub(mean, cam.pos);
        let nsq = v3_dot(d, d);
        proof {
            crate::project::lemma_dot_self_nonneg(d);
        }
        let sn = fsqrt(nsq);
        let has_dir = sn > 0;
        let invn = if sn > 0 {
            fdiv(ONE, sn)
        } else {
            0
        };
        let dir = if sn <= 0 {
            V3 { x: 0, y: 0, z: ONE }
        } else {
            V3 { x: fmul(d.x, invn), y: fmul(d.y, invn), z: fmul(d.z, invn) }
        };
        let degree = sh_degree_from_coeffs(sp.coeffs_per_channel);
        let basis = sh_basis(degree, dir.x, dir.y, dir.z);
        proof {
            lemma_sh_counts();
        }
        // clamp masks from the unclamped channel values
        let pre_r = eval_sh_channel_raw(&basis, &sp.sh_coeffs, base, 0);
        let pre_g = eval_sh_channel_raw(&basis, &sp.sh_coeffs, base, 1);
        let pre_b = eval_sh_channel_raw(&basis, &sp.sh_coeffs, base, 2);
        let vr_m = if pre_r < 0 || pre_r > ONE {
            0
        } else {
            lg.vr[c]
        };
        let vg_m = if pre_g < 0 || pre_g > ONE {
            0
        } else {
            lg.vg[c]
        };
        let vb_m = if pre_b < 0 || pre_b > ONE {
            0
        } else {
            lg.vb[c]
        };
        if !(vr_m == 0 && vg_m == 0 && vb_m == 0) {
            v_sh_coeffs = accum_coeffs(v_sh_coeffs, base, &basis, vr_m, vg_m, vb_m);
            // view-direction chain onto the position
            if has_dir {
                let dbx = sh_basis_dx(degree, dir.x, dir.y, dir.z);
                let dby = sh_basis_dy(degree, dir.x, dir.y, dir.z);
                let dbz = sh_basis_dz(degree, dir.x, dir.y, dir.z);
                let m = basis.len();
                let mut vdx: i64 = 0;
                let mut vdy: i64 = 0;
                let mut vdz: i64 = 0;
                let mut i: usize = 0;
                while i < m
                    invariant
                        i <= m,
                        m == basis@.len(),
                        dbx@.len() == m,
                        dby@.len() == m,
                        dbz@.len() == m,
                        clen == sp.sh_coeffs@.len(),
                        base + m * 3 <= clen,
                        (vdx, vdy, vdz) == dir_grad_s(
                            dbx@,
                            dby@,
                            dbz@,
                            sp.sh_coeffs@,
                            base as int,
                            vr_m,
                            vg_m,
                            vb_m,
                            i as int,
                        ),
                    decreases m - i,
                {
                    proof {
                        assert((i as int) * 3 + 3 <= (m as int) * 3) by (nonlinear_arith)
                            requires (i as int) < (m as int);
                    }
                    let wsum = sat_add(
                        sat_add(
                            fmul(vr_m, sp.sh_coeffs[base + i * 3]),
                            fmul(vg_m, sp.sh_coeffs[base + i * 3 + 1]),
                        ),
                        fmul(vb_m, sp.sh_coeffs[base + i * 3 + 2]),
                    );
                    vdx = sat_add(vdx, fmul(dbx[i], wsum));
                    vdy = sat_add(vdy, fmul(dby[i], wsum));
                    vdz = sat_add(vdz, fmul(dbz[i], wsum));
                    i += 1;
                }
                // through the normalization: (I - dir dir^T) / |d|
                let ddot = sat_add(
                    sat_add(fmul(dir.x, vdx), fmul(dir.y, vdy)),
                    fmul(dir.z, vdz),
                );
                let vdir = V3 {
                    x: fmul(sat_sub(vdx, fmul(dir.x, ddot)), invn),
                    y: fmul(sat_sub(vdy, fmul(dir.y, ddot)), invn),
                    z: fmul(sat_sub(vdz, fmul(dir.z, ddot)), invn),
                };
                let cur = v_means[gdx];
                v_means.set(gdx, v3_add(cur, vdir));
            }
        }
        // opacity chain: the logistic slope
        let op = sigmoid(sp.raw_opacities[gdx]);
        let vop_inc = fmul(lg.vo[c], fmul(op, sat_sub(ONE, op)));
        let curo = v_opacities[gdx];
        v_opacities.set(gdx, sat_add(curo, vop_inc));
        // screen-position gradient output
        let vxc = lg.vx[c];
        let vyc = lg.vy[c];
        let curxy = v_xys[gdx];
        v_xys.set(gdx, (sat_add(curxy.0, vxc), sat_add(curxy.1, vyc)));
        // projection chain onto position, scale and rotation
        let (pm, pls, pq) = project_backward_one(
            cam,
            mean,
            sp.log_scales[gdx],
            sp.quats[gdx],
            vxc,
            vyc,
            lg.vca[c],
            lg.vcb[c],
            lg.vcc[c],
        );
        let curm = v_means[gdx];
        v_means.set(gdx, v3_add(curm, pm));
        let curls = v_log_scales[gdx];
        v_log_scales.set(gdx, v3_add(curls, pls));
        let curq = v_quats[gdx];
        v_quats.set(gdx, q4_add(curq, pq));
        proof {
            reveal(gather_one_s);
            assert((ParamGrads {
                means: v_means@,
                lss: v_log_scales@,
                quats: v_quats@,
                coeffs: v_sh_coeffs@,
                opacs: v_opacities@,
                xys: v_xys@,
            }) == gather_one_s(
                *sp,
                cam,
                lg_view(lg),
                gids@,
                c as int,
                ParamGrads {
                    means: means0,
                    lss: ls0,
                    quats: quats0,
                    coeffs: coeffs0,
                    opacs: opac0,
                    xys: xys0,
                },
            ));
        }
        proof {
            if splats@[c as int].opacity == 0 {
                assert(lg.vr@[c as int] == 0 && lg.vg@[c as int] == 0 && lg.vb@[c as int] == 0
                    && lg.vx@[c as int] == 0 && lg.vy@[c as int] == 0 && lg.vca@[c as int] == 0
                    && lg.vcb@[c as int] == 0 && lg.vcc@[c as int] == 0);
            }
            if sigmoid_fx(sp.raw_opacities@[gdx as int]) == 0 {
                assert(op == 0);
                lemma_fmul_zero_l(sat_sub(ONE, op));
                assert(fmul_fx(op, sat_sub_fx(ONE, op)) == 0);
                lemma_fmul_zero(lg.vo@[c as int]);
                assert(vop_inc == 0);
            }
            assert forall|g: int|
                0 <= g < n && not_among(gids@, c + 1, g) implies #[trigger] zero_slot(
                v_means@,
                v_log_scales@,
                v_quats@,
                v_sh_coeffs@,
                v_opacities@,
                v_xys@,
                cpc as int,
                g,
            ) by {
                assert(not_among(gids@, c as int, g));
                assert(zero_slot(means0, ls0, quats0, coeffs0, opac0, xys0, cpc as int, g));
                assert((gids@[c as int] as int) != g);
                assert(g != gdx as int);
                assert(v_means@[g] == means0[g]);
                assert(v_log_scales@[g] == ls0[g]);
                assert(v_quats@[g] == quats0[g]);
                assert(v_opacities@[g] == opac0[g]);
                assert(v_xys@[g] == xys0[g]);
                assert forall|i: int|
                    g * ((cpc as int) * 3) <= i < (g + 1) * ((cpc as int) * 3)
                    implies #[trigger] v_sh_coeffs@[i] == 0 by {
                    assert(coeffs0[i] == 0);
                    assert(0 <= i < clen) by (nonlinear_arith)
                        requires
                            g * ((cpc as int) * 3) <= i < (g + 1) * ((cpc as int) * 3),
                            0 <= g < n,
                            clen == (n as int) * ((cpc as int) * 3),
                            cpc >= 1;
                    assert(i < (gdx as int) * ((cpc as int) * 3) || i >= (gdx as int) * ((
                    cpc as int) * 3) + (cpc as int) * 3) by (nonlinear_arith)
                        requires
                            g * ((cpc as int) * 3) <= i < (g + 1) * ((cpc as int) * 3),
                            g != gdx as int,
                            0 <= g,
                            0 <= gdx as int,
                            cpc >= 1;
                }
            }
            assert forall|g: int|
                0 <= g < n && zero_opacity_cond(sp.raw_opacities@, splats@, gids@, g)
                implies #[trigger] zero_slot(
                v_means@,
                v_log_scales@,
                v_quats@,
                v_sh_coeffs@,
                v_opacities@,
                v_xys@,
                cpc as int,
                g,
            ) by {
                assert(zero_slot(means0, ls0, quats0, coeffs0, opac0, xys0, cpc as int, g));
                if (gids@[c as int] as int) == g {
                    assert(splats@[c as int].opacity == 0);
                    assert(vr_m == 0 && vg_m == 0 && vb_m == 0);
                    assert(vxc == 0 && vyc == 0);
                    assert(vop_inc == 0);
                    assert(pm == (V3 { x: 0, y: 0, z: 0 }) && pls == (V3 { x: 0, y: 0, z: 0 })
                        && pq == (Q4 { w: 0, x: 0, y: 0, z: 0 }));
                    assert(v_sh_coeffs@ == coeffs0);
                    assert forall|i: int|
                        g * ((cpc as int) * 3) <= i < (g + 1) * ((cpc as int) * 3)
                        implies #[trigger] v_sh_coeffs@[i] == 0 by {
                        assert(coeffs0[i] == 0);
                    }
                } else {
                    assert(g != gdx as int);
                    assert(v_means@[g] == means0[g]);
                    assert(v_log_scales@[g] == ls0[g]);
                    assert(v_quats@[g] == quats0[g]);
                    assert(v_opacities@[g] == opac0[g]);
                    assert(v_xys@[g] == xys0[g]);
                    assert forall|i: int|
                        g * ((cpc as int) * 3) <= i < (g + 1) * ((cpc as int) * 3)
                        implies #[trigger] v_sh_coeffs@[i] == 0 by {
                        assert(coeffs0[i] == 0);
                        assert(0 <= i < clen) by (nonlinear_arith)
                            requires
                                g * ((cpc as int) * 3) <= i < (g + 1) * ((cpc as int) * 3),
                                0 <= g < n,
                                clen == (n as int) * ((cpc as int) * 3),
                                cpc >= 1;
                        assert(i < (gdx as int) * ((cpc as int) * 3) || i >= (gdx as int) * ((
                        cpc as int) * 3) + (cpc as int) * 3) by (nonlinear_arith)
                            requires
                                g * ((cpc as int) * 3) <= i < (g + 1) * ((cpc as int) * 3),
                                g != gdx as int,
                                0 <= g,
                                0 <= gdx as int,
                                cpc >= 1;
                    }
                }
            }
        }
        c += 1;
    }
    let gr = Gradients { v_means, v_log_scales, v_quats, v_sh_coeffs, v_opacities, v_xys };
    proof {
        assert((n as int) * ((cpc as int) * 3) == (n as int) * ((sp.coeffs_per_channel as int)
            * 3));
        assert forall|g: int|
            0 <= g < n && not_among(gids@, nv as int, g) implies #[trigger] grads_zero_at(
            gr,
            cpc as int,
            g,
        ) by {
            assert(zero_slot(
                gr.v_means@,
                gr.v_log_scales@,
                gr.v_quats@,
                gr.v_sh_coeffs@,
                gr.v_opacities@,
                gr.v_xys@,
                cpc as int,
                g,
            ));
        }
        assert forall|g: int|
            0 <= g < n && zero_opacity_cond(sp.raw_opacities@, splats@, gids@, g)
            implies #[trigger] grads_zero_at(gr, cpc as int, g) by {
            assert(zero_slot(
                gr.v_means@,
                gr.v_log_scales@,
                gr.v_quats@,
                gr.v_sh_coeffs@,
                gr.v_opacities@,
                gr.v_xys@,
                cpc as int,
                g,
            ));
        }
    }
    gr
}

/// The backward entry point: given the auxiliary bundle, the forward
/// image and an image-space loss gradient, produce the gradients of the
/// loss with respect to every primitive parameter, plus the
/// screen-position gradient.  All gradient buffers are dense and
/// zero-initialized over the original primitive count, so
///
/// * a primitive that appears nowhere in the compact list receives
///   exactly zero gradient in every buffer, and
/// * a primitive of zero opacity (its logistic opacity rounds to zero and
///   every compact entry of it carries zero opacity) receives exactly
///   zero gradient in every buffer.
///
/// The auxiliary bundle's shape is checked first, and the call succeeds
/// exactly when the configuration validates and the bundle is shaped
/// consistently; on success every gradient buffer is pinned to the
/// spec-level replay (`gather_s` over `braster_s`), so the gradient pass,
/// like the forward pass, is a mathematical function of its inputs.
#[verifier::rlimit(100)]
#[verifier::loop_isolation(false)]
pub fn render_backward(
    sp: &Splats,
    cam: Camera,
    img_w: u32,
    img_h: u32,
    aux: &RenderAux,
    out_img: &Vec<i64>,
    v_output: &Vec<i64>,
) -> (r: Result<Gradients, RenderError>)
    requires
        sp.len_s() < 0x1_0000_0000,
    ensures
        r is Ok <==> (validate_s(*sp, cam, img_w, img_h) is Ok && aux_shape_s(
            *sp,
            *aux,
            out_img@,
            v_output@,
            img_w,
            img_h,
        )),
        r matches Err(e) ==> (match validate_s(*sp, cam, img_w, img_h) {
            Err(e2) => e == e2,
            Ok(_u) => e == RenderError::MismatchedLengths,
        }),
        r matches Ok(gr) ==> {
            let n = sp.len_s();
            let cpc = sp.coeffs_per_channel as int;
            let nv = aux.projected_splats@.len() as int;
            &&& gr.v_means@.len() == n
            &&& gr.v_log_scales@.len() == n
            &&& gr.v_quats@.len() == n
            &&& gr.v_opacities@.len() == n
            &&& gr.v_xys@.len() == n
            &&& gr.v_sh_coeffs@.len() == n * (cpc * 3)
            &&& (forall|g: int|
                0 <= g < n && not_among(aux.global_from_compact_gid@, nv, g)
                    ==> #[trigger] grads_zero_at(gr, cpc, g))
            &&& (forall|g: int|
                0 <= g < n && zero_opacity_cond(
                    sp.raw_opacities@,
                    aux.projected_splats@,
                    aux.global_from_compact_gid@,
                    g,
                ) ==> #[trigger] grads_zero_at(gr, cpc, g))
            &&& (aux.final_index matches Some(fv) && (ParamGrads {
                means: gr.v_means@,
                lss: gr.v_log_scales@,
                quats: gr.v_quats@,
                coeffs: gr.v_sh_coeffs@,
                opacs: gr.v_opacities@,
                xys: gr.v_xys@,
            }) == gather_s(
                *sp,
                cam,
                braster_s(
                    aux.projected_splats@,
                    aux.compact_gid_from_isect@,
                    aux.tile_bins@,
                    fv@,
                    out_img@,
                    v_output@,
                    crate::render::tiles_along_s(img_w),
                    img_w,
                    (img_h as int) * (img_w as int),
                    zero_gs(nv),
                ),
                aux.global_from_compact_gid@,
                nv,
                zero_pg(n, n * (cpc * 3)),
            ))
        },
{
    match crate::render::validate(sp, cam, img_w, img_h) {
        Err(e) => {
            return Err(e);
        },
        Ok(_u) => {},
    }
    let n = sp.len();
    let tw = crate::render::tiles_along(img_w);
    let th = crate::render::tiles_along(img_h);
    proof {
        assert((tw as int) * (th as int) <= 2048 * 2048 && (tw as int) * (th as int) >= 1)
            by (nonlinear_arith)
            requires 1 <= tw <= 2048 && 1 <= th <= 2048;
        assert((img_h as int) * (img_w as int) <= 32768 * 32768) by (nonlinear_arith)
            requires 1 <= img_w <= 32768 && 1 <= img_h <= 32768;
    }
    let num_tiles: usize = (tw as usize) * (th as usize);
    let npix: usize = (img_h as usize) * (img_w as usize);
    let splats = &aux.projected_splats;
    let nv = splats.len();
    let gids = &aux.global_from_compact_gid;
    let cids = &aux.compact_gid_from_isect;
    let bins = &aux.tile_bins;
    let ni = cids.len();

    // Shape checks of the auxiliary bundle.
    if gids.len() != nv || bins.len() != num_tiles {
        return Err(RenderError::MismatchedLengths);
    }
    if out_img.len() % 4 != 0 || out_img.len() / 4 != npix || v_output.len() % 4 != 0
        || v_output.len() / 4 != npix {
        return Err(RenderError::MismatchedLengths);
    }
    let fins = match &aux.final_index {
        Some(f) => f,
        None => {
            return Err(RenderError::MismatchedLengths);
        },
    };
    if fins.len() != npix {
        return Err(RenderError::MismatchedLengths);
    }
    let mut k: usize = 0;
    while k < ni
        invariant
            k <= ni,
            ni == cids@.len(),
            nv == splats@.len(),
            forall|j: int| 0 <= j < k ==> (#[trigger] cids@[j] as int) < nv,
        decreases ni - k,
    {
        if cids[k] as usize >= nv {
            return Err(RenderError::MismatchedLengths);
        }
        k += 1;
    }
    let mut t: usize = 0;
    while t < num_tiles
        invariant
            t <= num_tiles,
            num_tiles == bins@.len(),
            ni == cids@.len(),
            forall|j: int| 0 <= j < t ==> (#[trigger] bins@[j]).0 <= bins@[j].1 <= ni,
        decreases num_tiles - t,
    {
        let bt = bins[t];
        if bt.0 > bt.1 || (bt.1 as usize) > ni {
            return Err(RenderError::MismatchedLengths);
        }
        t += 1;
    }
    let mut c0: usize = 0;
    while c0 < nv
        invariant
            c0 <= nv,
            nv == gids@.len(),
            n == sp.len_s(),
            forall|j: int| 0 <= j < c0 ==> (#[trigger] gids@[j] as int) < n,
        decreases nv - c0,
    {
        if gids[c0] as usize >= n {
            return Err(RenderError::MismatchedLengths);
        }
        c0 += 1;
    }

    // Per-pixel gradient accumulation over the compact ids.
    let lg = backward_raster(splats, cids, bins, fins, out_img, v_output, tw, th, img_w, img_h);

    // Scatter to global ids and chain through the encodings.
    let gr = gather_grads(sp, cam, splats, gids, lg);
    proof {
        assert(aux_shape_s(*sp, *aux, out_img@, v_output@, img_w, img_h));
    }
    Ok(gr)
}

} // verus!
