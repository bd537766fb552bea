//! The projector: per-primitive view transform, culling, depth and
//! footprint computation.
//!
//! For each primitive the projector computes the camera-space depth, the
//! screen position, the projected 2x2 covariance (through the scale and
//! rotation of the primitive and the perspective Jacobian), its inverse
//! (the conic), and a conservative screen-space footprint radius of three
//! standard deviations, bounded through the Gershgorin estimate of the
//! largest eigenvalue.  A primitive is visible exactly when its depth
//! clears the near plane, its rotation and projected covariance are
//! nondegenerate, and its footprint rectangle meets the image.

use vstd::prelude::*;
use crate::fixed::{
    fmul, fdiv, sat_add, sat_sub, exp_pos, fsqrt, fmul_fx, sat_add_fx, sat_sub_fx, fsqrt_fx,
    tdiv, ONE,
};
use crate::types::{V3, Q4, M3, Camera, Splats, ProjectedSplat, m3_mul_v3, v3_sub, v3_dot, v3_dot_s};
use crate::sh::{
    K2, K3, sh_degree_s, sh_degree_from_coeffs, sh_basis, sh_basis_s, sh_dot_s, clamp_unit_s,
    eval_sh_channel, lemma_sh_counts,
};
use crate::fixed::{sigmoid, sigmoid_fx};
use crate::tiles::{TileRect, tile_range, tile_range_s};

verus! {

/// The near-plane depth (0.01 in fixed point): primitives at or closer
/// than this are culled.
pub const NEAR: i64 = 42949673;

/// Tile width in pixels.
pub const TILE_WIDTH: u32 = 16;

/// Tile width in fixed-point pixel units.
pub const TILE_ONE: i64 = 68719476736;

/// Per-primitive projection record.
#[derive(Clone, Copy, PartialEq, Eq, Structural, Debug)]
pub struct Geom {
    pub visible: bool,
    pub depth: i64,
    pub x: i64,
    pub y: i64,
    pub conic_a: i64,
    pub conic_b: i64,
    pub conic_c: i64,
    pub radius: i64,
}

/// Absolute value, saturating at the `i64` range.
pub open spec fn abs_fx_s(v: i64) -> i64 {
    if v < 0 {
        sat_sub_fx(0, v)
    } else {
        v
    }
}

/// Executable absolute value.
#[verifier::when_used_as_spec(abs_fx_s)]
pub fn abs_fx(v: i64) -> (r: i64)
    ensures
        r == abs_fx_s(v),
        r >= 0,
{
    if v < 0 {
        sat_sub(0, v)
    } else {
        v
    }
}

/// The product of two nonnegative values is nonnegative.
pub proof fn lemma_fmul_nonneg(a: i64, b: i64)
    requires
        a >= 0,
        b >= 0,
    ensures
        fmul_fx(a, b) >= 0,
{
    assert((a as int) * (b as int) >= 0) by (nonlinear_arith)
        requires a >= 0 && b >= 0;
    assert(tdiv((a as int) * (b as int), ONE as int) >= 0);
}

/// A value times itself is nonnegative in fixed point.
pub proof fn lemma_fmul_self_nonneg(a: i64)
    ensures
        fmul_fx(a, a) >= 0,
{
    assert((a as int) * (a as int) >= 0) by (nonlinear_arith);
    assert(tdiv((a as int) * (a as int), ONE as int) >= 0);
}

/// The fixed-point squared norm of a vector is nonnegative.
pub proof fn lemma_dot_self_nonneg(v: V3)
    ensures
        v3_dot_s(v, v) >= 0,
{
    lemma_fmul_self_nonneg(v.x);
    lemma_fmul_self_nonneg(v.y);
    lemma_fmul_self_nonneg(v.z);
}

/// The squared norm of a quaternion.
pub open spec fn quat_norm_sq_s(q: Q4) -> i64 {
    sat_add_fx(
        sat_add_fx(sat_add_fx(fmul_fx(q.w, q.w), fmul_fx(q.x, q.x)), fmul_fx(q.y, q.y)),
        fmul_fx(q.z, q.z),
    )
}

/// Executable squared norm of a quaternion.
#[verifier::when_used_as_spec(quat_norm_sq_s)]
pub fn quat_norm_sq(q: Q4) -> (r: i64)
    ensures
        r == quat_norm_sq_s(q),
{
    sat_add(sat_add(sat_add(fmul(q.w, q.w), fmul(q.x, q.x)), fmul(q.y, q.y)), fmul(q.z, q.z))
}

/// Normalization of a quaternion; the flag is false when the norm rounds
/// to zero, in which case the primitive cannot be oriented and is culled.
pub open spec fn normalize_quat_s(q: Q4) -> (Q4, bool) {
    let n = quat_norm_sq(q);
    let s = fsqrt_fx(n);
    if s <= 0 {
        (q, false)
    } else {
        let inv = fdiv(ONE, s);
        (Q4 { w: fmul(q.w, inv), x: fmul(q.x, inv), y: fmul(q.y, inv), z: fmul(q.z, inv) }, true)
    }
}

/// Executable quaternion normalization.
#[verifier::when_used_as_spec(normalize_quat_s)]
pub fn normalize_quat(q: Q4) -> (r: (Q4, bool))
    ensures
        r == normalize_quat_s(q),
{
    let n = quat_norm_sq(q);
    proof {
        lemma_fmul_self_nonneg(q.w);
        lemma_fmul_self_nonneg(q.x);
        lemma_fmul_self_nonneg(q.y);
        lemma_fmul_self_nonneg(q.z);
    }
    let s = fsqrt(n);
    if s <= 0 {
        (q, false)
    } else {
        let inv = fdiv(ONE, s);
        (Q4 { w: fmul(q.w, inv), x: fmul(q.x, inv), y: fmul(q.y, inv), z: fmul(q.z, inv) }, true)
    }
}

/// The rotation matrix of a (normalized) quaternion.
pub open spec fn rot_from_quat_s(q: Q4) -> M3 {
    let xx = fmul(q.x, q.x);
    let yy = fmul(q.y, q.y);
    let zz = fmul(q.z, q.z);
    let xy = fmul(q.x, q.y);
    let xz = fmul(q.x, q.z);
    let yz = fmul(q.y, q.z);
    let wx = fmul(q.w, q.x);
    let wy = fmul(q.w, q.y);
    let wz = fmul(q.w, q.z);
    M3 {
        m00: sat_sub(ONE, fmul(K2, sat_add(yy, zz))),
        m01: fmul(K2, sat_sub(xy, wz)),
        m02: fmul(K2, sat_add(xz, wy)),
        m10: fmul(K2, sat_add(xy, wz)),
        m11: sat_sub(ONE, fmul(K2, sat_add(xx, zz))),
        m12: fmul(K2, sat_sub(yz, wx)),
        m20: fmul(K2, sat_sub(xz, wy)),
        m21: fmul(K2, sat_add(yz, wx)),
        m22: sat_sub(ONE, fmul(K2, sat_add(xx, yy))),
    }
}

/// Executable rotation matrix of a quaternion.
#[verifier::when_used_as_spec(rot_from_quat_s)]
pub fn rot_from_quat(q: Q4) -> (r: M3)
    ensures
        r == rot_from_quat_s(q),
{
    let xx = fmul(q.x, q.x);
    let yy = fmul(q.y, q.y);
    let zz = fmul(q.z, q.z);
    let xy = fmul(q.x, q.y);
    let xz = fmul(q.x, q.z);
    let yz = fmul(q.y, q.z);
    let wx = fmul(q.w, q.x);
    let wy = fmul(q.w, q.y);
    let wz = fmul(q.w, q.z);
    M3 {
        m00: sat_sub(ONE, fmul(K2, sat_add(yy, zz))),
        m01: fmul(K2, sat_sub(xy, wz)),
        m02: fmul(K2, sat_add(xz, wy)),
        m10: fmul(K2, sat_add(xy, wz)),
        m11: sat_sub(ONE, fmul(K2, sat_add(xx, zz))),
        m12: fmul(K2, sat_sub(yz, wx)),
        m20: fmul(K2, sat_sub(xz, wy)),
        m21: fmul(K2, sat_add(yz, wx)),
        m22: sat_sub(ONE, fmul(K2, sat_add(xx, yy))),
    }
}

/// The whole per-primitive projection, as a spec value: the same
/// computation, step for step, as the executable `project_geom`.
#[verifier::opaque]
pub open spec fn project_geom_s(
    cam: Camera,
    w_one: i64,
    h_one: i64,
    mean: V3,
    log_scale: V3,
    quat: Q4,
) -> Geom {
    let invisible = Geom {
        visible: false,
        depth: 0,
        x: 0,
        y: 0,
        conic_a: 0,
        conic_b: 0,
        conic_c: 0,
        radius: 0,
    };
    let p = m3_mul_v3(cam.rot, v3_sub(mean, cam.pos));
    let nq = normalize_quat(quat);
    if p.z <= NEAR || !nq.1 {
        invisible
    } else {
        let depth = p.z;
        let iz = fdiv(ONE, depth);
        let xnd = fmul(p.x, iz);
        let ynd = fmul(p.y, iz);
        let sx = sat_add(fmul(cam.fx, xnd), cam.cx);
        let sy = sat_add(fmul(cam.fy, ynd), cam.cy);
        let rotm = rot_from_quat(nq.0);
        let s0 = exp_pos(log_scale.x);
        let s1 = exp_pos(log_scale.y);
        let s2 = exp_pos(log_scale.z);
        let r0 = V3 { x: fmul(rotm.m00, s0), y: fmul(rotm.m01, s1), z: fmul(rotm.m02, s2) };
        let r1 = V3 { x: fmul(rotm.m10, s0), y: fmul(rotm.m11, s1), z: fmul(rotm.m12, s2) };
        let r2 = V3 { x: fmul(rotm.m20, s0), y: fmul(rotm.m21, s1), z: fmul(rotm.m22, s2) };
        let sig0 = V3 { x: v3_dot(r0, r0), y: v3_dot(r0, r1), z: v3_dot(r0, r2) };
        let sig1 = V3 { x: sig0.y, y: v3_dot(r1, r1), z: v3_dot(r1, r2) };
        let sig2 = V3 { x: sig0.z, y: sig1.z, z: v3_dot(r2, r2) };
        let fxiz = fmul(cam.fx, iz);
        let fyiz = fmul(cam.fy, iz);
        let j02 = sat_sub(0, fmul(fmul(cam.fx, xnd), iz));
        let j12 = sat_sub(0, fmul(fmul(cam.fy, ynd), iz));
        let t0 = V3 {
            x: sat_add(fmul(fxiz, cam.rot.m00), fmul(j02, cam.rot.m20)),
            y: sat_add(fmul(fxiz, cam.rot.m01), fmul(j02, cam.rot.m21)),
            z: sat_add(fmul(fxiz, cam.rot.m02), fmul(j02, cam.rot.m22)),
        };
        let t1 = V3 {
            x: sat_add(fmul(fyiz, cam.rot.m10), fmul(j12, cam.rot.m20)),
            y: sat_add(fmul(fyiz, cam.rot.m11), fmul(j12, cam.rot.m21)),
            z: sat_add(fmul(fyiz, cam.rot.m12), fmul(j12, cam.rot.m22)),
        };
        let u0 = V3 { x: v3_dot(sig0, t0), y: v3_dot(sig1, t0), z: v3_dot(sig2, t0) };
        let u1 = V3 { x: v3_dot(sig0, t1), y: v3_dot(sig1, t1), z: v3_dot(sig2, t1) };
        let ca = v3_dot(t0, u0);
        let cb = v3_dot(t0, u1);
        let cc = v3_dot(t1, u1);
        let det = sat_sub(fmul(ca, cc), fmul(cb, cb));
        if det <= 0 || ca <= 0 || cc <= 0 {
            invisible
        } else {
            let ia = fdiv(cc, det);
            let ib = sat_sub(0, fdiv(cb, det));
            let ic = fdiv(ca, det);
            let g0 = sat_add(if ca >= cc { ca } else { cc }, abs_fx(cb));
            let g1 = if g0 < 0 { 0 } else { g0 };
            let radius = fmul(fsqrt(g1), K3);
            let vis = sat_sub(sx, radius) <= w_one && sat_add(sx, radius) >= 0 && sat_sub(
                sy,
                radius,
            ) <= h_one && sat_add(sy, radius) >= 0;
            Geom {
                visible: vis,
                depth: depth,
                x: sx,
                y: sy,
                conic_a: ia,
                conic_b: ib,
                conic_c: ic,
                radius: radius,
            }
        }
    }
}

/// Project one primitive: depth, screen position, conic and footprint,
/// with the visibility verdict.
pub fn project_geom(
    cam: Camera,
    w_one: i64,
    h_one: i64,
    mean: V3,
    log_scale: V3,
    quat: Q4,
) -> (r: Geom)
    ensures
        r == project_geom_s(cam, w_one, h_one, mean, log_scale, quat),
        r.visible ==> r.depth > NEAR && r.radius >= 0,
{
    proof {
        reveal(project_geom_s);
    }
    let invisible = Geom {
        visible: false,
        depth: 0,
        x: 0,
        y: 0,
        conic_a: 0,
        conic_b: 0,
        conic_c: 0,
        radius: 0,
    };
    let p = m3_mul_v3(cam.rot, v3_sub(mean, cam.pos));
    let nq = normalize_quat(quat);
    if p.z <= NEAR || !nq.1 {
        invisible
    } else {
        let depth = p.z;
        proof {
            assert(depth != 0);
        }
        let iz = fdiv(ONE, depth);
        let xnd = fmul(p.x, iz);
        let ynd = fmul(p.y, iz);
        let sx = sat_add(fmul(cam.fx, xnd), cam.cx);
        let sy = sat_add(fmul(cam.fy, ynd), cam.cy);
        let rotm = rot_from_quat(nq.0);
        let s0 = exp_pos(log_scale.x);
        let s1 = exp_pos(log_scale.y);
        let s2 = exp_pos(log_scale.z);
        let r0 = V3 { x: fmul(rotm.m00, s0), y: fmul(rotm.m01, s1), z: fmul(rotm.m02, s2) };
        let r1 = V3 { x: fmul(rotm.m10, s0), y: fmul(rotm.m11, s1), z: fmul(rotm.m12, s2) };
        let r2 = V3 { x: fmul(rotm.m20, s0), y: fmul(rotm.m21, s1), z: fmul(rotm.m22, s2) };
        let sig0 = V3 { x: v3_dot(r0, r0), y: v3_dot(r0, r1), z: v3_dot(r0, r2) };
        let sig1 = V3 { x: sig0.y, y: v3_dot(r1, r1), z: v3_dot(r1, r2) };
        let sig2 = V3 { x: sig0.z, y: sig1.z, z: v3_dot(r2, r2) };
        let fxiz = fmul(cam.fx, iz);
        let fyiz = fmul(cam.fy, iz);
        let j02 = sat_sub(0, fmul(fmul(cam.fx, xnd), iz));
        let j12 = sat_sub(0, fmul(fmul(cam.fy, ynd), iz));
        let t0 = V3 {
            x: sat_add(fmul(fxiz, cam.rot.m00), fmul(j02, cam.rot.m20)),
            y: sat_add(fmul(fxiz, cam.rot.m01), fmul(j02, cam.rot.m21)),
            z: sat_add(fmul(fxiz, cam.rot.m02), fmul(j02, cam.rot.m22)),
        };
        let t1 = V3 {
            x: sat_add(fmul(fyiz, cam.rot.m10), fmul(j12, cam.rot.m20)),
            y: sat_add(fmul(fyiz, cam.rot.m11), fmul(j12, cam.rot.m21)),
            z: sat_add(fmul(fyiz, cam.rot.m12), fmul(j12, cam.rot.m22)),
        };
        let u0 = V3 { x: v3_dot(sig0, t0), y: v3_dot(sig1, t0), z: v3_dot(sig2, t0) };
        let u1 = V3 { x: v3_dot(sig0, t1), y: v3_dot(sig1, t1), z: v3_dot(sig2, t1) };
        let ca = v3_dot(t0, u0);
        let cb = v3_dot(t0, u1);
        let cc = v3_dot(t1, u1);
        let det = sat_sub(fmul(ca, cc), fmul(cb, cb));
        if det <= 0 || ca <= 0 || cc <= 0 {
            invisible
        } else {
            let ia = fdiv(cc, det);
            let ib = sat_sub(0, fdiv(cb, det));
            let ic = fdiv(ca, det);
            let g0 = sat_add(if ca >= cc { ca } else { cc }, abs_fx(cb));
            let g1 = if g0 < 0 { 0 } else { g0 };
            proof {
                assert(g1 >= 0);
            }
            let radius = fmul(fsqrt(g1), K3);
            proof {
                lemma_fmul_nonneg(fsqrt(g1), K3);
            }
            let vis = sat_sub(sx, radius) <= w_one && sat_add(sx, radius) >= 0 && sat_sub(
                sy,
                radius,
            ) <= h_one && sat_add(sy, radius) >= 0;
            Geom {
                visible: vis,
                depth: depth,
                x: sx,
                y: sy,
                conic_a: ia,
                conic_b: ib,
                conic_c: ic,
                radius: radius,
            }
        }
    }
}

/// The result of evaluating one primitive: its projection record, the
/// tile rectangle its footprint covers and the entry count it will emit.
#[derive(Clone, Copy, PartialEq, Eq, Structural, Debug)]
pub struct EvalOut {
    pub visible: bool,
    pub depth: i64,
    pub splat: ProjectedSplat,
    pub rect: TileRect,
    pub count: u32,
}

/// The evaluation of an invisible primitive.
pub open spec fn eval_zero_s() -> EvalOut {
    EvalOut {
        visible: false,
        depth: 0,
        splat: ProjectedSplat {
            x: 0,
            y: 0,
            conic_a: 0,
            conic_b: 0,
            conic_c: 0,
            color_r: 0,
            color_g: 0,
            color_b: 0,
            opacity: 0,
        },
        rect: TileRect { tx0: 0, tx1: 0, ty0: 0, ty1: 0 },
        count: 0,
    }
}

/// The whole per-primitive evaluation, as a spec value: projection, view
/// direction, spherical-harmonic color, opacity, tile rectangle.
#[verifier::opaque]
pub open spec fn eval_splat_s(
    sp: Splats,
    cam: Camera,
    w_one: i64,
    h_one: i64,
    tile_w: u32,
    tile_h: u32,
    g: int,
) -> EvalOut {
    let geom = project_geom_s(cam, w_one, h_one, sp.means@[g], sp.log_scales@[g], sp.quats@[g]);
    if !geom.visible {
        eval_zero_s()
    } else {
        let d = v3_sub(sp.means@[g], cam.pos);
        let nsq = v3_dot(d, d);
        let sn = fsqrt_fx(nsq);
        let dir = if sn <= 0 {
            V3 { x: 0, y: 0, z: ONE }
        } else {
            V3 {
                x: fmul(d.x, fdiv(ONE, sn)),
                y: fmul(d.y, fdiv(ONE, sn)),
                z: fmul(d.z, fdiv(ONE, sn)),
            }
        };
        let degree = sh_degree_s(sp.coeffs_per_channel);
        let basis = sh_basis_s(degree, dir.x, dir.y, dir.z);
        let base = g * (sp.coeffs_per_channel as int) * 3;
        let cr = clamp_unit_s(sh_dot_s(basis, sp.sh_coeffs@, base, 0, basis.len() as int));
        let cg = clamp_unit_s(sh_dot_s(basis, sp.sh_coeffs@, base, 1, basis.len() as int));
        let cb = clamp_unit_s(sh_dot_s(basis, sp.sh_coeffs@, base, 2, basis.len() as int));
        let op = sigmoid_fx(sp.raw_opacities@[g]);
        let tx = tile_range_s(geom.x, geom.radius, tile_w);
        let ty = tile_range_s(geom.y, geom.radius, tile_h);
        let rect = TileRect { tx0: tx.0, tx1: tx.1, ty0: ty.0, ty1: ty.1 };
        EvalOut {
            visible: true,
            depth: geom.depth,
            splat: ProjectedSplat {
                x: geom.x,
                y: geom.y,
                conic_a: geom.conic_a,
                conic_b: geom.conic_b,
                conic_c: geom.conic_c,
                color_r: cr,
                color_g: cg,
                color_b: cb,
                opacity: op,
            },
            rect,
            count: rect.count_s() as u32,
        }
    }
}

/// Evaluate one primitive: project it, and if it is visible compute its
/// color from the spherical harmonics against the view direction, its
/// opacity through the logistic nonlinearity, and its tile rectangle.
#[verifier::rlimit(100)]
pub fn eval_splat(
    sp: &Splats,
    cam: Camera,
    w_one: i64,
    h_one: i64,
    tile_w: u32,
    tile_h: u32,
    g: usize,
) -> (r: EvalOut)
    requires
        sp.wf(),
        g < sp.len_s(),
        tile_w <= 4096,
        tile_h <= 4096,
    ensures
        r == eval_splat_s(*sp, cam, w_one, h_one, tile_w, tile_h, g as int),
        r.rect.wf(tile_w, tile_h),
        r.count as int == r.rect.count_s(),
        !r.visible ==> r.count == 0,
        r.visible ==> r.depth > NEAR,
        0 <= r.splat.opacity <= ONE,
        0 <= r.splat.color_r <= ONE,
        0 <= r.splat.color_g <= ONE,
        0 <= r.splat.color_b <= ONE,
{
    proof {
        reveal(eval_splat_s);
    }
    let mean = sp.means[g];
    let geom = project_geom(cam, w_one, h_one, mean, sp.log_scales[g], sp.quats[g]);
    if !geom.visible {
        EvalOut {
            visible: false,
            depth: 0,
            splat: ProjectedSplat {
                x: 0,
                y: 0,
                conic_a: 0,
                conic_b: 0,
                conic_c: 0,
                color_r: 0,
                color_g: 0,
                color_b: 0,
                opacity: 0,
            },
            rect: TileRect { tx0: 0, tx1: 0, ty0: 0, ty1: 0 },
            count: 0,
        }
    } else {
        let d = v3_sub(mean, cam.pos);
        let nsq = v3_dot(d, d);
        proof {
            lemma_dot_self_nonneg(d);
        }
        let sn = fsqrt(nsq);
        let dir = if sn <= 0 {
            V3 { x: 0, y: 0, z: ONE }
        } else {
            let invn = fdiv(ONE, sn);
            V3 { x: fmul(d.x, invn), y: fmul(d.y, invn), z: fmul(d.z, invn) }
        };
        let degree = sh_degree_from_coeffs(sp.coeffs_per_channel);
        let basis = sh_basis(degree, dir.x, dir.y, dir.z);
        let cpc = sp.coeffs_per_channel as usize;
        let clen = sp.sh_coeffs.len();
        proof {
            lemma_sh_counts();
            assert((g as int) * (cpc as int) * 3 + (cpc as int) * 3 <= sp.len_s() * (cpc as int)
                * 3) by (nonlinear_arith)
                requires (g as int) < sp.len_s() && cpc >= 1;
            assert(sp.len_s() * (cpc as int) * 3 == clen);
        }
        let base = g * cpc * 3;
        let cr = eval_sh_channel(&basis, &sp.sh_coeffs, base, 0);
        let cg = eval_sh_channel(&basis, &sp.sh_coeffs, base, 1);
        let cb = eval_sh_channel(&basis, &sp.sh_coeffs, base, 2);
        let op = sigmoid(sp.raw_opacities[g]);
        let tx = tile_range(geom.x, geom.radius, tile_w);
        let ty = tile_range(geom.y, geom.radius, tile_h);
        let rect = TileRect { tx0: tx.0, tx1: tx.1, ty0: ty.0, ty1: ty.1 };
        proof {
            assert(((tx.1 - tx.0) as int) * ((ty.1 - ty.0) as int) < 0x1_0000_0000)
                by (nonlinear_arith)
                requires
                    tx.0 <= tx.1 <= tile_w,
                    ty.0 <= ty.1 <= tile_h,
                    tile_w <= 4096,
                    tile_h <= 4096;
        }
        let count: u32 = (tx.1 - tx.0) * (ty.1 - ty.0);
        EvalOut {
            visible: true,
            depth: geom.depth,
            splat: ProjectedSplat {
                x: geom.x,
                y: geom.y,
                conic_a: geom.conic_a,
                conic_b: geom.conic_b,
                conic_c: geom.conic_c,
                color_r: cr,
                color_g: cg,
                color_b: cb,
                opacity: op,
            },
            rect,
            count,
        }
    }
}

} // verus!
