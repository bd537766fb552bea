//! Spherical-harmonic color evaluation.
//!
//! Each primitive's view-dependent color is encoded as spherical-harmonic
//! coefficients, 1, 4, 9, 16 or 25 per channel depending on the configured
//! degree.  The evaluator computes the basis values for the view direction
//! and takes the dot product with the coefficients, clamping the result
//! into the unit interval.

use vstd::prelude::*;
use crate::fixed::{fmul, sat_add, sat_sub, fmul_fx, sat_add_fx, ONE};

verus! {

/// The zeroth spherical-harmonic basis constant, in fixed point.
pub const SH_C0: i64 = 1211587905;

pub const SH_C1: i64 = 2098531809;

pub const NEG_SH_C1: i64 = -2098531809;

pub const SH_C2_0: i64 = 4692459779;

pub const SH_C2_1: i64 = -4692459779;

pub const SH_C2_2: i64 = 1354596458;

pub const SH_C2_3: i64 = -4692459779;

pub const SH_C2_4: i64 = 2346229889;

pub const SH_C3_0: i64 = -2534217922;

pub const SH_C3_1: i64 = 12415081612;

pub const SH_C3_2: i64 = -1962996761;

pub const SH_C3_3: i64 = 1602780144;

pub const SH_C3_4: i64 = -1962996761;

pub const SH_C3_5: i64 = 6207540806;

pub const SH_C3_6: i64 = -2534217922;

pub const SH_C4_0: i64 = 10751776066;

pub const SH_C4_1: i64 = -7602653766;

pub const SH_C4_2: i64 = 4063789375;

pub const SH_C4_3: i64 = -2873533024;

pub const SH_C4_4: i64 = 454345464;

pub const SH_C4_5: i64 = -2873533024;

pub const SH_C4_6: i64 = 2031894687;

pub const SH_C4_7: i64 = -7602653766;

pub const SH_C4_8: i64 = 2687944016;

/// Small integer factors of the basis polynomials, in fixed point.
pub const K2: i64 = 8589934592;

pub const K3: i64 = 12884901888;

pub const K4: i64 = 17179869184;

pub const K7: i64 = 30064771072;

pub const K30: i64 = 128849018880;

pub const K35: i64 = 150323855360;

pub const K6: i64 = 25769803776;

pub const K8: i64 = 34359738368;

pub const K14: i64 = 60129542144;

pub const K21: i64 = 90194313216;

pub const K60: i64 = 257698037760;

pub const K140: i64 = 601295421440;

/// Coefficient counts that encode a supported degree.
pub open spec fn valid_sh_coeff_count(c: u32) -> bool {
    c == 1 || c == 4 || c == 9 || c == 16 || c == 25
}

/// The number of coefficients per channel for a degree.
pub open spec fn sh_count_s(degree: u32) -> int {
    (degree + 1) * (degree + 1)
}

/// The number of spherical-harmonic coefficients per channel for a degree.
pub fn sh_coeffs_for_degree(degree: u32) -> (r: u32)
    requires
        degree <= 4,
    ensures
        r == sh_count_s(degree),
{
    proof {
        lemma_sh_counts();
    }
    match degree {
        0 => 1,
        1 => 4,
        2 => 9,
        3 => 16,
        _ => 25,
    }
}

/// The five supported coefficient counts, spelled out.
pub proof fn lemma_sh_counts()
    ensures
        sh_count_s(0) == 1,
        sh_count_s(1) == 4,
        sh_count_s(2) == 9,
        sh_count_s(3) == 16,
        sh_count_s(4) == 25,
{
    assert(sh_count_s(0) == 1 && sh_count_s(1) == 4 && sh_count_s(2) == 9 && sh_count_s(3) == 16
        && sh_count_s(4) == 25) by (nonlinear_arith);
}

/// The degree encoded by a per-channel coefficient count.  Only the five
/// square counts are meaningful; anything else is rejected before the
/// pipeline starts, so this function requires a valid count.
pub fn sh_degree_from_coeffs(coeffs_per_channel: u32) -> (r: u32)
    requires
        valid_sh_coeff_count(coeffs_per_channel),
    ensures
        r == sh_degree_s(coeffs_per_channel),
        r <= 4,
        sh_count_s(r) == coeffs_per_channel,
{
    proof {
        lemma_sh_counts();
    }
    match coeffs_per_channel {
        1 => 0,
        4 => 1,
        9 => 2,
        16 => 3,
        _ => 4,
    }
}

/// The degree encoded by a coefficient count, as a spec value.
pub open spec fn sh_degree_s(c: u32) -> u32 {
    if c == 1 {
        0
    } else if c == 4 {
        1
    } else if c == 9 {
        2
    } else if c == 16 {
        3
    } else {
        4
    }
}

/// The checked form of `sh_degree_from_coeffs`, used by configuration
/// validation: `Some` exactly on the five supported counts.
pub fn sh_degree_checked(coeffs_per_channel: u32) -> (r: Option<u32>)
    ensures
        r is Some <==> valid_sh_coeff_count(coeffs_per_channel),
        r is Some ==> r == Some(sh_degree_s(coeffs_per_channel)),
{
    match coeffs_per_channel {
        1 => Some(0),
        4 => Some(1),
        9 => Some(2),
        16 => Some(3),
        25 => Some(4),
        _ => None,
    }
}

/// The spec-level value of the basis vector: the same computation, term
/// for term, as the executable `sh_basis`.
pub open spec fn sh_basis_s(degree: u32, x: i64, y: i64, z: i64) -> Seq<i64> {
    let xx = fmul(x, x);
    let yy = fmul(y, y);
    let zz = fmul(z, z);
    let xy = fmul(x, y);
    let yz = fmul(y, z);
    let xz = fmul(x, z);
    if degree == 0 {
        seq![SH_C0]
    } else if degree == 1 {
        seq![
            SH_C0,
            fmul(NEG_SH_C1, y),
            fmul(SH_C1, z),
            fmul(NEG_SH_C1, x),
        ]
    } else if degree == 2 {
        seq![
            SH_C0,
            fmul(NEG_SH_C1, y),
            fmul(SH_C1, z),
            fmul(NEG_SH_C1, x),
            fmul(SH_C2_0, xy),
            fmul(SH_C2_1, yz),
            fmul(SH_C2_2, sat_sub(sat_sub(fmul(zz, K2), xx), yy)),
            fmul(SH_C2_3, xz),
            fmul(SH_C2_4, sat_sub(xx, yy)),
        ]
    } else if degree == 3 {
        seq![
            SH_C0,
            fmul(NEG_SH_C1, y),
            fmul(SH_C1, z),
            fmul(NEG_SH_C1, x),
            fmul(SH_C2_0, xy),
            fmul(SH_C2_1, yz),
            fmul(SH_C2_2, sat_sub(sat_sub(fmul(zz, K2), xx), yy)),
            fmul(SH_C2_3, xz),
            fmul(SH_C2_4, sat_sub(xx, yy)),
            fmul(SH_C3_0, fmul(y, sat_sub(fmul(xx, K3), yy))),
            fmul(SH_C3_1, fmul(xy, z)),
            fmul(SH_C3_2, fmul(y, sat_sub(sat_sub(fmul(zz, K4), xx), yy))),
            fmul(SH_C3_3, fmul(z, sat_sub(sat_sub(fmul(zz, K2), fmul(xx, K3)), fmul(yy, K3)))),
            fmul(SH_C3_4, fmul(x, sat_sub(sat_sub(fmul(zz, K4), xx), yy))),
            fmul(SH_C3_5, fmul(z, sat_sub(xx, yy))),
            fmul(SH_C3_6, fmul(x, sat_sub(xx, fmul(yy, K3)))),
        ]
    } else {
        seq![
            SH_C0,
            fmul(NEG_SH_C1, y),
            fmul(SH_C1, z),
            fmul(NEG_SH_C1, x),
            fmul(SH_C2_0, xy),
            fmul(SH_C2_1, yz),
            fmul(SH_C2_2, sat_sub(sat_sub(fmul(zz, K2), xx), yy)),
            fmul(SH_C2_3, xz),
            fmul(SH_C2_4, sat_sub(xx, yy)),
            fmul(SH_C3_0, fmul(y, sat_sub(fmul(xx, K3), yy))),
            fmul(SH_C3_1, fmul(xy, z)),
            fmul(SH_C3_2, fmul(y, sat_sub(sat_sub(fmul(zz, K4), xx), yy))),
            fmul(SH_C3_3, fmul(z, sat_sub(sat_sub(fmul(zz, K2), fmul(xx, K3)), fmul(yy, K3)))),
            fmul(SH_C3_4, fmul(x, sat_sub(sat_sub(fmul(zz, K4), xx), yy))),
            fmul(SH_C3_5, fmul(z, sat_sub(xx, yy))),
            fmul(SH_C3_6, fmul(x, sat_sub(xx, fmul(yy, K3)))),
            fmul(SH_C4_0, fmul(xy, sat_sub(xx, yy))),
            fmul(SH_C4_1, fmul(yz, sat_sub(fmul(xx, K3), yy))),
            fmul(SH_C4_2, fmul(xy, sat_sub(fmul(zz, K7), ONE))),
            fmul(SH_C4_3, fmul(yz, sat_sub(fmul(zz, K7), K3))),
            fmul(SH_C4_4, sat_add(fmul(zz, sat_sub(fmul(zz, K35), K30)), K3)),
            fmul(SH_C4_5, fmul(xz, sat_sub(fmul(zz, K7), K3))),
            fmul(SH_C4_6, fmul(sat_sub(xx, yy), sat_sub(fmul(zz, K7), ONE))),
            fmul(SH_C4_7, fmul(xz, sat_sub(xx, fmul(yy, K3)))),
            fmul(SH_C4_8, sat_sub(fmul(xx, sat_sub(xx, fmul(yy, K3))), fmul(yy, sat_sub(fmul(xx, K3), yy)))),
        ]
    }
}

/// The spherical-harmonic basis values for a unit view direction, for all
/// bands up to `degree`; the color of a channel is the dot product of this
/// vector with the channel's coefficients.
#[verifier::rlimit(100)]
pub fn sh_basis(degree: u32, x: i64, y: i64, z: i64) -> (r: Vec<i64>)
    requires
        degree <= 4,
    ensures
        r@ == sh_basis_s(degree, x, y, z),
        r@.len() == sh_count_s(degree),
{
    let xx = fmul(x, x);
    let yy = fmul(y, y);
    let zz = fmul(z, z);
    let xy = fmul(x, y);
    let yz = fmul(y, z);
    let xz = fmul(x, z);
    let mut out: Vec<i64> = Vec::new();
    out.push(SH_C0);
    if degree >= 1 {
        out.push(fmul(NEG_SH_C1, y));
        out.push(fmul(SH_C1, z));
        out.push(fmul(NEG_SH_C1, x));
    }
    if degree >= 2 {
        out.push(fmul(SH_C2_0, xy));
        out.push(fmul(SH_C2_1, yz));
        out.push(fmul(SH_C2_2, sat_sub(sat_sub(fmul(zz, K2), xx), yy)));
        out.push(fmul(SH_C2_3, xz));
        out.push(fmul(SH_C2_4, sat_sub(xx, yy)));
    }
    if degree >= 3 {
        out.push(fmul(SH_C3_0, fmul(y, sat_sub(fmul(xx, K3), yy))));
        out.push(fmul(SH_C3_1, fmul(xy, z)));
        out.push(fmul(SH_C3_2, fmul(y, sat_sub(sat_sub(fmul(zz, K4), xx), yy))));
        out.push(fmul(SH_C3_3, fmul(z, sat_sub(sat_sub(fmul(zz, K2), fmul(xx, K3)), fmul(yy, K3)))));
        out.push(fmul(SH_C3_4, fmul(x, sat_sub(sat_sub(fmul(zz, K4), xx), yy))));
        out.push(fmul(SH_C3_5, fmul(z, sat_sub(xx, yy))));
        out.push(fmul(SH_C3_6, fmul(x, sat_sub(xx, fmul(yy, K3)))));
    }
    if degree >= 4 {
        out.push(fmul(SH_C4_0, fmul(xy, sat_sub(xx, yy))));
        out.push(fmul(SH_C4_1, fmul(yz, sat_sub(fmul(xx, K3), yy))));
        out.push(fmul(SH_C4_2, fmul(xy, sat_sub(fmul(zz, K7), ONE))));
        out.push(fmul(SH_C4_3, fmul(yz, sat_sub(fmul(zz, K7), K3))));
        out.push(fmul(SH_C4_4, sat_add(fmul(zz, sat_sub(fmul(zz, K35), K30)), K3)));
        out.push(fmul(SH_C4_5, fmul(xz, sat_sub(fmul(zz, K7), K3))));
        out.push(fmul(SH_C4_6, fmul(sat_sub(xx, yy), sat_sub(fmul(zz, K7), ONE))));
        out.push(fmul(SH_C4_7, fmul(xz, sat_sub(xx, fmul(yy, K3)))));
        out.push(fmul(SH_C4_8, sat_sub(fmul(xx, sat_sub(xx, fmul(yy, K3))), fmul(yy, sat_sub(fmul(xx, K3), yy)))));
    }
    proof {
        if degree == 0 {
            assert(out@ =~= sh_basis_s(degree, x, y, z));
        } else if degree == 1 {
            assert(out@ =~= sh_basis_s(degree, x, y, z));
        } else if degree == 2 {
            assert(out@ =~= sh_basis_s(degree, x, y, z));
        } else if degree == 3 {
            assert(out@ =~= sh_basis_s(degree, x, y, z));
        } else {
            assert(out@ =~= sh_basis_s(degree, x, y, z));
        }
    }
    out
}

/// Clamp a fixed-point value into the unit interval.
pub open spec fn clamp_unit_s(v: i64) -> i64 {
    if v < 0 {
        0
    } else if v > ONE {
        ONE
    } else {
        v
    }
}

/// Executable clamp into the unit interval.
#[verifier::when_used_as_spec(clamp_unit_s)]
pub fn clamp_unit(v: i64) -> (r: i64)
    ensures
        r == clamp_unit_s(v),
        0 <= r <= ONE,
{
    if v < 0 {
        0
    } else if v > ONE {
        ONE
    } else {
        v
    }
}

/// The saturating dot product of the first `i` basis values with one
/// channel's coefficients; the coefficients of channel `ch` sit at stride 3
/// from `base` in the flattened coefficient buffer.
pub open spec fn sh_dot_s(basis: Seq<i64>, coeffs: Seq<i64>, base: int, ch: int, i: int) -> i64
    decreases i,
{
    if i <= 0 {
        0
    } else {
        sat_add_fx(
            sh_dot_s(basis, coeffs, base, ch, i - 1),
            fmul_fx(basis[i - 1], coeffs[base + (i - 1) * 3 + ch]),
        )
    }
}

/// One channel of a splat's color: the dot product of the basis with the
/// channel's coefficients, clamped into the unit interval.
pub fn eval_sh_channel(basis: &Vec<i64>, coeffs: &Vec<i64>, base: usize, ch: usize) -> (r: i64)
    requires
        ch < 3,
        base + basis@.len() * 3 <= coeffs@.len(),
    ensures
        r == clamp_unit_s(sh_dot_s(basis@, coeffs@, base as int, ch as int, basis@.len() as int)),
        0 <= r <= ONE,
{
    let n = basis.len();
    let clen = coeffs.len();
    let mut acc: i64 = 0;
    let mut i: usize = 0;
    while i < n
        invariant
            i <= n,
            n == basis@.len(),
            ch < 3,
            clen == coeffs@.len(),
            base + n * 3 <= clen,
            acc == sh_dot_s(basis@, coeffs@, base as int, ch as int, i as int),
        decreases n - i,
    {
        proof {
            assert((i as int) * 3 + 3 <= (n as int) * 3) by (nonlinear_arith)
                requires (i as int) < (n as int);
        }
        acc = sat_add(acc, fmul(basis[i], coeffs[base + i * 3 + ch]));
        i += 1;
    }
    clamp_unit(acc)
}

/// One channel's raw (unclamped) dot product with the basis, used by the
/// gradient pass to recover the clamp mask.
pub fn eval_sh_channel_raw(basis: &Vec<i64>, coeffs: &Vec<i64>, base: usize, ch: usize) -> (r: i64)
    requires
        ch < 3,
        base + basis@.len() * 3 <= coeffs@.len(),
    ensures
        r == sh_dot_s(basis@, coeffs@, base as int, ch as int, basis@.len() as int),
{
    let n = basis.len();
    let clen = coeffs.len();
    let mut acc: i64 = 0;
    let mut i: usize = 0;
    while i < n
        invariant
            i <= n,
            n == basis@.len(),
            ch < 3,
            clen == coeffs@.len(),
            base + n * 3 <= clen,
            acc == sh_dot_s(basis@, coeffs@, base as int, ch as int, i as int),
        decreases n - i,
    {
        proof {
            assert((i as int) * 3 + 3 <= (n as int) * 3) by (nonlinear_arith)
                requires (i as int) < (n as int);
        }
        acc = sat_add(acc, fmul(basis[i], coeffs[base + i * 3 + ch]));
        i += 1;
    }
    acc
}

/// The spec-level value of the first-component derivative table: the same
/// computation, term for term, as the executable `sh_basis_dx`.
pub open spec fn sh_basis_dx_s(degree: u32, x: i64, y: i64, z: i64) -> Seq<i64> {
    let xx = fmul(x, x);
    let yy = fmul(y, y);
    let zz = fmul(z, z);
    let xy = fmul(x, y);
    let yz = fmul(y, z);
    let xz = fmul(x, z);
    if degree == 0 {
        seq![0i64]
    } else if degree == 1 {
        seq![
            0i64,
            0i64,
            0i64,
            NEG_SH_C1,
        ]
    } else if degree == 2 {
        seq![
            0i64,
            0i64,
            0i64,
            NEG_SH_C1,
            fmul(SH_C2_0, y),
            0i64,
            fmul(SH_C2_2, sat_sub(0, fmul(x, K2))),
            fmul(SH_C2_3, z),
            fmul(SH_C2_4, fmul(x, K2)),
        ]
    } else if degree == 3 {
        seq![
            0i64,
            0i64,
            0i64,
            NEG_SH_C1,
            fmul(SH_C2_0, y),
            0i64,
            fmul(SH_C2_2, sat_sub(0, fmul(x, K2))),
            fmul(SH_C2_3, z),
            fmul(SH_C2_4, fmul(x, K2)),
            fmul(SH_C3_0, fmul(xy, K6)),
            fmul(SH_C3_1, yz),
            fmul(SH_C3_2, sat_sub(0, fmul(xy, K2))),
            fmul(SH_C3_3, sat_sub(0, fmul(xz, K6))),
            fmul(SH_C3_4, sat_sub(sat_sub(fmul(zz, K4), fmul(xx, K3)), yy)),
            fmul(SH_C3_5, fmul(xz, K2)),
            fmul(SH_C3_6, sat_sub(fmul(xx, K3), fmul(yy, K3))),
        ]
    } else {
        seq![
            0i64,
            0i64,
            0i64,
            NEG_SH_C1,
            fmul(SH_C2_0, y),
            0i64,
            fmul(SH_C2_2, sat_sub(0, fmul(x, K2))),
            fmul(SH_C2_3, z),
            fmul(SH_C2_4, fmul(x, K2)),
            fmul(SH_C3_0, fmul(xy, K6)),
            fmul(SH_C3_1, yz),
            fmul(SH_C3_2, sat_sub(0, fmul(xy, K2))),
            fmul(SH_C3_3, sat_sub(0, fmul(xz, K6))),
            fmul(SH_C3_4, sat_sub(sat_sub(fmul(zz, K4), fmul(xx, K3)), yy)),
            fmul(SH_C3_5, fmul(xz, K2)),
            fmul(SH_C3_6, sat_sub(fmul(xx, K3), fmul(yy, K3))),
            fmul(SH_C4_0, fmul(y, sat_sub(fmul(xx, K3), yy))),
            fmul(SH_C4_1, fmul(fmul(xy, K6), z)),
            fmul(SH_C4_2, fmul(y, sat_sub(fmul(zz, K7), ONE))),
            0i64,
            0i64,
            fmul(SH_C4_5, fmul(z, sat_sub(fmul(zz, K7), K3))),
            fmul(SH_C4_6, fmul(fmul(x, K2), sat_sub(fmul(zz, K7), ONE))),
            fmul(SH_C4_7, fmul(z, sat_sub(fmul(xx, K3), fmul(yy, K3)))),
            fmul(SH_C4_8, fmul(fmul(x, K4), sat_sub(xx, fmul(yy, K3)))),
        ]
    }
}

/// The spec-level value of the second-component derivative table: the same
/// computation, term for term, as the executable `sh_basis_dy`.
pub open spec fn sh_basis_dy_s(degree: u32, x: i64, y: i64, z: i64) -> Seq<i64> {
    let xx = fmul(x, x);
    let yy = fmul(y, y);
    let zz = fmul(z, z);
    let xy = fmul(x, y);
    let yz = fmul(y, z);
    let xz = fmul(x, z);
    if degree == 0 {
        seq![0i64]
    } else if degree == 1 {
        seq![
            0i64,
            NEG_SH_C1,
            0i64,
            0i64,
        ]
    } else if degree == 2 {
        seq![
            0i64,
            NEG_SH_C1,
            0i64,
            0i64,
            fmul(SH_C2_0, x),
            fmul(SH_C2_1, z),
            fmul(SH_C2_2, sat_sub(0, fmul(y, K2))),
            0i64,
            fmul(SH_C2_4, sat_sub(0, fmul(y, K2))),
        ]
    } else if degree == 3 {
        seq![
            0i64,
            NEG_SH_C1,
            0i64,
            0i64,
            fmul(SH_C2_0, x),
            fmul(SH_C2_1, z),
            fmul(SH_C2_2, sat_sub(0, fmul(y, K2))),
            0i64,
            fmul(SH_C2_4, sat_sub(0, fmul(y, K2))),
            fmul(SH_C3_0, sat_sub(fmul(xx, K3), fmul(yy, K3))),
            fmul(SH_C3_1, xz),
            fmul(SH_C3_2, sat_sub(sat_sub(fmul(zz, K4), xx), fmul(yy, K3))),
            fmul(SH_C3_3, sat_sub(0, fmul(yz, K6))),
            fmul(SH_C3_4, sat_sub(0, fmul(xy, K2))),
            fmul(SH_C3_5, sat_sub(0, fmul(yz, K2))),
            fmul(SH_C3_6, sat_sub(0, fmul(xy, K6))),
        ]
    } else {
        seq![
            0i64,
            NEG_SH_C1,
            0i64,
            0i64,
            fmul(SH_C2_0, x),
            fmul(SH_C2_1, z),
            fmul(SH_C2_2, sat_sub(0, fmul(y, K2))),
            0i64,
            fmul(SH_C2_4, sat_sub(0, fmul(y, K2))),
            fmul(SH_C3_0, sat_sub(fmul(xx, K3), fmul(yy, K3))),
            fmul(SH_C3_1, xz),
            fmul(SH_C3_2, sat_sub(sat_sub(fmul(zz, K4), xx), fmul(yy, K3))),
            fmul(SH_C3_3, sat_sub(0, fmul(yz, K6))),
            fmul(SH_C3_4, sat_sub(0, fmul(xy, K2))),
            fmul(SH_C3_5, sat_sub(0, fmul(yz, K2))),
            fmul(SH_C3_6, sat_sub(0, fmul(xy, K6))),
            fmul(SH_C4_0, fmul(x, sat_sub(xx, fmul(yy, K3)))),
            fmul(SH_C4_1, fmul(z, sat_sub(fmul(xx, K3), fmul(yy, K3)))),
            fmul(SH_C4_2, fmul(x, sat_sub(fmul(zz, K7), ONE))),
            fmul(SH_C4_3, fmul(z, sat_sub(fmul(zz, K7), K3))),
            0i64,
            0i64,
            fmul(SH_C4_6, fmul(sat_sub(0, fmul(y, K2)), sat_sub(fmul(zz, K7), ONE))),
            fmul(SH_C4_7, sat_sub(0, fmul(fmul(xy, K6), z))),
            fmul(SH_C4_8, fmul(fmul(y, K4), sat_sub(yy, fmul(xx, K3)))),
        ]
    }
}

/// The spec-level value of the third-component derivative table: the same
/// computation, term for term, as the executable `sh_basis_dz`.
pub open spec fn sh_basis_dz_s(degree: u32, x: i64, y: i64, z: i64) -> Seq<i64> {
    let xx = fmul(x, x);
    let yy = fmul(y, y);
    let zz = fmul(z, z);
    let xy = fmul(x, y);
    let yz = fmul(y, z);
    let xz = fmul(x, z);
    if degree == 0 {
        seq![0i64]
    } else if degree == 1 {
        seq![
            0i64,
            0i64,
            SH_C1,
            0i64,
        ]
    } else if degree == 2 {
        seq![
            0i64,
            0i64,
            SH_C1,
            0i64,
            0i64,
            fmul(SH_C2_1, y),
            fmul(SH_C2_2, fmul(z, K4)),
            fmul(SH_C2_3, x),
            0i64,
        ]
    } else if degree == 3 {
        seq![
            0i64,
            0i64,
            SH_C1,
            0i64,
            0i64,
            fmul(SH_C2_1, y),
            fmul(SH_C2_2, fmul(z, K4)),
            fmul(SH_C2_3, x),
            0i64,
            0i64,
            fmul(SH_C3_1, xy),
            fmul(SH_C3_2, fmul(yz, K8)),
            fmul(SH_C3_3, sat_sub(sat_sub(fmul(zz, K6), fmul(xx, K3)), fmul(yy, K3))),
            fmul(SH_C3_4, fmul(xz, K8)),
            fmul(SH_C3_5, sat_sub(xx, yy)),
            0i64,
        ]
    } else {
        seq![
            0i64,
            0i64,
            SH_C1,
            0i64,
            0i64,
            fmul(SH_C2_1, y),
            fmul(SH_C2_2, fmul(z, K4)),
            fmul(SH_C2_3, x),
            0i64,
            0i64,
            fmul(SH_C3_1, xy),
            fmul(SH_C3_2, fmul(yz, K8)),
            fmul(SH_C3_3, sat_sub(sat_sub(fmul(zz, K6), fmul(xx, K3)), fmul(yy, K3))),
            fmul(SH_C3_4, fmul(xz, K8)),
            fmul(SH_C3_5, sat_sub(xx, yy)),
            0i64,
            0i64,
            fmul(SH_C4_1, fmul(y, sat_sub(fmul(xx, K3), yy))),
            fmul(SH_C4_2, fmul(fmul(xy, K14), z)),
            fmul(SH_C4_3, fmul(y, sat_sub(fmul(zz, K21), K3))),
            fmul(SH_C4_4, fmul(z, sat_sub(fmul(zz, K140), K60))),
            fmul(SH_C4_5, fmul(x, sat_sub(fmul(zz, K21), K3))),
            fmul(SH_C4_6, fmul(fmul(z, K14), sat_sub(xx, yy))),
            fmul(SH_C4_7, fmul(x, sat_sub(xx, fmul(yy, K3)))),
            0i64,
        ]
    }
}

/// Partial derivatives of the basis values in the first direction
/// component, aligned with `sh_basis`.
#[verifier::rlimit(100)]
pub fn sh_basis_dx(degree: u32, x: i64, y: i64, z: i64) -> (r: Vec<i64>)
    requires
        degree <= 4,
    ensures
        r@ == sh_basis_dx_s(degree, x, y, z),
        r@.len() == sh_count_s(degree),
{
    proof {
        lemma_sh_counts();
    }
    let xx = fmul(x, x);
    let yy = fmul(y, y);
    let zz = fmul(z, z);
    let xy = fmul(x, y);
    let yz = fmul(y, z);
    let xz = fmul(x, z);
    let mut out: Vec<i64> = Vec::new();
    out.push(0i64);
    if degree >= 1 {
        out.push(0i64);
        out.push(0i64);
        out.push(NEG_SH_C1);
    }
    if degree >= 2 {
        out.push(fmul(SH_C2_0, y));
        out.push(0i64);
        out.push(fmul(SH_C2_2, sat_sub(0, fmul(x, K2))));
        out.push(fmul(SH_C2_3, z));
        out.push(fmul(SH_C2_4, fmul(x, K2)));
    }
    if degree >= 3 {
        out.push(fmul(SH_C3_0, fmul(xy, K6)));
        out.push(fmul(SH_C3_1, yz));
        out.push(fmul(SH_C3_2, sat_sub(0, fmul(xy, K2))));
        out.push(fmul(SH_C3_3, sat_sub(0, fmul(xz, K6))));
        out.push(fmul(SH_C3_4, sat_sub(sat_sub(fmul(zz, K4), fmul(xx, K3)), yy)));
        out.push(fmul(SH_C3_5, fmul(xz, K2)));
        out.push(fmul(SH_C3_6, sat_sub(fmul(xx, K3), fmul(yy, K3))));
    }
    if degree >= 4 {
        out.push(fmul(SH_C4_0, fmul(y, sat_sub(fmul(xx, K3), yy))));
        out.push(fmul(SH_C4_1, fmul(fmul(xy, K6), z)));
        out.push(fmul(SH_C4_2, fmul(y, sat_sub(fmul(zz, K7), ONE))));
        out.push(0i64);
        out.push(0i64);
        out.push(fmul(SH_C4_5, fmul(z, sat_sub(fmul(zz, K7), K3))));
        out.push(fmul(SH_C4_6, fmul(fmul(x, K2), sat_sub(fmul(zz, K7), ONE))));
        out.push(fmul(SH_C4_7, fmul(z, sat_sub(fmul(xx, K3), fmul(yy, K3)))));
        out.push(fmul(SH_C4_8, fmul(fmul(x, K4), sat_sub(xx, fmul(yy, K3)))));
    }
    proof {
        if degree == 0 {
            assert(out@ =~= sh_basis_dx_s(degree, x, y, z));
        } else if degree == 1 {
            assert(out@ =~= sh_basis_dx_s(degree, x, y, z));
        } else if degree == 2 {
            assert(out@ =~= sh_basis_dx_s(degree, x, y, z));
        } else if degree == 3 {
            assert(out@ =~= sh_basis_dx_s(degree, x, y, z));
        } else {
            assert(out@ =~= sh_basis_dx_s(degree, x, y, z));
        }
    }
    out
}

/// Partial derivatives of the basis values in the second direction
/// component, aligned with `sh_basis`.
#[verifier::rlimit(100)]
pub fn sh_basis_dy(degree: u32, x: i64, y: i64, z: i64) -> (r: Vec<i64>)
    requires
        degree <= 4,
    ensures
        r@ == sh_basis_dy_s(degree, x, y, z),
        r@.len() == sh_count_s(degree),
{
    proof {
        lemma_sh_counts();
    }
    let xx = fmul(x, x);
    let yy = fmul(y, y);
    let zz = fmul(z, z);
    let xy = fmul(x, y);
    let yz = fmul(y, z);
    let xz = fmul(x, z);
    let mut out: Vec<i64> = Vec::new();
    out.push(0i64);
    if degree >= 1 {
        out.push(NEG_SH_C1);
        out.push(0i64);
        out.push(0i64);
    }
    if degree >= 2 {
        out.push(fmul(SH_C2_0, x));
        out.push(fmul(SH_C2_1, z));
        out.push(fmul(SH_C2_2, sat_sub(0, fmul(y, K2))));
        out.push(0i64);
        out.push(fmul(SH_C2_4, sat_sub(0, fmul(y, K2))));
    }
    if degree >= 3 {
        out.push(fmul(SH_C3_0, sat_sub(fmul(xx, K3), fmul(yy, K3))));
        out.push(fmul(SH_C3_1, xz));
        out.push(fmul(SH_C3_2, sat_sub(sat_sub(fmul(zz, K4), xx), fmul(yy, K3))));
        out.push(fmul(SH_C3_3, sat_sub(0, fmul(yz, K6))));
        out.push(fmul(SH_C3_4, sat_sub(0, fmul(xy, K2))));
        out.push(fmul(SH_C3_5, sat_sub(0, fmul(yz, K2))));
        out.push(fmul(SH_C3_6, sat_sub(0, fmul(xy, K6))));
    }
    if degree >= 4 {
        out.push(fmul(SH_C4_0, fmul(x, sat_sub(xx, fmul(yy, K3)))));
        out.push(fmul(SH_C4_1, fmul(z, sat_sub(fmul(xx, K3), fmul(yy, K3)))));
        out.push(fmul(SH_C4_2, fmul(x, sat_sub(fmul(zz, K7), ONE))));
        out.push(fmul(SH_C4_3, fmul(z, sat_sub(fmul(zz, K7), K3))));
        out.push(0i64);
        out.push(0i64);
        out.push(fmul(SH_C4_6, fmul(sat_sub(0, fmul(y, K2)), sat_sub(fmul(zz, K7), ONE))));
        out.push(fmul(SH_C4_7, sat_sub(0, fmul(fmul(xy, K6), z))));
        out.push(fmul(SH_C4_8, fmul(fmul(y, K4), sat_sub(yy, fmul(xx, K3)))));
    }
    proof {
        if degree == 0 {
            assert(out@ =~= sh_basis_dy_s(degree, x, y, z));
        } else if degree == 1 {
            assert(out@ =~= sh_basis_dy_s(degree, x, y, z));
        } else if degree == 2 {
            assert(out@ =~= sh_basis_dy_s(degree, x, y, z));
        } else if degree == 3 {
            assert(out@ =~= sh_basis_dy_s(degree, x, y, z));
        } else {
            assert(out@ =~= sh_basis_dy_s(degree, x, y, z));
        }
    }
    out
}

/// Partial derivatives of the basis values in the third direction
/// component, aligned with `sh_basis`.
#[verifier::rlimit(100)]
pub fn sh_basis_dz(degree: u32, x: i64, y: i64, z: i64) -> (r: Vec<i64>)
    requires
        degree <= 4,
    ensures
        r@ == sh_basis_dz_s(degree, x, y, z),
        r@.len() == sh_count_s(degree),
{
    proof {
        lemma_sh_counts();
    }
    let xx = fmul(x, x);
    let yy = fmul(y, y);
    let zz = fmul(z, z);
    let xy = fmul(x, y);
    let yz = fmul(y, z);
    let xz = fmul(x, z);
    let mut out: Vec<i64> = Vec::new();
    out.push(0i64);
    if degree >= 1 {
        out.push(0i64);
        out.push(SH_C1);
        out.push(0i64);
    }
    if degree >= 2 {
        out.push(0i64);
        out.push(fmul(SH_C2_1, y));
        out.push(fmul(SH_C2_2, fmul(z, K4)));
        out.push(fmul(SH_C2_3, x));
        out.push(0i64);
    }
    if degree >= 3 {
        out.push(0i64);
        out.push(fmul(SH_C3_1, xy));
        out.push(fmul(SH_C3_2, fmul(yz, K8)));
        out.push(fmul(SH_C3_3, sat_sub(sat_sub(fmul(zz, K6), fmul(xx, K3)), fmul(yy, K3))));
        out.push(fmul(SH_C3_4, fmul(xz, K8)));
        out.push(fmul(SH_C3_5, sat_sub(xx, yy)));
        out.push(0i64);
    }
    if degree >= 4 {
        out.push(0i64);
        out.push(fmul(SH_C4_1, fmul(y, sat_sub(fmul(xx, K3), yy))));
        out.push(fmul(SH_C4_2, fmul(fmul(xy, K14), z)));
        out.push(fmul(SH_C4_3, fmul(y, sat_sub(fmul(zz, K21), K3))));
        out.push(fmul(SH_C4_4, fmul(z, sat_sub(fmul(zz, K140), K60))));
        out.push(fmul(SH_C4_5, fmul(x, sat_sub(fmul(zz, K21), K3))));
        out.push(fmul(SH_C4_6, fmul(fmul(z, K14), sat_sub(xx, yy))));
        out.push(fmul(SH_C4_7, fmul(x, sat_sub(xx, fmul(yy, K3)))));
        out.push(0i64);
    }
    proof {
        if degree == 0 {
            assert(out@ =~= sh_basis_dz_s(degree, x, y, z));
        } else if degree == 1 {
            assert(out@ =~= sh_basis_dz_s(degree, x, y, z));
        } else if degree == 2 {
            assert(out@ =~= sh_basis_dz_s(degree, x, y, z));
        } else if degree == 3 {
            assert(out@ =~= sh_basis_dz_s(degree, x, y, z));
        } else {
            assert(out@ =~= sh_basis_dz_s(degree, x, y, z));
        }
    }
    out
}

} // verus!
