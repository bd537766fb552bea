//! The data model of the renderer: fixed-point vectors, quaternions and
//! matrices, the primitive arrays, the camera, the per-splat projection
//! record, the auxiliary bundle handed from the forward to the backward
//! pass, and the configuration errors.
//!
//! Index spaces, which are never conflated: a *global id* is a position in
//! the caller's primitive arrays; a *compact id* is a position in the
//! depth-sorted list of visible splats; an *intersection id* is a position
//! in the expanded (tile, splat) list; a *sorted-intersection id* is a
//! position after the tile sort.  The permutation buffers
//! `global_from_compact_gid` and `compact_gid_from_isect` are the only way
//! to cross between them.

use vstd::prelude::*;
use crate::fixed::{fmul, sat_add, sat_sub, fmul_fx, sat_add_fx, sat_sub_fx};

verus! {

/// A 3-vector in 32.32 fixed point.
#[derive(Clone, Copy, PartialEq, Eq, Structural, Debug)]
pub struct V3 {
    pub x: i64,
    pub y: i64,
    pub z: i64,
}

/// A rotation quaternion (w, x, y, z) in 32.32 fixed point.
#[derive(Clone, Copy, PartialEq, Eq, Structural, Debug)]
pub struct Q4 {
    pub w: i64,
    pub x: i64,
    pub y: i64,
    pub z: i64,
}

/// A 3x3 matrix in 32.32 fixed point, row major.
#[derive(Clone, Copy, PartialEq, Eq, Structural, Debug)]
pub struct M3 {
    pub m00: i64,
    pub m01: i64,
    pub m02: i64,
    pub m10: i64,
    pub m11: i64,
    pub m12: i64,
    pub m20: i64,
    pub m21: i64,
    pub m22: i64,
}

/// Vector difference.
pub open spec fn v3_sub_s(a: V3, b: V3) -> V3 {
    V3 { x: sat_sub_fx(a.x, b.x), y: sat_sub_fx(a.y, b.y), z: sat_sub_fx(a.z, b.z) }
}

/// Executable vector difference.
#[verifier::when_used_as_spec(v3_sub_s)]
pub fn v3_sub(a: V3, b: V3) -> (r: V3)
    ensures
        r == v3_sub_s(a, b),
{
    V3 { x: sat_sub(a.x, b.x), y: sat_sub(a.y, b.y), z: sat_sub(a.z, b.z) }
}

/// Dot product.
pub open spec fn v3_dot_s(a: V3, b: V3) -> i64 {
    sat_add_fx(sat_add_fx(fmul_fx(a.x, b.x), fmul_fx(a.y, b.y)), fmul_fx(a.z, b.z))
}

/// Executable dot product.
#[verifier::when_used_as_spec(v3_dot_s)]
pub fn v3_dot(a: V3, b: V3) -> (r: i64)
    ensures
        r == v3_dot_s(a, b),
{
    sat_add(sat_add(fmul(a.x, b.x), fmul(a.y, b.y)), fmul(a.z, b.z))
}

/// Matrix times vector.
pub open spec fn m3_mul_v3_s(m: M3, v: V3) -> V3 {
    V3 {
        x: sat_add_fx(sat_add_fx(fmul_fx(m.m00, v.x), fmul_fx(m.m01, v.y)), fmul_fx(m.m02, v.z)),
        y: sat_add_fx(sat_add_fx(fmul_fx(m.m10, v.x), fmul_fx(m.m11, v.y)), fmul_fx(m.m12, v.z)),
        z: sat_add_fx(sat_add_fx(fmul_fx(m.m20, v.x), fmul_fx(m.m21, v.y)), fmul_fx(m.m22, v.z)),
    }
}

/// Executable matrix times vector.
#[verifier::when_used_as_spec(m3_mul_v3_s)]
pub fn m3_mul_v3(m: M3, v: V3) -> (r: V3)
    ensures
        r == m3_mul_v3_s(m, v),
{
    V3 {
        x: sat_add(sat_add(fmul(m.m00, v.x), fmul(m.m01, v.y)), fmul(m.m02, v.z)),
        y: sat_add(sat_add(fmul(m.m10, v.x), fmul(m.m11, v.y)), fmul(m.m12, v.z)),
        z: sat_add(sat_add(fmul(m.m20, v.x), fmul(m.m21, v.y)), fmul(m.m22, v.z)),
    }
}

/// Matrix transpose.
pub open spec fn m3_transpose_s(m: M3) -> M3 {
    M3 {
        m00: m.m00,
        m01: m.m10,
        m02: m.m20,
        m10: m.m01,
        m11: m.m11,
        m12: m.m21,
        m20: m.m02,
        m21: m.m12,
        m22: m.m22,
    }
}

/// Executable matrix transpose.
#[verifier::when_used_as_spec(m3_transpose_s)]
pub fn m3_transpose(m: M3) -> (r: M3)
    ensures
        r == m3_transpose_s(m),
{
    M3 {
        m00: m.m00,
        m01: m.m10,
        m02: m.m20,
        m10: m.m01,
        m11: m.m11,
        m12: m.m21,
        m20: m.m02,
        m21: m.m12,
        m22: m.m22,
    }
}

/// Matrix product.
pub open spec fn m3_mul_m3_s(a: M3, b: M3) -> M3 {
    M3 {
        m00: sat_add_fx(sat_add_fx(fmul_fx(a.m00, b.m00), fmul_fx(a.m01, b.m10)), fmul_fx(a.m02, b.m20)),
        m01: sat_add_fx(sat_add_fx(fmul_fx(a.m00, b.m01), fmul_fx(a.m01, b.m11)), fmul_fx(a.m02, b.m21)),
        m02: sat_add_fx(sat_add_fx(fmul_fx(a.m00, b.m02), fmul_fx(a.m01, b.m12)), fmul_fx(a.m02, b.m22)),
        m10: sat_add_fx(sat_add_fx(fmul_fx(a.m10, b.m00), fmul_fx(a.m11, b.m10)), fmul_fx(a.m12, b.m20)),
        m11: sat_add_fx(sat_add_fx(fmul_fx(a.m10, b.m01), fmul_fx(a.m11, b.m11)), fmul_fx(a.m12, b.m21)),
        m12: sat_add_fx(sat_add_fx(fmul_fx(a.m10, b.m02), fmul_fx(a.m11, b.m12)), fmul_fx(a.m12, b.m22)),
        m20: sat_add_fx(sat_add_fx(fmul_fx(a.m20, b.m00), fmul_fx(a.m21, b.m10)), fmul_fx(a.m22, b.m20)),
        m21: sat_add_fx(sat_add_fx(fmul_fx(a.m20, b.m01), fmul_fx(a.m21, b.m11)), fmul_fx(a.m22, b.m21)),
        m22: sat_add_fx(sat_add_fx(fmul_fx(a.m20, b.m02), fmul_fx(a.m21, b.m12)), fmul_fx(a.m22, b.m22)),
    }
}

/// Executable matrix product.
#[verifier::when_used_as_spec(m3_mul_m3_s)]
pub fn m3_mul_m3(a: M3, b: M3) -> (r: M3)
    ensures
        r == m3_mul_m3_s(a, b),
{
    M3 {
        m00: sat_add(sat_add(fmul(a.m00, b.m00), fmul(a.m01, b.m10)), fmul(a.m02, b.m20)),
        m01: sat_add(sat_add(fmul(a.m00, b.m01), fmul(a.m01, b.m11)), fmul(a.m02, b.m21)),
        m02: sat_add(sat_add(fmul(a.m00, b.m02), fmul(a.m01, b.m12)), fmul(a.m02, b.m22)),
        m10: sat_add(sat_add(fmul(a.m10, b.m00), fmul(a.m11, b.m10)), fmul(a.m12, b.m20)),
        m11: sat_add(sat_add(fmul(a.m10, b.m01), fmul(a.m11, b.m11)), fmul(a.m12, b.m21)),
        m12: sat_add(sat_add(fmul(a.m10, b.m02), fmul(a.m11, b.m12)), fmul(a.m12, b.m22)),
        m20: sat_add(sat_add(fmul(a.m20, b.m00), fmul(a.m21, b.m10)), fmul(a.m22, b.m20)),
        m21: sat_add(sat_add(fmul(a.m20, b.m01), fmul(a.m21, b.m11)), fmul(a.m22, b.m21)),
        m22: sat_add(sat_add(fmul(a.m20, b.m02), fmul(a.m21, b.m12)), fmul(a.m22, b.m22)),
    }
}

/// Componentwise saturating vector sum.
pub open spec fn v3_add_s(a: V3, b: V3) -> V3 {
    V3 { x: sat_add_fx(a.x, b.x), y: sat_add_fx(a.y, b.y), z: sat_add_fx(a.z, b.z) }
}

/// Executable vector sum.
#[verifier::when_used_as_spec(v3_add_s)]
pub fn v3_add(a: V3, b: V3) -> (r: V3)
    ensures
        r == v3_add_s(a, b),
{
    V3 { x: sat_add(a.x, b.x), y: sat_add(a.y, b.y), z: sat_add(a.z, b.z) }
}

/// Componentwise saturating quaternion sum.
pub open spec fn q4_add_s(a: Q4, b: Q4) -> Q4 {
    Q4 {
        w: sat_add_fx(a.w, b.w),
        x: sat_add_fx(a.x, b.x),
        y: sat_add_fx(a.y, b.y),
        z: sat_add_fx(a.z, b.z),
    }
}

/// Executable quaternion sum.
#[verifier::when_used_as_spec(q4_add_s)]
pub fn q4_add(a: Q4, b: Q4) -> (r: Q4)
    ensures
        r == q4_add_s(a, b),
{
    Q4 {
        w: sat_add(a.w, b.w),
        x: sat_add(a.x, b.x),
        y: sat_add(a.y, b.y),
        z: sat_add(a.z, b.z),
    }
}

/// The primitive arrays, owned by the caller and read-only to the core.
/// `sh_coeffs` is flattened as `[global id][coefficient][channel]` with
/// three channels, so its length is `n * coeffs_per_channel * 3`.
pub struct Splats {
    pub means: Vec<V3>,
    pub log_scales: Vec<V3>,
    pub quats: Vec<Q4>,
    pub sh_coeffs: Vec<i64>,
    pub raw_opacities: Vec<i64>,
    pub coeffs_per_channel: u32,
}

impl Splats {
    /// The shape constraints the configuration check enforces: equal
    /// primitive counts in every array, a supported coefficient count, and
    /// a coefficient buffer of exactly the flattened size.
    pub open spec fn wf(self) -> bool {
        &&& self.log_scales@.len() == self.means@.len()
        &&& self.quats@.len() == self.means@.len()
        &&& self.raw_opacities@.len() == self.means@.len()
        &&& crate::sh::valid_sh_coeff_count(self.coeffs_per_channel)
        &&& self.sh_coeffs@.len() == self.means@.len() * (self.coeffs_per_channel as int) * 3
    }

    /// Number of primitives.
    pub open spec fn len_s(self) -> int {
        self.means@.len() as int
    }

    /// Executable number of primitives.
    pub fn len(&self) -> (r: usize)
        ensures
            r == self.len_s(),
    {
        self.means.len()
    }
}

/// The camera: a world-to-camera rotation, the camera position in world
/// space, focal lengths and the principal point, all in fixed-point pixel
/// units.
#[derive(Clone, Copy, PartialEq, Eq, Structural, Debug)]
pub struct Camera {
    pub rot: M3,
    pub pos: V3,
    pub fx: i64,
    pub fy: i64,
    pub cx: i64,
    pub cy: i64,
}

/// One projected splat: screen position, the conic (the inverse of the
/// projected 2x2 covariance), the evaluated color and the opacity.
#[derive(Clone, Copy, PartialEq, Eq, Structural, Debug)]
pub struct ProjectedSplat {
    pub x: i64,
    pub y: i64,
    pub conic_a: i64,
    pub conic_b: i64,
    pub conic_c: i64,
    pub color_r: i64,
    pub color_g: i64,
    pub color_b: i64,
    pub opacity: i64,
}

/// A configuration error, each detected before any pipeline stage runs.
#[derive(Clone, Copy, PartialEq, Eq, Structural, Debug)]
pub enum RenderError {
    /// The primitive arrays are empty.
    NoPrimitives,
    /// The target image has a zero-area extent.
    ZeroAreaImage,
    /// An image side exceeds the supported maximum.
    OversizedImage,
    /// The coefficient count per channel encodes no supported degree.
    InvalidShCount,
    /// A nonpositive focal length.
    MalformedCamera,
    /// The primitive arrays disagree about the primitive count.
    MismatchedLengths,
}

/// The auxiliary bundle produced by the forward pass, consumed by the
/// backward pass and by diagnostics.
pub struct RenderAux {
    /// Number of visible splats after culling.
    pub num_visible: u32,
    /// Number of (tile, splat) intersection entries after the capacity
    /// ceiling.
    pub num_intersections: u32,
    /// Per compact id, the projected splat record; length `num_visible`.
    pub projected_splats: Vec<ProjectedSplat>,
    /// Per compact id, the quantized depth key the visibility sorter
    /// ordered by; nondecreasing.
    pub depths: Vec<u32>,
    /// Per compact id, the global id it came from.
    pub global_from_compact_gid: Vec<u32>,
    /// Per tile, the [start, end) range of its run in the sorted
    /// intersection list.
    pub tile_bins: Vec<(u32, u32)>,
    /// Per sorted-intersection id, the compact id of its splat.
    pub compact_gid_from_isect: Vec<u32>,
    /// Exclusive prefix sum of the per-splat tile-overlap counts.
    pub cum_tiles_hit: Vec<u64>,
    /// Per pixel, one past the last splat walked by the compositor, as an
    /// offset into the sorted intersection list; present only in the
    /// float output mode.
    pub final_index: Option<Vec<u32>>,
}

/// The rendered image: float mode carries fixed-point RGBA planes
/// (4 values per pixel, row major); packed mode carries one byte per
/// channel packed into a word per pixel.
pub enum ImageBuffer {
    Float(Vec<i64>),
    Packed(Vec<u32>),
}

} // verus!
