//! The forward entry point: configuration validation and the full
//! pipeline, stage by stage.
//!
//! The pipeline projects every primitive, sorts the visible ones front to
//! back by a quantized depth key, evaluates their conics, colors and tile
//! footprints in compact order, allocates intersection entries through an
//! exclusive scan of the overlap counts, expands them, sorts them by tile,
//! bins them per tile and composites every pixel over its tile's bin.
//! Every stage's output is pinned to a spec-level function of the inputs,
//! so a render is a mathematical function of the primitives and the
//! camera: rendering the same scene twice gives identical buffers.

use vstd::prelude::*;
use crate::fixed::{sat_sub_fx, ONE, HALF};
use crate::types::{Splats, Camera, RenderError, RenderAux, ImageBuffer, ProjectedSplat};
use crate::project::{project_geom_s, eval_splat, eval_splat_s};
use crate::tiles::{
    depth_key_s, depth_key, TileRect, map_intersections, entries_up_to_s, clip_s,
    tile_bins_from_sorted, count_lt_s, count_eq_s, lemma_bins_partition, lemma_bins_membership,
    lemma_entries_offset, MAX_INTERSECTIONS,
};
use crate::sort::{
    radix_sort, sort_spec, pack, pack_s, key_of, payload_of, unpack_key, unpack_payload, sorted,
    lemma_pack_unpack,
};
use crate::scan::{exclusive_scan, prefix_total};
use crate::raster::{composite_pixel, walk_s, fin_s, PixState, state_wf_s, unit_splat_s};
use crate::sh::valid_sh_coeff_count;

verus! {

/// The largest supported image side, in pixels.
pub const MAX_IMAGE_DIM: u32 = 32768;

/// The number of tiles along an axis of `d` pixels.
pub open spec fn tiles_along_s(d: u32) -> u32 {
    (((d + 15) / 16) as u32)
}

/// Executable tile count along an axis.
#[verifier::when_used_as_spec(tiles_along_s)]
pub fn tiles_along(d: u32) -> (r: u32)
    requires
        d <= MAX_IMAGE_DIM,
    ensures
        r == tiles_along_s(d),
        (r as int) * 16 >= d,
        r <= 2048,
        d >= 1 ==> r >= 1,
{
    (d + 15) / 16
}


/// The configuration verdict, checked before any pipeline stage runs.
pub open spec fn validate_s(sp: Splats, cam: Camera, img_w: u32, img_h: u32) -> Result<
    (),
    RenderError,
> {
    let n = sp.means@.len() as int;
    if n == 0 {
        Err(RenderError::NoPrimitives)
    } else if sp.log_scales@.len() != n || sp.quats@.len() != n || sp.raw_opacities@.len() != n {
        Err(RenderError::MismatchedLengths)
    } else if !valid_sh_coeff_count(sp.coeffs_per_channel) {
        Err(RenderError::InvalidShCount)
    } else if sp.sh_coeffs@.len() != n * (sp.coeffs_per_channel as int) * 3 {
        Err(RenderError::MismatchedLengths)
    } else if img_w < 1 || img_h < 1 {
        Err(RenderError::ZeroAreaImage)
    } else if img_w > MAX_IMAGE_DIM || img_h > MAX_IMAGE_DIM {
        Err(RenderError::OversizedImage)
    } else if cam.fx <= 0 || cam.fy <= 0 {
        Err(RenderError::MalformedCamera)
    } else {
        Ok(())
    }
}

/// Check a configuration: every error is reported exactly when its
/// condition holds, before any stage runs.  A passing configuration is
/// well formed with a nonempty primitive list, a positive image extent
/// within the supported maximum, and positive focal lengths.
pub fn validate(sp: &Splats, cam: Camera, img_w: u32, img_h: u32) -> (r: Result<(), RenderError>)
    ensures
        r == validate_s(*sp, cam, img_w, img_h),
        r is Ok <==> (sp.wf() && sp.len_s() > 0 && 1 <= img_w <= MAX_IMAGE_DIM && 1 <= img_h
            <= MAX_IMAGE_DIM && cam.fx > 0 && cam.fy > 0),
{
    let n = sp.means.len();
    if n == 0 {
        Err(RenderError::NoPrimitives)
    } else if sp.log_scales.len() != n || sp.quats.len() != n || sp.raw_opacities.len() != n {
        Err(RenderError::MismatchedLengths)
    } else if crate::sh::sh_degree_checked(sp.coeffs_per_channel).is_none() {
        Err(RenderError::InvalidShCount)
    } else {
        let cpc = sp.coeffs_per_channel as usize;
        let sl = sp.sh_coeffs.len();
        let ok_len = match n.checked_mul(cpc) {
            Some(v) => match v.checked_mul(3) {
                Some(v3) => sl == v3,
                None => false,
            },
            None => false,
        };
        proof {
            assert(sp.means@.len() * (sp.coeffs_per_channel as int) * 3 == (n as int) * (
            cpc as int) * 3);
            if (n as int) * (cpc as int) > usize::MAX {
                assert((n as int) * (cpc as int) * 3 >= (n as int) * (cpc as int))
                    by (nonlinear_arith)
                    requires (n as int) * (cpc as int) >= 0;
                assert(!ok_len && (sl as int) < (n as int) * (cpc as int) * 3);
            } else if (n as int) * (cpc as int) * 3 > usize::MAX {
                assert(!ok_len && (sl as int) < (n as int) * (cpc as int) * 3);
            }
        }
        if !ok_len {
            Err(RenderError::MismatchedLengths)
        } else if img_w < 1 || img_h < 1 {
            Err(RenderError::ZeroAreaImage)
        } else if img_w > MAX_IMAGE_DIM || img_h > MAX_IMAGE_DIM {
            Err(RenderError::OversizedImage)
        } else if cam.fx <= 0 || cam.fy <= 0 {
            Err(RenderError::MalformedCamera)
        } else {
            Ok(())
        }
    }
}

/// The packed (depth key, global id) words of the visible primitives
/// among the first `g`, in global order.
pub open spec fn visible_entries_s(sp: Splats, cam: Camera, w_one: i64, h_one: i64, g: int) -> Seq<
    u64,
>
    decreases g,
{
    if g <= 0 {
        Seq::empty()
    } else {
        let prev = visible_entries_s(sp, cam, w_one, h_one, g - 1);
        let geom = project_geom_s(
            cam,
            w_one,
            h_one,
            sp.means@[g - 1],
            sp.log_scales@[g - 1],
            sp.quats@[g - 1],
        );
        if geom.visible {
            prev + seq![pack_s(depth_key_s(geom.depth), (g - 1) as u32)]
        } else {
            prev
        }
    }
}

/// Project every primitive and keep the visible ones as packed (depth
/// key, global id) words; the count of kept words is the visible count.
fn stage_visible(sp: &Splats, cam: Camera, w_one: i64, h_one: i64) -> (v: Vec<u64>)
    requires
        sp.wf(),
        sp.len_s() < 0x1_0000_0000,
    ensures
        v@ == visible_entries_s(*sp, cam, w_one, h_one, sp.len_s()),
        v@.len() <= sp.len_s(),
        forall|k: int| 0 <= k < v@.len() ==> (payload_of(#[trigger] v@[k]) as int) < sp.len_s(),
{
    let n = sp.means.len();
    let mut out: Vec<u64> = Vec::new();
    let mut g: usize = 0;
    while g < n
        invariant
            g <= n,
            n == sp.len_s(),
            n < 0x1_0000_0000,
            sp.wf(),
            out@ == visible_entries_s(*sp, cam, w_one, h_one, g as int),
            out@.len() <= g,
            forall|k: int|
                0 <= k < out@.len() ==> (payload_of(#[trigger] out@[k]) as int) < sp.len_s(),
        decreases n - g,
    {
        let geom = crate::project::project_geom(
            cam,
            w_one,
            h_one,
            sp.means[g],
            sp.log_scales[g],
            sp.quats[g],
        );
        if geom.visible {
            let key = depth_key(geom.depth);
            let e = pack(key, g as u32);
            proof {
                lemma_pack_unpack(key, g as u32);
                assert(out@.push(e) =~= out@ + seq![e]);
            }
            out.push(e);
        }
        g += 1;
    }
    out
}


/// Evaluate every visible splat, in compact order: its projection record,
/// its tile rectangle, and the padded per-global-slot overlap counts (the
/// counts array spans all primitives, zero past the visible prefix).
fn stage_eval(
    sp: &Splats,
    cam: Camera,
    w_one: i64,
    h_one: i64,
    tile_w: u32,
    tile_h: u32,
    gids: &Vec<u32>,
) -> (r: (Vec<ProjectedSplat>, Vec<TileRect>, Vec<u32>))
    requires
        sp.wf(),
        forall|i: int| 0 <= i < gids@.len() ==> (#[trigger] gids@[i] as int) < sp.len_s(),
        gids@.len() <= sp.len_s(),
        tile_w <= 2048,
        tile_h <= 2048,
    ensures
        r.0@.len() == gids@.len(),
        r.1@.len() == gids@.len(),
        r.2@.len() == sp.len_s(),
        forall|c: int|
            0 <= c < gids@.len() ==> #[trigger] r.0@[c] == eval_splat_s(
                *sp,
                cam,
                w_one,
                h_one,
                tile_w,
                tile_h,
                gids@[c] as int,
            ).splat,
        forall|c: int|
            0 <= c < gids@.len() ==> #[trigger] r.1@[c] == eval_splat_s(
                *sp,
                cam,
                w_one,
                h_one,
                tile_w,
                tile_h,
                gids@[c] as int,
            ).rect,
        forall|c: int| 0 <= c < gids@.len() ==> unit_splat_s(#[trigger] r.0@[c]),
        forall|c: int| 0 <= c < gids@.len() ==> (#[trigger] r.1@[c]).wf(tile_w, tile_h),
        forall|c: int|
            0 <= c < gids@.len() ==> (#[trigger] r.2@[c] as int) == r.1@[c].count_s(),
        forall|c: int|
            0 <= c < gids@.len() ==> #[trigger] r.2@[c] == eval_splat_s(
                *sp,
                cam,
                w_one,
                h_one,
                tile_w,
                tile_h,
                gids@[c] as int,
            ).count,
        forall|i: int| gids@.len() <= i < sp.len_s() ==> #[trigger] r.2@[i] == 0,
{
    let nv = gids.len();
    let n = sp.len();
    let mut splats: Vec<ProjectedSplat> = Vec::new();
    let mut rects: Vec<TileRect> = Vec::new();
    let mut counts: Vec<u32> = Vec::new();
    let mut c: usize = 0;
    while c < nv
        invariant
            c <= nv,
            nv == gids@.len(),
            nv <= sp.len_s(),
            sp.wf(),
            tile_w <= 2048,
            tile_h <= 2048,
            forall|i: int| 0 <= i < gids@.len() ==> (#[trigger] gids@[i] as int) < sp.len_s(),
            splats@.len() == c,
            rects@.len() == c,
            counts@.len() == c,
            forall|i: int|
                0 <= i < c ==> #[trigger] splats@[i] == eval_splat_s(
                    *sp,
                    cam,
                    w_one,
                    h_one,
                    tile_w,
                    tile_h,
                    gids@[i] as int,
                ).splat,
            forall|i: int|
                0 <= i < c ==> #[trigger] rects@[i] == eval_splat_s(
                    *sp,
                    cam,
                    w_one,
                    h_one,
                    tile_w,
                    tile_h,
                    gids@[i] as int,
                ).rect,
            forall|i: int| 0 <= i < c ==> unit_splat_s(#[trigger] splats@[i]),
            forall|i: int| 0 <= i < c ==> (#[trigger] rects@[i]).wf(tile_w, tile_h),
            forall|i: int| 0 <= i < c ==> (#[trigger] counts@[i] as int) == rects@[i].count_s(),
            forall|i: int|
                0 <= i < c ==> #[trigger] counts@[i] == eval_splat_s(
                    *sp,
                    cam,
                    w_one,
                    h_one,
                    tile_w,
                    tile_h,
                    gids@[i] as int,
                ).count,
        decreases nv - c,
    {
        let ev = eval_splat(sp, cam, w_one, h_one, tile_w, tile_h, gids[c] as usize);
        splats.push(ev.splat);
        rects.push(ev.rect);
        counts.push(ev.count);
        c += 1;
    }
    while c < n
        invariant
            nv <= c <= n,
            n == sp.len_s(),
            nv == gids@.len(),
            splats@.len() == nv,
            rects@.len() == nv,
            counts@.len() == c,
            forall|i: int|
                0 <= i < nv ==> #[trigger] splats@[i] == eval_splat_s(
                    *sp,
                    cam,
                    w_one,
                    h_one,
                    tile_w,
                    tile_h,
                    gids@[i] as int,
                ).splat,
            forall|i: int|
                0 <= i < nv ==> #[trigger] rects@[i] == eval_splat_s(
                    *sp,
                    cam,
                    w_one,
                    h_one,
                    tile_w,
                    tile_h,
                    gids@[i] as int,
                ).rect,
            forall|i: int| 0 <= i < nv ==> unit_splat_s(#[trigger] splats@[i]),
            forall|i: int| 0 <= i < nv ==> (#[trigger] rects@[i]).wf(tile_w, tile_h),
            forall|i: int| 0 <= i < nv ==> (#[trigger] counts@[i] as int) == rects@[i].count_s(),
            forall|i: int|
                0 <= i < nv ==> #[trigger] counts@[i] == eval_splat_s(
                    *sp,
                    cam,
                    w_one,
                    h_one,
                    tile_w,
                    tile_h,
                    gids@[i] as int,
                ).count,
            forall|i: int| nv <= i < c ==> #[trigger] counts@[i] == 0,
        decreases n - c,
    {
        counts.push(0);
        c += 1;
    }
    (splats, rects, counts)
}

/// The fixed-point coordinate of a pixel's center.
pub open spec fn center_s(i: int) -> i64 {
    (i * (ONE as int) + (HALF as int)) as i64
}

/// The tile that owns a pixel, row major.
pub open spec fn pixel_tile_s(ix: int, iy: int, tile_w: u32) -> int {
    (iy / 16) * (tile_w as int) + ix / 16
}

/// The compositing state of one pixel: the walk over its tile's bin.
pub open spec fn pixel_state_s(
    splats: Seq<ProjectedSplat>,
    cids: Seq<u32>,
    bins: Seq<(u32, u32)>,
    tile_w: u32,
    ix: int,
    iy: int,
) -> PixState {
    let b = bins[pixel_tile_s(ix, iy, tile_w)];
    walk_s(splats, cids, b.0 as int, center_s(ix), center_s(iy), b.1 as int)
}

/// The terminal index of one pixel.
pub open spec fn pixel_fin_s(
    splats: Seq<ProjectedSplat>,
    cids: Seq<u32>,
    bins: Seq<(u32, u32)>,
    tile_w: u32,
    ix: int,
    iy: int,
) -> int {
    let b = bins[pixel_tile_s(ix, iy, tile_w)];
    fin_s(splats, cids, b.0 as int, center_s(ix), center_s(iy), b.1 as int)
}

/// What the rasterizer guarantees for pixel `q` (in row-major order):
/// the four stored channels are the walk's color and one minus its
/// transmittance, the state is well formed, and, when recorded, the
/// terminal index is the walk's.
pub open spec fn image_pixel_ok(
    splats: Seq<ProjectedSplat>,
    cids: Seq<u32>,
    bins: Seq<(u32, u32)>,
    tile_w: u32,
    img_w: u32,
    want_fin: bool,
    img: Seq<i64>,
    fins: Seq<u32>,
    q: int,
) -> bool {
    let ix = q % (img_w as int);
    let iy = q / (img_w as int);
    let st = pixel_state_s(splats, cids, bins, tile_w, ix, iy);
    &&& state_wf_s(st)
    &&& img[4 * q] == st.r
    &&& img[4 * q + 1] == st.g
    &&& img[4 * q + 2] == st.b
    &&& img[4 * q + 3] == ONE - st.t
    &&& (want_fin ==> (fins[q] as int) == pixel_fin_s(splats, cids, bins, tile_w, ix, iy))
}

/// Composite every pixel of the image, row major: four fixed-point
/// channels per pixel (red, green, blue, alpha = one minus the final
/// transmittance), and, when asked for, the per-pixel terminal index.
#[verifier::rlimit(100)]
fn rasterize_image(
    splats: &Vec<ProjectedSplat>,
    cids: &Vec<u32>,
    bins: &Vec<(u32, u32)>,
    tile_w: u32,
    tile_h: u32,
    img_w: u32,
    img_h: u32,
    want_fin: bool,
) -> (r: (Vec<i64>, Vec<u32>))
    requires
        1 <= img_w <= MAX_IMAGE_DIM,
        1 <= img_h <= MAX_IMAGE_DIM,
        tile_w <= 2048,
        tile_h <= 2048,
        (tile_w as int) * 16 >= img_w,
        (tile_h as int) * 16 >= img_h,
        bins@.len() == (tile_w as int) * (tile_h as int),
        cids@.len() < 0x1_0000_0000,
        forall|t: int| 0 <= t < bins@.len() ==> (#[trigger] bins@[t]).0 <= bins@[t].1 <= cids@.len(),
        forall|k: int| 0 <= k < cids@.len() ==> (#[trigger] cids@[k] as int) < splats@.len(),
        forall|j: int| 0 <= j < splats@.len() ==> unit_splat_s(#[trigger] splats@[j]),
    ensures
        r.0@.len() == (img_h as int) * (img_w as int) * 4,
        r.1@.len() == (if want_fin {
            (img_h as int) * (img_w as int)
        } else {
            0int
        }),
        forall|v: int| 0 <= v < r.0@.len() ==> 0 <= #[trigger] r.0@[v] <= ONE,
        forall|q: int|
            0 <= q < (img_h as int) * (img_w as int) ==> #[trigger] image_pixel_ok(
                splats@,
                cids@,
                bins@,
                tile_w,
                img_w,
                want_fin,
                r.0@,
                r.1@,
                q,
            ),
{
    let w = img_w as usize;
    let h = img_h as usize;
    proof {
        assert((img_h as int) * (img_w as int) <= 32768 * 32768) by (nonlinear_arith)
            requires 1 <= img_w <= 32768 && 1 <= img_h <= 32768;
    }
    let npix = h * w;
    let mut img: Vec<i64> = Vec::new();
    let mut fins: Vec<u32> = Vec::new();
    let mut p: usize = 0;
    while p < npix
        invariant
            p <= npix,
            npix == (img_h as int) * (img_w as int),
            npix <= 32768 * 32768,
            w == img_w,
            h == img_h,
            1 <= img_w <= MAX_IMAGE_DIM,
            1 <= img_h <= MAX_IMAGE_DIM,
            tile_w <= 2048,
            tile_h <= 2048,
            (tile_w as int) * 16 >= img_w,
            (tile_h as int) * 16 >= img_h,
            bins@.len() == (tile_w as int) * (tile_h as int),
            cids@.len() < 0x1_0000_0000,
            forall|t: int|
                0 <= t < bins@.len() ==> (#[trigger] bins@[t]).0 <= bins@[t].1 <= cids@.len(),
            forall|k: int| 0 <= k < cids@.len() ==> (#[trigger] cids@[k] as int) < splats@.len(),
            forall|j: int| 0 <= j < splats@.len() ==> unit_splat_s(#[trigger] splats@[j]),
            img@.len() == 4 * p,
            fins@.len() == (if want_fin {
                p as int
            } else {
                0int
            }),
            forall|v: int| 0 <= v < img@.len() ==> 0 <= #[trigger] img@[v] <= ONE,
            forall|q: int|
                0 <= q < p ==> #[trigger] image_pixel_ok(
                    splats@,
                    cids@,
                    bins@,
                    tile_w,
                    img_w,
                    want_fin,
                    img@,
                    fins@,
                    q,
                ),
        decreases npix - p,
    {
        let ix = p % w;
        let iy = p / w;
        proof {
            assert(iy < img_h) by (nonlinear_arith)
                requires
                    (p as int) < (img_h as int) * (img_w as int),
                    w == img_w,
                    img_w >= 1,
                    iy == (p as int) / (img_w as int),
                    ix == (p as int) % (img_w as int);
            assert((ix as int) / 16 < tile_w && (iy as int) / 16 < tile_h) by (nonlinear_arith)
                requires
                    (ix as int) < img_w,
                    (iy as int) < img_h,
                    (tile_w as int) * 16 >= img_w,
                    (tile_h as int) * 16 >= img_h;
            assert(((iy as int) / 16) * (tile_w as int) + (ix as int) / 16 < (tile_w as int) * (
            tile_h as int)) by (nonlinear_arith)
                requires (ix as int) / 16 < tile_w && (iy as int) / 16 < tile_h;
            assert((tile_w as int) * (tile_h as int) <= 2048 * 2048) by (nonlinear_arith)
                requires tile_w <= 2048 && tile_h <= 2048;
        }
        let tile = (iy / 16) * (tile_w as usize) + ix / 16;
        let (start, end) = {
            let b = bins[tile];
            (b.0 as usize, b.1 as usize)
        };
        let px = (ix as i64) * 4294967296i64 + 2147483648i64;
        let py = (iy as i64) * 4294967296i64 + 2147483648i64;
        let (st, fin) = composite_pixel(splats, cids, start, end, px, py);
        let ghost img_pre = img@;
        let ghost fins_pre = fins@;
        img.push(st.r);
        img.push(st.g);
        img.push(st.b);
        img.push(crate::fixed::sat_sub(ONE, st.t));
        if want_fin {
            fins.push(fin as u32);
        }
        proof {
            assert(st == pixel_state_s(splats@, cids@, bins@, tile_w, ix as int, iy as int));
            assert(fin as int == pixel_fin_s(splats@, cids@, bins@, tile_w, ix as int, iy as int));
            assert(fin <= cids@.len());
            assert forall|q: int|
                0 <= q < p + 1 implies #[trigger] image_pixel_ok(
                    splats@,
                    cids@,
                    bins@,
                    tile_w,
                    img_w,
                    want_fin,
                    img@,
                    fins@,
                    q,
                ) by {
                if q < p {
                    assert(image_pixel_ok(
                        splats@,
                        cids@,
                        bins@,
                        tile_w,
                        img_w,
                        want_fin,
                        img_pre,
                        fins_pre,
                        q,
                    ));
                    assert(img_pre[4 * q] == img@[4 * q]);
                    assert(img_pre[4 * q + 1] == img@[4 * q + 1]);
                    assert(img_pre[4 * q + 2] == img@[4 * q + 2]);
                    assert(img_pre[4 * q + 3] == img@[4 * q + 3]);
                    if want_fin {
                        assert(fins_pre[q] == fins@[q]);
                    }
                } else {
                    assert(q == p);
                    assert(q % (img_w as int) == ix as int && q / (img_w as int) == iy as int);
                    assert(img@[4 * q] == st.r && img@[4 * q + 1] == st.g && img@[4 * q + 2]
                        == st.b && img@[4 * q + 3] == crate::fixed::sat_sub_fx(ONE, st.t));
                    assert(crate::fixed::sat_sub_fx(ONE, st.t) == ONE - st.t);
                }
            }
            assert forall|v: int| 0 <= v < img@.len() implies 0 <= #[trigger] img@[v] <= ONE by {
                if v < 4 * p {
                    assert(img@[v] == img_pre[v]);
                } else {
                    assert(v == 4 * p || v == 4 * p + 1 || v == 4 * p + 2 || v == 4 * p + 3);
                    assert(crate::fixed::sat_sub_fx(ONE, st.t) == ONE - st.t);
                }
            }
        }
        p += 1;
    }
    (img, fins)
}

/// One channel quantized to a byte: `floor(v * 255)` of a unit value.
pub open spec fn byte_of_s(v: i64) -> u32 {
    (((v as int) * 255) / (ONE as int)) as u32
}

/// The packed preview word of a pixel: one byte per channel, red in the
/// low byte, alpha in the high byte.
pub open spec fn pack_rgba8_s(r: i64, g: i64, b: i64, a: i64) -> u32 {
    byte_of_s(r) | (byte_of_s(g) << 8u32) | (byte_of_s(b) << 16u32) | (byte_of_s(a) << 24u32)
}

/// Executable byte quantization.
#[verifier::when_used_as_spec(byte_of_s)]
fn byte_of(v: i64) -> (r: u32)
    requires
        0 <= v <= ONE,
    ensures
        r == byte_of_s(v),
        r <= 255,
{
    (((v as u64) * 255) / 4294967296u64) as u32
}

/// Quantize a float image into packed preview words, one per pixel.
fn pack_image(img: &Vec<i64>, npix: usize) -> (r: Vec<u32>)
    requires
        img@.len() == 4 * npix,
        forall|v: int| 0 <= v < img@.len() ==> 0 <= #[trigger] img@[v] <= ONE,
    ensures
        r@.len() == npix,
        forall|p: int|
            0 <= p < npix ==> #[trigger] r@[p] == pack_rgba8_s(
                img@[4 * p],
                img@[4 * p + 1],
                img@[4 * p + 2],
                img@[4 * p + 3],
            ),
{
    let il = img.len();
    let mut out: Vec<u32> = Vec::new();
    let mut p: usize = 0;
    while p < npix
        invariant
            p <= npix,
            il == img@.len(),
            img@.len() == 4 * npix,
            forall|v: int| 0 <= v < img@.len() ==> 0 <= #[trigger] img@[v] <= ONE,
            out@.len() == p,
            forall|q: int|
                0 <= q < p ==> #[trigger] out@[q] == pack_rgba8_s(
                    img@[4 * q],
                    img@[4 * q + 1],
                    img@[4 * q + 2],
                    img@[4 * q + 3],
                ),
        decreases npix - p,
    {
        let r = byte_of(img[4 * p]);
        let g = byte_of(img[4 * p + 1]);
        let b = byte_of(img[4 * p + 2]);
        let a = byte_of(img[4 * p + 3]);
        out.push(r | (g << 8u32) | (b << 16u32) | (a << 24u32));
        p += 1;
    }
    out
}


/// An image extent in fixed-point pixel units.
pub open spec fn dim_one_s(d: u32) -> i64 {
    ((d as int) * (ONE as int)) as i64
}

/// The intersection-buffer capacity for a primitive count and tile count.
pub open spec fn cap_s(n: int, num_tiles: int) -> int {
    let c = n * num_tiles;
    if c > MAX_INTERSECTIONS {
        MAX_INTERSECTIONS as int
    } else {
        c
    }
}

/// The depth-sorted packed (depth key, global id) words of the visible
/// primitives.
pub open spec fn sorted_visible_s(sp: Splats, cam: Camera, w: u32, h: u32) -> Seq<u64> {
    sort_spec(visible_entries_s(sp, cam, dim_one_s(w), dim_one_s(h), sp.len_s()))
}

/// The evaluation of the splat at compact id `c`.
pub open spec fn compact_eval_s(
    sp: Splats,
    cam: Camera,
    w: u32,
    h: u32,
    c: int,
) -> crate::project::EvalOut {
    eval_splat_s(
        sp,
        cam,
        dim_one_s(w),
        dim_one_s(h),
        tiles_along_s(w),
        tiles_along_s(h),
        payload_of(sorted_visible_s(sp, cam, w, h)[c]) as int,
    )
}

/// The tile rectangles of the visible splats, in compact order.
pub open spec fn compact_rects_s(sp: Splats, cam: Camera, w: u32, h: u32) -> Seq<TileRect> {
    Seq::new(
        sorted_visible_s(sp, cam, w, h).len(),
        |c: int| compact_eval_s(sp, cam, w, h, c).rect,
    )
}

/// The per-primitive-slot overlap counts: the visible prefix carries the
/// rectangle sizes, the rest is zero.
pub open spec fn padded_counts_s(sp: Splats, cam: Camera, w: u32, h: u32) -> Seq<u32> {
    let nv = sorted_visible_s(sp, cam, w, h).len() as int;
    Seq::new(
        sp.len_s() as nat,
        |i: int|
            if i < nv {
                compact_eval_s(sp, cam, w, h, i).count
            } else {
                0u32
            },
    )
}

/// The (tile, compact id) intersection entries after the capacity
/// ceiling.
pub open spec fn isect_entries_s(sp: Splats, cam: Camera, w: u32, h: u32) -> Seq<u64> {
    let nv = sorted_visible_s(sp, cam, w, h).len() as int;
    let num_tiles = (tiles_along_s(w) as int) * (tiles_along_s(h) as int);
    clip_s(
        entries_up_to_s(compact_rects_s(sp, cam, w, h), tiles_along_s(w), nv),
        cap_s(sp.len_s(), num_tiles),
    )
}

/// The intersection entries sorted by tile.
pub open spec fn sorted_isect_s(sp: Splats, cam: Camera, w: u32, h: u32) -> Seq<u64> {
    sort_spec(isect_entries_s(sp, cam, w, h))
}

/// Everything the forward pass promises about a successful render: every
/// buffer of the auxiliary bundle equals its pipeline stage's value, the
/// compact list is depth ordered, the tile bins partition the sorted
/// intersection list, and every pixel of the image is the front-to-back
/// walk of its tile's bin.
pub open spec fn forward_ok_s(
    sp: Splats,
    cam: Camera,
    w: u32,
    h: u32,
    packed_mode: bool,
    out: ImageBuffer,
    aux: RenderAux,
) -> bool {
    let n = sp.len_s();
    let tw = tiles_along_s(w);
    let th = tiles_along_s(h);
    let num_tiles = (tw as int) * (th as int);
    let sorted_vis = sorted_visible_s(sp, cam, w, h);
    let nv = sorted_vis.len() as int;
    let projected = Seq::new(nv as nat, |c: int| compact_eval_s(sp, cam, w, h, c).splat);
    let counts = padded_counts_s(sp, cam, w, h);
    let isect = sorted_isect_s(sp, cam, w, h);
    let ni = isect.len() as int;
    let scids = Seq::new(ni as nat, |k: int| payload_of(isect[k]));
    let bins = Seq::new(
        num_tiles as nat,
        |t: int|
            (
                (count_lt_s(isect, t as u32) as u32),
                ((count_lt_s(isect, t as u32) + count_eq_s(isect, t as u32)) as u32),
            ),
    );
    &&& aux.num_visible as int == nv
    &&& aux.depths@ == Seq::new(nv as nat, |c: int| key_of(sorted_vis[c]))
    &&& (forall|i: int, j: int|
        0 <= i < j < nv ==> #[trigger] aux.depths@[i] <= #[trigger] aux.depths@[j])
    &&& aux.global_from_compact_gid@ == Seq::new(nv as nat, |c: int| payload_of(sorted_vis[c]))
    &&& aux.projected_splats@ == projected
    &&& aux.cum_tiles_hit@ == Seq::new(n as nat, |i: int| prefix_total(counts, i) as u64)
    &&& (forall|c: int|
        0 <= c <= nv ==> #[trigger] entries_up_to_s(
            compact_rects_s(sp, cam, w, h),
            tw,
            c,
        ).len() == prefix_total(counts, c))
    &&& (aux.num_intersections as int) == (if prefix_total(counts, n) <= cap_s(n, num_tiles) {
        prefix_total(counts, n)
    } else {
        cap_s(n, num_tiles)
    })
    &&& aux.num_intersections as int == ni
    &&& aux.compact_gid_from_isect@ == scids
    &&& aux.tile_bins@ == bins
    &&& (aux.tile_bins@[0].0 as int) == 0
    &&& (forall|t: int| 0 <= t < num_tiles ==> (#[trigger] aux.tile_bins@[t]).0 <= aux.tile_bins@[t].1)
    &&& (forall|t: int|
        0 <= t < num_tiles - 1 ==> (#[trigger] aux.tile_bins@[t]).1 == aux.tile_bins@[t + 1].0)
    &&& (aux.tile_bins@[num_tiles - 1].1 as int) == ni
    &&& (forall|t: int, k: int|
        #![trigger aux.tile_bins@[t], isect[k]]
        0 <= t < num_tiles && aux.tile_bins@[t].0 <= k < aux.tile_bins@[t].1 ==> key_of(isect[k])
            == t)
    &&& (packed_mode ==> aux.final_index is None)
    &&& (!packed_mode ==> (aux.final_index matches Some(f) && f@.len() == (h as int) * (w as int)
        && (forall|ix: int, iy: int|
        #![trigger pixel_fin_s(projected, scids, bins, tw, ix, iy)]
        0 <= ix < w && 0 <= iy < h ==> (f@[iy * (w as int) + ix] as int) == pixel_fin_s(
            projected,
            scids,
            bins,
            tw,
            ix,
            iy,
        ))))
    &&& match out {
        ImageBuffer::Float(img) => {
            &&& !packed_mode
            &&& img@.len() == (h as int) * (w as int) * 4
            &&& (forall|v: int| 0 <= v < img@.len() ==> 0 <= #[trigger] img@[v] <= ONE)
            &&& (forall|ix: int, iy: int|
                #![trigger pixel_state_s(projected, scids, bins, tw, ix, iy)]
                0 <= ix < w && 0 <= iy < h ==> {
                    let st = pixel_state_s(projected, scids, bins, tw, ix, iy);
                    let p = iy * (w as int) + ix;
                    &&& state_wf_s(st)
                    &&& img@[4 * p] == st.r
                    &&& img@[4 * p + 1] == st.g
                    &&& img@[4 * p + 2] == st.b
                    &&& img@[4 * p + 3] == ONE - st.t
                })
        },
        ImageBuffer::Packed(pim) => {
            &&& packed_mode
            &&& pim@.len() == (h as int) * (w as int)
            &&& (forall|ix: int, iy: int|
                #![trigger pixel_state_s(projected, scids, bins, tw, ix, iy)]
                0 <= ix < w && 0 <= iy < h ==> {
                    let st = pixel_state_s(projected, scids, bins, tw, ix, iy);
                    pim@[iy * (w as int) + ix] == pack_rgba8_s(
                        st.r,
                        st.g,
                        st.b,
                        sat_sub_fx(ONE, st.t),
                    )
                })
        },
    }
}


/// The forward entry point: validate the configuration, then run the
/// whole pipeline and return the image together with the auxiliary
/// bundle the backward pass consumes.  On success every output buffer is
/// pinned to its pipeline stage's value (see `forward_ok_s`); an invalid
/// configuration returns its error before any stage runs.
#[verifier::rlimit(100)]
pub fn render_forward(
    sp: &Splats,
    cam: Camera,
    img_w: u32,
    img_h: u32,
    render_u32_buffer: bool,
) -> (r: Result<(ImageBuffer, RenderAux), RenderError>)
    requires
        sp.len_s() < 0x1_0000_0000,
    ensures
        r is Ok <==> validate_s(*sp, cam, img_w, img_h) is Ok,
        r matches Err(e) ==> validate_s(*sp, cam, img_w, img_h) == Err::<(), RenderError>(e),
        r matches Ok(v) ==> forward_ok_s(*sp, cam, img_w, img_h, render_u32_buffer, v.0, v.1),
{
    match validate(sp, cam, img_w, img_h) {
        Err(e) => {
            return Err(e);
        },
        Ok(_u) => {},
    }
    let n = sp.len();
    let w_one = (img_w as i64) * 4294967296i64;
    let h_one = (img_h as i64) * 4294967296i64;
    let tw = tiles_along(img_w);
    let th = tiles_along(img_h);
    let ghost spv = *sp;

    // Stage 1 and 2: cull, key by depth, sort front to back.
    let entries = stage_visible(sp, cam, w_one, h_one);
    let sorted_vis = radix_sort(entries);
    let nv = sorted_vis.len();
    proof {
        assert(sorted_vis@ == sorted_visible_s(spv, cam, img_w, img_h));
        assert forall|k: int| 0 <= k < nv implies (payload_of(#[trigger] sorted_vis@[k]) as int)
            < sp.len_s() by {
            crate::sort::lemma_permutation_element(
                visible_entries_s(spv, cam, w_one, h_one, sp.len_s()),
                sorted_vis@,
                k,
            );
        }
        crate::sort::lemma_sorted_keys_sorted(sorted_vis@);
    }

    // Unpack the compact list: depth keys and the global-id permutation.
    let mut depths: Vec<u32> = Vec::new();
    let mut gids: Vec<u32> = Vec::new();
    let mut i: usize = 0;
    while i < nv
        invariant
            i <= nv,
            nv == sorted_vis@.len(),
            depths@.len() == i,
            gids@.len() == i,
            forall|c: int| 0 <= c < i ==> #[trigger] depths@[c] == key_of(sorted_vis@[c]),
            forall|c: int| 0 <= c < i ==> #[trigger] gids@[c] == payload_of(sorted_vis@[c]),
        decreases nv - i,
    {
        depths.push(unpack_key(sorted_vis[i]));
        gids.push(unpack_payload(sorted_vis[i]));
        i += 1;
    }

    // Stage 3: evaluate conic, color, opacity, tile footprint.
    let (projected, rects, counts) = stage_eval(sp, cam, w_one, h_one, tw, th, &gids);

    // Stage 4: exclusive scan of the overlap counts.
    let (offsets, _total) = exclusive_scan(&counts);

    // Stage 5: expand to (tile, compact id) entries, capacity-limited.
    proof {
        assert((tw as int) * (th as int) <= 2048 * 2048 && (tw as int) * (th as int) >= 1)
            by (nonlinear_arith)
            requires 1 <= tw <= 2048 && 1 <= th <= 2048;
    }
    let num_tiles: u32 = tw * th;
    proof {
        assert((n as int) * (num_tiles as int) <= 0xffff_ffffint * 4194304) by (nonlinear_arith)
            requires n < 0x1_0000_0000 && num_tiles <= 4194304;
    }
    let capw: u64 = (n as u64) * (num_tiles as u64);
    let cap: usize = if capw > MAX_INTERSECTIONS {
        MAX_INTERSECTIONS as usize
    } else {
        capw as usize
    };
    proof {
        assert((n as u64) as int * (num_tiles as u64) as int <= 0xffff_ffff * 4194304int)
            by (nonlinear_arith)
            requires n < 0x1_0000_0000 && num_tiles <= 4194304;
        assert(cap as int == cap_s(sp.len_s(), (tw as int) * (th as int)));
    }
    proof {
        assert(rects@ =~= compact_rects_s(spv, cam, img_w, img_h));
    }
    let isect = map_intersections(&rects, tw, th, cap);

    // Stage 6: sort by tile id.
    let sorted_isect = radix_sort(isect);
    let ni = sorted_isect.len();
    proof {
        assert(sorted_isect@ == sorted_isect_s(spv, cam, img_w, img_h));
        assert forall|k: int| 0 <= k < ni implies key_of(#[trigger] sorted_isect@[k]) < num_tiles
            && (payload_of(sorted_isect@[k]) as int) < nv by {
            crate::sort::lemma_permutation_element(isect@, sorted_isect@, k);
        }
        crate::sort::lemma_sorted_keys_sorted(sorted_isect@);
        assert(ni <= cap);
    }

    // Unpack the per-intersection compact ids.
    let mut cids: Vec<u32> = Vec::new();
    let mut k: usize = 0;
    while k < ni
        invariant
            k <= ni,
            ni == sorted_isect@.len(),
            cids@.len() == k,
            forall|c: int| 0 <= c < k ==> #[trigger] cids@[c] == payload_of(sorted_isect@[c]),
        decreases ni - k,
    {
        cids.push(unpack_payload(sorted_isect[k]));
        k += 1;
    }

    // Stage 7: per-tile bins.
    let bins = tile_bins_from_sorted(&sorted_isect, num_tiles);
    proof {
        assert forall|t: int| 0 <= t < bins@.len() implies (#[trigger] bins@[t]).0 <= bins@[t].1
            <= cids@.len() by {
            crate::tiles::lemma_count_bounds(sorted_isect@, t as u32);
            crate::tiles::lemma_count_lt_succ(sorted_isect@, t as u32);
            crate::tiles::lemma_count_bounds(sorted_isect@, ((t as u32) + 1) as u32);
        }
        assert forall|c: int| 0 <= c < cids@.len() implies (#[trigger] cids@[c] as int)
            < projected@.len() by {}
    }

    // Stage 8: composite every pixel.
    let (img, fins) = rasterize_image(
        &projected,
        &cids,
        &bins,
        tw,
        th,
        img_w,
        img_h,
        !render_u32_buffer,
    );
    let ghost vsplats = projected@;
    let ghost vcids = cids@;
    let ghost vbins = bins@;
    let ghost vimg = img@;
    let ghost vfins = fins@;

    let aux = RenderAux {
        num_visible: nv as u32,
        num_intersections: ni as u32,
        projected_splats: projected,
        depths,
        global_from_compact_gid: gids,
        tile_bins: bins,
        compact_gid_from_isect: cids,
        cum_tiles_hit: offsets,
        final_index: if render_u32_buffer {
            None
        } else {
            Some(fins)
        },
    };
    let out = if render_u32_buffer {
        proof {
            assert((img_h as int) * (img_w as int) <= 32768 * 32768) by (nonlinear_arith)
                requires 1 <= img_w <= 32768 && 1 <= img_h <= 32768;
        }
        let npix = (img_h as usize) * (img_w as usize);
        ImageBuffer::Packed(pack_image(&img, npix))
    } else {
        ImageBuffer::Float(img)
    };
    proof {
        let sorted_vq = sorted_visible_s(spv, cam, img_w, img_h);
        let nvi = sorted_vq.len() as int;
        let projected_q = Seq::new(
            nvi as nat,
            |c: int| compact_eval_s(spv, cam, img_w, img_h, c).splat,
        );
        let counts_q = padded_counts_s(spv, cam, img_w, img_h);
        let isect_q = sorted_isect_s(spv, cam, img_w, img_h);
        let ni_q = isect_q.len() as int;
        let scids_q = Seq::new(ni_q as nat, |k: int| payload_of(isect_q[k]));
        let ntl = (tw as int) * (th as int);
        let bins_q = Seq::new(
            ntl as nat,
            |t: int|
                (
                    (count_lt_s(isect_q, t as u32) as u32),
                    ((count_lt_s(isect_q, t as u32) + count_eq_s(isect_q, t as u32)) as u32),
                ),
        );
        assert(w_one == dim_one_s(img_w) && h_one == dim_one_s(img_h));
        assert(sorted_vis@ == sorted_vq);
        assert(aux.depths@ =~= Seq::new(nvi as nat, |c: int| key_of(sorted_vq[c])));
        assert(aux.global_from_compact_gid@ =~= Seq::new(
            nvi as nat,
            |c: int| payload_of(sorted_vq[c]),
        ));
        assert(aux.projected_splats@ =~= projected_q);
        assert(counts@ =~= counts_q);
        assert(aux.cum_tiles_hit@ =~= Seq::new(
            sp.len_s() as nat,
            |i: int| prefix_total(counts_q, i) as u64,
        )) by {
            assert forall|i: int| 0 <= i < sp.len_s() implies #[trigger] aux.cum_tiles_hit@[i]
                == prefix_total(counts_q, i) as u64 by {
                assert(aux.cum_tiles_hit@[i] == prefix_total(counts@, i));
                crate::scan::lemma_prefix_total_bound(counts@, i);
            }
        }
        assert(sorted_isect@ == isect_q);
        assert(aux.compact_gid_from_isect@ =~= scids_q);
        assert(aux.tile_bins@ =~= bins_q) by {
            assert forall|t: int| 0 <= t < ntl implies #[trigger] aux.tile_bins@[t] == (
                (count_lt_s(isect_q, t as u32) as u32),
                ((count_lt_s(isect_q, t as u32) + count_eq_s(isect_q, t as u32)) as u32),
            ) by {
                crate::tiles::lemma_count_bounds(isect_q, t as u32);
            }
        }
        lemma_bins_partition(sorted_isect@, aux.tile_bins@, num_tiles);
        lemma_bins_membership(sorted_isect@, aux.tile_bins@, num_tiles);
        let rects_q = compact_rects_s(spv, cam, img_w, img_h);
        let countsnv = counts_q.subrange(0, nvi);
        assert forall|cc: int| 0 <= cc <= nvi implies #[trigger] entries_up_to_s(
            rects_q,
            tw,
            cc,
        ).len() == prefix_total(counts_q, cc) by {
            assert(countsnv.len() == rects_q.len());
            assert forall|i: int| 0 <= i < nvi implies (#[trigger] countsnv[i] as int)
                == rects_q[i].count_s() by {
                assert(countsnv[i] == counts@[i]);
                assert(rects_q[i] == rects@[i]);
            }
            lemma_entries_offset(rects_q, countsnv, tw, cc);
            crate::scan::lemma_prefix_total_congruent(countsnv, counts_q, cc);
        }
        assert(entries_up_to_s(rects_q, tw, nvi).len() == prefix_total(counts_q, nvi));
        crate::scan::lemma_prefix_total_zero_tail(counts_q, nvi, sp.len_s() as int);
        assert(prefix_total(counts_q, sp.len_s() as int) == prefix_total(counts_q, nvi));
        assert((aux.num_intersections as int) == (if prefix_total(counts_q, sp.len_s() as int)
            <= cap_s(sp.len_s(), ntl) {
            prefix_total(counts_q, sp.len_s() as int)
        } else {
            cap_s(sp.len_s(), ntl)
        }));
        assert(aux.num_visible as int == nvi);
        assert(aux.num_intersections as int == ni_q);
        assert forall|i: int, j: int| 0 <= i < j < nvi implies #[trigger] aux.depths@[i]
            <= #[trigger] aux.depths@[j] by {
            assert(key_of(sorted_vis@[i]) <= key_of(sorted_vis@[j]));
        }
        assert((aux.tile_bins@[0].0 as int) == 0);
        assert(forall|t: int|
            0 <= t < ntl ==> (#[trigger] aux.tile_bins@[t]).0 <= aux.tile_bins@[t].1);
        assert(forall|t: int|
            0 <= t < ntl - 1 ==> (#[trigger] aux.tile_bins@[t]).1 == aux.tile_bins@[t + 1].0);
        assert((aux.tile_bins@[ntl - 1].1 as int) == ni_q);
        assert forall|t: int, k: int|
            #![trigger aux.tile_bins@[t], isect_q[k]]
            0 <= t < ntl && aux.tile_bins@[t].0 <= k < aux.tile_bins@[t].1 implies key_of(
            isect_q[k]) == t by {
            assert(0 <= k < sorted_isect@.len());
            assert(isect_q[k] == sorted_isect@[k]);
            assert(key_of(sorted_isect@[k]) == t);
        }
        assert(vsplats == projected_q && vcids == scids_q && vbins == bins_q);
        if !render_u32_buffer {
            assert forall|ix: int, iy: int|
                #![trigger pixel_fin_s(projected_q, scids_q, bins_q, tw, ix, iy)]
                0 <= ix < img_w && 0 <= iy < img_h implies (vfins[iy * (img_w as int) + ix] as int)
                == pixel_fin_s(projected_q, scids_q, bins_q, tw, ix, iy) by {
                let q = iy * (img_w as int) + ix;
                assert(0 <= q < (img_h as int) * (img_w as int) && q % (img_w as int) == ix && q
                    / (img_w as int) == iy) by (nonlinear_arith)
                    requires
                        0 <= ix < img_w,
                        0 <= iy < img_h,
                        q == iy * (img_w as int) + ix;
                assert(image_pixel_ok(vsplats, vcids, vbins, tw, img_w, true, vimg, vfins, q));
            }
            assert forall|ix: int, iy: int|
                #![trigger pixel_state_s(projected_q, scids_q, bins_q, tw, ix, iy)]
                0 <= ix < img_w && 0 <= iy < img_h implies {
                    let st = pixel_state_s(projected_q, scids_q, bins_q, tw, ix, iy);
                    let p = iy * (img_w as int) + ix;
                    &&& state_wf_s(st)
                    &&& vimg[4 * p] == st.r
                    &&& vimg[4 * p + 1] == st.g
                    &&& vimg[4 * p + 2] == st.b
                    &&& vimg[4 * p + 3] == ONE - st.t
                } by {
                let q = iy * (img_w as int) + ix;
                assert(0 <= q < (img_h as int) * (img_w as int) && q % (img_w as int) == ix && q
                    / (img_w as int) == iy) by (nonlinear_arith)
                    requires
                        0 <= ix < img_w,
                        0 <= iy < img_h,
                        q == iy * (img_w as int) + ix;
                assert(image_pixel_ok(vsplats, vcids, vbins, tw, img_w, true, vimg, vfins, q));
            }
        } else {
            assert forall|ix: int, iy: int|
                #![trigger pixel_state_s(projected_q, scids_q, bins_q, tw, ix, iy)]
                0 <= ix < img_w && 0 <= iy < img_h implies {
                    let st = pixel_state_s(projected_q, scids_q, bins_q, tw, ix, iy);
                    (out matches ImageBuffer::Packed(pim) && pim@[iy * (img_w as int) + ix]
                        == pack_rgba8_s(st.r, st.g, st.b, sat_sub_fx(ONE, st.t)))
                } by {
                let q = iy * (img_w as int) + ix;
                assert(0 <= q < (img_h as int) * (img_w as int) && q % (img_w as int) == ix && q
                    / (img_w as int) == iy) by (nonlinear_arith)
                    requires
                        0 <= ix < img_w,
                        0 <= iy < img_h,
                        q == iy * (img_w as int) + ix;
                assert(image_pixel_ok(vsplats, vcids, vbins, tw, img_w, false, vimg, vfins, q));
                let st = pixel_state_s(projected_q, scids_q, bins_q, tw, ix, iy);
                assert(vimg[4 * q] == st.r && vimg[4 * q + 1] == st.g && vimg[4 * q + 2] == st.b
                    && vimg[4 * q + 3] == ONE - st.t);
                assert(crate::fixed::sat_sub_fx(ONE, st.t) == ONE - st.t);
            }
        }
        assert(forward_ok_s(spv, cam, img_w, img_h, render_u32_buffer, out, aux));
    }
    Ok((out, aux))
}

} // verus!
