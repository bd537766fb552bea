//! End-to-end scenes through the forward entry point: culled scenes
//! render fully transparent, a single opaque splat paints exactly its
//! pixel, rendering is deterministic, the auxiliary bundle keeps its
//! ordering and partition invariants, and configuration errors are
//! reported before any stage runs.

use splat_render::fixed::ONE;
use splat_render::types::{Camera, ImageBuffer, M3, Q4, RenderError, Splats, V3};
use splat_render::render::render_forward;

fn fx(v: f64) -> i64 {
    (v * 4294967296.0).round() as i64
}

fn to_f(v: i64) -> f64 {
    v as f64 / 4294967296.0
}

fn identity_rot() -> M3 {
    M3 { m00: ONE, m01: 0, m02: 0, m10: 0, m11: ONE, m12: 0, m20: 0, m21: 0, m22: ONE }
}

fn camera(pos: (f64, f64, f64), focal: f64, center_px: f64) -> Camera {
    Camera {
        rot: identity_rot(),
        pos: V3 { x: fx(pos.0), y: fx(pos.1), z: fx(pos.2) },
        fx: fx(focal),
        fy: fx(focal),
        cx: fx(center_px),
        cy: fx(center_px),
    }
}

fn uniform_splats(
    n: usize,
    mean: (f64, f64, f64),
    log_scale: f64,
    raw_opacity: f64,
    coeff: f64,
) -> Splats {
    let mut means = Vec::new();
    let mut log_scales = Vec::new();
    let mut quats = Vec::new();
    let mut sh_coeffs = Vec::new();
    let mut raw_opacities = Vec::new();
    for _ in 0..n {
        means.push(V3 { x: fx(mean.0), y: fx(mean.1), z: fx(mean.2) });
        log_scales.push(V3 { x: fx(log_scale), y: fx(log_scale), z: fx(log_scale) });
        quats.push(Q4 { w: ONE, x: 0, y: 0, z: 0 });
        for _ in 0..3 {
            sh_coeffs.push(fx(coeff));
        }
        raw_opacities.push(fx(raw_opacity));
    }
    Splats { means, log_scales, quats, sh_coeffs, raw_opacities, coeffs_per_channel: 1 }
}

fn float_image(out: ImageBuffer) -> Vec<i64> {
    match out {
        ImageBuffer::Float(img) => img,
        ImageBuffer::Packed(_) => panic!("expected the float image mode"),
    }
}

#[test]
fn renders_at_all() {
    // Check if rendering doesn't hard crash or anything.
    // These are some zero-sized gaussians, so we know
    // what the result should look like.
    let focal = 0.5 * 32.0 / (0.25f64).tan();
    let cam = camera((0.0, 0.0, 0.0), focal, 0.5 * 32.0);
    let num_points = 8;
    let sp = uniform_splats(num_points, (0.0, 0.0, 0.0), 2.0, 0.0, 1.0);
    let (out, _aux) = render_forward(&sp, cam, 32, 32, false).unwrap();
    let img = float_image(out);
    let mut rgb_sum = 0.0;
    let mut alpha_sum = 0.0;
    for p in 0..(32 * 32) {
        rgb_sum += to_f(img[4 * p]) + to_f(img[4 * p + 1]) + to_f(img[4 * p + 2]);
        alpha_sum += to_f(img[4 * p + 3]);
    }
    let rgb_mean = rgb_sum / (32.0 * 32.0 * 3.0);
    let alpha_mean = alpha_sum / (32.0 * 32.0);
    assert!(rgb_mean.abs() < 1e-5);
    assert!(alpha_mean.abs() < 1e-6);
}

#[test]
fn degenerate_primitives_render_transparent() {
    // 8 zero-scale, zero-opacity primitives over a 32x32 image render to
    // a fully transparent output.
    let cam = camera((0.0, 0.0, -5.0), 16.0, 16.0);
    let sp = uniform_splats(8, (0.0, 0.0, 0.0), -20.0, -40.0, 1.0);
    let (out, aux) = render_forward(&sp, cam, 32, 32, false).unwrap();
    let img = float_image(out);
    for v in &img {
        assert_eq!(*v, 0);
    }
    // the degenerate covariance is culled outright
    assert_eq!(aux.num_visible, 0);
    assert_eq!(aux.num_intersections, 0);
}

#[test]
fn single_opaque_splat_covers_one_pixel() {
    // One opaque, sharply peaked splat lands on the center of pixel
    // (16, 16): that pixel carries the degree-0 color and full opacity,
    // and every other pixel stays exactly transparent.
    let cam = camera((0.0, 0.0, -5.0), 16.0, 16.0);
    let sp = uniform_splats(1, (0.15625, 0.15625, 0.0), (0.03125f64).ln(), 40.0, 1.0);
    let (out, aux) = render_forward(&sp, cam, 32, 32, false).unwrap();
    assert_eq!(aux.num_visible, 1);
    let img = float_image(out);
    let sh_c0 = 0.28209479177387814;
    for py in 0..32usize {
        for px in 0..32usize {
            let p = py * 32 + px;
            let r = to_f(img[4 * p]);
            let a = to_f(img[4 * p + 3]);
            if px == 16 && py == 16 {
                // alpha saturates at the compositing ceiling just below one
                assert!(a > 0.998 && a <= 1.0);
                assert!((r - sh_c0).abs() < 5e-3);
                assert_eq!(img[4 * p], img[4 * p + 1]);
                assert_eq!(img[4 * p], img[4 * p + 2]);
            } else {
                assert_eq!(img[4 * p], 0);
                assert_eq!(img[4 * p + 1], 0);
                assert_eq!(img[4 * p + 2], 0);
                assert_eq!(img[4 * p + 3], 0);
            }
        }
    }
}

#[test]
fn rendering_is_deterministic() {
    let cam = camera((0.2, -0.1, -4.0), 20.0, 12.0);
    let sp = uniform_splats(5, (0.3, 0.1, 0.5), -1.0, 0.7, 0.9);
    let (out1, aux1) = render_forward(&sp, cam, 24, 24, false).unwrap();
    let (out2, aux2) = render_forward(&sp, cam, 24, 24, false).unwrap();
    let img1 = float_image(out1);
    let img2 = float_image(out2);
    assert_eq!(img1, img2);
    assert_eq!(aux1.depths, aux2.depths);
    assert_eq!(aux1.global_from_compact_gid, aux2.global_from_compact_gid);
    assert_eq!(aux1.tile_bins, aux2.tile_bins);
    assert_eq!(aux1.compact_gid_from_isect, aux2.compact_gid_from_isect);
    assert_eq!(aux1.final_index, aux2.final_index);
}

#[test]
fn aux_bundle_keeps_pipeline_invariants() {
    // depth keys are sorted front to back, and the tile bins partition
    // the sorted intersection list exactly
    let cam = camera((0.0, 0.0, -6.0), 18.0, 16.0);
    let mut sp = uniform_splats(6, (0.0, 0.0, 0.0), -0.5, 1.0, 0.8);
    // spread the splats over depth and screen
    let offsets = [
        (-0.5, -0.4, 0.0),
        (0.6, 0.2, 1.0),
        (0.1, 0.5, -1.0),
        (-0.3, 0.3, 2.0),
        (0.4, -0.5, 0.5),
        (0.0, 0.0, 3.0),
    ];
    for (i, o) in offsets.iter().enumerate() {
        sp.means[i] = V3 { x: fx(o.0), y: fx(o.1), z: fx(o.2) };
    }
    let (_out, aux) = render_forward(&sp, cam, 32, 32, false).unwrap();
    for w in aux.depths.windows(2) {
        assert!(w[0] <= w[1]);
    }
    let bins = &aux.tile_bins;
    assert!(!bins.is_empty());
    assert_eq!(bins[0].0, 0);
    for w in bins.windows(2) {
        assert_eq!(w[0].1, w[1].0);
    }
    assert_eq!(bins[bins.len() - 1].1, aux.num_intersections);
    // the terminal index buffer spans the image
    assert_eq!(aux.final_index.as_ref().unwrap().len(), 32 * 32);
}

#[test]
fn packed_mode_quantizes_the_float_image() {
    let cam = camera((0.0, 0.0, -5.0), 16.0, 16.0);
    let sp = uniform_splats(1, (0.15625, 0.15625, 0.0), (0.03125f64).ln(), 40.0, 1.0);
    let (out_f, aux_f) = render_forward(&sp, cam, 32, 32, false).unwrap();
    let (out_p, aux_p) = render_forward(&sp, cam, 32, 32, true).unwrap();
    let img = float_image(out_f);
    let packed = match out_p {
        ImageBuffer::Packed(p) => p,
        ImageBuffer::Float(_) => panic!("expected the packed image mode"),
    };
    assert!(aux_f.final_index.is_some());
    assert!(aux_p.final_index.is_none());
    assert_eq!(packed.len(), 32 * 32);
    for p in 0..(32 * 32) {
        let byte = |v: i64| ((v as u64 * 255) / 4294967296u64) as u32;
        let want = byte(img[4 * p]) | (byte(img[4 * p + 1]) << 8) | (byte(img[4 * p + 2]) << 16)
            | (byte(img[4 * p + 3]) << 24);
        assert_eq!(packed[p], want);
    }
}

#[test]
fn configuration_errors_fail_fast() {
    let cam = camera((0.0, 0.0, -5.0), 16.0, 16.0);
    let empty = uniform_splats(0, (0.0, 0.0, 0.0), 0.0, 0.0, 0.0);
    assert_eq!(render_forward(&empty, cam, 32, 32, false).err(), Some(RenderError::NoPrimitives));

    let mut mismatched = uniform_splats(3, (0.0, 0.0, 0.0), 0.0, 0.0, 0.0);
    mismatched.quats.pop();
    assert_eq!(
        render_forward(&mismatched, cam, 32, 32, false).err(),
        Some(RenderError::MismatchedLengths),
    );

    let mut bad_coeffs = uniform_splats(3, (0.0, 0.0, 0.0), 0.0, 0.0, 0.0);
    bad_coeffs.coeffs_per_channel = 2;
    assert_eq!(
        render_forward(&bad_coeffs, cam, 32, 32, false).err(),
        Some(RenderError::InvalidShCount),
    );

    let mut short_coeffs = uniform_splats(3, (0.0, 0.0, 0.0), 0.0, 0.0, 0.0);
    short_coeffs.sh_coeffs.pop();
    assert_eq!(
        render_forward(&short_coeffs, cam, 32, 32, false).err(),
        Some(RenderError::MismatchedLengths),
    );

    let ok = uniform_splats(3, (0.0, 0.0, 0.0), 0.0, 0.0, 0.0);
    assert_eq!(render_forward(&ok, cam, 0, 32, false).err(), Some(RenderError::ZeroAreaImage));
    assert_eq!(render_forward(&ok, cam, 32, 0, false).err(), Some(RenderError::ZeroAreaImage));
    assert_eq!(
        render_forward(&ok, cam, 40000, 32, false).err(),
        Some(RenderError::OversizedImage),
    );

    let mut bad_cam = cam;
    bad_cam.fx = 0;
    assert_eq!(
        render_forward(&ok, bad_cam, 32, 32, false).err(),
        Some(RenderError::MalformedCamera),
    );

    assert!(render_forward(&ok, cam, 32, 32, false).is_ok());
}

#[test]
fn nearer_splat_occludes_farther_one() {
    // two opaque splats on the same line of sight: the image shows the
    // nearer one's color, whichever order the caller lists them in
    let cam = camera((0.0, 0.0, -5.0), 16.0, 16.0);
    let mut sp = uniform_splats(2, (0.15625, 0.15625, 0.0), (0.03125f64).ln(), 40.0, 1.0);
    // the second splat sits farther along the ray (z of the ray at depth 10
    // doubles the lateral offset) and carries a darker color
    sp.means[1] = V3 { x: fx(0.3125), y: fx(0.3125), z: fx(5.0) };
    sp.log_scales[1] = V3 { x: fx((0.0625f64).ln()), y: fx((0.0625f64).ln()), z: fx((0.0625f64).ln()) };
    for ch in 0..3 {
        sp.sh_coeffs[3 + ch] = fx(0.1);
    }
    let render_front = |s: &Splats| {
        let (out, _aux) = render_forward(s, cam, 32, 32, false).unwrap();
        let img = float_image(out);
        to_f(img[4 * (16 * 32 + 16)])
    };
    let front_color = render_front(&sp);
    // the front splat's color dominates the pixel
    let sh_c0 = 0.28209479177387814;
    assert!((front_color - sh_c0).abs() < 5e-3);
    // swapping the listing order changes nothing: the depth sort decides
    sp.means.swap(0, 1);
    sp.log_scales.swap(0, 1);
    sp.quats.swap(0, 1);
    sp.raw_opacities.swap(0, 1);
    let (a, b) = (sp.sh_coeffs[0], sp.sh_coeffs[3]);
    for ch in 0..3 {
        sp.sh_coeffs[ch] = b;
        sp.sh_coeffs[3 + ch] = a;
    }
    let swapped_color = render_front(&sp);
    assert!((swapped_color - front_color).abs() < 1e-9);
}

#[test]
fn compact_permutation_maps_visible_globals() {
    // one splat behind the camera, two in front: the permutation holds
    // exactly the visible global ids, front to back
    let cam = camera((0.0, 0.0, -5.0), 16.0, 16.0);
    let mut sp = uniform_splats(3, (0.0, 0.0, 0.0), -1.0, 0.5, 0.6);
    sp.means[0] = V3 { x: 0, y: 0, z: fx(-20.0) };  // behind the camera
    sp.means[1] = V3 { x: 0, y: 0, z: fx(2.0) };    // farther
    sp.means[2] = V3 { x: 0, y: 0, z: 0 };          // nearer
    let (_out, aux) = render_forward(&sp, cam, 32, 32, false).unwrap();
    assert_eq!(aux.num_visible, 2);
    assert_eq!(aux.global_from_compact_gid, vec![2u32, 1u32]);
    assert!(aux.depths[0] <= aux.depths[1]);
}

#[test]
fn zero_opacity_splat_leaves_image_unchanged() {
    // inserting a fully transparent splat between two visible ones
    // changes no pixel of the rendered image
    let cam = camera((0.0, 0.0, -5.0), 16.0, 16.0);
    let mut without = uniform_splats(2, (0.0, 0.0, 0.0), -1.0, 0.8, 0.7);
    without.means[1] = V3 { x: fx(0.3), y: fx(-0.2), z: fx(1.0) };
    let mut with_clear = uniform_splats(3, (0.0, 0.0, 0.0), -1.0, 0.8, 0.7);
    with_clear.means[1] = V3 { x: fx(0.1), y: fx(0.1), z: fx(0.5) };
    with_clear.raw_opacities[1] = fx(-40.0);
    with_clear.means[2] = V3 { x: fx(0.3), y: fx(-0.2), z: fx(1.0) };
    let (out_a, _aux_a) = render_forward(&without, cam, 32, 32, false).unwrap();
    let (out_b, aux_b) = render_forward(&with_clear, cam, 32, 32, false).unwrap();
    // the transparent splat is projected and walked, yet invisible
    assert_eq!(aux_b.num_visible, 3);
    assert_eq!(float_image(out_a), float_image(out_b));
}
