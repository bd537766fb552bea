//! Gradient tests: finite differences against the analytic backward pass
//! on a small synthetic scene, and the exact-zero guarantees for
//! untouched and zero-opacity primitives.

use splat_render::fixed::ONE;
use splat_render::types::{Camera, ImageBuffer, M3, Q4, Splats, V3};
use splat_render::render::render_forward;
use splat_render::backward::render_backward;

fn fx(v: f64) -> i64 {
    (v * 4294967296.0).round() as i64
}

fn to_f(v: i64) -> f64 {
    v as f64 / 4294967296.0
}

fn identity_rot() -> M3 {
    M3 { m00: ONE, m01: 0, m02: 0, m10: 0, m11: ONE, m12: 0, m20: 0, m21: 0, m22: ONE }
}

fn test_camera() -> Camera {
    Camera {
        rot: identity_rot(),
        pos: V3 { x: 0, y: 0, z: fx(-5.0) },
        fx: fx(12.0),
        fy: fx(12.0),
        cx: fx(8.0),
        cy: fx(8.0),
    }
}

/// Two moderately sized, semi-transparent, overlapping splats with
/// degree-1 color, away from every clamp.
fn test_scene() -> Splats {
    let mut means = Vec::new();
    let mut log_scales = Vec::new();
    let mut quats = Vec::new();
    let mut sh_coeffs = Vec::new();
    let mut raw_opacities = Vec::new();
    let positions = [(0.2, 0.1, 0.0), (-0.3, -0.2, 0.8)];
    let coeffs = [
        [0.9, 0.7, 0.5, 0.1, -0.05, 0.08, 0.02, -0.04, 0.06, 0.03, 0.01, -0.02],
        [0.4, 0.6, 0.8, -0.06, 0.04, 0.02, 0.05, 0.01, -0.03, -0.01, 0.02, 0.04],
    ];
    for (i, p) in positions.iter().enumerate() {
        means.push(V3 { x: fx(p.0), y: fx(p.1), z: fx(p.2) });
        log_scales.push(V3 { x: fx(-1.1), y: fx(-1.3), z: fx(-1.2) });
        quats.push(Q4 { w: fx(0.9), x: fx(0.1), y: fx(-0.2), z: fx(0.15) });
        // coefficient layout: [coefficient][channel]
        for c in 0..4 {
            for ch in 0..3 {
                sh_coeffs.push(fx(coeffs[i][c * 3 + ch]));
            }
        }
        raw_opacities.push(fx(if i == 0 { 0.3 } else { -0.2 }));
    }
    Splats { means, log_scales, quats, sh_coeffs, raw_opacities, coeffs_per_channel: 4 }
}

const W: u32 = 16;
const H: u32 = 16;

/// The test loss: the plain sum of the red, green and blue channels.
fn loss(sp: &Splats) -> f64 {
    let cam = test_camera();
    let (out, _aux) = render_forward(sp, cam, W, H, false).unwrap();
    let img = match out {
        ImageBuffer::Float(i) => i,
        ImageBuffer::Packed(_) => panic!("expected the float image mode"),
    };
    let mut s = 0.0;
    for p in 0..(W as usize * H as usize) {
        s += to_f(img[4 * p]) + to_f(img[4 * p + 1]) + to_f(img[4 * p + 2]);
    }
    s
}

fn analytic_gradients(sp: &Splats) -> splat_render::backward::Gradients {
    let cam = test_camera();
    let (out, aux) = render_forward(sp, cam, W, H, false).unwrap();
    let img = match out {
        ImageBuffer::Float(i) => i,
        ImageBuffer::Packed(_) => panic!("expected the float image mode"),
    };
    let npix = W as usize * H as usize;
    let mut v_output = vec![0i64; 4 * npix];
    for p in 0..npix {
        v_output[4 * p] = ONE;
        v_output[4 * p + 1] = ONE;
        v_output[4 * p + 2] = ONE;
    }
    render_backward(sp, cam, W, H, &aux, &img, &v_output).unwrap()
}

fn check_close(name: &str, fd: f64, an: f64) {
    let scale = fd.abs().max(an.abs()).max(1.0);
    assert!(
        (fd - an).abs() <= 1e-4 * scale,
        "{name}: finite difference {fd} vs analytic {an}",
    );
}

fn fd_of<F: Fn(&mut Splats, i64)>(sp: &Splats, poke: F) -> f64 {
    let h = 1e-3;
    let hf = fx(h);
    let mut plus = sp_clone(sp);
    poke(&mut plus, hf);
    let mut minus = sp_clone(sp);
    poke(&mut minus, -hf);
    (loss(&plus) - loss(&minus)) / (2.0 * h)
}

fn sp_clone(sp: &Splats) -> Splats {
    Splats {
        means: sp.means.clone(),
        log_scales: sp.log_scales.clone(),
        quats: sp.quats.clone(),
        sh_coeffs: sp.sh_coeffs.clone(),
        raw_opacities: sp.raw_opacities.clone(),
        coeffs_per_channel: sp.coeffs_per_channel,
    }
}

#[test]
fn finite_differences_match_opacity_and_coeffs() {
    let sp = test_scene();
    let gr = analytic_gradients(&sp);
    for g in 0..2usize {
        let fd = fd_of(&sp, |s, h| {
            s.raw_opacities[g] += h;
        });
        check_close(&format!("opacity {g}"), fd, to_f(gr.v_opacities[g]));
        for c in 0..12usize {
            let fd = fd_of(&sp, |s, h| {
                s.sh_coeffs[g * 12 + c] += h;
            });
            check_close(&format!("coeff {g}/{c}"), fd, to_f(gr.v_sh_coeffs[g * 12 + c]));
        }
    }
}

#[test]
fn finite_differences_match_positions() {
    let sp = test_scene();
    let gr = analytic_gradients(&sp);
    for g in 0..2usize {
        let fdx = fd_of(&sp, |s, h| {
            s.means[g].x += h;
        });
        check_close(&format!("mean x {g}"), fdx, to_f(gr.v_means[g].x));
        let fdy = fd_of(&sp, |s, h| {
            s.means[g].y += h;
        });
        check_close(&format!("mean y {g}"), fdy, to_f(gr.v_means[g].y));
        let fdz = fd_of(&sp, |s, h| {
            s.means[g].z += h;
        });
        check_close(&format!("mean z {g}"), fdz, to_f(gr.v_means[g].z));
    }
}

#[test]
fn finite_differences_match_scales_and_quats() {
    let sp = test_scene();
    let gr = analytic_gradients(&sp);
    for g in 0..2usize {
        let fdx = fd_of(&sp, |s, h| {
            s.log_scales[g].x += h;
        });
        check_close(&format!("scale x {g}"), fdx, to_f(gr.v_log_scales[g].x));
        let fdy = fd_of(&sp, |s, h| {
            s.log_scales[g].y += h;
        });
        check_close(&format!("scale y {g}"), fdy, to_f(gr.v_log_scales[g].y));
        let fdz = fd_of(&sp, |s, h| {
            s.log_scales[g].z += h;
        });
        check_close(&format!("scale z {g}"), fdz, to_f(gr.v_log_scales[g].z));
        let fdw = fd_of(&sp, |s, h| {
            s.quats[g].w += h;
        });
        check_close(&format!("quat w {g}"), fdw, to_f(gr.v_quats[g].w));
        let fqx = fd_of(&sp, |s, h| {
            s.quats[g].x += h;
        });
        check_close(&format!("quat x {g}"), fqx, to_f(gr.v_quats[g].x));
        let fqy = fd_of(&sp, |s, h| {
            s.quats[g].y += h;
        });
        check_close(&format!("quat y {g}"), fqy, to_f(gr.v_quats[g].y));
        let fqz = fd_of(&sp, |s, h| {
            s.quats[g].z += h;
        });
        check_close(&format!("quat z {g}"), fqz, to_f(gr.v_quats[g].z));
    }
}

#[test]
fn zero_opacity_and_untouched_primitives_get_zero_gradient() {
    let mut sp = test_scene();
    // make the second splat fully transparent, and add a third one
    // behind the camera that the forward pass never touches
    sp.raw_opacities[1] = fx(-40.0);
    sp.means.push(V3 { x: 0, y: 0, z: fx(-20.0) });
    sp.log_scales.push(V3 { x: fx(-1.0), y: fx(-1.0), z: fx(-1.0) });
    sp.quats.push(Q4 { w: ONE, x: 0, y: 0, z: 0 });
    for _ in 0..12 {
        sp.sh_coeffs.push(fx(0.5));
    }
    sp.raw_opacities.push(fx(2.0));
    let gr = analytic_gradients(&sp);
    for g in [1usize, 2usize] {
        assert_eq!(gr.v_means[g], V3 { x: 0, y: 0, z: 0 });
        assert_eq!(gr.v_log_scales[g], V3 { x: 0, y: 0, z: 0 });
        assert_eq!(gr.v_quats[g], Q4 { w: 0, x: 0, y: 0, z: 0 });
        assert_eq!(gr.v_opacities[g], 0);
        assert_eq!(gr.v_xys[g], (0, 0));
        for c in 0..12 {
            assert_eq!(gr.v_sh_coeffs[g * 12 + c], 0);
        }
    }
    // the visible, opaque splat does receive gradient
    assert!(gr.v_opacities[0] != 0 || gr.v_sh_coeffs[0] != 0);
}
