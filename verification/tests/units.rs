//! Unit tests of the pipeline stages: fixed-point operations, the radix
//! sort, the exclusive scan, spherical-harmonic counts and the tile
//! binner.

use splat_render::fixed::{fmul, fdiv, sat_add, sat_sub, exp_neg, exp_pos, sigmoid, fsqrt, ONE};
use splat_render::sort::{radix_sort, pack, unpack_key, unpack_payload};
use splat_render::scan::exclusive_scan;
use splat_render::sh::{sh_coeffs_for_degree, sh_degree_from_coeffs, sh_degree_checked};
use splat_render::tiles::{tile_bins_from_sorted, depth_key};

#[test]
fn fixed_point_ops() {
    assert_eq!(fmul(ONE, ONE), ONE);
    assert_eq!(fmul(2 * ONE, 3 * ONE), 6 * ONE);
    assert_eq!(fmul(-2 * ONE, 3 * ONE), -6 * ONE);
    assert_eq!(fdiv(ONE, 2 * ONE), ONE / 2);
    assert_eq!(fdiv(-3 * ONE, 2 * ONE), -(3 * ONE) / 2);
    assert_eq!(sat_add(i64::MAX, 1), i64::MAX);
    assert_eq!(sat_sub(i64::MIN, 1), i64::MIN);
    assert_eq!(exp_neg(0), ONE);
    // exp(-1) in fixed point, against the closed form
    let e1 = exp_neg(ONE) as f64 / ONE as f64;
    assert!((e1 - (-1.0f64).exp()).abs() < 1e-6);
    let e2 = exp_pos(ONE) as f64 / ONE as f64;
    assert!((e2 - 1.0f64.exp()).abs() < 1e-5);
    assert_eq!(sigmoid(0), ONE / 2);
    assert_eq!(sigmoid(-200 * ONE), 0);
    assert_eq!(sigmoid(200 * ONE), ONE);
    let s = fsqrt(4 * ONE);
    assert_eq!(s, 2 * ONE);
}

#[test]
fn radix_sort_sorts_and_permutes() {
    let keys: Vec<u32> = vec![9, 3, 3, 7, 0, 1000000, 3, 9];
    let mut packed: Vec<u64> = Vec::new();
    for (i, k) in keys.iter().enumerate() {
        packed.push(pack(*k, i as u32));
    }
    let sorted = radix_sort(packed.clone());
    assert_eq!(sorted.len(), packed.len());
    // ascending keys, ties by payload (the stable order)
    for w in sorted.windows(2) {
        assert!(w[0] <= w[1]);
    }
    let expected_keys = vec![0u32, 3, 3, 3, 7, 9, 9, 1000000];
    let expected_payloads = vec![4u32, 1, 2, 6, 3, 0, 7, 5];
    for (i, e) in sorted.iter().enumerate() {
        assert_eq!(unpack_key(*e), expected_keys[i]);
        assert_eq!(unpack_payload(*e), expected_payloads[i]);
    }
}

#[test]
fn exclusive_scan_offsets() {
    let counts: Vec<u32> = vec![3, 0, 5, 1, 0, 2];
    let (offsets, total) = exclusive_scan(&counts);
    assert_eq!(offsets, vec![0u64, 3, 3, 8, 9, 9]);
    assert_eq!(total, 11);
    let (empty, t0) = exclusive_scan(&Vec::new());
    assert!(empty.is_empty());
    assert_eq!(t0, 0);
}

#[test]
fn sh_degree_round_trip() {
    for d in 0..=4u32 {
        let c = sh_coeffs_for_degree(d);
        assert_eq!(c, (d + 1) * (d + 1));
        assert_eq!(sh_degree_from_coeffs(c), d);
        assert_eq!(sh_degree_checked(c), Some(d));
    }
    assert_eq!(sh_degree_checked(2), None);
    assert_eq!(sh_degree_checked(0), None);
    assert_eq!(sh_degree_checked(24), None);
}

#[test]
fn depth_key_quantizes() {
    assert_eq!(depth_key(0), 0);
    assert_eq!(depth_key(65536), 1);
    assert_eq!(depth_key(ONE), 65536);
    assert_eq!(depth_key(i64::MAX), u32::MAX);
}

#[test]
fn tile_bins_partition() {
    // entries over 4 tiles: tile ids 0,0,2,2,2,3
    let tiles = vec![0u32, 0, 2, 2, 2, 3];
    let mut packed: Vec<u64> = Vec::new();
    for (i, t) in tiles.iter().enumerate() {
        packed.push(pack(*t, i as u32));
    }
    let sorted = radix_sort(packed);
    let bins = tile_bins_from_sorted(&sorted, 4);
    assert_eq!(bins, vec![(0u32, 2u32), (2, 2), (2, 5), (5, 6)]);
    // the ranges are contiguous and cover the whole list
    assert_eq!(bins[0].0, 0);
    for w in bins.windows(2) {
        assert_eq!(w[0].1, w[1].0);
    }
    assert_eq!(bins[bins.len() - 1].1 as usize, sorted.len());
    // and each range holds exactly its tile
    for (t, b) in bins.iter().enumerate() {
        for k in b.0..b.1 {
            assert_eq!(unpack_key(sorted[k as usize]), t as u32);
        }
    }
}
