use diffusion_search::diffusion::{crossover, crossover_bits, mask_of_draws, mutate, rotate_right, DiffusionFunc, Endo64};
use diffusion_search::mrxr::MRXR;
use diffusion_search::mrxs::MRXS;
use diffusion_search::mrxsm::MRXSM;
use diffusion_search::mxr::MXR;
use diffusion_search::rxsm::RXSM;
use diffusion_search::shifts::{min_s2, MAX_S1};
use rand::SeedableRng;
use std::collections::HashSet;

const X: u64 = 0x0123_4567_89ab_cdef;

#[test]
fn diffuse_values() {
    let m = 0x6eed0e9da4d94a4f_u64;
    assert_eq!(MRXSM::new(m, m, 32, 60).diffuse(X), 0x8cee7e610e13afd4);
    let m = 0x0a4001226aaaaaab_u64;
    assert_eq!(MRXS::new(m, 21, 59).diffuse(X), 0xeac7f5aec3397e14);
    assert_eq!(RXSM::new(m, 21, 59).diffuse(X), 0xe7bde001b12afb36);
    assert_eq!(MRXR::new(m, 21, 59).diffuse(X), 0x17ac456092103e14);
    assert_eq!(MXR::new(m, 17).diffuse(X), 0x489500cd39ee2539);
}

#[test]
fn rotation() {
    assert_eq!(rotate_right(1, 1), 0x8000_0000_0000_0000);
    assert_eq!(rotate_right(X, 64), X);
    assert_eq!(rotate_right(X, 68), X.rotate_right(4));
}

#[test]
fn new_clamps_parameters() {
    let f = MRXSM::new(2, 4, 100, 0);
    assert_eq!((f.m1, f.m2, f.s1, f.s2), (3, 5, MAX_S1, 63));
    let f = MRXS::new(6, 0, 100);
    assert_eq!((f.m, f.s1, f.s2), (7, 0, 63));
    let f = RXSM::new(1, 10, 0);
    assert_eq!((f.m, f.s1, f.s2), (1, 10, min_s2(10)));
    let f = MRXR::new(0, 62, 59);
    assert_eq!((f.m, f.s1, f.s2), (1, 62, 63));
    let f = MXR::new(8, 200);
    assert_eq!((f.m, f.s), (9, 63));
}

fn valid(m_odd: bool, s1: u32, s2: u32) -> bool {
    m_odd && s1 <= MAX_S1 && s2 >= min_s2(s1) && s2 <= 63
}

#[test]
fn random_and_children_are_valid() {
    let mut rng = rand::rngs::StdRng::seed_from_u64(1);
    for _ in 0..200 {
        let a = MRXSM::random(&mut rng);
        let b = MRXSM::random(&mut rng);
        assert!(valid(a.m1 & a.m2 & 1 == 1, a.s1, a.s2));
        for c in a.crossover(&b, &mut rng) {
            assert!(valid(c.m1 & c.m2 & 1 == 1, c.s1, c.s2));
            assert!(c.s1 >= a.s1.min(b.s1) && c.s1 <= a.s1.max(b.s1));
        }
        let a = MRXS::random(&mut rng);
        let b = MRXS::random(&mut rng);
        for c in a.crossover(&b, &mut rng) {
            assert!(valid(c.m & 1 == 1, c.s1, c.s2));
        }
        let a = RXSM::random(&mut rng);
        let b = RXSM::random(&mut rng);
        for c in a.crossover(&b, &mut rng) {
            assert!(valid(c.m & 1 == 1, c.s1, c.s2));
        }
        let a = MRXR::random(&mut rng);
        let b = MRXR::random(&mut rng);
        for c in a.crossover(&b, &mut rng) {
            assert!(valid(c.m & 1 == 1, c.s1, c.s2));
        }
        let a = MXR::random(&mut rng);
        let b = MXR::random(&mut rng);
        for c in a.crossover(&b, &mut rng) {
            assert!(c.m & 1 == 1 && c.s <= 63);
            assert!(c.s >= a.s.min(b.s) && c.s <= a.s.max(b.s));
        }
    }
}

#[test]
fn crossover_with_fixed_rotation_keeps_bits() {
    let p1 = 0x0123_4567_89ab_cdef_u64;
    let p2 = 0xfedc_ba98_7654_3210_u64;
    let [c1, c2] = crossover_bits(p1, p2, 0);
    assert_eq!(c1, 0xfedc_ba98_89ab_cdef);
    assert_eq!(c2, 0x0123_4567_7654_3210);
    assert_eq!(c1 | c2, p1 | p2);
    assert_eq!(c1 & c2, p1 & p2);
    let [d1, d2] = crossover_bits(p1, p2, 16);
    assert_eq!(d1, 0x0123_ba98_7654_cdef);
    assert_eq!(d1 | d2, p1 | p2);
    assert_eq!(d1 & d2, p1 & p2);
}

#[test]
fn crossover_is_symmetric_in_the_parents() {
    let p1 = 0x0123_4567_89ab_cdef_u64;
    let p2 = 0xfedc_ba98_7654_3210_u64;
    for rot in [0_u32, 5, 31, 32, 63, 1000] {
        let [a, b] = crossover_bits(p1, p2, rot);
        let [c, d] = crossover_bits(p2, p1, rot);
        assert_eq!((a, b), (d, c));
    }
    let mut r1 = rand::rngs::StdRng::seed_from_u64(9);
    let mut r2 = rand::rngs::StdRng::seed_from_u64(9);
    let [a, b] = crossover(p1, p2, &mut r1);
    let [c, d] = crossover(p2, p1, &mut r2);
    assert_eq!((a, b), (d, c));
}

#[test]
fn mutation_flips_one_bit_in_eight() {
    let mut rng = rand::rngs::StdRng::seed_from_u64(2);
    let calls = 20_000_u32;
    let mut flipped = 0_u64;
    for _ in 0..calls {
        flipped += (mutate(X, &mut rng) ^ X).count_ones() as u64;
    }
    let avg = flipped as f64 / calls as f64;
    assert!((avg - 8.0).abs() < 0.2, "{}", avg);
}

#[test]
fn shift_families_are_injective_on_samples() {
    let fs = [MRXSM::new(0x6eed0e9da4d94a4f, 0x6eed0e9da4d94a4f, 32, 60)];
    let mut x = 0x9e37_79b9_7f4a_7c15_u64;
    for f in fs.iter() {
        let mut seen = HashSet::new();
        for _ in 0..1_000_000 {
            x = x.wrapping_mul(6364136223846793005).wrapping_add(1442695040888963407);
            seen.insert((x, f.diffuse(x)));
        }
        let inputs: HashSet<u64> = seen.iter().map(|p| p.0).collect();
        let outputs: HashSet<u64> = seen.iter().map(|p| p.1).collect();
        assert_eq!(inputs.len(), outputs.len());
    }
}

#[test]
fn degenerate_parameters_collide() {
    let f = RXSM::new(1, 0, 58);
    assert_eq!(f.diffuse(1), 0);
    assert_eq!(f.diffuse(2), 0);
    let g = MXR::new(1, 5);
    assert_eq!(g.diffuse(0), g.diffuse(u64::MAX));
}

#[test]
fn mutation_mask_from_draws() {
    assert_eq!(mask_of_draws(&[1; 64]), 0);
    assert_eq!(mask_of_draws(&[0; 64]), u64::MAX);
    let mut draws = [3_u32; 64];
    draws[0] = 0;
    draws[63] = 0;
    assert_eq!(mask_of_draws(&draws), 0x8000_0000_0000_0001);
}

#[test]
fn children_for_given_draws() {
    let p = MRXSM::new(0x0123_4567_89ab_cdef, 0xffff_0000_ffff_0001, 10, 60);
    let q = MRXSM::new(0xfedc_ba98_7654_3211, 0x0000_ffff_0000_ffff, 20, 62);
    let [c0, c1] = p.children_of(&q, 0, 32, [0, 2, 0x10, 0], [(12, 59), (70, 0)]);
    assert_eq!(c0.m1, 0xfedc_ba98_89ab_cdef);
    assert_eq!(c0.m2, (0xffff_0000_0000_ffff_u64 ^ 2) | 1);
    assert_eq!((c0.s1, c0.s2), (12, 59));
    assert_eq!(c1.m1, (0x0123_4567_7654_3211_u64 ^ 0x10) | 1);
    assert_eq!(c1.m2, 0x0000_ffff_ffff_0001);
    assert_eq!((c1.s1, c1.s2), (MAX_S1, 63));

    let a = MXR::new(0x0123_4567_89ab_cdef, 3);
    let b = MXR::new(0xfedc_ba98_7654_3211, 9);
    let [d0, d1] = a.children_of(&b, 0, [0, 1], [5, 99]);
    assert_eq!((d0.m, d0.s), (0xfedc_ba98_89ab_cdef, 5));
    assert_eq!((d1.m, d1.s), (0x0123_4567_7654_3211, 63));

    let r = RXSM::new(0xaaaa_aaaa_aaaa_aaab, 7, 60);
    let t = RXSM::new(0x5555_5555_5555_5555, 9, 61);
    let [e0, _] = r.children_of(&t, 0, [0, 0], [(8, 59), (8, 60)]);
    assert_eq!((e0.m, e0.s1, e0.s2), (0x5555_5555_aaaa_aaab, 8, 59));
    let [g0, _] = MRXS::new(1, 5, 60).children_of(&MRXS::new(3, 5, 60), 0, [4, 0], [(5, 61), (5, 61)]);
    assert_eq!(g0.m, 5);
    let [h0, _] = MRXR::new(1, 5, 60).children_of(&MRXR::new(3, 5, 60), 0, [0, 0], [(5, 61), (5, 61)]);
    assert_eq!((h0.m, h0.s2), (1, 61));
}
