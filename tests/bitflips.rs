use diffusion_search::avalanche::AvalancheDiagram;
use diffusion_search::bitflips::Bitflips;
use diffusion_search::mrxsm::MRXSM;
use diffusion_search::rxsm::RXSM;
use diffusion_search::wasserstein::W1_UNIT;
use rand::{Rng, SeedableRng};

fn samples(seed: u64, n: usize) -> Vec<u64> {
    let mut rng = rand::rngs::StdRng::seed_from_u64(seed);
    (0..n).map(|_| rng.gen()).collect()
}

fn argmax(w1s: &[u128; 64]) -> (u128, usize) {
    let mut max_idx = 0;
    let mut max_w1 = 0;
    for (i, &w1) in w1s.iter().enumerate() {
        if w1 > max_w1 {
            max_w1 = w1;
            max_idx = i;
        }
    }
    (max_w1, max_idx)
}

#[test]
fn test_rxsm_example() {
    let f = RXSM::new(0xa4001226aaaaaab, 21, 59);
    let s = samples(21, 1000);
    let n_flips = Bitflips::of(&f, &s);
    let w1s = n_flips.w1s();
    let (max_w1, max_idx) = argmax(&w1s);
    println!("max w1: {}, max idx: {}", max_w1 as f64 / W1_UNIT as f64 / 1000_f64.sqrt(), max_idx);
    println!("{:?}", n_flips.n_flips[max_idx]);
    let again = Bitflips::of(&f, &samples(21, 1000)).w1s();
    assert_eq!(argmax(&again), (max_w1, max_idx));
}

#[test]
fn histogram_rows_add_up_to_the_samples() {
    let f = MRXSM::new(0x6eed0e9da4d94a4f, 0x6eed0e9da4d94a4f, 32, 60);
    let s = samples(8, 500);
    let t = Bitflips::of(&f, &s);
    for b in 0..64 {
        assert_eq!(t.n_flips[b].iter().sum::<u32>(), 500);
    }
    let part = Bitflips::of_range(&f, &s, 100, 150);
    for b in 0..64 {
        assert_eq!(part.n_flips[b].iter().sum::<u32>(), 50);
    }
    assert_eq!(Bitflips::of(&f, &s[100..150]), part);
}

#[test]
fn identity_like_function_flips_one_bit() {
    // With m = 1 and the largest shifts, flipping a low bit of a small word changes only that bit.
    let f = MRXSM::new(1, 1, 62, 63);
    let s = vec![0_u64, 2, 4];
    let t = Bitflips::of(&f, &s);
    assert_eq!(t.n_flips[0][1], 3);
    assert_eq!(Bitflips::new(t.n_flips).n_flips, t.n_flips);
}

#[test]
fn avalanche_diagram_of_func() {
    let f = MRXSM::new(0x6eed0e9da4d94a4f, 0x6eed0e9da4d94a4f, 32, 60);
    let s = samples(13, 1000);
    let diag = AvalancheDiagram::of(&f, &s);
    assert_eq!(diag.expected, 500);
    let sse = diag.sse_sum() as f64 / diag.expected as f64;
    println!("sse: {}", sse);
    assert!(sse >= 1900.0);
    assert!(sse <= 2200.0);
}

#[test]
fn worst_case_test() {
    for expected in [2_u32, 500, 1023] {
        let diag = AvalancheDiagram::new(expected << 1, [[0_u32; 64]; 64]);
        let err = 4096 * (expected as u128) * (expected as u128);
        assert_eq!(err, diag.sse_sum());
        assert_eq!((4096 * expected) as f64, diag.sse_sum() as f64 / diag.expected as f64);
    }
}

#[test]
fn test_perfect_diagram() {
    for expected in [2_u32, 77, 999] {
        let diag = AvalancheDiagram::new(expected << 1, [[expected; 64]; 64]);
        assert_eq!(0, diag.sse_sum());
    }
}

#[test]
fn compare_small_sse() {
    let mut rng = rand::rngs::StdRng::seed_from_u64(19);
    for _ in 0..10 {
        let expected: u32 = rng.gen_range(2..1_000);
        let n_samples = expected << 1;
        let mut vals = [[0_u32; 64]; 64];
        for i in 0..64 {
            for j in 0..64 {
                vals[i][j] = rng.gen_range(0..=n_samples);
            }
        }
        let diag = AvalancheDiagram::new(n_samples, vals);
        let mut err = 0_f64;
        for row in vals.iter() {
            for &v in row.iter() {
                let e = v as f64 - expected as f64;
                err += e * e / expected as f64;
            }
        }
        let sse = diag.sse_sum() as f64 / diag.expected as f64;
        assert!((err - sse).abs() / err < 0.001);
    }
}
