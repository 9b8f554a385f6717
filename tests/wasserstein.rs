use diffusion_search::wasserstein::{binom64_cdf, binom_row, of_counts, W1_UNIT};
use rand::{Rng, SeedableRng};

const TWO_POW_64: f64 = 18446744073709551616.0;

fn pmf() -> [f64; 65] {
    let row = binom_row(64);
    let mut p = [0_f64; 65];
    for k in 0..65 {
        p[k] = row[k] as f64 / TWO_POW_64;
    }
    p
}

/// The distance of a distribution on 0..=64 from Binom(64, 1/2), in probability units.
fn of_distr(p: &[f64; 65]) -> f64 {
    let reference = pmf();
    let mut d = 0_f64;
    let mut t = 0_f64;
    for i in 0..65 {
        t = p[i] + t - reference[i];
        d += t.abs();
    }
    d
}

fn normalised(d: u128, n: u32) -> f64 {
    d as f64 / W1_UNIT as f64 / (n as f64).sqrt()
}

#[test]
fn print_binom64_pmf() {
    let p = pmf();
    println!("{:?}", p);
    let total: f64 = p.iter().sum();
    assert!((total - 1.0).abs() < 1e-12);
}

#[test]
fn test_binom_coeffs() {
    let row2 = binom_row(2);
    assert_eq!(1, row2[0]);
    assert_eq!(2, row2[1]);
    assert_eq!(1, row2[2]);
    assert_eq!(0, row2[3]);
    assert_eq!(1832624140942590534, binom_row(64)[32]);
}

#[test]
fn cdf_ends_at_two_pow_64() {
    let cdf = binom64_cdf();
    assert_eq!(cdf[0], 1);
    assert_eq!(cdf[1], 65);
    assert_eq!(cdf[64], 1_u128 << 64);
}

#[test]
fn all_mass_at_one_end() {
    let mut low = [0_u32; 65];
    low[0] = 1;
    assert_eq!(of_counts(&low), 1_u128 << 37);
    let mut high = [0_u32; 65];
    high[64] = 1;
    assert_eq!(of_counts(&high), 1_u128 << 37);
    assert_eq!(of_counts(&[0_u32; 65]), 0);
}

#[test]
fn perfect_histogram_is_near_zero() {
    let p = pmf();
    let n = 100_000_u32;
    let mut counts = [0_u32; 65];
    for k in 0..65 {
        counts[k] = (p[k] * n as f64).round() as u32;
    }
    let total: u32 = counts.iter().sum();
    let w = normalised(of_counts(&counts), total);
    assert!(w < 0.05, "{}", w);
}

#[test]
fn test_wasserstein() {
    let mut rng = rand::rngs::StdRng::seed_from_u64(3);
    let mut counts = [0_u32; 65];
    for _ in 0..10_000 {
        let c = rng.gen::<u64>().count_ones();
        counts[c as usize] += 1;
    }
    let sum: u32 = counts.iter().sum();
    let p = counts.map(|c| c as f64 / sum as f64);
    let w = of_distr(&p);
    println!("{}", w);
    assert!(w < 0.2);
    assert!((of_counts(&counts) as f64 / W1_UNIT as f64 / sum as f64 - w).abs() < 1e-6);
}

#[test]
fn test_wasserstein_of_counts() {
    let n_samples = 1000_u32;
    let mut rng = rand::rngs::StdRng::seed_from_u64(5);
    for _ in 0..100 {
        let mut counts = [0_u32; 65];
        for _ in 0..n_samples {
            let i = rng.gen_range(0..65);
            counts[i] += 1;
        }
        let p = counts.map(|c| c as f64 / n_samples as f64);
        let w1 = of_distr(&p) * (n_samples as f64).sqrt();
        let w2 = normalised(of_counts(&counts), n_samples);
        assert!((w1 - w2).abs() <= 10e-5 * w1.max(1.0));
    }
}

#[test]
fn test_convergence() {
    let mut rng = rand::rngs::StdRng::seed_from_u64(29);
    let n_samples = 1000_u32;
    let n_rounds = 100_u32;
    let mut avg = 0_f64;
    for _ in 0..n_rounds {
        let mut counts = [0_u32; 65];
        for _ in 0..n_samples {
            let c = rng.gen::<u64>().count_ones();
            counts[c as usize] += 1;
        }
        avg += normalised(of_counts(&counts), n_samples);
    }
    let mean = avg / n_rounds as f64;
    println!("{}", mean);
    assert!(mean > 0.0 && mean < 5.0);
}
