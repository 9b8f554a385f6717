use diffusion_search::evaluator::{WassersteinArith, UNSCORED};
use diffusion_search::mrxsm::MRXSM;
use diffusion_search::wasserstein::W1_UNIT;
use rand::{Rng, SeedableRng};

fn fresh() -> WassersteinArith<MRXSM> {
    WassersteinArith::new(MRXSM::new(0xb520c891288cb35, 0xb018200835e0008d, 21, 59))
}

#[test]
fn wasserstein_arith_test_update_w1s() {
    let mut e = fresh();
    assert_eq!(e.get_age(), 0);
    assert_eq!(e.get_loss(), UNSCORED);
    e.update_w1s([1; 64]);
    for _ in 0..100 {
        e.update_w1s([1; 64]);
    }
    assert_eq!(1, e.get_loss());
    assert_eq!(101, e.get_age());

    let mut rng = rand::rngs::StdRng::seed_from_u64(17);
    for _ in 0..100 {
        let mut e = fresh();
        let mut sum = 0.0_f64;
        for _ in 0..10 {
            let w: f64 = rng.gen_range(1.0..2.0);
            e.update_w1s([(w * W1_UNIT as f64) as u128; 64]);
            sum += w;
        }
        let loss = e.get_loss() as f64 / W1_UNIT as f64;
        assert!((loss - sum / 10.0).abs() <= 1e-6);
        assert!((loss.round() as i64 - (sum / 10.0).round() as i64).abs() <= 1);
    }
}

#[test]
fn loss_is_the_largest_running_mean() {
    let mut e = fresh();
    let mut first = [0_u128; 64];
    first[3] = 10;
    first[7] = 4;
    assert_eq!(e.update_w1s(first), 10);
    let mut second = [0_u128; 64];
    second[7] = 20;
    assert_eq!(e.update_w1s(second), 12);
    assert_eq!(e.w1s[3], 10);
    assert_eq!(e.w1s[7], 24);
    assert_eq!(e.get_age(), 2);
}

#[test]
fn update_scores_in_rounds() {
    let mut rng = rand::rngs::StdRng::seed_from_u64(23);
    let samples: Vec<u64> = (0..400).map(|_| rng.gen()).collect();
    let mut one = fresh();
    let mut four = fresh();
    let l1 = one.update(&samples, 1);
    let l4 = four.update(&samples, 4);
    assert_eq!(one.get_age(), 1);
    assert_eq!(four.get_age(), 1);
    assert!(l1 < UNSCORED && l4 < UNSCORED);
    assert_eq!(one.get_func(), four.get_func());
    let l1b = one.update(&samples, 1);
    assert_eq!(l1b, l1);
}

#[test]
fn restore_checks_consistency() {
    let mut e = fresh();
    let mut avg = [0_u128; 64];
    avg[5] = 42;
    e.update_w1s(avg);
    e.update_w1s(avg);
    let back = WassersteinArith::restore(e.func, e.w1s, e.age).unwrap();
    assert_eq!(back.max_w1, e.max_w1);
    assert_eq!(back.w1s, e.w1s);
    assert!(WassersteinArith::restore(e.func, e.w1s, 0).is_none());
    assert!(WassersteinArith::restore(e.func, [UNSCORED; 64], 1).is_none());
    let unscored = WassersteinArith::restore(e.func, [UNSCORED; 64], 0).unwrap();
    assert_eq!(unscored.get_loss(), UNSCORED);
}

#[test]
fn mrxsm_test_update_w1s() {
    let mut f = fresh();
    f.update_w1s([1; 64]);
    for _ in 0..100 {
        f.update_w1s([1; 64]);
    }
    assert_eq!(1, f.get_loss());

    let mut rng = rand::rngs::StdRng::seed_from_u64(53);
    for _ in 0..100 {
        let mut f = fresh();
        let mut sum = 0.0_f64;
        for _ in 0..10 {
            let w: f64 = rng.gen_range(1.0..2.0);
            f.update_w1s([(w * W1_UNIT as f64) as u128; 64]);
            sum += w;
        }
        let loss = f.get_loss() as f64 / W1_UNIT as f64;
        assert!((loss.round() as i64 - (sum / 10.0).round() as i64).abs() <= 1);
    }
}
