use diffusion_search::config::{Config, ConfigError};
use diffusion_search::evaluator::WassersteinArith;
use diffusion_search::evolution::Evolution;
use diffusion_search::generation::Generation;
use diffusion_search::mrxsm::MRXSM;
use rand::{Rng, SeedableRng};

fn tiny() -> Config {
    Config { generation_size: 8, elitism: 2, tournament_size: 2, n_samples: 32, n_rounds: 1, sample_lifetime: 4 }
}

fn random_samples(rng: &mut rand::rngs::StdRng, n: usize) -> Vec<u64> {
    (0..n).map(|_| rng.gen()).collect()
}

#[test]
fn config_checks() {
    assert_eq!(Config::standard().validate(), Ok(()));
    assert_eq!(Config::small().validate(), Ok(()));
    assert_eq!(tiny().validate(), Ok(()));
    assert_eq!(Config { elitism: 3, ..tiny() }.validate(), Err(ConfigError::Elitism));
    assert_eq!(Config { elitism: 8, ..tiny() }.validate(), Err(ConfigError::Elitism));
    assert_eq!(Config { generation_size: 9, ..tiny() }.validate(), Err(ConfigError::Children));
    assert_eq!(Config { tournament_size: 0, ..tiny() }.validate(), Err(ConfigError::Tournament));
    assert_eq!(Config { n_rounds: 5, ..tiny() }.validate(), Err(ConfigError::Rounds));
    assert_eq!(Config { n_rounds: 0, ..tiny() }.validate(), Err(ConfigError::Rounds));
    assert_eq!(Config { sample_lifetime: 6, ..tiny() }.validate(), Err(ConfigError::Lifetime));
}

#[test]
fn mod_test_eval() {
    let config = Config::small();
    let f = MRXSM::new(0xb520c891288cb35, 0xb018200835e0008d, 21, 59);
    let mut rng = rand::rngs::StdRng::seed_from_u64(31);
    let current_gen: Generation<MRXSM> = Generation::random(config.generation_size, &mut rng);
    let mut members = current_gen.members;
    members[0] = WassersteinArith::new(f);
    let current_gen = Generation::new(members);
    let mut ev = Evolution::new(random_samples(&mut rng, config.n_samples), current_gen, config);
    ev.eval_current_gen();
    let members = &ev.current_gen.members;
    for w in members.windows(2) {
        assert!(w[0].get_loss() >= w[1].get_loss());
    }
    assert!(members.iter().all(|e| e.get_age() == 1));
    assert!(members.iter().any(|e| e.func == f));
}

#[test]
fn evolution_test_eval() {
    let mut rng = rand::rngs::StdRng::seed_from_u64(37);
    let mut ev: Evolution<MRXSM> = Evolution::random(tiny(), &mut rng);
    ev.eval_current_gen();
    let best = ev.get_best();
    println!("min_error: {}", best.get_loss());
    assert!(ev.current_gen.members.iter().all(|e| e.get_loss() >= best.get_loss()));
}

#[test]
fn next_gen_keeps_elites_and_refreshes_samples() {
    let config = tiny();
    let mut rng = rand::rngs::StdRng::seed_from_u64(41);
    let mut ev: Evolution<MRXSM> = Evolution::random(config, &mut rng);
    for round in 1..=9_u32 {
        let before_samples = ev.samples.clone();
        let mut probe = Evolution::new(ev.samples.clone(), Generation::new(ev.current_gen.members.clone()), config);
        probe.generation_counter = ev.generation_counter;
        probe.eval_current_gen();
        let elites: Vec<_> = probe.current_gen.members[6..].iter().map(|e| (e.func, e.age, e.max_w1)).collect();
        ev.next_gen(&mut rng);
        assert_eq!(ev.generation_counter, round);
        let kept: Vec<_> = ev.current_gen.members[6..].iter().map(|e| (e.func, e.age, e.max_w1)).collect();
        assert_eq!(kept, elites);
        assert!(ev.current_gen.members[..6].iter().all(|e| e.get_age() == 0));
        if round % config.sample_lifetime == 0 {
            assert_ne!(ev.samples, before_samples);
        } else {
            assert_eq!(ev.samples, before_samples);
        }
    }
    let oldest = ev.get_longest_lived();
    assert!(ev.current_gen.members.iter().all(|e| e.get_age() <= oldest.get_age()));
}

#[test]
fn identical_seeds_give_identical_runs() {
    let config = tiny();
    let mut r1 = rand::rngs::StdRng::seed_from_u64(99);
    let mut r2 = rand::rngs::StdRng::seed_from_u64(99);
    let mut e1: Evolution<MRXSM> = Evolution::random(config, &mut r1);
    let mut e2: Evolution<MRXSM> = Evolution::random(config, &mut r2);
    for _ in 0..100 {
        e1.next_gen(&mut r1);
        e2.next_gen(&mut r2);
    }
    assert_eq!(e1.get_best().func, e2.get_best().func);
    assert_eq!(e1.get_best_func(), &e1.get_best().func);
    let a: Vec<_> = e1.current_gen.members.iter().map(|e| (e.func, e.age, e.max_w1, e.w1s)).collect();
    let b: Vec<_> = e2.current_gen.members.iter().map(|e| (e.func, e.age, e.max_w1, e.w1s)).collect();
    assert_eq!(a, b);
}

#[test]
fn tournament_picks_first_lowest_loss() {
    let config = tiny();
    let mut rng = rand::rngs::StdRng::seed_from_u64(43);
    let mut ev: Evolution<MRXSM> = Evolution::random(config, &mut rng);
    for (i, m) in ev.current_gen.members.iter_mut().enumerate() {
        m.max_w1 = [5, 3, 9, 3, 7, 1, 1, 8][i];
    }
    assert_eq!(ev.tournament_among(&vec![0, 1, 3]), 1);
    assert_eq!(ev.tournament_among(&vec![3, 1]), 3);
    assert_eq!(ev.tournament_among(&vec![2, 6, 5]), 6);
    assert_eq!(ev.tournament_among(&vec![4]), 4);
}

#[test]
fn restore_checks_size_and_ages() {
    let config = tiny();
    let mut rng = rand::rngs::StdRng::seed_from_u64(47);
    let mut ev: Evolution<MRXSM> = Evolution::random(config, &mut rng);
    ev.next_gen(&mut rng);
    ev.next_gen(&mut rng);
    let members = ev.current_gen.members.clone();
    let samples = ev.samples.clone();
    let back = Evolution::restore(samples.clone(), Generation::new(members.clone()), 2, config).unwrap();
    assert_eq!(back.generation_counter, 2);
    assert!(Evolution::restore(samples.clone(), Generation::new(members[1..].to_vec()), 2, config).is_none());
    let mut old = members.clone();
    old[0].age = 3;
    assert!(Evolution::restore(samples, Generation::new(old), 2, config).is_none());
}
