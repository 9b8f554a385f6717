//! The parameters of an evolution and their admissible ranges.
use vstd::prelude::*;

verus! {

/// Sizes and cadences of an evolution.
#[derive(Clone, Copy, Debug, PartialEq, Eq, Structural)]
pub struct Config {
    /// Number of evaluators in a generation (G).
    pub generation_size: usize,
    /// Number of best evaluators carried over unchanged (E).
    pub elitism: usize,
    /// Number of candidates drawn per tournament (T).
    pub tournament_size: usize,
    /// Number of samples per evaluation (N).
    pub n_samples: usize,
    /// Number of equal rounds the samples are split into (R).
    pub n_rounds: usize,
    /// Generations between sample refreshes (L), a power of two.
    pub sample_lifetime: u32,
}

/// Why a configuration is refused.
#[derive(Clone, Copy, Debug, PartialEq, Eq, Structural)]
pub enum ConfigError {
    /// The elite count is zero, odd, or not below the generation size.
    Elitism,
    /// The number of children per generation, `G - E`, is odd or below 2.
    Children,
    /// A tournament needs at least one candidate.
    Tournament,
    /// There must be at least one round, at most `2^32 - 1` samples, and the
    /// rounds must divide the samples.
    Rounds,
    /// The sample lifetime is not a power of two.
    Lifetime,
}

impl Config {
    pub open spec fn elitism_ok(&self) -> bool {
        0 < self.elitism < self.generation_size && self.elitism % 2 == 0
    }

    pub open spec fn children_ok(&self) -> bool {
        self.generation_size - self.elitism >= 2 && (self.generation_size - self.elitism) % 2 == 0
    }

    pub open spec fn tournament_ok(&self) -> bool {
        self.tournament_size >= 1
    }

    pub open spec fn rounds_ok(&self) -> bool {
        &&& 0 < self.n_rounds <= u32::MAX
        &&& self.n_samples <= u32::MAX
        &&& self.n_samples % self.n_rounds == 0
    }

    pub open spec fn lifetime_ok(&self) -> bool {
        self.sample_lifetime > 0 && self.sample_lifetime & ((self.sample_lifetime - 1) as u32) == 0
    }

    /// Every constraint holds.
    pub open spec fn valid(&self) -> bool {
        &&& self.elitism_ok()
        &&& self.children_ok()
        &&& self.tournament_ok()
        &&& self.rounds_ok()
        &&& self.lifetime_ok()
    }

    /// The standard configuration: 512 evaluators, 50 elites, tournaments of
    /// 4, 100000 samples in 100 rounds, fresh samples every 8 generations.
    pub fn standard() -> (c: Self)
        ensures
            c.valid(),
            c.generation_size == 512,
            c.elitism == 50,
    {
        assert(8u32 & 7u32 == 0) by (bit_vector);
        Config {
            generation_size: 512,
            elitism: 50,
            tournament_size: 4,
            n_samples: 100000,
            n_rounds: 100,
            sample_lifetime: 8,
        }
    }

    /// A small configuration for quick runs: 32 evaluators, 4 elites,
    /// 100 samples in one round.
    pub fn small() -> (c: Self)
        ensures
            c.valid(),
            c.generation_size == 32,
            c.elitism == 4,
    {
        assert(8u32 & 7u32 == 0) by (bit_vector);
        Config {
            generation_size: 32,
            elitism: 4,
            tournament_size: 4,
            n_samples: 100,
            n_rounds: 1,
            sample_lifetime: 8,
        }
    }

    /// Checks the constraints in order and reports the first that fails.
    pub fn validate(&self) -> (r: Result<(), ConfigError>)
        ensures
            r is Ok <==> self.valid(),
            r == Err::<(), ConfigError>(ConfigError::Elitism) <==> !self.elitism_ok(),
            r == Err::<(), ConfigError>(ConfigError::Children) <==> self.elitism_ok() && !self.children_ok(),
            r == Err::<(), ConfigError>(ConfigError::Tournament) <==> self.elitism_ok() && self.children_ok()
                && !self.tournament_ok(),
            r == Err::<(), ConfigError>(ConfigError::Rounds) <==> self.elitism_ok() && self.children_ok()
                && self.tournament_ok() && !self.rounds_ok(),
            r == Err::<(), ConfigError>(ConfigError::Lifetime) <==> self.elitism_ok() && self.children_ok()
                && self.tournament_ok() && self.rounds_ok() && !self.lifetime_ok(),
    {
        if !(0 < self.elitism && self.elitism < self.generation_size && self.elitism % 2 == 0) {
            return Err(ConfigError::Elitism);
        }
        let children = self.generation_size - self.elitism;
        if !(children >= 2 && children % 2 == 0) {
            return Err(ConfigError::Children);
        }
        if self.tournament_size < 1 {
            return Err(ConfigError::Tournament);
        }
        if !(0 < self.n_rounds && self.n_rounds <= 0xffff_ffff && self.n_samples <= 0xffff_ffff
            && self.n_samples % self.n_rounds == 0) {
            return Err(ConfigError::Rounds);
        }
        if !(self.sample_lifetime > 0 && self.sample_lifetime & (self.sample_lifetime - 1) == 0) {
            return Err(ConfigError::Lifetime);
        }
        Ok(())
    }
}

} // verus!
