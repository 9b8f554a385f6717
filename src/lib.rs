//! Genetic search for 64-bit integer diffusion functions, scored by how closely
//! their avalanche behaviour matches the binomial distribution of an ideal
//! random permutation.
pub mod avalanche;
pub mod bitflips;
pub mod bitset;
pub mod config;
pub mod diffusion;
pub mod evaluator;
pub mod evolution;
pub mod generation;
pub mod log2;
pub mod mrxr;
pub mod mrxs;
pub mod mrxsm;
pub mod mxr;
pub mod rng;
pub mod rxsm;
pub mod shifts;
pub mod wasserstein;
