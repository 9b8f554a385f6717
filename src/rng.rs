//! The random number generator that the genetic operators draw from, and the
//! draws they make.
use vstd::prelude::*;

verus! {

#[verifier::external_type_specification]
#[verifier::external_body]
pub struct ExStdRng(rand::rngs::StdRng);

/// Relies on `rand::Rng::gen::<u64>`: any 64-bit word may come back.
#[verifier::external_body]
pub(crate) fn draw_u64(rng: &mut rand::rngs::StdRng) -> (r: u64) {
    rand::Rng::gen::<u64>(rng)
}

/// Relies on `rand::Rng::gen::<u32>`: any 32-bit word may come back.
#[verifier::external_body]
pub(crate) fn draw_u32(rng: &mut rand::rngs::StdRng) -> (r: u32) {
    rand::Rng::gen::<u32>(rng)
}

/// Relies on `rand::Rng::gen_range` over `lo..=hi`, which returns a value of
/// the range and panics only when the range is empty.
#[verifier::external_body]
pub(crate) fn draw_in(rng: &mut rand::rngs::StdRng, lo: u32, hi: u32) -> (r: u32)
    requires
        lo <= hi,
    ensures
        lo <= r <= hi,
{
    rand::Rng::gen_range(rng, lo..=hi)
}

} // verus!
