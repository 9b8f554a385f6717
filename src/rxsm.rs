//! RXSM: xor with a data-dependent right shift, then multiply.
use vstd::prelude::*;
use crate::diffusion::{lemma_odd_mul_injective, lemma_xorshift_injective, clamp_shifts, clamp_spec, crossover_bits, crossover_mask, draw_child_shifts, is_mutation_mask, mask_children, mutation_mask, shift_draw_ok, mul64, xorshift, xorshift_var, DiffusionFunc, Endo64};
use crate::rng::{draw_in, draw_u32, draw_u64};
use crate::shifts::{min_s2, valid_shifts, MAX_S1};

verus! {

/// `x ^= x >> (s1 + (x >> s2)); x * m`.
#[derive(Clone, Copy, Debug, PartialEq, Eq, Structural)]
pub struct RXSM {
    pub m: u64,
    pub s1: u32,
    pub s2: u32,
}

impl RXSM {
    /// Builds the function, forcing the multiplier odd, `s1` to at most
    /// `MAX_S1` and `s2` into `[MIN_S2[s1], 63]`.
    pub fn new(m: u64, s1: u32, s2: u32) -> (r: Self)
        ensures
            r.wf(),
            r.m == m | 1,
            (r.s1, r.s2) == clamp_spec(s1, s2),
    {
        let (c1, c2) = clamp_shifts(s1, s2);
        assert((m | 1) & 1 == 1) by (bit_vector);
        RXSM { m: m | 1, s1: c1, s2: c2 }
    }
}

impl RXSM {
    /// The children's fields for the given draws: each multiplier is its side
    /// of the bit-mask crossover under the window rotated by `rot`, xored with
    /// a mutation mask and made odd; each shift pair is a clamped draw.
    pub open spec fn children_fields(
        p: Self,
        q: Self,
        rot: u32,
        flips: [u64; 2],
        t: [(u32, u32); 2],
        c0: Self,
        c1: Self,
    ) -> bool {
        &&& c0.m == (mask_children(p.m, q.m, crossover_mask(rot)).0 ^ flips[0]) | 1
        &&& (c0.s1, c0.s2) == clamp_spec(t[0].0, t[0].1)
        &&& c1.m == (mask_children(p.m, q.m, crossover_mask(rot)).1 ^ flips[1]) | 1
        &&& (c1.s1, c1.s2) == clamp_spec(t[1].0, t[1].1)
    }

    /// The draws are admissible for parents `p` and `q`.
    pub open spec fn draws_ok(p: Self, q: Self, flips: [u64; 2], t: [(u32, u32); 2]) -> bool {
        &&& forall|k: int| 0 <= k < 2 ==> is_mutation_mask(#[trigger] flips[k])
        &&& forall|i: int| 0 <= i < 2 ==> shift_draw_ok(p.s1, p.s2, q.s1, q.s2, #[trigger] t[i])
    }

    /// The two children of `self` and `other` for the given draws.
    pub fn children_of(&self, other: &Self, rot: u32, flips: [u64; 2], t: [(u32, u32); 2]) -> (r: [Self; 2])
        ensures
            r[0].wf(),
            r[1].wf(),
            Self::children_fields(*self, *other, rot, flips, t, r[0], r[1]),
    {
        let ms = crossover_bits(self.m, other.m, rot);
        let c0 = Self::new(ms[0] ^ flips[0], t[0].0, t[0].1);
        let c1 = Self::new(ms[1] ^ flips[1], t[1].0, t[1].1);
        [c0, c1]
    }
}

impl Endo64 for RXSM {
    open spec fn wf(&self) -> bool {
        &&& self.m & 1 == 1
        &&& valid_shifts(self.s1, self.s2)
    }

    open spec fn spec_diffuse(&self, x: u64) -> u64 {
        mul64(xorshift_var(x, self.s1, self.s2), self.m)
    }

    fn diffuse(&self, x: u64) -> (r: u64) {
        let y = xorshift(x, self.s1, self.s2);
        y.wrapping_mul(self.m)
    }
}

impl DiffusionFunc for RXSM {
    open spec fn spec_children(&self, other: &Self, c0: &Self, c1: &Self) -> bool {
        exists|rot: u32, flips: [u64; 2], t: [(u32, u32); 2]|
            #[trigger] Self::children_fields(*self, *other, rot, flips, t, *c0, *c1) && Self::draws_ok(
                *self,
                *other,
                flips,
                t,
            )
    }

    fn random(rng: &mut rand::rngs::StdRng) -> (r: Self) {
        let m = draw_u64(rng) | 1;
        let s1 = draw_in(rng, 0, MAX_S1);
        let s2 = draw_in(rng, min_s2(s1), 63);
        Self::new(m, s1, s2)
    }

    fn crossover(&self, other: &Self, rng: &mut rand::rngs::StdRng) -> (r: [Self; 2]) {
        let rot = draw_u32(rng);
        let t0 = draw_child_shifts(self.s1, self.s2, other.s1, other.s2, rng);
        let f0 = mutation_mask(rng);
        let t1 = draw_child_shifts(self.s1, self.s2, other.s1, other.s2, rng);
        let f1 = mutation_mask(rng);
        let flips = [f0, f1];
        let t = [t0, t1];
        let r = self.children_of(other, rot, flips, t);
        assert(Self::draws_ok(*self, *other, flips, t));
        r
    }
}

/// With a nonzero first shift the function is injective, hence a
/// bijection of the 64-bit words. With `s1 == 0` it is not: every word
/// below `2^s2` meets a zero shift and xors itself to zero.
pub proof fn lemma_injective(f: RXSM, x: u64, y: u64)
    requires
        f.wf(),
        f.s1 >= 1,
        f.spec_diffuse(x) == f.spec_diffuse(y),
    ensures
        x == y,
{
    lemma_odd_mul_injective(xorshift_var(x, f.s1, f.s2), xorshift_var(y, f.s1, f.s2), f.m);
    lemma_xorshift_injective(x, y, f.s1, f.s2);
}

} // verus!
