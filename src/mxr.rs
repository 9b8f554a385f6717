//! MXR: multiply, then xor with a fixed right rotation.
use vstd::prelude::*;
use crate::diffusion::{crossover_bits, crossover_mask, hi, is_mutation_mask, lo, mask_children, mul64, mutation_mask, rotate_right, rotr, DiffusionFunc, Endo64};
use crate::rng::{draw_in, draw_u32, draw_u64};

verus! {

/// `x * m; x ^= rotr(x, s)`.
#[derive(Clone, Copy, Debug, PartialEq, Eq, Structural)]
pub struct MXR {
    pub m: u64,
    pub s: u32,
}

impl MXR {
    /// Builds the function, forcing the multiplier odd and `s` to at most 63.
    pub fn new(m: u64, s: u32) -> (r: Self)
        ensures
            r.wf(),
            r.m == m | 1,
            r.s == (if s <= 63 { s } else { 63 }),
    {
        assert((m | 1) & 1 == 1) by (bit_vector);
        MXR { m: m | 1, s: if s <= 63 { s } else { 63 } }
    }
}

impl MXR {
    /// The children's fields for the given draws: each multiplier is its side
    /// of the bit-mask crossover under the window rotated by `rot`, xored with
    /// a mutation mask and made odd; each shift is a draw, capped at 63.
    pub open spec fn children_fields(p: Self, q: Self, rot: u32, flips: [u64; 2], s: [u32; 2], c0: Self, c1: Self) -> bool {
        &&& c0.m == (mask_children(p.m, q.m, crossover_mask(rot)).0 ^ flips[0]) | 1
        &&& c0.s == (if s[0] <= 63 { s[0] } else { 63 })
        &&& c1.m == (mask_children(p.m, q.m, crossover_mask(rot)).1 ^ flips[1]) | 1
        &&& c1.s == (if s[1] <= 63 { s[1] } else { 63 })
    }

    /// The draws are admissible for parents `p` and `q`: mutation masks, and
    /// shifts between the parents' shifts.
    pub open spec fn draws_ok(p: Self, q: Self, flips: [u64; 2], s: [u32; 2]) -> bool {
        &&& forall|k: int| 0 <= k < 2 ==> is_mutation_mask(#[trigger] flips[k])
        &&& forall|i: int| 0 <= i < 2 ==> lo(p.s, q.s) <= #[trigger] s[i] <= hi(p.s, q.s)
    }

    /// The two children of `self` and `other` for the given draws.
    pub fn children_of(&self, other: &Self, rot: u32, flips: [u64; 2], s: [u32; 2]) -> (r: [Self; 2])
        ensures
            r[0].wf(),
            r[1].wf(),
            Self::children_fields(*self, *other, rot, flips, s, r[0], r[1]),
    {
        let ms = crossover_bits(self.m, other.m, rot);
        let c0 = Self::new(ms[0] ^ flips[0], s[0]);
        let c1 = Self::new(ms[1] ^ flips[1], s[1]);
        [c0, c1]
    }
}

impl Endo64 for MXR {
    open spec fn wf(&self) -> bool {
        &&& self.m & 1 == 1
        &&& self.s <= 63
    }

    open spec fn spec_diffuse(&self, x: u64) -> u64 {
        mul64(x, self.m) ^ rotr(mul64(x, self.m), self.s)
    }

    fn diffuse(&self, x: u64) -> (r: u64) {
        let y = x.wrapping_mul(self.m);
        y ^ rotate_right(y, self.s)
    }
}

impl DiffusionFunc for MXR {
    open spec fn spec_children(&self, other: &Self, c0: &Self, c1: &Self) -> bool {
        exists|rot: u32, flips: [u64; 2], s: [u32; 2]|
            #[trigger] Self::children_fields(*self, *other, rot, flips, s, *c0, *c1) && Self::draws_ok(
                *self,
                *other,
                flips,
                s,
            )
    }

    fn random(rng: &mut rand::rngs::StdRng) -> (r: Self) {
        let m = draw_u64(rng) | 1;
        let s = draw_in(rng, 0, 63);
        Self::new(m, s)
    }

    fn crossover(&self, other: &Self, rng: &mut rand::rngs::StdRng) -> (r: [Self; 2]) {
        let rot = draw_u32(rng);
        let (l, h) = if self.s <= other.s { (self.s, other.s) } else { (other.s, self.s) };
        let f0 = mutation_mask(rng);
        let s0 = draw_in(rng, l, h);
        let f1 = mutation_mask(rng);
        let s1 = draw_in(rng, l, h);
        let flips = [f0, f1];
        let s = [s0, s1];
        let r = self.children_of(other, rot, flips, s);
        assert(Self::draws_ok(*self, *other, flips, s));
        r
    }
}

} // verus!
