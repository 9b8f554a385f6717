//! What the diffusion families share: the word-level operations they are built
//! from, the two traits they implement, and the genetic operators on
//! multipliers.
use vstd::prelude::*;
use crate::bitset::popcount;
use crate::rng::{draw_in, draw_u32};
use crate::shifts::{lemma_shift_bound, valid_shifts, min_s2_of, MAX_S1};
use vstd::arithmetic::div_mod::{lemma_fundamental_div_mod, lemma_mod_multiples_basic, lemma_mul_mod_noop};
use vstd::arithmetic::power2::{lemma2_to64, lemma_pow2_pos, lemma_pow2_unfold, pow2};

verus! {

/// Width of the window of bits that a crossover takes from one parent.
pub const CROSSOVER_BITS: u32 = 32;

/// A mutation flips each bit with probability `1 / MUTATION_ODDS`.
pub const MUTATION_ODDS: u32 = 8;

/// Wrapping 64-bit multiplication.
pub open spec fn mul64(x: u64, m: u64) -> u64 {
    ((x as nat * m as nat) % 0x1_0000_0000_0000_0000nat) as u64
}

/// Rotation to the right by `s mod 64` bits.
pub open spec fn rotr(x: u64, s: u32) -> u64 {
    let r = (s % 64) as u64;
    if r == 0 {
        x
    } else {
        (x >> r) | (x << ((64 - r) as u64))
    }
}

/// The data-dependent shift amount `s1 + (x >> s2)`.
pub open spec fn var_shift(x: u64, s1: u32, s2: u32) -> u64 {
    (s1 as u64 + (x >> (s2 as u64))) as u64
}

/// `x ^ (x >> (s1 + (x >> s2)))`.
pub open spec fn xorshift_var(x: u64, s1: u32, s2: u32) -> u64 {
    x ^ (x >> var_shift(x, s1, s2))
}

/// `x ^ rotr(x, s1 + (x >> s2))`.
pub open spec fn xorrot_var(x: u64, s1: u32, s2: u32) -> u64 {
    x ^ rotr(x, var_shift(x, s1, s2) as u32)
}

/// A function from words to words.
pub trait Endo64 {
    /// The parameters are in their admissible ranges.
    spec fn wf(&self) -> bool;

    /// The value of the function at `x`.
    spec fn spec_diffuse(&self, x: u64) -> u64;

    fn diffuse(&self, x: u64) -> (r: u64)
        requires
            self.wf(),
        ensures
            r == self.spec_diffuse(x),
    ;
}

/// A parameterised family of diffusion functions with its genetic operators.
pub trait DiffusionFunc: Endo64 + Sized + Copy {
    /// `(c0, c1)` is the pair of children that crossing `self` with `other`
    /// gives for some admissible draws.
    spec fn spec_children(&self, other: &Self, c0: &Self, c1: &Self) -> bool;

    /// A member of the family with random parameters.
    fn random(rng: &mut rand::rngs::StdRng) -> (r: Self)
        ensures
            r.wf(),
    ;

    /// Two children of `self` and `other`.
    fn crossover(&self, other: &Self, rng: &mut rand::rngs::StdRng) -> (r: [Self; 2])
        requires
            self.wf(),
            other.wf(),
        ensures
            r[0].wf(),
            r[1].wf(),
            self.spec_children(other, &r[0], &r[1]),
    ;
}

/// Rotates `x` right by `s mod 64` bits.
pub fn rotate_right(x: u64, s: u32) -> (r: u64)
    ensures
        r == rotr(x, s),
{
    let k: u64 = (s % 64) as u64;
    if k == 0 {
        x
    } else {
        (x >> k) | (x << (64 - k))
    }
}

/// `x ^ (x >> (s1 + (x >> s2)))` for a valid shift pair.
pub fn xorshift(x: u64, s1: u32, s2: u32) -> (r: u64)
    requires
        valid_shifts(s1, s2),
    ensures
        r == xorshift_var(x, s1, s2),
{
    proof {
        lemma_shift_bound(s1, s2, x);
    }
    let s: u64 = s1 as u64 + (x >> (s2 as u64));
    x ^ (x >> s)
}

/// `x ^ rotr(x, s1 + (x >> s2))` for a valid shift pair.
pub fn xorrot(x: u64, s1: u32, s2: u32) -> (r: u64)
    requires
        valid_shifts(s1, s2),
    ensures
        r == xorrot_var(x, s1, s2),
{
    proof {
        lemma_shift_bound(s1, s2, x);
    }
    let s: u64 = s1 as u64 + (x >> (s2 as u64));
    x ^ rotate_right(x, s as u32)
}

/// The crossover window before rotation: the low `CROSSOVER_BITS` bits set.
pub open spec fn base_mask() -> u64 {
    0xffff_ffffu64
}

/// The crossover window rotated right by `rot`.
pub open spec fn crossover_mask(rot: u32) -> u64 {
    rotr(base_mask(), rot)
}

/// The two children of a bit-mask crossover of `p1` and `p2` under `mask`.
pub open spec fn mask_children(p1: u64, p2: u64, mask: u64) -> (u64, u64) {
    ((p1 & mask) | (p2 & !mask), (p1 & !mask) | (p2 & mask))
}

/// Bit-mask crossover of two words with the window rotated right by `rot`:
/// the first child takes the window's bits from `p1` and the others from
/// `p2`, the second child the reverse.
pub fn crossover_bits(p1: u64, p2: u64, rot: u32) -> (r: [u64; 2])
    ensures
        (r[0], r[1]) == mask_children(p1, p2, crossover_mask(rot)),
{
    assert(1u64 << 32u64 == 0x1_0000_0000u64) by (bit_vector);
    let mask = rotate_right((1u64 << (CROSSOVER_BITS as u64)) - 1, rot);
    let inv_mask = !mask;
    [(p1 & mask) | (p2 & inv_mask), (p1 & inv_mask) | (p2 & mask)]
}

/// Bit-mask crossover with a random rotation of the window.
pub fn crossover(p1: u64, p2: u64, rng: &mut rand::rngs::StdRng) -> (r: [u64; 2])
    ensures
        exists|rot: u32| (r[0], r[1]) == mask_children(p1, p2, #[trigger] crossover_mask(rot)),
{
    let rot = draw_u32(rng);
    let r = crossover_bits(p1, p2, rot);
    assert((r[0], r[1]) == mask_children(p1, p2, crossover_mask(rot)));
    r
}

/// Swapping the parents of a bit-mask crossover swaps the children, so the
/// pair of children as a multiset does not depend on the parents' order.
pub proof fn lemma_crossover_symmetric(p1: u64, p2: u64, mask: u64)
    ensures
        mask_children(p2, p1, mask).0 == mask_children(p1, p2, mask).1,
        mask_children(p2, p1, mask).1 == mask_children(p1, p2, mask).0,
{
    assert(((p2 & mask) | (p1 & !mask)) == ((p1 & !mask) | (p2 & mask))) by (bit_vector);
    assert(((p2 & !mask) | (p1 & mask)) == ((p1 & mask) | (p2 & !mask))) by (bit_vector);
}

/// A bit-mask crossover loses and invents no bit: the children's union is
/// the parents' union and their intersection the parents' intersection.
pub proof fn lemma_crossover_conserves_bits(p1: u64, p2: u64, mask: u64)
    ensures
        mask_children(p1, p2, mask).0 | mask_children(p1, p2, mask).1 == p1 | p2,
        mask_children(p1, p2, mask).0 & mask_children(p1, p2, mask).1 == p1 & p2,
{
    assert((((p1 & mask) | (p2 & !mask)) | ((p1 & !mask) | (p2 & mask))) == p1 | p2) by (bit_vector);
    assert((((p1 & mask) | (p2 & !mask)) & ((p1 & !mask) | (p2 & mask))) == p1 & p2) by (bit_vector);
}

/// The mask built from the first `i` of 64 draws: draw `j` sets bit `63 - j`
/// when it is zero.
pub open spec fn mutation_prefix(draws: [u32; 64], i: int) -> u64
    decreases i,
{
    if i <= 0 {
        0
    } else {
        mutation_prefix(draws, i - 1) | (if draws[i - 1] == 0 {
            1u64 << ((64 - i) as u64)
        } else {
            0u64
        })
    }
}

/// The mutation mask chosen by 64 draws from `[0, MUTATION_ODDS)`.
pub open spec fn mutation_of(draws: [u32; 64]) -> u64 {
    mutation_prefix(draws, 64)
}

/// Every draw lies in `[0, MUTATION_ODDS)`.
pub open spec fn draws_in_range(draws: [u32; 64]) -> bool {
    forall|i: int| 0 <= i < 64 ==> #[trigger] draws[i] < MUTATION_ODDS
}

/// `m` is a mask that some admissible sequence of draws chooses.
pub open spec fn is_mutation_mask(m: u64) -> bool {
    exists|d: [u32; 64]| draws_in_range(d) && m == #[trigger] mutation_of(d)
}

/// The mutation mask chosen by 64 draws from `[0, MUTATION_ODDS)`: draw `i`
/// sets bit `63 - i` when it is zero.
pub fn mask_of_draws(draws: &[u32; 64]) -> (mask: u64)
    ensures
        mask == mutation_of(*draws),
        forall|b: u64| b < 64 ==> (#[trigger] ((mask >> b) & 1) == 1 <==> draws[63 - b] == 0),
{
    let mut mask: u64 = 0;
    let mut i: usize = 0;
    assert forall|b: u64| b < 64 implies #[trigger] ((mask >> b) & 1) == 0 by {
        assert((0u64 >> b) & 1 == 0) by (bit_vector);
    }
    while i < 64
        invariant
            i <= 64,
            mask == mutation_prefix(*draws, i as int),
            forall|b: u64| b < 64 ==> (#[trigger] ((mask >> b) & 1) == 1 <==> (63 - b < i && draws[63 - b] == 0)),
        decreases 64 - i,
    {
        let k: u64 = (63 - i) as u64;
        let old_mask = mask;
        if draws[i] == 0 {
            mask = mask | (1u64 << k);
        } else {
            assert(old_mask | 0u64 == old_mask) by (bit_vector);
        }
        assert forall|b: u64| b < 64 implies (#[trigger] ((mask >> b) & 1) == 1 <==> (63 - b < i + 1 && draws[63
            - b] == 0)) by {
            assert(k < 64 && b < 64 ==> (((old_mask | (1u64 << k)) >> b) & 1 == 1 <==> ((old_mask >> b) & 1 == 1
                || b == k))) by (bit_vector);
        }
        i = i + 1;
    }
    mask
}

/// A random mask in which each bit is set with probability `1 / MUTATION_ODDS`.
pub fn mutation_mask(rng: &mut rand::rngs::StdRng) -> (mask: u64)
    ensures
        is_mutation_mask(mask),
{
    let mut draws: [u32; 64] = [0u32; 64];
    let mut i: usize = 0;
    while i < 64
        invariant
            i <= 64,
            forall|j: int| 0 <= j < 64 ==> #[trigger] draws[j] < MUTATION_ODDS,
        decreases 64 - i,
    {
        draws[i] = draw_in(rng, 0, MUTATION_ODDS - 1);
        i = i + 1;
    }
    let mask = mask_of_draws(&draws);
    assert(draws_in_range(draws) && mask == mutation_of(draws));
    mask
}

/// Flips each bit of `x` independently with probability `1 / MUTATION_ODDS`.
pub fn mutate(x: u64, rng: &mut rand::rngs::StdRng) -> (r: u64)
    ensures
        exists|d: [u32; 64]| draws_in_range(d) && r == x ^ #[trigger] mutation_of(d),
{
    x ^ mutation_mask(rng)
}

/// The smaller of two shift parameters.
pub open spec fn lo(a: u32, b: u32) -> u32 {
    if a <= b { a } else { b }
}

/// The larger of two shift parameters.
pub open spec fn hi(a: u32, b: u32) -> u32 {
    if a <= b { b } else { a }
}

/// The range that a child's second shift is drawn from: the parents' range
/// widened by one on each side, within `[0, 63]`.
pub open spec fn s2_draw_range(a: u32, b: u32) -> (int, int) {
    (if lo(a, b) == 0 { 0 } else { lo(a, b) - 1 }, if hi(a, b) >= 63 { 63 } else { hi(a, b) + 1 })
}

/// `t` is an admissible draw of a child's shift pair for parents with shift
/// pairs `(a1, a2)` and `(b1, b2)`: the first shift between the parents'
/// first shifts, the second in the widened range of their second shifts.
pub open spec fn shift_draw_ok(a1: u32, a2: u32, b1: u32, b2: u32, t: (u32, u32)) -> bool {
    &&& lo(a1, b1) <= t.0 <= hi(a1, b1)
    &&& s2_draw_range(a2, b2).0 <= t.1 <= s2_draw_range(a2, b2).1
}

/// The shift pair that `clamp_shifts` makes of `(s1, s2)`.
pub open spec fn clamp_spec(s1: u32, s2: u32) -> (u32, u32) {
    let c1 = if s1 <= MAX_S1 { s1 } else { MAX_S1 };
    let c2 = if s2 < min_s2_of(c1 as int) {
        min_s2_of(c1 as int) as u32
    } else if s2 > 63 {
        63u32
    } else {
        s2
    };
    (c1, c2)
}

/// The admissible shift draws do not depend on the order of the parents.
pub proof fn lemma_shift_draw_symmetric(a1: u32, a2: u32, b1: u32, b2: u32, t: (u32, u32))
    ensures
        shift_draw_ok(a1, a2, b1, b2, t) == shift_draw_ok(b1, b2, a1, a2, t),
{
}

/// Draws a child's shift pair from its parents' shift pairs.
pub fn draw_child_shifts(a1: u32, a2: u32, b1: u32, b2: u32, rng: &mut rand::rngs::StdRng) -> (r: (u32, u32))
    requires
        valid_shifts(a1, a2),
        valid_shifts(b1, b2),
    ensures
        shift_draw_ok(a1, a2, b1, b2, r),
{
    let (l1, h1) = if a1 <= b1 { (a1, b1) } else { (b1, a1) };
    let s1 = draw_in(rng, l1, h1);
    let (l2, h2) = if a2 <= b2 { (a2, b2) } else { (b2, a2) };
    let lo2: u32 = if l2 == 0 { 0 } else { l2 - 1 };
    let hi2: u32 = if h2 >= 63 { 63 } else { h2 + 1 };
    let s2 = draw_in(rng, lo2, hi2);
    (s1, s2)
}

/// Clamps a shift pair into the admissible range: `s1` to at most `MAX_S1`,
/// then `s2` into `[MIN_S2[s1], 63]`.
pub fn clamp_shifts(s1: u32, s2: u32) -> (r: (u32, u32))
    ensures
        r == clamp_spec(s1, s2),
        valid_shifts(r.0, r.1),
{
    proof {
        crate::shifts::lemma_min_s2_range(if s1 <= MAX_S1 { s1 as int } else { MAX_S1 as int });
    }
    let c1 = if s1 <= MAX_S1 { s1 } else { MAX_S1 };
    let m = crate::shifts::min_s2(c1);
    let c2 = if s2 < m { m } else if s2 > 63 { 63 } else { s2 };
    (c1, c2)
}

/// `2^k` divides `d * m` with `m` odd only when `2^k` divides `d`.
proof fn lemma_pow2_divides_odd_product(d: int, m: int, k: nat)
    requires
        m % 2 == 1,
        (d * m) % (pow2(k) as int) == 0,
    ensures
        d % (pow2(k) as int) == 0,
    decreases k,
{
    if k > 0 {
        let p = pow2((k - 1) as nat) as int;
        lemma_pow2_unfold(k);
        lemma_pow2_pos((k - 1) as nat);
        let q = (d * m) / (2 * p);
        lemma_fundamental_div_mod(d * m, 2 * p);
        assert(d * m == 2 * (q * p)) by (nonlinear_arith)
            requires d * m == (2 * p) * q + (d * m) % (2 * p), (d * m) % (2 * p) == 0;
        lemma_mul_mod_noop(d, m, 2);
        lemma_mod_multiples_basic(q * p, 2);
        assert((q * p) * 2 == d * m);
        assert(d % 2 == 0);
        let e = d / 2;
        assert(e * m == q * p) by (nonlinear_arith)
            requires d * m == 2 * (q * p), d == 2 * e;
        lemma_mod_multiples_basic(q, p);
        lemma_pow2_divides_odd_product(e, m, (k - 1) as nat);
        let r = e / p;
        lemma_fundamental_div_mod(e, p);
        assert(d == r * (2 * p)) by (nonlinear_arith)
            requires d == 2 * e, e == p * r + e % p, e % p == 0;
        lemma_mod_multiples_basic(r, 2 * p);
    } else {
        lemma2_to64();
    }
}

/// Multiplication by an odd word is injective modulo `2^64`.
pub proof fn lemma_odd_mul_injective(x: u64, y: u64, m: u64)
    requires
        m & 1 == 1,
        mul64(x, m) == mul64(y, m),
    ensures
        x == y,
{
    let n = 0x1_0000_0000_0000_0000int;
    assert(m & 1 == 1 ==> m % 2 == 1) by (bit_vector);
    let a = x as int * m as int;
    let b = y as int * m as int;
    assert(a % n == b % n);
    lemma_fundamental_div_mod(a, n);
    lemma_fundamental_div_mod(b, n);
    let d = x as int - y as int;
    assert(d * m == n * (a / n - b / n)) by (nonlinear_arith)
        requires a == n * (a / n) + a % n, b == n * (b / n) + b % n, a % n == b % n,
            a == x * m, b == y * m, d == x - y;
    lemma2_to64();
    lemma_mod_multiples_basic(a / n - b / n, n);
    lemma_pow2_divides_odd_product(d, m as int, 64);
    lemma_fundamental_div_mod(d, n);
    assert(d == 0) by (nonlinear_arith)
        requires d == n * (d / n), -n < d < n, n > 0;
}

/// For a valid shift pair with `s1 >= 1`, the variable xorshift is
/// injective. The top `64 - s2` bits, which select the shift, pass through
/// unchanged: their value `t` is below `2^(s1 + t)`, so shifting it by
/// `s1 + t` clears it. With the shift known, a xorshift by a fixed nonzero
/// amount is injective.
pub proof fn lemma_xorshift_injective(x: u64, y: u64, s1: u32, s2: u32)
    requires
        valid_shifts(s1, s2),
        s1 >= 1,
        xorshift_var(x, s1, s2) == xorshift_var(y, s1, s2),
    ensures
        x == y,
{
    lemma_shift_bound(s1, s2, x);
    lemma_shift_bound(s1, s2, y);
    crate::shifts::lemma_min_s2_range(s1 as int);
    let a = var_shift(x, s1, s2);
    let b = var_shift(y, s1, s2);
    let t = s2 as u64;
    let c = s1 as u64;
    assert(1 <= c && a == c + (x >> t) && a < 64 && 58 <= t < 64 ==> (x ^ (x >> a)) >> t == x >> t)
        by (bit_vector);
    assert(1 <= c && b == c + (y >> t) && b < 64 && 58 <= t < 64 ==> (y ^ (y >> b)) >> t == y >> t)
        by (bit_vector);
    assert(a == b);
    assert(1 <= a < 64 && (x ^ (x >> a)) == (y ^ (y >> a)) ==> x == y) by (bit_vector);
}

/// Adding a bit above all the set bits adds one to the count.
proof fn lemma_popcount_add_top(y: nat, k: nat)
    requires
        y < crate::shifts::pow2(k),
    ensures
        popcount(y + crate::shifts::pow2(k)) == popcount(y) + 1,
    decreases k,
{
    if k == 0 {
        assert(popcount(1) == 1 + popcount(0));
    } else {
        let p = crate::shifts::pow2((k - 1) as nat);
        assert((y + 2 * p) / 2 == y / 2 + p);
        assert((y + 2 * p) % 2 == y % 2);
        lemma_popcount_add_top(y / 2, (k - 1) as nat);
    }
}

/// Rotating by one bit keeps the number of set bits.
proof fn lemma_popcount_rotr1(x: u64)
    ensures
        popcount(((x >> 1u64) | (x << 63u64)) as nat) == popcount(x as nat),
{
    crate::shifts::lemma_pow2_agree(63);
    vstd::arithmetic::power2::lemma2_to64_rest();
    assert(x >> 1u64 == x / 2) by (bit_vector);
    assert(x & 1 == x % 2) by (bit_vector);
    assert((x >> 1u64) | (x << 63u64) == (x >> 1u64) + ((x & 1) << 63u64)) by (bit_vector);
    assert((x & 1) == 1 ==> (x & 1) << 63u64 == 0x8000_0000_0000_0000u64) by (bit_vector);
    assert((x & 1) == 0 ==> (x & 1) << 63u64 == 0u64) by (bit_vector);
    if x % 2 == 1 {
        lemma_popcount_add_top((x / 2) as nat, 63);
    }
}

/// Rotating keeps the number of set bits.
proof fn lemma_popcount_rotr(x: u64, r: u32)
    ensures
        popcount(rotr(x, r) as nat) == popcount(x as nat),
    decreases r % 64,
{
    let k = (r % 64) as u64;
    if k > 0 {
        lemma_popcount_rotr(x, (k - 1) as u32);
        let y = rotr(x, (k - 1) as u32);
        lemma_popcount_rotr1(y);
        if k == 1 {
            assert(y == x);
        } else {
            let a = (k - 1) as u64;
            let b = (65 - k) as u64;
            let c = (64 - k) as u64;
            assert(1 <= a < 63 && k == a + 1 && b == 64 - a && c == 64 - k ==> ((((x >> a) | (x << b)) >> 1u64) | (((
                x >> a) | (x << b)) << 63u64)) == (x >> k) | (x << c)) by (bit_vector);
        }
    }
}

/// The crossover window always holds `CROSSOVER_BITS` bits.
pub proof fn lemma_crossover_window_width(rot: u32)
    ensures
        popcount(crossover_mask(rot) as nat) == CROSSOVER_BITS,
{
    lemma_popcount_rotr(base_mask(), rot);
    assert(popcount(0xffff_ffffnat) == 32) by {
        reveal_with_fuel(popcount, 34);
    }
}

} // verus!
