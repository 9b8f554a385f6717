//! The clamp table linking the two shift parameters of the variable-shift
//! families, so that the total shift `s1 + (x >> s2)` never exceeds 63.
use vstd::prelude::*;

verus! {

/// Largest shift amount that a scalar 64-bit shift is allowed to use.
pub const MAX_TOTAL_SHIFT: u32 = 63;

/// Largest first shift parameter: the variable part `x >> s2` may add one more.
pub const MAX_S1: u32 = 62;

/// `floor(log2(n))` for `n >= 1` (and 0 for `n == 0`).
pub open spec fn log2_floor(n: nat) -> nat
    decreases n,
{
    if n <= 1 {
        0
    } else {
        1 + log2_floor(n / 2)
    }
}

/// `2^e` as a natural number.
pub open spec fn pow2(e: nat) -> nat
    decreases e,
{
    if e == 0 {
        1
    } else {
        2 * pow2((e - 1) as nat)
    }
}

/// The smallest admissible second shift for a first shift `s1 <= MAX_S1`:
/// `64 - floor(log2(64 - s1))`.
pub open spec fn min_s2_of(s1: int) -> int {
    64 - log2_floor((64 - s1) as nat)
}

/// A pair of shift parameters in the clamped range.
pub open spec fn valid_shifts(s1: u32, s2: u32) -> bool {
    &&& s1 <= MAX_S1
    &&& min_s2_of(s1 as int) <= s2
    &&& s2 <= 63
}

/// `2^floor(log2 n) <= n < 2^(floor(log2 n) + 1)`.
pub proof fn lemma_log2_floor_bounds(n: nat)
    requires
        n >= 1,
    ensures
        pow2(log2_floor(n)) <= n,
        n < 2 * pow2(log2_floor(n)),
    decreases n,
{
    if n > 1 {
        lemma_log2_floor_bounds(n / 2);
    }
}

/// `log2_floor` is monotonic.
pub proof fn lemma_log2_floor_monotonic(a: nat, b: nat)
    requires
        1 <= a <= b,
    ensures
        log2_floor(a) <= log2_floor(b),
    decreases b,
{
    if a > 1 {
        lemma_log2_floor_monotonic(a / 2, b / 2);
    }
}

/// The admissible second shifts for `s1` lie between 58 and 63.
pub proof fn lemma_min_s2_range(s1: int)
    requires
        0 <= s1 <= MAX_S1,
    ensures
        58 <= min_s2_of(s1) <= 63,
{
    lemma_log2_floor_monotonic(2, (64 - s1) as nat);
    lemma_log2_floor_monotonic((64 - s1) as nat, 64);
    assert(log2_floor(2) == 1) by {
        reveal_with_fuel(log2_floor, 3);
    }
    assert(log2_floor(64) == 6) by {
        reveal_with_fuel(log2_floor, 8);
    }
}

/// Bits above position `63 - k` of a word, shifted down by `64 - k`, stay below `2^k`.
proof fn lemma_shr_top_bits(x: u64, s2: u32)
    requires
        58 <= s2 <= 63,
    ensures
        (x >> (s2 as u64)) < pow2((64 - s2) as nat),
{
    reveal_with_fuel(pow2, 7);
    let s = s2 as u64;
    if s == 58 {
        assert(x >> 58u64 < 64) by (bit_vector);
    } else if s == 59 {
        assert(x >> 59u64 < 32) by (bit_vector);
    } else if s == 60 {
        assert(x >> 60u64 < 16) by (bit_vector);
    } else if s == 61 {
        assert(x >> 61u64 < 8) by (bit_vector);
    } else if s == 62 {
        assert(x >> 62u64 < 4) by (bit_vector);
    } else {
        assert(x >> 63u64 < 2) by (bit_vector);
    }
}

/// The two definitions of `2^e` agree.
pub proof fn lemma_pow2_agree(e: nat)
    ensures
        crate::shifts::pow2(e) == vstd::arithmetic::power2::pow2(e),
    decreases e,
{
    if e == 0 {
        vstd::arithmetic::power2::lemma2_to64();
    } else {
        lemma_pow2_agree((e - 1) as nat);
        vstd::arithmetic::power2::lemma_pow2_unfold(e);
    }
}

proof fn lemma_pow2_monotonic(a: nat, b: nat)
    requires
        a <= b,
    ensures
        pow2(a) <= pow2(b),
    decreases b,
{
    if a < b {
        lemma_pow2_monotonic(a, (b - 1) as nat);
    }
}

/// For every valid shift pair and every word `x`, the total shift
/// `s1 + (x >> s2)` is at most 63.
pub proof fn lemma_shift_bound(s1: u32, s2: u32, x: u64)
    requires
        valid_shifts(s1, s2),
    ensures
        s1 + (x >> (s2 as u64)) <= MAX_TOTAL_SHIFT,
{
    lemma_min_s2_range(s1 as int);
    lemma_shr_top_bits(x, s2);
    let l = log2_floor((64 - s1) as nat);
    lemma_log2_floor_bounds((64 - s1) as nat);
    lemma_pow2_monotonic((64 - s2) as nat, l);
}

/// Computes `floor(log2(n))` of a positive integer by repeated halving.
fn log2_floor_u32(n: u32) -> (r: u32)
    requires
        1 <= n <= 64,
    ensures
        r == log2_floor(n as nat),
        r <= 6,
{
    proof {
        lemma_log2_floor_monotonic(n as nat, 64);
        assert(log2_floor(64) == 6) by {
            reveal_with_fuel(log2_floor, 8);
        }
    }
    let mut m: u32 = n;
    let mut l: u32 = 0;
    while m > 1
        invariant
            m >= 1,
            l + log2_floor(m as nat) == log2_floor(n as nat),
            log2_floor(n as nat) <= 6,
        decreases m,
    {
        m = m / 2;
        l = l + 1;
    }
    l
}

/// The smallest admissible second shift for `s1`.
pub fn min_s2(s1: u32) -> (r: u32)
    requires
        s1 <= MAX_S1,
    ensures
        r == min_s2_of(s1 as int),
        58 <= r <= 63,
{
    proof {
        lemma_min_s2_range(s1 as int);
    }
    64 - log2_floor_u32(MAX_TOTAL_SHIFT + 1 - s1)
}

/// The whole clamp table: entry `s1` is the smallest admissible second shift.
pub fn init_min_s2() -> (table: [u32; 63])
    ensures
        forall|s1: int| 0 <= s1 <= MAX_S1 ==> #[trigger] table[s1] == min_s2_of(s1),
{
    let mut table: [u32; 63] = [0u32; 63];
    let mut s1: u32 = 0;
    while s1 <= MAX_S1
        invariant
            s1 <= MAX_S1 + 1,
            forall|i: int| 0 <= i < s1 ==> #[trigger] table[i] == min_s2_of(i),
        decreases MAX_S1 + 1 - s1,
    {
        let v = min_s2(s1);
        table[s1 as usize] = v;
        s1 = s1 + 1;
    }
    table
}

} // verus!
