//! Bit counting helpers.
use vstd::prelude::*;

verus! {

/// Number of set bits of `x`.
pub open spec fn popcount(x: nat) -> nat
    decreases x,
{
    if x == 0 {
        0
    } else {
        x % 2 + popcount(x / 2)
    }
}

/// Number of set bits of a 64-bit word.
pub fn pop_count64(x: u64) -> (r: u32)
    ensures
        r == popcount(x as nat),
        r <= 64,
{
    let mut y: u64 = x;
    let mut c: u32 = 0;
    let mut i: u32 = 0;
    assert(x >> 0u64 == x) by (bit_vector);
    while i < 64
        invariant
            i <= 64,
            c <= i,
            y == x >> (i as u64),
            c + popcount(y as nat) == popcount(x as nat),
        decreases 64 - i,
    {
        let ghost i0 = i as u64;
        assert(y & 1 == y % 2) by (bit_vector);
        assert(y >> 1 == y / 2) by (bit_vector);
        assert(i0 < 64 ==> (x >> i0) >> 1 == x >> (i0 + 1)) by (bit_vector);
        c = c + (y & 1) as u32;
        y = y >> 1;
        i = i + 1;
    }
    assert(x >> 64u64 == 0) by (bit_vector);
    c
}

/// Number of set bits of a byte.
pub fn pop_count(x: u8) -> (r: u32)
    ensures
        r == popcount(x as nat),
        r <= 8,
{
    let r = pop_count64(x as u64);
    proof {
        reveal_with_fuel(crate::shifts::pow2, 9);
        lemma_popcount_bound(x as nat, 8);
    }
    r
}

/// A number below `2^b` has at most `b` set bits.
pub proof fn lemma_popcount_bound(x: nat, b: nat)
    requires
        x < crate::shifts::pow2(b),
    ensures
        popcount(x) <= b,
    decreases b,
{
    if b > 0 && x > 0 {
        lemma_popcount_bound(x / 2, (b - 1) as nat);
    }
}

/// Expands each bit of `x` into a word: entry `i` is bit `i` of `x`
/// (least significant bit first).
pub fn get_set_bits(x: u8) -> (bits: [u32; 8])
    ensures
        forall|i: int| 0 <= i < 8 ==> #[trigger] bits[i] == ((x >> (i as u8)) & 1u8) as u32,
{
    let mut bits: [u32; 8] = [0u32; 8];
    let mut i: u8 = 0;
    while i < 8
        invariant
            i <= 8,
            forall|j: int| 0 <= j < i ==> #[trigger] bits[j] == ((x >> (j as u8)) & 1u8) as u32,
        decreases 8 - i,
    {
        bits[i as usize] = ((x >> i) & 1u8) as u32;
        i = i + 1;
    }
    bits
}

} // verus!
