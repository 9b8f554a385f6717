//! Integer base-2 logarithms.
use vstd::prelude::*;
use crate::shifts::{lemma_log2_floor_bounds, lemma_pow2_agree, log2_floor, pow2};

verus! {

/// `floor(log2 n)` of a positive integer, `-1` for zero.
pub open spec fn floor_log2(n: nat) -> int {
    if n == 0 { -1 } else { log2_floor(n) as int }
}

/// `ceil(log2 n)` of a positive integer, `-1` for zero.
pub open spec fn ceil_log2(n: nat) -> int {
    if n == 0 {
        -1
    } else if pow2(log2_floor(n)) == n {
        log2_floor(n) as int
    } else {
        log2_floor(n) as int + 1
    }
}

/// Integer logarithms to base 2.
pub trait HasLog2: Sized {
    /// The value as a natural number.
    spec fn as_nat(self) -> nat;

    /// `floor(log2 self)`, or `-1` for zero.
    fn log2_floor(self) -> (r: i32)
        ensures
            r == floor_log2(self.as_nat()),
    ;

    /// `ceil(log2 self)`, or `-1` for zero.
    fn log2_ceil(self) -> (r: i32)
        ensures
            r == ceil_log2(self.as_nat()),
    ;
}

/// `2^e <= 2^63` for `e < 64`.
proof fn lemma_pow2_small(e: nat)
    requires
        e < 64,
    ensures
        1 <= pow2(e) <= 0x8000_0000_0000_0000,
        e < 63 ==> pow2(e) <= 0x4000_0000_0000_0000,
{
    lemma_pow2_agree(e);
    lemma_pow2_agree(63);
    lemma_pow2_agree(62);
    vstd::arithmetic::power2::lemma2_to64();
    vstd::arithmetic::power2::lemma2_to64_rest();
    if e < 63 {
        lemma_pow2_at_least(62, e);
    }
    lemma_pow2_at_least(63, e);
    lemma_pow2_at_least(e, 0);
}

/// A positive word has a logarithm below 64.
proof fn lemma_log2_floor_u64(n: u64)
    requires
        n >= 1,
    ensures
        log2_floor(n as nat) < 64,
{
    lemma_log2_floor_bounds(n as nat);
    if log2_floor(n as nat) >= 64 {
        lemma_pow2_at_least(log2_floor(n as nat), 64);
        lemma_pow2_agree(64);
        vstd::arithmetic::power2::lemma2_to64();
    }
}

proof fn lemma_pow2_at_least(a: nat, b: nat)
    requires
        a >= b,
    ensures
        pow2(a) >= pow2(b),
    decreases a,
{
    if a > b {
        lemma_pow2_at_least((a - 1) as nat, b);
    }
}

/// `(floor(log2 n), 2^floor(log2 n))` of a positive word.
fn log2_floor_pow(n: u64) -> (r: (u32, u64))
    requires
        n >= 1,
    ensures
        r.0 == log2_floor(n as nat),
        r.1 == pow2(log2_floor(n as nat)),
        r.0 < 64,
{
    proof {
        lemma_log2_floor_u64(n);
    }
    let mut m: u64 = n;
    let mut l: u32 = 0;
    let mut p: u64 = 1;
    while m > 1
        invariant
            m >= 1,
            l + log2_floor(m as nat) == log2_floor(n as nat),
            log2_floor(n as nat) < 64,
            p == pow2(l as nat),
        decreases m,
    {
        proof {
            lemma_pow2_small(l as nat);
            assert(log2_floor(m as nat) >= 1);
        }
        m = m / 2;
        l = l + 1;
        p = p * 2;
    }
    (l, p)
}

impl HasLog2 for u64 {
    open spec fn as_nat(self) -> nat {
        self as nat
    }

    fn log2_floor(self) -> (r: i32) {
        if self == 0 {
            -1
        } else {
            log2_floor_pow(self).0 as i32
        }
    }

    fn log2_ceil(self) -> (r: i32) {
        if self == 0 {
            -1
        } else {
            let (l, p) = log2_floor_pow(self);
            if p == self {
                l as i32
            } else {
                l as i32 + 1
            }
        }
    }
}

impl HasLog2 for u32 {
    open spec fn as_nat(self) -> nat {
        self as nat
    }

    fn log2_floor(self) -> (r: i32) {
        (self as u64).log2_floor()
    }

    fn log2_ceil(self) -> (r: i32) {
        (self as u64).log2_ceil()
    }
}

} // verus!
