//! The binomial reference distribution `Binom(64, 1/2)` and the
//! 1-Wasserstein distance of an observed histogram from it, in exact integer
//! arithmetic.
//!
//! Probabilities are kept as counts out of `2^64`: `P(k) = C(64, k) / 2^64`.
//! The distance of a histogram with `N` samples is reported in units of
//! `2^-32` samples; dividing by `2^32 * sqrt(N)` gives the normalised distance.
use vstd::prelude::*;
use vstd::arithmetic::power2::{lemma2_to64, lemma_pow2_strictly_increases, lemma_pow2_unfold, pow2};

verus! {

/// `2^64`, the denominator of the reference probabilities.
pub const TWO_POW_64: u128 = 0x1_0000_0000_0000_0000;

/// A bound on every distance that `of_counts` reports.
pub const W1_BOUND: u128 = 0x200_0000_0000_0000_0000_0000;

/// `2^32`, the resolution of a reported distance.
pub const W1_UNIT: u128 = 0x1_0000_0000;

/// The binomial coefficient `C(n, k)` by Pascal's rule.
pub open spec fn binom(n: nat, k: nat) -> nat
    decreases n,
{
    if k == 0 {
        1
    } else if n == 0 {
        0
    } else {
        binom((n - 1) as nat, (k - 1) as nat) + binom((n - 1) as nat, k)
    }
}

/// `sum_{j <= k} C(64, j)`: the reference CDF at `k`, scaled by `2^64`.
pub open spec fn cdf64(k: int) -> nat
    decreases k + 1,
{
    if k < 0 {
        0
    } else {
        cdf64(k - 1) + binom(64, k as nat)
    }
}

/// `sum_{j <= k} counts[j]`: the observed CDF at `k`, in samples.
pub open spec fn prefix(counts: Seq<u32>, k: int) -> int
    decreases k + 1,
{
    if k < 0 {
        0
    } else {
        prefix(counts, k - 1) + counts[k]
    }
}

/// `|a - b|`.
pub open spec fn abs_diff(a: int, b: int) -> int {
    if a >= b { a - b } else { b - a }
}

/// `sum_{j <= k} |P_j * 2^64 - N * cdf64(j)|` where `P_j` is the observed CDF
/// and `N` the total number of samples of the histogram.
pub open spec fn w1_sum(counts: Seq<u32>, k: int) -> int
    decreases k + 1,
{
    if k < 0 {
        0
    } else {
        w1_sum(counts, k - 1) + abs_diff(
            prefix(counts, k) * TWO_POW_64,
            prefix(counts, 64) * cdf64(k),
        )
    }
}

/// The 1-Wasserstein distance of a 65-bucket histogram from the reference
/// distribution scaled to the histogram's total, in units of `2^-32` samples
/// (rounded down).
pub open spec fn w1_of_counts(counts: Seq<u32>) -> int {
    w1_sum(counts, 64) / (W1_UNIT as int)
}

/// `C(n, k) = 0` for `k > n`.
pub proof fn lemma_binom_zero(n: nat, k: nat)
    requires
        k > n,
    ensures
        binom(n, k) == 0,
    decreases n,
{
    if n > 0 {
        lemma_binom_zero((n - 1) as nat, (k - 1) as nat);
        lemma_binom_zero((n - 1) as nat, k);
    }
}

/// `C(n, k) < 2^n` for `n >= 1`.
pub proof fn lemma_binom_bound(n: nat, k: nat)
    requires
        n >= 1,
    ensures
        binom(n, k) < pow2(n),
    decreases n,
{
    lemma_pow2_unfold(n);
    lemma2_to64();
    if k == 0 {
        lemma_pow2_strictly_increases(0, n);
    } else if n == 1 {
        lemma_binom_zero(0, k);
        if k >= 2 {
            lemma_binom_zero(0, (k - 1) as nat);
        }
        assert(binom(1, k) == binom(0, (k - 1) as nat) + binom(0, k));
    } else {
        lemma_binom_bound((n - 1) as nat, (k - 1) as nat);
        lemma_binom_bound((n - 1) as nat, k);
    }
}

/// Every coefficient of row `n <= 64` fits in 64 bits.
pub proof fn lemma_binom_fits(n: nat, k: nat)
    requires
        n <= 64,
    ensures
        binom(n, k) <= u64::MAX,
{
    lemma2_to64();
    if n == 0 {
        if k > 0 {
            lemma_binom_zero(0, k);
        }
    } else {
        lemma_binom_bound(n, k);
        if n < 64 {
            lemma_pow2_strictly_increases(n, 64);
        }
    }
}

/// Row `n` of Pascal's triangle: entry `k` is `C(n, k)` (zero for `k > n`).
pub fn binom_row(n: usize) -> (row: [u64; 65])
    requires
        n <= 64,
    ensures
        forall|k: int| 0 <= k <= 64 ==> #[trigger] row[k] == binom(n as nat, k as nat),
{
    let mut row: [u64; 65] = [0u64; 65];
    row[0] = 1;
    proof {
        assert forall|k: int| 0 <= k <= 64 implies #[trigger] row[k] == binom(0, k as nat) by {
            if k > 0 {
                lemma_binom_zero(0, k as nat);
            }
        }
    }
    let mut i: usize = 0;
    while i < n
        invariant
            i <= n <= 64,
            forall|k: int| 0 <= k <= 64 ==> #[trigger] row[k] == binom(i as nat, k as nat),
        decreases n - i,
    {
        let ghost prev = row;
        proof {
            assert forall|j: int| i + 1 < j <= 64 implies #[trigger] row[j] == binom((i + 1) as nat, j as nat) by {
                lemma_binom_zero(i as nat, j as nat);
                lemma_binom_zero((i + 1) as nat, j as nat);
            }
        }
        let mut k: usize = i + 1;
        while k >= 1
            invariant
                0 <= k <= i + 1 <= 64,
                forall|j: int| 0 <= j <= k ==> #[trigger] row[j] == prev[j],
                forall|j: int| k < j <= 64 ==> #[trigger] row[j] == binom((i + 1) as nat, j as nat),
                forall|j: int| 0 <= j <= 64 ==> #[trigger] prev[j] == binom(i as nat, j as nat),
            decreases k,
        {
            proof {
                lemma_binom_fits((i + 1) as nat, k as nat);
            }
            row[k] = row[k] + row[k - 1];
            k = k - 1;
        }
        i = i + 1;
    }
    row
}

/// The reference CDF scaled by `2^64`: entry `k` is `sum_{j <= k} C(64, j)`.
pub fn binom64_cdf() -> (cdf: [u128; 65])
    ensures
        forall|k: int| 0 <= k <= 64 ==> #[trigger] cdf[k] == cdf64(k),
        forall|k: int| 0 <= k <= 64 ==> #[trigger] cdf[k] <= (k + 1) * (u64::MAX as int),
{
    let row = binom_row(64);
    let mut cdf: [u128; 65] = [0u128; 65];
    let mut acc: u128 = 0;
    let mut k: usize = 0;
    while k <= 64
        invariant
            k <= 65,
            acc == cdf64(k - 1),
            acc <= k * (u64::MAX as int),
            forall|j: int| 0 <= j < k ==> #[trigger] cdf[j] == cdf64(j),
            forall|j: int| 0 <= j < k ==> #[trigger] cdf[j] <= (j + 1) * (u64::MAX as int),
            forall|j: int| 0 <= j <= 64 ==> #[trigger] row[j] == binom(64, j as nat),
        decreases 65 - k,
    {
        acc = acc + row[k] as u128;
        cdf[k] = acc;
        k = k + 1;
    }
    cdf
}

/// The observed CDF never decreases.
pub proof fn lemma_prefix_monotonic(counts: Seq<u32>, j: int, k: int)
    requires
        counts.len() == 65,
        -1 <= j <= k <= 64,
    ensures
        0 <= prefix(counts, j) <= prefix(counts, k),
        prefix(counts, k) <= (k + 1) * (u32::MAX as int),
    decreases k - j + (k + 1),
{
    if k >= 0 {
        if j < k {
            lemma_prefix_monotonic(counts, j, k - 1);
        } else {
            lemma_prefix_monotonic(counts, j - 1, k - 1);
        }
    }
}

/// The 1-Wasserstein distance of the histogram `counts` (entry `k`: the
/// number of samples with value `k`) from `Binom(64, 1/2)` scaled to the
/// histogram's total `N`: `sum_k |P_k - N * CDF(k)|`, where `P_k` is the
/// observed cumulative count, in units of `2^-32` samples and rounded down.
pub fn of_counts(counts: &[u32; 65]) -> (d: u128)
    ensures
        d == w1_of_counts(counts@),
        d <= W1_BOUND,
{
    let cdf = binom64_cdf();
    of_counts_with_cdf(counts, &cdf)
}

/// `of_counts` with the reference CDF computed once by the caller.
pub fn of_counts_with_cdf(counts: &[u32; 65], cdf: &[u128; 65]) -> (d: u128)
    requires
        forall|k: int| 0 <= k <= 64 ==> #[trigger] cdf[k] == cdf64(k),
        forall|k: int| 0 <= k <= 64 ==> #[trigger] cdf[k] <= (k + 1) * (u64::MAX as int),
    ensures
        d == w1_of_counts(counts@),
        d <= W1_BOUND,
{
    let mut total: u64 = 0;
    let mut i: usize = 0;
    while i <= 64
        invariant
            i <= 65,
            total == prefix(counts@, i - 1),
            total <= i * (u32::MAX as int),
        decreases 65 - i,
    {
        total = total + counts[i] as u64;
        i = i + 1;
    }
    let mut sum: u64 = 0;
    let mut d: u128 = 0;
    let mut k: usize = 0;
    while k <= 64
        invariant
            k <= 65,
            total == prefix(counts@, 64),
            total <= 65 * (u32::MAX as int),
            sum == prefix(counts@, k - 1),
            d == w1_sum(counts@, k - 1),
            d <= k * 0x4_0000_0000_0000_0000_0000_0000_0000,
            forall|j: int| 0 <= j <= 64 ==> #[trigger] cdf[j] == cdf64(j),
            forall|j: int| 0 <= j <= 64 ==> #[trigger] cdf[j] <= (j + 1) * (u64::MAX as int),
        decreases 65 - k,
    {
        proof {
            lemma_prefix_monotonic(counts@, k as int, 64);
        }
        sum = sum + counts[k] as u64;
        let ghost c = cdf[k as int];
        assert(sum as int * (TWO_POW_64 as int) <= 0x80_0000_0000 * 0x1_0000_0000_0000_0000) by (nonlinear_arith)
            requires sum <= 0x80_0000_0000;
        assert(total as int * c <= 0x80_0000_0000 * 0x80_0000_0000_0000_0000) by (nonlinear_arith)
            requires total <= 0x80_0000_0000, c <= 0x80_0000_0000_0000_0000;
        let a: u128 = sum as u128 * TWO_POW_64;
        let b: u128 = total as u128 * cdf[k];
        let term: u128 = if a >= b { a - b } else { b - a };
        d = d + term;
        k = k + 1;
    }
    d / W1_UNIT
}

} // verus!
