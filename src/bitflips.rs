//! Avalanche measurement: for each input bit, the histogram of how many
//! output bits flip when that input bit is flipped.
use vstd::prelude::*;
use crate::bitset::{lemma_popcount_bound, pop_count64, popcount};
use crate::diffusion::Endo64;
use crate::wasserstein::{binom64_cdf, cdf64, of_counts_with_cdf, prefix, w1_of_counts, W1_BOUND};

verus! {

/// The number of output bits of `f` that flip when bit `b` of `x` is flipped.
pub open spec fn flip_weight<F: Endo64>(f: F, x: u64, b: int) -> nat {
    popcount((f.spec_diffuse(x) ^ f.spec_diffuse(x ^ (1u64 << (b as u64)))) as nat)
}

/// The number of samples whose flip weight at input bit `b` is `k`.
pub open spec fn flip_count<F: Endo64>(f: F, samples: Seq<u64>, b: int, k: int) -> nat
    decreases samples.len(),
{
    if samples.len() == 0 {
        0
    } else {
        flip_count(f, samples.drop_last(), b, k) + (if flip_weight(f, samples.last(), b) == k {
            1nat
        } else {
            0nat
        })
    }
}

/// `sum_{j <= k} flip_count(f, samples, b, j)`.
pub open spec fn flip_total<F: Endo64>(f: F, samples: Seq<u64>, b: int, k: int) -> nat
    decreases k + 1,
{
    if k < 0 {
        0
    } else {
        flip_total(f, samples, b, k - 1) + flip_count(f, samples, b, k)
    }
}

/// The table of flip weights of `f` over a sample multiset: entry `[b][k]`
/// counts the samples `x` for which `f(x) ^ f(x ^ (1 << b))` has `k` bits set.
#[derive(Debug, PartialEq, Eq)]
pub struct Bitflips {
    pub n_flips: [[u32; 65]; 64],
}

/// A 64-bit word has at most 64 set bits.
pub proof fn lemma_popcount_u64(x: u64)
    ensures
        popcount(x as nat) <= 64,
{
    crate::shifts::lemma_pow2_agree(64);
    vstd::arithmetic::power2::lemma2_to64();
    lemma_popcount_bound(x as nat, 64);
}

/// No bucket holds more than all the samples.
pub proof fn lemma_flip_count_bound<F: Endo64>(f: F, samples: Seq<u64>, b: int, k: int)
    ensures
        flip_count(f, samples, b, k) <= samples.len(),
    decreases samples.len(),
{
    if samples.len() > 0 {
        lemma_flip_count_bound(f, samples.drop_last(), b, k);
    }
}

/// Row `b` of the flip-weight table of `f` over `samples`.
pub open spec fn flip_row<F: Endo64>(f: F, samples: Seq<u64>, b: int) -> Seq<u32> {
    Seq::new(65, |k: int| flip_count(f, samples, b, k) as u32)
}

/// Adding a sample of weight `w` to the multiset raises every partial total
/// `flip_total(.., k)` with `k >= w` by one.
proof fn lemma_total_push<F: Endo64>(f: F, s: Seq<u64>, b: int, k: int)
    requires
        s.len() > 0,
    ensures
        flip_total(f, s, b, k) == flip_total(f, s.drop_last(), b, k) + (if 0 <= flip_weight(f, s.last(), b) <= k {
            1int
        } else {
            0int
        }),
    decreases k + 1,
{
    if k >= 0 {
        lemma_total_push(f, s, b, k - 1);
    }
}

/// No sample, no count.
proof fn lemma_total_empty<F: Endo64>(f: F, s: Seq<u64>, b: int, k: int)
    requires
        s.len() == 0,
    ensures
        flip_total(f, s, b, k) == 0,
    decreases k + 1,
{
    if k >= 0 {
        lemma_total_empty(f, s, b, k - 1);
    }
}

/// Every sample lands in exactly one bucket of each row: the counts of row
/// `b` add up to the number of samples.
pub proof fn lemma_flips_conserved<F: Endo64>(f: F, samples: Seq<u64>, b: int)
    requires
        0 <= b < 64,
    ensures
        flip_total(f, samples, b, 64) == samples.len(),
    decreases samples.len(),
{
    if samples.len() > 0 {
        lemma_flips_conserved(f, samples.drop_last(), b);
        lemma_total_push(f, samples, b, 64);
        let x = samples.last();
        lemma_popcount_u64(f.spec_diffuse(x) ^ f.spec_diffuse(x ^ (1u64 << (b as u64))));
    } else {
        lemma_total_empty(f, samples, b, 64);
    }
}

/// A row that holds the flip counts has the same partial sums.
proof fn lemma_row_prefix<F: Endo64>(row: Seq<u32>, f: F, samples: Seq<u64>, b: int, k: int)
    requires
        row.len() == 65,
        -1 <= k <= 64,
        forall|j: int| 0 <= j <= 64 ==> #[trigger] row[j] == flip_count(f, samples, b, j),
    ensures
        prefix(row, k) == flip_total(f, samples, b, k),
    decreases k + 1,
{
    if k >= 0 {
        lemma_row_prefix(row, f, samples, b, k - 1);
    }
}

/// Each row of the table of `f` over `samples` adds up to the number of samples.
pub proof fn lemma_table_rows_sum<F: Endo64>(t: Bitflips, f: F, samples: Seq<u64>, b: int)
    requires
        0 <= b < 64,
        forall|c: int, k: int|
            0 <= c < 64 && 0 <= k <= 64 ==> #[trigger] t.n_flips[c][k] == flip_count(f, samples, c, k),
    ensures
        prefix(t.n_flips[b]@, 64) == samples.len(),
{
    let row = t.n_flips[b]@;
    assert forall|j: int| 0 <= j <= 64 implies #[trigger] row[j] == flip_count(f, samples, b, j) by {
        assert(t.n_flips[b][j] == flip_count(f, samples, b, j));
    }
    lemma_row_prefix(row, f, samples, b, 64);
    lemma_flips_conserved(f, samples, b);
}

impl Bitflips {
    pub fn new(n_flips: [[u32; 65]; 64]) -> (r: Self)
        ensures
            r.n_flips == n_flips,
    {
        Self { n_flips }
    }

    /// The flip-weight table of `f` over `samples[start..end]`.
    pub fn of_range<F: Endo64>(f: &F, samples: &[u64], start: usize, end: usize) -> (r: Self)
        requires
            f.wf(),
            start <= end <= samples@.len(),
            end - start <= u32::MAX,
        ensures
            forall|b: int, k: int|
                0 <= b < 64 && 0 <= k <= 64 ==> #[trigger] r.n_flips[b][k] == flip_count(
                    *f,
                    samples@.subrange(start as int, end as int),
                    b,
                    k,
                ),
    {
        let mut n_flips: [[u32; 65]; 64] = [[0u32; 65]; 64];
        let mut i: usize = start;
        while i < end
            invariant
                start <= i <= end <= samples@.len(),
                end - start <= u32::MAX,
                f.wf(),
                forall|b: int, k: int|
                    0 <= b < 64 && 0 <= k <= 64 ==> #[trigger] n_flips[b][k] == flip_count(
                        *f,
                        samples@.subrange(start as int, i as int),
                        b,
                        k,
                    ),
                forall|b: int, k: int| 0 <= b < 64 && 0 <= k <= 64 ==> #[trigger] n_flips[b][k] <= i - start,
            decreases end - i,
        {
            let x = samples[i];
            let ghost done = samples@.subrange(start as int, i as int);
            let ghost next = samples@.subrange(start as int, i + 1);
            assert(next.drop_last() =~= done);
            let h = f.diffuse(x);
            let mut shift: usize = 0;
            while shift < 64
                invariant
                    start <= i < end <= samples@.len(),
                    end - start <= u32::MAX,
                    shift <= 64,
                    f.wf(),
                    x == samples@[i as int],
                    h == f.spec_diffuse(x),
                    next.drop_last() == done,
                    next.last() == x,
                    next.len() > 0,
                    forall|b: int, k: int|
                        0 <= b < shift && 0 <= k <= 64 ==> #[trigger] n_flips[b][k] == flip_count(*f, next, b, k),
                    forall|b: int, k: int|
                        shift <= b < 64 && 0 <= k <= 64 ==> #[trigger] n_flips[b][k] == flip_count(*f, done, b, k),
                    forall|b: int, k: int|
                        0 <= b < shift && 0 <= k <= 64 ==> #[trigger] n_flips[b][k] <= i + 1 - start,
                    forall|b: int, k: int|
                        shift <= b < 64 && 0 <= k <= 64 ==> #[trigger] n_flips[b][k] <= i - start,
                decreases 64 - shift,
            {
                let diff = h ^ f.diffuse(x ^ (1u64 << (shift as u64)));
                let w = pop_count64(diff) as usize;
                let mut row = n_flips[shift];
                row[w] = row[w] + 1;
                n_flips[shift] = row;
                shift = shift + 1;
            }
            i = i + 1;
        }
        Bitflips { n_flips }
    }

    /// The flip-weight table of `f` over all of `samples`.
    pub fn of<F: Endo64>(f: &F, samples: &[u64]) -> (r: Self)
        requires
            f.wf(),
            samples@.len() <= u32::MAX,
        ensures
            forall|b: int, k: int|
                0 <= b < 64 && 0 <= k <= 64 ==> #[trigger] r.n_flips[b][k] == flip_count(*f, samples@, b, k),
    {
        let r = Self::of_range(f, samples, 0, samples.len());
        assert(samples@.subrange(0, samples@.len() as int) =~= samples@);
        r
    }

    /// The distance of each row from the reference distribution (see
    /// `wasserstein::of_counts`).
    pub fn w1s(&self) -> (w: [u128; 64])
        ensures
            forall|b: int| 0 <= b < 64 ==> #[trigger] w[b] == w1_of_counts(self.n_flips[b]@),
            forall|b: int| 0 <= b < 64 ==> #[trigger] w[b] <= W1_BOUND,
    {
        let cdf = binom64_cdf();
        let mut w: [u128; 64] = [0u128; 64];
        let mut b: usize = 0;
        while b < 64
            invariant
                b <= 64,
                forall|j: int| 0 <= j < b ==> #[trigger] w[j] == w1_of_counts(self.n_flips[j]@),
                forall|j: int| 0 <= j < b ==> #[trigger] w[j] <= W1_BOUND,
                forall|k: int| 0 <= k <= 64 ==> #[trigger] cdf[k] == cdf64(k),
                forall|k: int| 0 <= k <= 64 ==> #[trigger] cdf[k] <= (k + 1) * (u64::MAX as int),
            decreases 64 - b,
        {
            w[b] = of_counts_with_cdf(&self.n_flips[b], &cdf);
            b = b + 1;
        }
        w
    }
}

} // verus!
