//! The avalanche diagram: for each input bit, how often each output bit
//! flips when that input bit is flipped. A diagnostic beside the
//! flip-weight histograms.
use vstd::prelude::*;
use crate::diffusion::Endo64;

verus! {

/// Output bit `j` of `f` flips when input bit `i` of `x` is flipped.
pub open spec fn flips_bit<F: Endo64>(f: F, x: u64, i: int, j: int) -> bool {
    ((f.spec_diffuse(x) ^ f.spec_diffuse(x ^ (1u64 << (i as u64)))) >> (j as u64)) & 1 == 1
}

/// The number of samples for which output bit `j` flips with input bit `i`.
pub open spec fn bit_flip_count<F: Endo64>(f: F, samples: Seq<u64>, i: int, j: int) -> nat
    decreases samples.len(),
{
    if samples.len() == 0 {
        0
    } else {
        bit_flip_count(f, samples.drop_last(), i, j) + (if flips_bit(f, samples.last(), i, j) {
            1nat
        } else {
            0nat
        })
    }
}

/// `sum_{(i, j) < (r, c)} (vals[i][j] - expected)^2` in row-major order.
pub open spec fn sse_upto(vals: Seq<[u32; 64]>, expected: int, r: int, c: int) -> int
    decreases r, c,
{
    if r <= 0 {
        0
    } else if c <= 0 {
        sse_upto(vals, expected, r - 1, 64)
    } else {
        sse_upto(vals, expected, r, c - 1) + (vals[r - 1][c - 1] - expected) * (vals[r - 1][c - 1] - expected)
    }
}

/// Entry `[i][j]` counts the samples for which output bit `j` flips when
/// input bit `i` is flipped; an ideal function flips each with probability
/// one half, so `expected` is half the number of samples.
#[derive(Debug, PartialEq, Eq)]
pub struct AvalancheDiagram {
    pub expected: u32,
    pub vals: [[u32; 64]; 64],
}

impl AvalancheDiagram {
    pub fn new(n_samples: u32, vals: [[u32; 64]; 64]) -> (r: Self)
        ensures
            r.expected == n_samples / 2,
            r.vals == vals,
    {
        Self { expected: n_samples / 2, vals }
    }

    /// The diagram of `f` over `samples`.
    pub fn of<F: Endo64>(f: &F, samples: &[u64]) -> (r: Self)
        requires
            f.wf(),
            samples@.len() <= u32::MAX,
        ensures
            r.expected == samples@.len() / 2,
            forall|i: int, j: int|
                0 <= i < 64 && 0 <= j < 64 ==> #[trigger] r.vals[i][j] == bit_flip_count(*f, samples@, i, j),
    {
        let mut vals: [[u32; 64]; 64] = [[0u32; 64]; 64];
        let mut n: usize = 0;
        while n < samples.len()
            invariant
                n <= samples@.len() <= u32::MAX,
                f.wf(),
                forall|i: int, j: int|
                    0 <= i < 64 && 0 <= j < 64 ==> #[trigger] vals[i][j] == bit_flip_count(
                        *f,
                        samples@.subrange(0, n as int),
                        i,
                        j,
                    ),
                forall|i: int, j: int| 0 <= i < 64 && 0 <= j < 64 ==> #[trigger] vals[i][j] <= n,
            decreases samples@.len() - n,
        {
            let x = samples[n];
            let ghost done = samples@.subrange(0, n as int);
            let ghost next = samples@.subrange(0, n + 1);
            assert(next.drop_last() =~= done);
            let h = f.diffuse(x);
            let mut i: usize = 0;
            while i < 64
                invariant
                    n < samples@.len() <= u32::MAX,
                    i <= 64,
                    f.wf(),
                    h == f.spec_diffuse(x),
                    next.drop_last() == done,
                    next.last() == x,
                    next.len() > 0,
                    forall|a: int, j: int|
                        0 <= a < i && 0 <= j < 64 ==> #[trigger] vals[a][j] == bit_flip_count(*f, next, a, j),
                    forall|a: int, j: int|
                        i <= a < 64 && 0 <= j < 64 ==> #[trigger] vals[a][j] == bit_flip_count(*f, done, a, j),
                    forall|a: int, j: int| 0 <= a < i && 0 <= j < 64 ==> #[trigger] vals[a][j] <= n + 1,
                    forall|a: int, j: int| i <= a < 64 && 0 <= j < 64 ==> #[trigger] vals[a][j] <= n,
                decreases 64 - i,
            {
                let diff = h ^ f.diffuse(x ^ (1u64 << (i as u64)));
                let ghost d = diff;
                let mut row = vals[i];
                let ghost old_row = row;
                let mut j: usize = 0;
                while j < 64
                    invariant
                        j <= 64,
                        n < samples@.len() <= u32::MAX,
                        i < 64,
                        d == diff,
                        forall|c: int|
                            0 <= c < j ==> #[trigger] row[c] == old_row[c] + (if (d >> (c as u64)) & 1 == 1 {
                                1int
                            } else {
                                0int
                            }),
                        forall|c: int| j <= c < 64 ==> #[trigger] row[c] == old_row[c],
                        forall|c: int| 0 <= c < 64 ==> #[trigger] old_row[c] <= n,
                    decreases 64 - j,
                {
                    assert((diff >> (j as u64)) & 1 <= 1) by (bit_vector);
                    row[j] = row[j] + ((diff >> (j as u64)) & 1) as u32;
                    j = j + 1;
                }
                vals[i] = row;
                i = i + 1;
            }
            n = n + 1;
        }
        assert(samples@.subrange(0, samples@.len() as int) =~= samples@);
        Self { expected: (samples.len() / 2) as u32, vals }
    }

    /// `sum_{i, j} (vals[i][j] - expected)^2`, the squared error of the
    /// diagram against an ideal one (divide by `expected` for the
    /// normalised error).
    pub fn sse_sum(&self) -> (r: u128)
        ensures
            r == sse_upto(self.vals@, self.expected as int, 64, 64),
    {
        let mut acc: u128 = 0;
        let mut i: usize = 0;
        while i < 64
            invariant
                i <= 64,
                acc == sse_upto(self.vals@, self.expected as int, i as int, 64),
                acc <= i * 64 * 0x1_0000_0000_0000_0000,
            decreases 64 - i,
        {
            let mut j: usize = 0;
            while j < 64
                invariant
                    i < 64,
                    j <= 64,
                    acc == sse_upto(self.vals@, self.expected as int, i + 1, j as int),
                    acc <= (i * 64 + j) * 0x1_0000_0000_0000_0000,
                decreases 64 - j,
            {
                let v = self.vals[i][j];
                let e = if v >= self.expected { (v - self.expected) as u128 } else { (self.expected - v) as u128 };
                assert(e * e <= 0x1_0000_0000_0000_0000) by (nonlinear_arith)
                    requires e <= 0xffff_ffff;
                assert(e * e == (v - self.expected) * (v - self.expected)) by (nonlinear_arith)
                    requires e == (if v >= self.expected { v - self.expected } else { self.expected - v });
                acc = acc + e * e;
                j = j + 1;
            }
            i = i + 1;
        }
        acc
    }
}

} // verus!
