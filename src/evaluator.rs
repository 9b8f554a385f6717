//! The arithmetic-mean Wasserstein evaluator: a diffusion function together
//! with its per-input-bit distances accumulated over its lifetime.
use vstd::prelude::*;
use crate::bitflips::{flip_count, flip_row, lemma_flip_count_bound, Bitflips};
use crate::diffusion::{DiffusionFunc, Endo64};
use crate::wasserstein::{w1_of_counts, W1_BOUND};

verus! {

/// The loss and distances of a function that has not been scored yet.
pub const UNSCORED: u128 = 0xffff_ffff_ffff_ffff_ffff_ffff_ffff_ffff;

/// The largest of `s[0..n]`, or 0 when `n == 0`.
pub open spec fn max_prefix(s: Seq<u128>, n: int) -> u128
    decreases n,
{
    if n <= 0 {
        0
    } else if s[n - 1] > max_prefix(s, n - 1) {
        s[n - 1]
    } else {
        max_prefix(s, n - 1)
    }
}

/// The distance of input bit `b` in round `r` of `rounds` equal rounds over
/// `samples`.
pub open spec fn round_w1<F: Endo64>(f: F, samples: Seq<u64>, rounds: int, r: int, b: int) -> int {
    let per = (samples.len() as int) / rounds;
    w1_of_counts(flip_row(f, samples.subrange(r * per, (r + 1) * per), b))
}

/// `sum_{q < r} round_w1(f, samples, rounds, q, b)`.
pub open spec fn round_sum<F: Endo64>(f: F, samples: Seq<u64>, rounds: int, r: int, b: int) -> int
    decreases r,
{
    if r <= 0 {
        0
    } else {
        round_sum(f, samples, rounds, r - 1, b) + round_w1(f, samples, rounds, r - 1, b)
    }
}

/// The distance of input bit `b` averaged over the rounds (rounded down).
pub open spec fn round_avg<F: Endo64>(f: F, samples: Seq<u64>, rounds: int, b: int) -> int {
    round_sum(f, samples, rounds, rounds, b) / rounds
}

/// A diffusion function scored by the running arithmetic mean, over its
/// lifetime, of the largest per-input-bit Wasserstein distance.
///
/// `w1s[b]` is the sum of the per-update distances of input bit `b`, and
/// `max_w1` is `max_b w1s[b] / age`; both are `UNSCORED` until the first
/// update.
#[derive(Clone, Copy, Debug)]
pub struct WassersteinArith<F> {
    pub w1s: [u128; 64],
    pub max_w1: u128,
    pub age: u32,
    pub func: F,
}

impl<F: DiffusionFunc> WassersteinArith<F> {
    /// The accumulator is consistent with its age.
    pub open spec fn wf(&self) -> bool {
        &&& self.func.wf()
        &&& self.age == 0 ==> {
            &&& self.max_w1 == UNSCORED
            &&& forall|b: int| 0 <= b < 64 ==> #[trigger] self.w1s[b] == UNSCORED
        }
        &&& self.age > 0 ==> {
            &&& self.max_w1 == (max_prefix(self.w1s@, 64) as int) / (self.age as int)
            &&& forall|b: int| 0 <= b < 64 ==> #[trigger] self.w1s[b] <= self.age * W1_BOUND
        }
    }

    /// `next` is `prev` after folding in one update with per-bit averages `avg`.
    pub open spec fn folded(prev: Self, next: Self, avg: Seq<u128>) -> bool {
        &&& next.age == prev.age + 1
        &&& next.func == prev.func
        &&& forall|b: int|
            0 <= b < 64 ==> #[trigger] next.w1s[b] == (if prev.age == 0 {
                avg[b] as int
            } else {
                prev.w1s[b] + avg[b]
            })
        &&& next.max_w1 == (max_prefix(next.w1s@, 64) as int) / (next.age as int)
    }

    /// A fresh, unscored evaluator of `func`.
    pub fn new(func: F) -> (r: Self)
        requires
            func.wf(),
        ensures
            r.wf(),
            r.func == func,
            r.age == 0,
            r.max_w1 == UNSCORED,
    {
        Self { w1s: [UNSCORED; 64], max_w1: UNSCORED, age: 0, func }
    }

    /// An evaluator rebuilt from stored parts, or `None` when the parts are
    /// inconsistent: unscored distances must come with age 0, and after `age`
    /// updates no distance may exceed `age * W1_BOUND`. The loss is
    /// recomputed from the distances.
    pub fn restore(func: F, w1s: [u128; 64], age: u32) -> (r: Option<Self>)
        requires
            func.wf(),
        ensures
            r is Some <==> (if age == 0 {
                forall|b: int| 0 <= b < 64 ==> #[trigger] w1s[b] == UNSCORED
            } else {
                forall|b: int| 0 <= b < 64 ==> #[trigger] w1s[b] <= age * W1_BOUND
            }),
            r matches Some(e) ==> e.wf() && e.func == func && e.w1s == w1s && e.age == age,
    {
        let mut b: usize = 0;
        let mut loss: u128 = 0;
        while b < 64
            invariant
                b <= 64,
                loss == max_prefix(w1s@, b as int),
                forall|c: int| 0 <= c < b ==> if age == 0 {
                    #[trigger] w1s[c] == UNSCORED
                } else {
                    #[trigger] w1s[c] <= age * W1_BOUND
                },
            decreases 64 - b,
        {
            if age == 0 {
                if w1s[b] != UNSCORED {
                    return None;
                }
            } else if w1s[b] > (age as u128) * W1_BOUND {
                return None;
            }
            if w1s[b] > loss {
                loss = w1s[b];
            }
            b = b + 1;
        }
        let max_w1 = if age == 0 { UNSCORED } else { loss / (age as u128) };
        Some(Self { w1s, max_w1, age, func })
    }

    /// A consistent evaluator is determined by its function, distances and
    /// age, so storing these three and restoring them gives it back.
    pub proof fn lemma_parts_determine(e: Self, r: Self)
        requires
            e.wf(),
            r.wf(),
            r.func == e.func,
            r.w1s == e.w1s,
            r.age == e.age,
        ensures
            r == e,
    {
    }

    /// A fresh evaluator of a random function.
    pub fn random(rng: &mut rand::rngs::StdRng) -> (r: Self)
        ensures
            r.wf(),
            r.age == 0,
            r.max_w1 == UNSCORED,
    {
        Self::new(F::random(rng))
    }

    pub fn get_age(&self) -> (r: u32)
        ensures
            r == self.age,
    {
        self.age
    }

    pub fn get_loss(&self) -> (r: u128)
        ensures
            r == self.max_w1,
    {
        self.max_w1
    }

    pub fn get_func(&self) -> (r: &F)
        ensures
            *r == self.func,
    {
        &self.func
    }

    /// Folds one update's per-bit distances into the accumulator and returns
    /// the new loss: on the first update the distances are stored, later
    /// they are added, and the loss is the largest accumulated distance
    /// divided by the age.
    pub fn update_w1s(&mut self, avg: [u128; 64]) -> (loss: u128)
        requires
            old(self).wf(),
            old(self).age < u32::MAX,
            forall|b: int| 0 <= b < 64 ==> #[trigger] avg[b] <= W1_BOUND,
        ensures
            final(self).wf(),
            Self::folded(*old(self), *final(self), avg@),
            loss == final(self).max_w1,
    {
        let first = self.age == 0;
        self.age = self.age + 1;
        let mut loss: u128 = 0;
        let mut b: usize = 0;
        while b < 64
            invariant
                b <= 64,
                self.age == old(self).age + 1,
                self.func == old(self).func,
                first == (old(self).age == 0),
                old(self).wf(),
                forall|c: int| 0 <= c < 64 ==> #[trigger] avg[c] <= W1_BOUND,
                forall|c: int|
                    0 <= c < b ==> #[trigger] self.w1s[c] == (if first {
                        avg[c] as int
                    } else {
                        old(self).w1s[c] + avg[c]
                    }),
                forall|c: int| b <= c < 64 ==> #[trigger] self.w1s[c] == old(self).w1s[c],
                forall|c: int| 0 <= c < b ==> #[trigger] self.w1s[c] <= self.age * W1_BOUND,
                loss == max_prefix(self.w1s@, b as int),
            decreases 64 - b,
        {
            let w: u128 = if first { avg[b] } else { self.w1s[b] + avg[b] };
            proof {
                assert(forall|c: int| 0 <= c < b ==> self.w1s@.update(b as int, w)[c] == self.w1s@[c]);
                lemma_max_prefix_frame(self.w1s@, self.w1s@.update(b as int, w), b as int);
            }
            self.w1s[b] = w;
            if w > loss {
                loss = w;
            }
            b = b + 1;
        }
        loss = loss / (self.age as u128);
        self.max_w1 = loss;
        loss
    }

    /// Scores the function on `samples` split into `rounds` equal
    /// consecutive rounds: per input bit, the distances of the rounds are
    /// averaged, and the averages are folded into the accumulator.
    pub fn update(&mut self, samples: &[u64], rounds: usize) -> (loss: u128)
        requires
            old(self).wf(),
            old(self).age < u32::MAX,
            0 < rounds <= u32::MAX,
            (samples@.len() as int) % (rounds as int) == 0,
            samples@.len() <= u32::MAX,
        ensures
            final(self).wf(),
            Self::folded(
                *old(self),
                *final(self),
                Seq::new(64, |b: int| round_avg(old(self).func, samples@, rounds as int, b) as u128),
            ),
            loss == final(self).max_w1,
    {
        let per: usize = samples.len() / rounds;
        let ghost s = samples@;
        let ghost f = self.func;
        let mut sums: [u128; 64] = [0u128; 64];
        let mut r: usize = 0;
        while r < rounds
            invariant
                r <= rounds,
                0 < rounds <= u32::MAX,
                per == (s.len() as int) / (rounds as int),
                s == samples@,
                s.len() <= u32::MAX,
                f == self.func,
                self.func.wf(),
                forall|b: int| 0 <= b < 64 ==> #[trigger] sums[b] == round_sum(f, s, rounds as int, r as int, b),
                forall|b: int| 0 <= b < 64 ==> #[trigger] sums[b] <= r * W1_BOUND,
            decreases rounds - r,
        {
            proof {
                assert(per * rounds <= s.len()) by (nonlinear_arith)
                    requires per == (s.len() as int) / (rounds as int), rounds > 0;
                assert(r * per + per <= s.len()) by (nonlinear_arith)
                    requires r < rounds, per * rounds <= s.len();
            }
            let start: usize = r * per;
            let end: usize = start + per;
            let table = Bitflips::of_range(&self.func, samples, start, end);
            let w = table.w1s();
            let ghost chunk = s.subrange(start as int, end as int);
            let mut b: usize = 0;
            while b < 64
                invariant
                    b <= 64,
                    r < rounds,
                    0 < rounds <= u32::MAX,
                    start == r * per,
                    end == start + per,
                    chunk == s.subrange(start as int, end as int),
                    chunk.len() <= u32::MAX,
                    per == (s.len() as int) / (rounds as int),
                    forall|c: int, k: int|
                        0 <= c < 64 && 0 <= k <= 64 ==> #[trigger] table.n_flips[c][k] == flip_count(f, chunk, c, k),
                    forall|c: int| 0 <= c < 64 ==> #[trigger] w[c] == w1_of_counts(table.n_flips[c]@),
                    forall|c: int| 0 <= c < 64 ==> #[trigger] w[c] <= W1_BOUND,
                    forall|c: int|
                        0 <= c < b ==> #[trigger] sums[c] == round_sum(f, s, rounds as int, r + 1, c),
                    forall|c: int| b <= c < 64 ==> #[trigger] sums[c] == round_sum(f, s, rounds as int, r as int, c),
                    forall|c: int| 0 <= c < b ==> #[trigger] sums[c] <= (r + 1) * W1_BOUND,
                    forall|c: int| b <= c < 64 ==> #[trigger] sums[c] <= r * W1_BOUND,
                decreases 64 - b,
            {
                proof {
                    assert(table.n_flips[b as int]@ =~= flip_row(f, chunk, b as int)) by {
                        assert forall|k: int| 0 <= k <= 64 implies table.n_flips[b as int]@[k] == flip_row(f, chunk, b as int)[k] by {
                            lemma_flip_count_bound(f, chunk, b as int, k);
                            assert(table.n_flips[b as int][k] == flip_count(f, chunk, b as int, k));
                        }
                    }
                    assert(r * per + per == (r + 1) * per) by (nonlinear_arith);
                }
                sums[b] = sums[b] + w[b];
                b = b + 1;
            }
            r = r + 1;
        }
        let mut avg: [u128; 64] = [0u128; 64];
        let mut b: usize = 0;
        while b < 64
            invariant
                b <= 64,
                r == rounds,
                0 < rounds <= u32::MAX,
                forall|c: int| 0 <= c < 64 ==> #[trigger] sums[c] == round_sum(f, s, rounds as int, rounds as int, c),
                forall|c: int| 0 <= c < 64 ==> #[trigger] sums[c] <= rounds * W1_BOUND,
                forall|c: int| 0 <= c < b ==> #[trigger] avg[c] == round_avg(f, s, rounds as int, c),
                forall|c: int| 0 <= c < b ==> #[trigger] avg[c] <= W1_BOUND,
            decreases 64 - b,
        {
            proof {
                assert(sums[b as int] <= rounds * W1_BOUND);
                assert((sums[b as int] as int) / (rounds as int) <= W1_BOUND) by (nonlinear_arith)
                    requires sums[b as int] <= rounds * W1_BOUND, rounds > 0;
            }
            avg[b] = sums[b] / (rounds as u128);
            b = b + 1;
        }
        let ghost expected = Seq::new(64, |b: int| round_avg(f, s, rounds as int, b) as u128);
        assert(avg@ =~= expected);
        self.update_w1s(avg)
    }
}

/// The maximum of a prefix depends only on the prefix.
proof fn lemma_max_prefix_frame(s: Seq<u128>, t: Seq<u128>, n: int)
    requires
        0 <= n <= s.len(),
        n <= t.len(),
        forall|c: int| 0 <= c < n ==> s[c] == t[c],
    ensures
        max_prefix(s, n) == max_prefix(t, n),
    decreases n,
{
    if n > 0 {
        lemma_max_prefix_frame(s, t, n - 1);
    }
}

} // verus!
