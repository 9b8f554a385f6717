//! The generational loop: evaluation, elitism, tournament selection,
//! reproduction and periodic sample refresh.
use vstd::prelude::*;
use crate::config::Config;
use crate::diffusion::{DiffusionFunc, Endo64};
use crate::evaluator::{round_avg, WassersteinArith, UNSCORED};
use crate::generation::{all_wf, sorted_by_loss, Generation};
use crate::rng::{draw_in, draw_u64};

verus! {

broadcast use vstd::seq_lib::group_to_multiset_ensures;

/// The per-bit round averages of `f` on `samples` split into `rounds` rounds.
pub open spec fn round_avgs<F: Endo64>(f: F, samples: Seq<u64>, rounds: int) -> Seq<u128> {
    Seq::new(64, |b: int| round_avg(f, samples, rounds, b) as u128)
}

/// `next` is `prev` with the members below index `hi` updated on `samples`
/// and the others unchanged.
pub open spec fn evaluated<F: DiffusionFunc>(
    prev: Seq<WassersteinArith<F>>,
    next: Seq<WassersteinArith<F>>,
    samples: Seq<u64>,
    rounds: int,
    hi: int,
) -> bool {
    &&& next.len() == prev.len()
    &&& forall|i: int|
        0 <= i < hi && i < prev.len() ==> WassersteinArith::folded(
            #[trigger] prev[i],
            next[i],
            round_avgs(prev[i].func, samples, rounds),
        )
    &&& forall|i: int| hi <= i < prev.len() ==> #[trigger] next[i] == prev[i]
}

/// `c` is a fresh, unscored evaluator.
pub open spec fn fresh<F: DiffusionFunc>(c: WassersteinArith<F>) -> bool {
    &&& c.wf()
    &&& c.age == 0
    &&& c.max_w1 == UNSCORED
}

/// `(c0, c1)` evaluate the pair of children of a crossover of two members of
/// `parents`.
pub open spec fn child_pair<F: DiffusionFunc>(
    parents: Seq<WassersteinArith<F>>,
    c0: WassersteinArith<F>,
    c1: WassersteinArith<F>,
) -> bool {
    exists|i: int, j: int|
        0 <= i < parents.len() && 0 <= j < parents.len() && (#[trigger] parents[i]).func.spec_children(
            &(#[trigger] parents[j]).func,
            &c0.func,
            &c1.func,
        )
}

/// The first `n` members of `s` are fresh evaluators, and members `2k` and
/// `2k + 1` are a pair of children of members of `parents`.
pub open spec fn fresh_children<F: DiffusionFunc>(
    parents: Seq<WassersteinArith<F>>,
    s: Seq<WassersteinArith<F>>,
    n: int,
) -> bool {
    &&& forall|i: int| 0 <= i < n ==> fresh(#[trigger] s[i])
    &&& forall|i: int| 0 <= i < n && i % 2 == 0 ==> child_pair(parents, #[trigger] s[i], s[i + 1])
}

/// One evolving population with its samples.
pub struct Evolution<F> {
    pub samples: Vec<u64>,
    pub generation_counter: u32,
    pub current_gen: Generation<F>,
    pub config: Config,
}

impl<F: DiffusionFunc> Evolution<F> {
    /// The population has the configured size, the samples the configured
    /// count, and no member is older than the number of generations so far.
    pub open spec fn wf(&self) -> bool {
        &&& self.config.valid()
        &&& self.current_gen.wf()
        &&& self.current_gen.members@.len() == self.config.generation_size
        &&& self.samples@.len() == self.config.n_samples
        &&& forall|i: int|
            0 <= i < self.current_gen.members@.len() ==> (#[trigger] self.current_gen.members@[i]).age
                <= self.generation_counter
    }

    /// The number of leading members that the next evaluation updates: all
    /// of them right after a sample refresh, else all but the elites.
    pub open spec fn eval_bound(&self) -> int {
        if self.generation_counter % self.config.sample_lifetime == 0 {
            self.config.generation_size as int
        } else {
            self.config.generation_size - self.config.elitism
        }
    }

    pub fn new(samples: Vec<u64>, starting_gen: Generation<F>, config: Config) -> (r: Self)
        requires
            config.valid(),
            starting_gen.wf(),
            starting_gen.members@.len() == config.generation_size,
            samples@.len() == config.n_samples,
            forall|i: int| 0 <= i < starting_gen.members@.len() ==> (#[trigger] starting_gen.members@[i]).age == 0,
        ensures
            r.wf(),
            r.generation_counter == 0,
            r.samples@ == samples@,
            r.current_gen.members@ == starting_gen.members@,
            r.config == config,
    {
        Self { samples, generation_counter: 0, current_gen: starting_gen, config }
    }

    /// An evolution resumed at `generation_counter`, or `None` when the
    /// population does not have the configured size or holds a member older
    /// than the number of generations.
    pub fn restore(samples: Vec<u64>, members: Generation<F>, generation_counter: u32, config: Config) -> (r: Option<Self>)
        requires
            config.valid(),
            members.wf(),
            samples@.len() == config.n_samples,
        ensures
            r is Some <==> members.members@.len() == config.generation_size && forall|i: int|
                0 <= i < members.members@.len() ==> (#[trigger] members.members@[i]).age <= generation_counter,
            r matches Some(ev) ==> ev.wf() && ev.generation_counter == generation_counter && ev.samples@ == samples@
                && ev.current_gen.members@ == members.members@ && ev.config == config,
    {
        if members.members.len() != config.generation_size {
            return None;
        }
        let mut i: usize = 0;
        while i < members.members.len()
            invariant
                i <= members.members@.len(),
                forall|j: int| 0 <= j < i ==> (#[trigger] members.members@[j]).age <= generation_counter,
            decreases members.members@.len() - i,
        {
            if members.members[i].age > generation_counter {
                return None;
            }
            i = i + 1;
        }
        Some(Self { samples, generation_counter, current_gen: members, config })
    }

    /// An evolution of a random population on random samples.
    pub fn random(config: Config, rng: &mut rand::rngs::StdRng) -> (r: Self)
        requires
            config.valid(),
        ensures
            r.wf(),
            r.generation_counter == 0,
            r.config == config,
            forall|i: int| 0 <= i < r.current_gen.members@.len() ==> (#[trigger] r.current_gen.members@[i]).age == 0,
    {
        let mut samples: Vec<u64> = Vec::new();
        let mut i: usize = 0;
        while i < config.n_samples
            invariant
                i <= config.n_samples,
                samples@.len() == i,
            decreases config.n_samples - i,
        {
            samples.push(draw_u64(rng));
            i = i + 1;
        }
        let current_gen = Generation::random(config.generation_size, rng);
        Self { samples, generation_counter: 0, current_gen, config }
    }

    /// The best member; after `next_gen` it is the last one.
    pub fn get_best(&self) -> (r: &WassersteinArith<F>)
        requires
            self.wf(),
        ensures
            *r == self.current_gen.members@[self.config.generation_size - 1],
    {
        &self.current_gen.members[self.config.generation_size - 1]
    }

    /// The function of the best member.
    pub fn get_best_func(&self) -> (r: &F)
        requires
            self.wf(),
        ensures
            *r == self.current_gen.members@[self.config.generation_size - 1].func,
    {
        &self.current_gen.members[self.config.generation_size - 1].func
    }

    /// The first of the oldest members.
    pub fn get_longest_lived(&self) -> (r: &WassersteinArith<F>)
        requires
            self.wf(),
        ensures
            exists|i: int|
                0 <= i < self.current_gen.members@.len() && *r == #[trigger] self.current_gen.members@[i]
                    && forall|j: int| 0 <= j < i ==> (#[trigger] self.current_gen.members@[j]).age < r.age,
            forall|j: int| 0 <= j < self.current_gen.members@.len() ==> (#[trigger] self.current_gen.members@[j]).age <= r.age,
    {
        let members = &self.current_gen.members;
        let mut idx: usize = 0;
        let mut i: usize = 1;
        while i < members.len()
            invariant
                members@.len() == self.config.generation_size,
                self.config.valid(),
                0 <= idx < i <= members@.len(),
                forall|j: int| 0 <= j < i ==> (#[trigger] members@[j]).age <= members@[idx as int].age,
                forall|j: int| 0 <= j < idx ==> (#[trigger] members@[j]).age < members@[idx as int].age,
            decreases members@.len() - i,
        {
            if members[i].age > members[idx].age {
                idx = i;
            }
            i = i + 1;
        }
        &members[idx]
    }

    /// The winner of a deterministic tournament among the members at
    /// `candidates`: the first candidate with the lowest loss.
    pub fn tournament_among(&self, candidates: &Vec<usize>) -> (r: usize)
        requires
            candidates@.len() > 0,
            forall|k: int| 0 <= k < candidates@.len() ==> #[trigger] candidates@[k] < self.current_gen.members@.len(),
        ensures
            exists|w: int|
                0 <= w < candidates@.len() && r == #[trigger] candidates@[w] && forall|k: int|
                    0 <= k < w ==> self.current_gen.members@[#[trigger] candidates@[k] as int].max_w1
                        > self.current_gen.members@[r as int].max_w1,
            forall|k: int|
                0 <= k < candidates@.len() ==> self.current_gen.members@[#[trigger] candidates@[k] as int].max_w1
                    >= self.current_gen.members@[r as int].max_w1,
            r < self.current_gen.members@.len(),
    {
        let members = &self.current_gen.members;
        let mut best: usize = candidates[0];
        let ghost mut w: int = 0;
        let mut k: usize = 1;
        while k < candidates.len()
            invariant
                1 <= k <= candidates@.len(),
                0 <= w < k,
                best == candidates@[w],
                best < members@.len(),
                members == &self.current_gen.members,
                forall|q: int| 0 <= q < candidates@.len() ==> #[trigger] candidates@[q] < members@.len(),
                forall|q: int| 0 <= q < w ==> members@[#[trigger] candidates@[q] as int].max_w1 > members@[best as int].max_w1,
                forall|q: int| 0 <= q < k ==> members@[#[trigger] candidates@[q] as int].max_w1 >= members@[best as int].max_w1,
            decreases candidates@.len() - k,
        {
            let c = candidates[k];
            if members[c].max_w1 < members[best].max_w1 {
                best = c;
                proof {
                    w = k as int;
                }
            }
            k = k + 1;
        }
        best
    }

    /// A deterministic tournament among `tournament_size` members drawn at
    /// random with replacement.
    fn tournament(&self, rng: &mut rand::rngs::StdRng) -> (r: usize)
        requires
            self.config.valid(),
            self.current_gen.members@.len() == self.config.generation_size,
        ensures
            r < self.config.generation_size,
    {
        let n = self.current_gen.members.len();
        let mut candidates: Vec<usize> = Vec::new();
        let mut t: usize = 0;
        while t < self.config.tournament_size
            invariant
                self.config.valid(),
                self.current_gen.members@.len() == self.config.generation_size,
                n == self.current_gen.members@.len(),
                t <= self.config.tournament_size,
                candidates@.len() == t,
                forall|q: int| 0 <= q < candidates@.len() ==> #[trigger] candidates@[q] < n,
            decreases self.config.tournament_size - t,
        {
            let c = draw_in(rng, 0, (n - 1) as u32);
            candidates.push(c as usize);
            t = t + 1;
        }
        self.tournament_among(&candidates)
    }

    /// Replaces every sample by a fresh random word.
    pub fn new_samples(&mut self, rng: &mut rand::rngs::StdRng)
        ensures
            final(self).samples@.len() == old(self).samples@.len(),
            final(self).generation_counter == old(self).generation_counter,
            final(self).current_gen.members@ == old(self).current_gen.members@,
            final(self).config == old(self).config,
    {
        let mut i: usize = 0;
        while i < self.samples.len()
            invariant
                i <= self.samples@.len(),
                self.samples@.len() == old(self).samples@.len(),
                self.generation_counter == old(self).generation_counter,
                self.current_gen.members@ == old(self).current_gen.members@,
                self.config == old(self).config,
            decreases self.samples@.len() - i,
        {
            self.samples[i] = draw_u64(rng);
            i = i + 1;
        }
    }

    /// Updates the members below `eval_bound()` on the current samples, then
    /// sorts the generation from the highest loss to the lowest.
    pub fn eval_current_gen(&mut self)
        requires
            old(self).wf(),
            old(self).generation_counter < u32::MAX,
        ensures
            final(self).samples@ == old(self).samples@,
            final(self).generation_counter == old(self).generation_counter,
            final(self).config == old(self).config,
            final(self).current_gen.wf(),
            final(self).current_gen.members@.len() == old(self).config.generation_size,
            sorted_by_loss(final(self).current_gen.members@),
            forall|i: int|
                0 <= i < final(self).current_gen.members@.len() ==> (#[trigger] final(self).current_gen.members@[i]).age
                    <= old(self).generation_counter + 1,
            exists|ev: Seq<WassersteinArith<F>>|
                #[trigger] evaluated(
                    old(self).current_gen.members@,
                    ev,
                    old(self).samples@,
                    old(self).config.n_rounds as int,
                    old(self).eval_bound(),
                ) && ev.to_multiset() == final(self).current_gen.members@.to_multiset(),
    {
        let hi: usize = if self.generation_counter % self.config.sample_lifetime == 0 {
            self.config.generation_size
        } else {
            self.config.generation_size - self.config.elitism
        };
        let ghost prev = self.current_gen.members@;
        let mut i: usize = 0;
        while i < hi
            invariant
                hi == old(self).eval_bound(),
                hi <= self.config.generation_size,
                i <= hi,
                self.config == old(self).config,
                self.config.valid(),
                self.samples@ == old(self).samples@,
                self.samples@.len() == self.config.n_samples,
                self.generation_counter == old(self).generation_counter,
                self.generation_counter < u32::MAX,
                prev == old(self).current_gen.members@,
                prev.len() == self.config.generation_size,
                all_wf(prev),
                all_wf(self.current_gen.members@),
                evaluated(prev, self.current_gen.members@, self.samples@, self.config.n_rounds as int, i as int),
                forall|j: int| 0 <= j < prev.len() ==> (#[trigger] prev[j]).age <= self.generation_counter,
                forall|j: int|
                    0 <= j < prev.len() ==> (#[trigger] self.current_gen.members@[j]).age <= self.generation_counter + 1,
            decreases hi - i,
        {
            let mut e = self.current_gen.members[i];
            assert(e == prev[i as int]);
            e.update(self.samples.as_slice(), self.config.n_rounds);
            self.current_gen.members[i] = e;
            i = i + 1;
        }
        let ghost ev = self.current_gen.members@;
        self.current_gen.sort_by_loss();
        assert(evaluated(prev, ev, self.samples@, self.config.n_rounds as int, hi as int));
        proof {
            let sorted = self.current_gen.members@;
            assert forall|k: int| 0 <= k < sorted.len() implies (#[trigger] sorted[k]).age
                <= old(self).generation_counter + 1 by {
                assert(sorted.contains(sorted[k]));
                assert(sorted.to_multiset().count(sorted[k]) > 0);
                assert(ev.contains(sorted[k]));
            }
        }
    }

    /// Advances one generation: evaluates and sorts the population, keeps the
    /// `elitism` best at the end, replaces the others by fresh evaluators of
    /// children of tournament winners, and refreshes the samples when the
    /// counter reaches a multiple of the sample lifetime.
    pub fn next_gen(&mut self, rng: &mut rand::rngs::StdRng)
        requires
            old(self).wf(),
            old(self).generation_counter < u32::MAX,
        ensures
            final(self).wf(),
            final(self).generation_counter == old(self).generation_counter + 1,
            final(self).config == old(self).config,
            final(self).generation_counter % final(self).config.sample_lifetime != 0 ==> final(self).samples@
                == old(self).samples@,
            exists|ranked: Seq<WassersteinArith<F>>|
                #[trigger] sorted_by_loss(ranked) && ranked.len() == old(self).config.generation_size && (exists|
                    ev: Seq<WassersteinArith<F>>,
                |
                    #[trigger] evaluated(
                        old(self).current_gen.members@,
                        ev,
                        old(self).samples@,
                        old(self).config.n_rounds as int,
                        old(self).eval_bound(),
                    ) && ev.to_multiset() == ranked.to_multiset())
                    && final(self).current_gen.members@.subrange(
                    old(self).config.generation_size - old(self).config.elitism,
                    old(self).config.generation_size as int,
                ) == ranked.subrange(
                    old(self).config.generation_size - old(self).config.elitism,
                    old(self).config.generation_size as int,
                ) && fresh_children(
                    ranked,
                    final(self).current_gen.members@,
                    old(self).config.generation_size - old(self).config.elitism,
                ),
    {
        self.eval_current_gen();
        let ghost ranked = self.current_gen.members@;
        let n_children: usize = self.config.generation_size - self.config.elitism;
        let mut children: Vec<WassersteinArith<F>> = Vec::new();
        while children.len() < n_children
            invariant
                self.current_gen.members@ == ranked,
                self.config == old(self).config,
                self.generation_counter == old(self).generation_counter,
                self.samples@ == old(self).samples@,
                forall|j: int| 0 <= j < ranked.len() ==> (#[trigger] ranked[j]).age <= old(self).generation_counter + 1,
                self.config.valid(),
                ranked.len() == self.config.generation_size,
                all_wf(ranked),
                n_children == self.config.generation_size - self.config.elitism,
                children@.len() <= n_children,
                children@.len() % 2 == 0,
                fresh_children(ranked, children@, children@.len() as int),
            decreases n_children - children@.len(),
        {
            let p1 = self.tournament(rng);
            let p2 = self.tournament(rng);
            let f1 = self.current_gen.members[p1].func;
            let f2 = self.current_gen.members[p2].func;
            assert(f1.wf() && f2.wf()) by {
                assert(ranked[p1 as int].wf());
                assert(ranked[p2 as int].wf());
            }
            let cs = f1.crossover(&f2, rng);
            let c0 = WassersteinArith::new(cs[0]);
            let c1 = WassersteinArith::new(cs[1]);
            assert(ranked[p1 as int].func.spec_children(&ranked[p2 as int].func, &c0.func, &c1.func));
            assert(child_pair(ranked, c0, c1));
            let ghost before = children@;
            children.push(c0);
            children.push(c1);
            proof {
                let n = before.len() as int;
                assert(children@ =~= before.push(c0).push(c1));
                assert forall|i: int| 0 <= i < n + 2 implies fresh(#[trigger] children@[i]) by {
                    if i < n {
                        assert(children@[i] == before[i]);
                    }
                }
                assert forall|i: int| 0 <= i < n + 2 && i % 2 == 0 implies child_pair(
                    ranked,
                    #[trigger] children@[i],
                    children@[i + 1],
                ) by {
                    if i < n {
                        assert(children@[i] == before[i]);
                        assert(children@[i + 1] == before[i + 1]);
                    }
                }
            }
        }
        let mut i: usize = 0;
        while i < n_children
            invariant
                i <= n_children,
                children@.len() == n_children,
                n_children == self.config.generation_size - self.config.elitism,
                self.config == old(self).config,
                self.config.valid(),
                self.generation_counter == old(self).generation_counter,
                self.samples@ == old(self).samples@,
                all_wf(ranked),
                fresh_children(ranked, children@, n_children as int),
                forall|j: int| 0 <= j < ranked.len() ==> (#[trigger] ranked[j]).age <= old(self).generation_counter + 1,
                self.current_gen.members@.len() == ranked.len(),
                ranked.len() == self.config.generation_size,
                forall|j: int| 0 <= j < i ==> #[trigger] self.current_gen.members@[j] == children@[j],
                forall|j: int| i <= j < ranked.len() ==> #[trigger] self.current_gen.members@[j] == ranked[j],
            decreases n_children - i,
        {
            self.current_gen.members[i] = children[i];
            i = i + 1;
        }
        assert(self.current_gen.members@.subrange(n_children as int, ranked.len() as int) =~= ranked.subrange(
            n_children as int,
            ranked.len() as int,
        ));
        assert(fresh_children(ranked, self.current_gen.members@, n_children as int)) by {
            let m = self.current_gen.members@;
            assert forall|j: int| 0 <= j < n_children implies fresh(#[trigger] m[j]) by {
                assert(m[j] == children@[j]);
            }
            assert forall|j: int| 0 <= j < n_children && j % 2 == 0 implies child_pair(ranked, #[trigger] m[j], m[j + 1]) by {
                assert(m[j] == children@[j]);
                assert(m[j + 1] == children@[j + 1]);
            }
        }
        assert(all_wf(self.current_gen.members@)) by {
            assert forall|j: int| 0 <= j < ranked.len() implies (#[trigger] self.current_gen.members@[j]).wf() by {
                if j < n_children {
                    assert(fresh(children@[j]));
                }
            }
        }
        self.generation_counter = self.generation_counter + 1;
        if self.generation_counter % self.config.sample_lifetime == 0 {
            self.new_samples(rng);
        }
    }
}

} // verus!
