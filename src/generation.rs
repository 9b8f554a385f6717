//! A generation: a fixed-size population of evaluators.
use vstd::prelude::*;
use crate::diffusion::DiffusionFunc;
use crate::evaluator::{WassersteinArith, UNSCORED};

verus! {

broadcast use vstd::seq_lib::group_to_multiset_ensures;

/// Every member is a consistent evaluator.
pub open spec fn all_wf<F: DiffusionFunc>(s: Seq<WassersteinArith<F>>) -> bool {
    forall|i: int| 0 <= i < s.len() ==> (#[trigger] s[i]).wf()
}

/// The members are ordered from the highest loss (worst) to the lowest (best).
pub open spec fn sorted_by_loss<F>(s: Seq<WassersteinArith<F>>) -> bool {
    forall|i: int, j: int| 0 <= i < j < s.len() ==> (#[trigger] s[i]).max_w1 >= (#[trigger] s[j]).max_w1
}

/// A population of evaluators; after sorting, the best is last.
pub struct Generation<F> {
    pub members: Vec<WassersteinArith<F>>,
}

impl<F: DiffusionFunc> Generation<F> {
    pub open spec fn wf(&self) -> bool {
        all_wf(self.members@)
    }

    pub fn new(members: Vec<WassersteinArith<F>>) -> (r: Self)
        ensures
            r.members@ == members@,
    {
        Self { members }
    }

    /// `size` fresh evaluators of random functions.
    pub fn random(size: usize, rng: &mut rand::rngs::StdRng) -> (r: Self)
        ensures
            r.wf(),
            r.members@.len() == size,
            forall|i: int| 0 <= i < size ==> (#[trigger] r.members@[i]).age == 0,
            forall|i: int| 0 <= i < size ==> (#[trigger] r.members@[i]).max_w1 == UNSCORED,
    {
        let mut members: Vec<WassersteinArith<F>> = Vec::new();
        let mut i: usize = 0;
        while i < size
            invariant
                i <= size,
                members@.len() == i,
                all_wf(members@),
                forall|j: int| 0 <= j < i ==> (#[trigger] members@[j]).age == 0,
                forall|j: int| 0 <= j < i ==> (#[trigger] members@[j]).max_w1 == UNSCORED,
            decreases size - i,
        {
            members.push(WassersteinArith::random(rng));
            i = i + 1;
        }
        Self { members }
    }

    /// Orders the members from the highest loss to the lowest, so that the
    /// best are at the end.
    pub fn sort_by_loss(&mut self)
        requires
            old(self).wf(),
        ensures
            final(self).wf(),
            final(self).members@.to_multiset() == old(self).members@.to_multiset(),
            final(self).members@.len() == old(self).members@.len(),
            sorted_by_loss(final(self).members@),
    {
        let mut rest: Vec<WassersteinArith<F>> = Vec::new();
        std::mem::swap(&mut rest, &mut self.members);
        let ghost all = rest@;
        let mut sorted: Vec<WassersteinArith<F>> = Vec::new();
        while rest.len() > 0
            invariant
                all.to_multiset() == sorted@.to_multiset().add(rest@.to_multiset()),
                all.len() == sorted@.len() + rest@.len(),
                all_wf(sorted@),
                all_wf(rest@),
                sorted_by_loss(sorted@),
                sorted@.len() > 0 ==> forall|j: int|
                    0 <= j < rest@.len() ==> (#[trigger] rest@[j]).max_w1 <= sorted@.last().max_w1,
            decreases rest@.len(),
        {
            let mut best: usize = 0;
            let mut k: usize = 1;
            while k < rest.len()
                invariant
                    0 <= best < rest@.len(),
                    1 <= k <= rest@.len(),
                    forall|j: int| 0 <= j < k ==> (#[trigger] rest@[j]).max_w1 <= rest@[best as int].max_w1,
                decreases rest@.len() - k,
            {
                if rest[k].max_w1 > rest[best].max_w1 {
                    best = k;
                }
                k = k + 1;
            }
            let ghost before = rest@;
            let e = rest.remove(best);
            proof {
                assert(before.remove(best as int).to_multiset() =~= before.to_multiset().remove(e));
                assert(forall|j: int| 0 <= j < rest@.len() ==> #[trigger] rest@[j] == before[if j < best { j } else { j + 1 }]);
            }
            sorted.push(e);
            proof {
                assert(sorted@.to_multiset().add(rest@.to_multiset()) =~= all.to_multiset());
            }
        }
        self.members = sorted;
    }
}

} // verus!
