use vstd::prelude::*;

use crate::bandit::Bandit;
use crate::rng::RandomSource;
use crate::rng::UNIT;
use crate::strategy::Strategy;

verus! {

/// The cumulative regret of a run: for each chosen arm, in order, the gap
/// between the best probability and the chosen arm's probability, summed.
pub open spec fn regret_of(b: Bandit, acts: Seq<usize>) -> int
    decreases acts.len(),
{
    if acts.len() == 0 {
        0
    } else {
        regret_of(b, acts.drop_last()) + b.best_probe - b.probes@[acts.last() as int]
    }
}

/// Cumulative regret is non-negative and each step adds at most UNIT.
proof fn lemma_regret_of_bounds(b: Bandit, acts: Seq<usize>)
    requires
        b.wf(),
        forall|i: int| 0 <= i < acts.len() ==> #[trigger] acts[i] < b.k,
    ensures
        0 <= regret_of(b, acts) <= acts.len() * (UNIT as int),
    decreases acts.len(),
{
    if acts.len() > 0 {
        lemma_regret_of_bounds(b, acts.drop_last());
    }
}

/// One more recorded step never lowers the cumulative regret.
proof fn lemma_regret_of_take_step(b: Bandit, acts: Seq<usize>, n: int)
    requires
        b.wf(),
        forall|i: int| 0 <= i < acts.len() ==> #[trigger] acts[i] < b.k,
        0 <= n < acts.len(),
    ensures
        regret_of(b, acts.take(n)) <= regret_of(b, acts.take(n + 1)),
{
    assert(acts.take(n + 1).drop_last() =~= acts.take(n));
}

/// Cumulative regret grows monotonically with the prefix length.
proof fn lemma_regret_of_take_mono(b: Bandit, acts: Seq<usize>, i: int, j: int)
    requires
        b.wf(),
        forall|i: int| 0 <= i < acts.len() ==> #[trigger] acts[i] < b.k,
        0 <= i <= j <= acts.len(),
    ensures
        regret_of(b, acts.take(i)) <= regret_of(b, acts.take(j)),
    decreases j - i,
{
    if i < j {
        lemma_regret_of_take_step(b, acts, j - 1);
        lemma_regret_of_take_mono(b, acts, i, j - 1);
    }
}

/// Drives the interaction loop: asks the strategy for an arm, samples the
/// bandit, folds the reward into the strategy, and records the action and
/// the cumulative regret. Read access to the histories is exposed; mutable
/// access is not.
pub struct Solver<T: Strategy> {
    bandit: Bandit,
    strategy: T,
    actions: Vec<usize>,
    regret: u64,
    regrets: Vec<u64>,
}

impl<T: Strategy> Solver<T> {
    /// The bandit the solver was bound to.
    pub closed spec fn bandit_spec(&self) -> Bandit {
        self.bandit
    }

    /// The strategy the solver drives.
    pub closed spec fn strategy_spec(&self) -> T {
        self.strategy
    }

    /// The arm chosen at each step so far, in order.
    pub closed spec fn actions_spec(&self) -> Seq<usize> {
        self.actions@
    }

    /// The current cumulative regret.
    pub closed spec fn regret_spec(&self) -> u64 {
        self.regret
    }

    /// The cumulative regret recorded after each step, in order.
    pub closed spec fn regrets_spec(&self) -> Seq<u64> {
        self.regrets@
    }

    /// Well-formedness: the strategy is bound to the bandit's arm count,
    /// every recorded action is in range, one regret snapshot stands per
    /// action, and each snapshot equals the cumulative regret of the
    /// actions up to it.
    pub open spec fn wf(&self) -> bool {
        &&& self.bandit_spec().wf()
        &&& self.strategy_spec().wf()
        &&& self.strategy_spec().arms() == self.bandit_spec().k
        &&& self.regrets_spec().len() == self.actions_spec().len()
        &&& forall|i: int|
            0 <= i < self.actions_spec().len() ==> #[trigger] self.actions_spec()[i]
                < self.bandit_spec().k
        &&& self.regret_spec() == regret_of(self.bandit_spec(), self.actions_spec())
        &&& forall|i: int|
            0 <= i < self.regrets_spec().len() ==> #[trigger] self.regrets_spec()[i] == regret_of(
                self.bandit_spec(),
                self.actions_spec().take(i + 1),
            )
    }

    /// Bind a bandit and a strategy made for its arm count; histories start
    /// empty and the cumulative regret at 0.
    pub fn new(bandit: Bandit, strategy: T) -> (s: Solver<T>)
        requires
            bandit.wf(),
            strategy.wf(),
            strategy.arms() == bandit.k,
        ensures
            s.wf(),
            s.bandit_spec() == bandit,
            s.strategy_spec() == strategy,
            s.actions_spec().len() == 0,
            s.regrets_spec().len() == 0,
            s.regret_spec() == 0,
    {
        Solver { bandit, strategy, actions: Vec::new(), regret: 0, regrets: Vec::new() }
    }

    /// Add the regret of pulling arm `k` once -- the gap between the best
    /// probability and the arm's -- and record the new total.
    pub fn update_regret(&mut self, k: usize)
        requires
            old(self).bandit_spec().wf(),
            k < old(self).bandit_spec().k,
            old(self).regret_spec() + UNIT <= u64::MAX,
        ensures
            final(self).bandit_spec() == old(self).bandit_spec(),
            final(self).strategy_spec() == old(self).strategy_spec(),
            final(self).actions_spec() == old(self).actions_spec(),
            final(self).regret_spec() == old(self).regret_spec() + old(
                self,
            ).bandit_spec().best_probe - old(self).bandit_spec().probes@[k as int],
            final(self).regrets_spec() == old(self).regrets_spec().push(final(self).regret_spec()),
    {
        let diff = self.bandit.best_probe - self.bandit.probes[k];
        self.regret = self.regret + (diff as u64);
        self.regrets.push(self.regret);
    }

    /// Run `num_steps` interaction steps, in order: select an arm, sample
    /// its reward, fold the reward into the strategy, append the action,
    /// and append the new cumulative regret. With 0 steps nothing changes.
    /// May be called again to accumulate onto the same histories.
    pub fn run(&mut self, num_steps: usize, rng: &mut RandomSource)
        requires
            old(self).wf(),
            (old(self).actions_spec().len() + num_steps) * (UNIT as int) <= u64::MAX,
            forall|a: int|
                0 <= a < old(self).strategy_spec().arms() ==> #[trigger] old(
                    self,
                ).strategy_spec().pulls()[a] + num_steps <= u64::MAX,
        ensures
            final(self).wf(),
            final(self).bandit_spec() == old(self).bandit_spec(),
            final(self).strategy_spec().arms() == old(self).strategy_spec().arms(),
            final(self).actions_spec().len() == old(self).actions_spec().len() + num_steps,
            final(self).regrets_spec().len() == final(self).actions_spec().len(),
            old(self).actions_spec() == final(self).actions_spec().take(
                old(self).actions_spec().len() as int,
            ),
            old(self).regrets_spec() == final(self).regrets_spec().take(
                old(self).regrets_spec().len() as int,
            ),
            forall|a: int|
                0 <= a < old(self).strategy_spec().arms()
                    ==> #[trigger] final(self).strategy_spec().pulls()[a]
                    <= old(self).strategy_spec().pulls()[a] + num_steps,
            num_steps == 0 ==> *final(self) == *old(self),
    {
        let mut i: usize = 0;
        while i < num_steps
            invariant
                i <= num_steps,
                old(self).wf(),
                self.wf(),
                self.bandit_spec() == old(self).bandit_spec(),
                self.strategy_spec().arms() == old(self).strategy_spec().arms(),
                self.actions_spec().len() == old(self).actions_spec().len() + i,
                old(self).actions_spec() == self.actions_spec().take(
                    old(self).actions_spec().len() as int,
                ),
                old(self).regrets_spec() == self.regrets_spec().take(
                    old(self).regrets_spec().len() as int,
                ),
                (old(self).actions_spec().len() + num_steps) * (UNIT as int) <= u64::MAX,
                forall|a: int|
                    0 <= a < old(self).strategy_spec().arms() ==> #[trigger] old(
                        self,
                    ).strategy_spec().pulls()[a] + num_steps <= u64::MAX,
                forall|a: int|
                    0 <= a < self.strategy_spec().arms()
                        ==> #[trigger] self.strategy_spec().pulls()[a]
                        <= old(self).strategy_spec().pulls()[a] + i,
                i == 0 ==> *self == *old(self),
            decreases num_steps - i,
        {
            proof {
                self.strategy.wf_facts();
            }
            let ghost pre = *self;
            let arm = self.strategy.select_arm(rng);
            let reward = match self.bandit.step(arm, rng) {
                Ok(r) => r,
                Err(_) => {
                    proof {
                        assert(false);
                    }
                    0
                },
            };
            self.strategy.update(arm, reward);
            self.actions.push(arm);
            proof {
                lemma_regret_of_bounds(self.bandit_spec(), pre.actions_spec());
            }
            self.update_regret(arm);
            proof {
                let b = self.bandit_spec();
                let acts = self.actions_spec();
                assert(acts.drop_last() =~= pre.actions_spec());
                assert(self.regret_spec() == regret_of(b, acts));
                assert(acts.take(acts.len() as int) =~= acts);
                assert(old(self).actions_spec() =~= acts.take(
                    old(self).actions_spec().len() as int,
                ));
                let l0r = old(self).regrets_spec().len() as int;
                assert(self.regrets_spec() == pre.regrets_spec().push(self.regret_spec()));
                assert forall|idx: int| 0 <= idx < l0r implies old(self).regrets_spec()[idx]
                    == self.regrets_spec().take(l0r)[idx] by {
                    assert(old(self).regrets_spec()[idx] == pre.regrets_spec().take(l0r)[idx]);
                    assert(self.regrets_spec()[idx] == pre.regrets_spec()[idx]);
                }
                assert(old(self).regrets_spec() =~= self.regrets_spec().take(l0r));
                assert forall|j: int| 0 <= j < self.regrets_spec().len() implies #[trigger] self.regrets_spec()[j]
                    == regret_of(b, acts.take(j + 1)) by {
                    if j < self.regrets_spec().len() - 1 {
                        assert(pre.regrets_spec()[j] == regret_of(b, pre.actions_spec().take(j + 1)));
                        assert(acts.take(j + 1) =~= pre.actions_spec().take(j + 1));
                    }
                }
            }
            i = i + 1;
        }
    }

    /// Read access to the arm chosen at each step.
    pub fn actions(&self) -> (r: &Vec<usize>)
        ensures
            r@ == self.actions_spec(),
    {
        &self.actions
    }

    /// Read access to the cumulative regret recorded after each step.
    pub fn regrets(&self) -> (r: &Vec<u64>)
        ensures
            r@ == self.regrets_spec(),
    {
        &self.regrets
    }

    /// The current cumulative regret.
    pub fn regret(&self) -> (r: u64)
        ensures
            r == self.regret_spec(),
    {
        self.regret
    }
}

/// Cumulative regret is non-decreasing across steps, for any strategy and
/// any bandit: every recorded snapshot is at least each earlier one, since
/// each step adds best_probe - probes[chosen] >= 0.
pub proof fn lemma_regret_trace_monotone<T: Strategy>(s: &Solver<T>, i: int, j: int)
    requires
        s.wf(),
        0 <= i <= j < s.regrets_spec().len(),
    ensures
        s.regrets_spec()[i] <= s.regrets_spec()[j],
{
    lemma_regret_of_take_mono(s.bandit_spec(), s.actions_spec(), i + 1, j + 1);
}

} // verus!
