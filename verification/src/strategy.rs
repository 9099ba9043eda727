use vstd::prelude::*;

use crate::bandit::Bandit;
use crate::bandit::BanditError;
use crate::rng::RandomSource;
use crate::rng::UNIT;

verus! {

/// An exact rational in [0, 1]: the value num / den. Rewards are 0 or 1, so
/// every estimated value the strategy keeps is such a rational, with no
/// rounding anywhere.
#[derive(Clone, Copy, Debug, PartialEq, Eq, Structural)]
pub struct Rat {
    pub num: u64,
    pub den: u64,
}

/// A well-formed estimate: a positive denominator and a value at most 1.
pub open spec fn rat_wf(r: Rat) -> bool {
    1 <= r.den && r.num <= r.den
}

/// num_a / den_a <= num_b / den_b, by cross-multiplication.
pub open spec fn rat_le(a: Rat, b: Rat) -> bool {
    a.num * b.den <= b.num * a.den
}

/// num_a / den_a < num_b / den_b, by cross-multiplication.
pub open spec fn rat_lt(a: Rat, b: Rat) -> bool {
    a.num * b.den < b.num * a.den
}

impl Rat {
    /// Exact comparison of two rationals.
    pub fn le(self, other: Rat) -> (r: bool)
        ensures
            r == rat_le(self, other),
    {
        proof {
            lemma_u64_products_fit(self.num, other.den);
            lemma_u64_products_fit(other.num, self.den);
        }
        (self.num as u128) * (other.den as u128) <= (other.num as u128) * (self.den as u128)
    }

    /// Exact strict comparison of two rationals.
    pub fn lt(self, other: Rat) -> (r: bool)
        ensures
            r == rat_lt(self, other),
    {
        proof {
            lemma_u64_products_fit(self.num, other.den);
            lemma_u64_products_fit(other.num, self.den);
        }
        (self.num as u128) * (other.den as u128) < (other.num as u128) * (self.den as u128)
    }
}

/// A product of two u64 values fits in a u128.
proof fn lemma_u64_products_fit(a: u64, b: u64)
    ensures
        a * b <= u128::MAX,
{
    assert(a * b <= 0xffffffffffffffffu64 * 0xffffffffffffffffu64) by (nonlinear_arith)
        requires
            a <= 0xffffffffffffffffu64,
            b <= 0xffffffffffffffffu64,
    ;
}

/// From a <= b and b < c (as rationals with positive denominators), a < c.
proof fn lemma_rat_le_lt_trans(a: Rat, b: Rat, c: Rat)
    requires
        a.den >= 1,
        b.den >= 1,
        c.den >= 1,
        rat_le(a, b),
        rat_lt(b, c),
    ensures
        rat_lt(a, c),
{
    assert(a.num * c.den < c.num * a.den) by (nonlinear_arith)
        requires
            a.den >= 1,
            b.den >= 1,
            c.den >= 1,
            a.num * b.den <= b.num * a.den,
            b.num * c.den < c.num * b.den,
    ;
}

/// `i` is the index of the maximum of `s`, ties broken by the lowest index:
/// no entry exceeds `s[i]`, and every earlier entry is strictly below it.
pub open spec fn is_first_max(s: Seq<Rat>, i: int) -> bool {
    &&& 0 <= i < s.len()
    &&& forall|j: int| 0 <= j < s.len() ==> rat_le(#[trigger] s[j], s[i])
    &&& forall|j: int| 0 <= j < i ==> rat_lt(#[trigger] s[j], s[i])
}

/// At most one index is the first maximum: greedy selection is a function
/// of the estimates alone.
pub proof fn lemma_first_max_unique(s: Seq<Rat>, i1: int, i2: int)
    requires
        is_first_max(s, i1),
        is_first_max(s, i2),
    ensures
        i1 == i2,
{
    if i1 < i2 {
        assert(rat_lt(s[i1], s[i2]));
        assert(rat_le(s[i2], s[i1]));
    } else if i2 < i1 {
        assert(rat_lt(s[i2], s[i1]));
        assert(rat_le(s[i1], s[i2]));
    }
}

/// Arm selection is reproducible: the selection contract admits exactly one
/// arm for a given belief state and given drawn values, so with a replay
/// source the chosen arm is a function of the source's state alone.
pub proof fn lemma_selection_reproducible(
    s: &EpsilonGreedy,
    u: u32,
    explore: usize,
    a1: usize,
    a2: usize,
)
    requires
        s.inv(),
        explore < s.k_spec(),
        u < s.epsilon_spec() ==> a1 == explore && a2 == explore,
        u >= s.epsilon_spec() ==> is_first_max(s.estimates_spec(), a1 as int) && is_first_max(
            s.estimates_spec(),
            a2 as int,
        ),
    ensures
        a1 == a2,
{
    if u >= s.epsilon_spec() {
        lemma_first_max_unique(s.estimates_spec(), a1 as int, a2 as int);
    }
}

/// The index of the first maximum of a non-empty list of rationals.
fn best_rat_of(values: &Vec<Rat>) -> (i: usize)
    requires
        values@.len() >= 1,
        forall|j: int| 0 <= j < values@.len() ==> rat_wf(#[trigger] values@[j]),
    ensures
        is_first_max(values@, i as int),
{
    let mut best_idx: usize = 0;
    let mut i: usize = 1;
    while i < values.len()
        invariant
            1 <= i <= values@.len(),
            best_idx < i,
            forall|j: int| 0 <= j < values@.len() ==> rat_wf(#[trigger] values@[j]),
            forall|j: int| 0 <= j < i ==> rat_le(#[trigger] values@[j], values@[best_idx as int]),
            forall|j: int| 0 <= j < best_idx ==> rat_lt(
                #[trigger] values@[j],
                values@[best_idx as int],
            ),
        decreases values@.len() - i,
    {
        if values[best_idx].lt(values[i]) {
            proof {
                assert forall|j: int| 0 <= j < i implies rat_lt(
                    #[trigger] values@[j],
                    values@[i as int],
                ) by {
                    lemma_rat_le_lt_trans(values@[j], values@[best_idx as int], values@[i as int]);
                }
            }
            best_idx = i;
        }
        i = i + 1;
    }
    best_idx
}

/// The numerator of an arm's estimate after one more reward: the incremental
/// mean step. With `c` earlier pulls, an estimate num / c (or the optimistic
/// prior 1 / 1 when c == 0) and a reward r, the updated estimate is
/// (num + r) / (c + 1) -- or r / 1 on the first pull, which discards the
/// prior. This is exactly est + (r - est) / (c + 1) in exact arithmetic.
pub open spec fn est_num_after(e: Rat, c: int, reward: u32) -> int {
    if c == 0 {
        reward as int
    } else {
        e.num + reward
    }
}

/// The estimate every strategy starts from: the optimistic prior 1.
pub open spec fn initial_estimate() -> Rat {
    Rat { num: 1, den: 1 }
}

/// The sum of a sequence of rewards.
pub open spec fn sum_rewards(rs: Seq<u32>) -> int
    decreases rs.len(),
{
    if rs.len() == 0 {
        0
    } else {
        sum_rewards(rs.drop_last()) + rs.last()
    }
}

/// The estimate an arm holds after the rewards `rs`, starting fresh: the
/// fold of the incremental-mean step over `rs`.
pub open spec fn est_after(rs: Seq<u32>) -> Rat
    decreases rs.len(),
{
    if rs.len() == 0 {
        initial_estimate()
    } else {
        Rat {
            num: est_num_after(est_after(rs.drop_last()), rs.len() - 1, rs.last()) as u64,
            den: rs.len() as u64,
        }
    }
}

/// A sum of rewards that are each at most 1 lies between 0 and their count.
pub proof fn lemma_sum_rewards_bounds(rs: Seq<u32>)
    requires
        forall|i: int| 0 <= i < rs.len() ==> #[trigger] rs[i] <= 1,
    ensures
        0 <= sum_rewards(rs) <= rs.len(),
    decreases rs.len(),
{
    if rs.len() > 0 {
        lemma_sum_rewards_bounds(rs.drop_last());
    }
}

/// One more reward folds into `est_after` exactly as `update`'s contract
/// steps an arm's estimate: with `rs.len()` earlier pulls, the next estimate
/// takes the incremental-mean numerator and the new pull count as
/// denominator.
pub proof fn lemma_est_after_step(rs: Seq<u32>, r: u32)
    requires
        rs.len() < u64::MAX,
    ensures
        est_after(rs.push(r)).num == est_num_after(est_after(rs), rs.len() as int, r) as u64,
        est_after(rs.push(r)).den == rs.len() + 1,
{
    assert(rs.push(r).drop_last() =~= rs);
}

/// Incremental-mean invariant: after n >= 1 updates with rewards r_1 .. r_n,
/// the estimate is exactly (r_1 + ... + r_n) / n -- the arithmetic mean --
/// whatever the order of the rewards contributed.
pub proof fn lemma_est_after_is_mean(rs: Seq<u32>)
    requires
        1 <= rs.len() <= u64::MAX,
        forall|i: int| 0 <= i < rs.len() ==> #[trigger] rs[i] <= 1,
    ensures
        est_after(rs).num == sum_rewards(rs),
        est_after(rs).den == rs.len(),
    decreases rs.len(),
{
    if rs.len() == 1 {
        assert(sum_rewards(rs.drop_last()) == 0);
    } else {
        lemma_est_after_is_mean(rs.drop_last());
        lemma_sum_rewards_bounds(rs.drop_last());
        assert(est_num_after(est_after(rs.drop_last()), rs.len() - 1, rs.last()) == sum_rewards(
            rs,
        ));
    }
}

/// The capability a Solver drives: pick an arm from the current belief
/// state, and fold an observed reward into it. Any selection policy
/// implementing these two methods can drive the Solver unchanged.
///
/// `pulls` is the per-arm pull count and `ests` the per-arm estimated value,
/// as the data model keeps them; `update` increments the chosen arm's pull
/// count and applies the incremental-mean step to its estimate, leaving
/// every other arm untouched.
pub trait Strategy: Sized {
    /// How many arms the strategy selects among.
    spec fn arms(&self) -> int;

    /// The strategy's internal invariant.
    spec fn wf(&self) -> bool;

    /// Per-arm pull counts.
    spec fn pulls(&self) -> Seq<u64>;

    /// Per-arm estimated values.
    spec fn ests(&self) -> Seq<Rat>;

    /// The shape the invariant guarantees: at least one arm, one pull count
    /// and one well-formed estimate per arm.
    proof fn wf_facts(&self)
        requires
            self.wf(),
        ensures
            self.arms() >= 1,
            self.pulls().len() == self.arms(),
            self.ests().len() == self.arms(),
            forall|i: int| 0 <= i < self.arms() ==> rat_wf(#[trigger] self.ests()[i]),
    ;

    /// Pick an arm, consuming randomness as the policy asks; always an index
    /// in range, and the belief state is not touched.
    fn select_arm(&self, rng: &mut RandomSource) -> (arm: usize)
        requires
            self.wf(),
        ensures
            arm < self.arms(),
    ;

    /// Fold the observed reward into the belief state: the chosen arm's pull
    /// count rises by one and its estimate takes the incremental-mean step
    /// with the post-increment count as divisor; no other arm changes.
    fn update(&mut self, arm: usize, reward: u32)
        requires
            old(self).wf(),
            arm < old(self).arms(),
            reward <= 1,
            old(self).pulls()[arm as int] < u64::MAX,
        ensures
            final(self).wf(),
            final(self).arms() == old(self).arms(),
            final(self).pulls().len() == old(self).pulls().len(),
            final(self).ests().len() == old(self).ests().len(),
            final(self).pulls()[arm as int] == old(self).pulls()[arm as int] + 1,
            forall|j: int|
                0 <= j < old(self).arms() && j != arm ==> final(self).pulls()[j] == old(
                    self,
                ).pulls()[j],
            forall|j: int|
                0 <= j < old(self).arms() && j != arm ==> final(self).ests()[j] == old(
                    self,
                ).ests()[j],
            final(self).ests()[arm as int].num == est_num_after(
                old(self).ests()[arm as int],
                old(self).pulls()[arm as int] as int,
                reward,
            ),
            final(self).ests()[arm as int].den == old(self).pulls()[arm as int] + 1,
    ;
}

/// The epsilon-greedy policy: with probability epsilon explore an arm
/// uniformly at random (the current best is not excluded), otherwise exploit
/// the arm with the highest estimated value, ties broken by the lowest
/// index.
pub struct EpsilonGreedy {
    k: usize,
    epsilon: u32,
    count: Vec<u64>,
    estimates: Vec<Rat>,
}

impl EpsilonGreedy {
    /// The arm count the strategy was bound to.
    pub closed spec fn k_spec(&self) -> int {
        self.k as int
    }

    /// The exploration probability, fixed-point in [0, UNIT].
    pub closed spec fn epsilon_spec(&self) -> u32 {
        self.epsilon
    }

    /// Per-arm pull counts.
    pub closed spec fn counts(&self) -> Seq<u64> {
        self.count@
    }

    /// Per-arm estimated values.
    pub closed spec fn estimates_spec(&self) -> Seq<Rat> {
        self.estimates@
    }

    /// Internal invariant: one pull count and one estimate per arm; each
    /// estimate is a well-formed rational whose denominator is the arm's
    /// pull count (or 1 before the first pull, for the prior).
    pub open spec fn inv(&self) -> bool {
        &&& self.k_spec() >= 1
        &&& self.epsilon_spec() <= UNIT
        &&& self.counts().len() == self.k_spec()
        &&& self.estimates_spec().len() == self.k_spec()
        &&& forall|i: int| 0 <= i < self.k_spec() ==> rat_wf(#[trigger] self.estimates_spec()[i])
        &&& forall|i: int|
            0 <= i < self.k_spec() ==> (#[trigger] self.estimates_spec()[i]).den == (
            if self.counts()[i] == 0 {
                1u64
            } else {
                self.counts()[i]
            })
    }

    /// Bind an epsilon-greedy strategy to a bandit's arm count. Fails when
    /// epsilon lies outside [0, UNIT] (scaled [0, 1]) or there is no arm.
    /// Pull counts start at 0 and every estimate at the optimistic prior 1.
    pub fn new(bandit: &Bandit, epsilon: u32) -> (r: Result<EpsilonGreedy, BanditError>)
        ensures
            match r {
                Ok(s) => {
                    &&& epsilon <= UNIT
                    &&& bandit.k >= 1
                    &&& s.inv()
                    &&& s.k_spec() == bandit.k
                    &&& s.epsilon_spec() == epsilon
                    &&& forall|i: int| 0 <= i < s.k_spec() ==> #[trigger] s.counts()[i] == 0
                    &&& forall|i: int|
                        0 <= i < s.k_spec() ==> #[trigger] s.estimates_spec()[i]
                            == initial_estimate()
                },
                Err(e) => (epsilon > UNIT || bandit.k == 0) && e == BanditError::InvalidParameter,
            },
    {
        if epsilon > UNIT || bandit.k == 0 {
            return Err(BanditError::InvalidParameter);
        }
        let k = bandit.k;
        let mut count: Vec<u64> = Vec::new();
        let mut estimates: Vec<Rat> = Vec::new();
        let mut i: usize = 0;
        while i < k
            invariant
                i <= k,
                count@.len() == i,
                estimates@.len() == i,
                forall|j: int| 0 <= j < i ==> #[trigger] count@[j] == 0,
                forall|j: int| 0 <= j < i ==> #[trigger] estimates@[j] == initial_estimate(),
            decreases k - i,
        {
            count.push(0);
            estimates.push(Rat { num: 1, den: 1 });
            i = i + 1;
        }
        Ok(EpsilonGreedy { k, epsilon, count, estimates })
    }

    /// Pick an arm from already-drawn values: deterministic. When `u` falls
    /// below epsilon, explore with the given arm; otherwise exploit the
    /// first maximum of the estimates.
    pub fn select_arm_with(&self, u: u32, explore: usize) -> (arm: usize)
        requires
            self.inv(),
            explore < self.k_spec(),
        ensures
            arm < self.k_spec(),
            u < self.epsilon_spec() ==> arm == explore,
            u >= self.epsilon_spec() ==> is_first_max(self.estimates_spec(), arm as int),
    {
        if u < self.epsilon {
            explore
        } else {
            best_rat_of(&self.estimates)
        }
    }

    /// The pull count of one arm.
    pub fn pull_count(&self, arm: usize) -> (c: u64)
        requires
            self.inv(),
            arm < self.k_spec(),
        ensures
            c == self.counts()[arm as int],
    {
        self.count[arm]
    }

    /// The estimated value of one arm, as an exact rational.
    pub fn estimate(&self, arm: usize) -> (e: Rat)
        requires
            self.inv(),
            arm < self.k_spec(),
        ensures
            e == self.estimates_spec()[arm as int],
    {
        self.estimates[arm]
    }
}

impl Strategy for EpsilonGreedy {
    open spec fn arms(&self) -> int {
        self.k_spec()
    }

    open spec fn wf(&self) -> bool {
        self.inv()
    }

    open spec fn pulls(&self) -> Seq<u64> {
        self.counts()
    }

    open spec fn ests(&self) -> Seq<Rat> {
        self.estimates_spec()
    }

    proof fn wf_facts(&self) {
    }

    /// Draw u uniform over [0, UNIT]; explore a uniformly random arm when
    /// u < epsilon, else exploit the first maximum of the estimates. Under a
    /// replay source both draws, and so the chosen arm, are functions of the
    /// source's state alone.
    fn select_arm(&self, rng: &mut RandomSource) -> (arm: usize)
        ensures
            old(rng).ambient ==> *final(rng) == *old(rng),
            !old(rng).ambient ==> ({
                let u = old(rng).peek_unit();
                &&& (u < self.epsilon_spec() ==> arm as int == old(rng).advanced().peek_raw() as int
                    % self.k_spec() && *final(rng) == old(rng).advanced().advanced())
                &&& (u >= self.epsilon_spec() ==> is_first_max(self.estimates_spec(), arm as int)
                    && *final(rng) == old(rng).advanced())
            }),
    {
        let u = rng.next_unit();
        if u < self.epsilon {
            rng.next_index(self.k)
        } else {
            best_rat_of(&self.estimates)
        }
    }

    fn update(&mut self, arm: usize, reward: u32) {
        let c = self.count[arm];
        self.count[arm] = c + 1;
        let e = self.estimates[arm];
        let num = if c == 0 {
            reward as u64
        } else {
            e.num + reward as u64
        };
        self.estimates[arm] = Rat { num, den: c + 1 };
    }
}

} // verus!
