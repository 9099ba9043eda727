use vstd::prelude::*;

use crate::rng::RandomSource;
use crate::rng::UNIT;

verus! {

/// The errors the simulation raises: a bad construction parameter, or an
/// arm index outside the bandit's range.
#[derive(Clone, Copy, Debug, PartialEq, Eq, Structural)]
pub enum BanditError {
    InvalidParameter,
    IndexOutOfRange,
}

/// The ground-truth environment: `k` arms, each with a hidden success
/// probability `probes[i]` (fixed-point, in [0, UNIT]). `best_idx` and
/// `best_probe` are the argmax and maximum of `probes`, ties broken by the
/// lowest index. Immutable after construction.
pub struct Bandit {
    pub k: usize,
    pub probes: Vec<u32>,
    pub best_idx: usize,
    pub best_probe: u32,
}

impl Bandit {
    /// Well-formedness: probabilities are in range and the derived fields
    /// name the first maximum.
    pub open spec fn wf(&self) -> bool {
        &&& self.k >= 1
        &&& self.probes@.len() == self.k
        &&& forall|i: int| 0 <= i < self.probes@.len() ==> #[trigger] self.probes@[i] <= UNIT
        &&& self.best_idx < self.k
        &&& self.probes@[self.best_idx as int] == self.best_probe
        &&& forall|i: int| 0 <= i < self.probes@.len() ==> #[trigger] self.probes@[i]
            <= self.best_probe
        &&& forall|i: int| 0 <= i < self.best_idx ==> #[trigger] self.probes@[i] < self.best_probe
    }

    /// Construct a bandit over the given probabilities. Fails when none is
    /// given or one lies outside [0, UNIT].
    pub fn with_probes(probes: Vec<u32>) -> (r: Result<Bandit, BanditError>)
        ensures
            match r {
                Ok(b) => {
                    &&& probes@.len() >= 1
                    &&& forall|i: int|
                        0 <= i < probes@.len() ==> #[trigger] probes@[i] <= UNIT
                    &&& b.wf()
                    &&& b.k == probes@.len()
                    &&& b.probes@ == probes@
                },
                Err(e) => {
                    &&& e == BanditError::InvalidParameter
                    &&& (probes@.len() == 0 || exists|i: int|
                        0 <= i < probes@.len() && #[trigger] probes@[i] > UNIT)
                },
            },
    {
        if probes.len() == 0 {
            return Err(BanditError::InvalidParameter);
        }
        let mut i: usize = 0;
        while i < probes.len()
            invariant
                i <= probes@.len(),
                forall|j: int| 0 <= j < i ==> #[trigger] probes@[j] <= UNIT,
            decreases probes@.len() - i,
        {
            if probes[i] > UNIT {
                return Err(BanditError::InvalidParameter);
            }
            i = i + 1;
        }
        let (best_idx, best_probe) = best_of(&probes);
        let k = probes.len();
        Ok(Bandit { k, probes, best_idx, best_probe })
    }

    /// Construct a bandit with `k` arms, each probability drawn uniformly
    /// from [0, UNIT] by the process-wide generator. Fails when `k` is 0.
    pub fn new(k: usize) -> (r: Result<Bandit, BanditError>)
        ensures
            match r {
                Ok(b) => k >= 1 && b.wf() && b.k == k,
                Err(e) => k == 0 && e == BanditError::InvalidParameter,
            },
    {
        if k == 0 {
            return Err(BanditError::InvalidParameter);
        }
        let mut probes: Vec<u32> = Vec::new();
        let mut i: usize = 0;
        while i < k
            invariant
                i <= k,
                probes@.len() == i,
                forall|j: int| 0 <= j < i ==> #[trigger] probes@[j] <= UNIT,
            decreases k - i,
        {
            probes.push(crate::rng::rand_unit());
            i = i + 1;
        }
        let (best_idx, best_probe) = best_of(&probes);
        Ok(Bandit { k, probes, best_idx, best_probe })
    }

    /// The reward a draw `u` yields on `arm`: 1 when `u` falls below the
    /// arm's probability, else 0.
    pub open spec fn sample_spec(&self, arm: int, u: u32) -> u32 {
        if u < self.probes@[arm] {
            1u32
        } else {
            0u32
        }
    }

    /// Sample `arm` with the already-drawn value `u`: deterministic.
    pub fn sample_with(&self, arm: usize, u: u32) -> (reward: u32)
        requires
            self.wf(),
            arm < self.k,
        ensures
            reward == self.sample_spec(arm as int, u),
            reward <= 1,
    {
        if u < self.probes[arm] {
            1
        } else {
            0
        }
    }

    /// Pull `arm` once: draws one value from `rng` and returns the Bernoulli
    /// reward. Fails, consuming no randomness, when `arm` is out of range.
    pub fn step(&self, arm: usize, rng: &mut RandomSource) -> (r: Result<u32, BanditError>)
        requires
            self.wf(),
        ensures
            match r {
                Ok(reward) => {
                    &&& arm < self.k
                    &&& reward <= 1
                    &&& old(rng).ambient ==> *final(rng) == *old(rng)
                    &&& !old(rng).ambient ==> reward == self.sample_spec(
                        arm as int,
                        old(rng).peek_unit(),
                    ) && *final(rng) == old(rng).advanced()
                },
                Err(e) => {
                    &&& arm >= self.k
                    &&& e == BanditError::IndexOutOfRange
                    &&& *final(rng) == *old(rng)
                },
            },
    {
        if arm < self.k {
            let u = rng.next_unit();
            Ok(self.sample_with(arm, u))
        } else {
            Err(BanditError::IndexOutOfRange)
        }
    }
}

/// The first maximum of a non-empty list: its index and its value.
fn best_of(values: &Vec<u32>) -> (r: (usize, u32))
    requires
        values@.len() >= 1,
    ensures
        r.0 < values@.len(),
        values@[r.0 as int] == r.1,
        forall|j: int| 0 <= j < values@.len() ==> #[trigger] values@[j] <= r.1,
        forall|j: int| 0 <= j < r.0 ==> #[trigger] values@[j] < r.1,
{
    let mut best_idx: usize = 0;
    let mut best: u32 = values[0];
    let mut i: usize = 1;
    while i < values.len()
        invariant
            1 <= i <= values@.len(),
            best_idx < i,
            values@[best_idx as int] == best,
            forall|j: int| 0 <= j < i ==> #[trigger] values@[j] <= best,
            forall|j: int| 0 <= j < best_idx ==> #[trigger] values@[j] < best,
        decreases values@.len() - i,
    {
        if values[i] > best {
            best_idx = i;
            best = values[i];
        }
        i = i + 1;
    }
    (best_idx, best)
}

} // verus!
