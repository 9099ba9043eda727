use vstd::prelude::*;

verus! {

/// Fixed-point scale for probabilities: a probability p in [0, 1] is held as
/// an integer in [0, UNIT], standing for the fraction p = value / UNIT.
pub const UNIT: u32 = 1_000_000;

/// Relies on rand::thread_rng and rand::Rng::gen_range on `0..=UNIT`:
/// gen_range returns a value in the given range and panics only when the
/// range is empty, which `0..=UNIT` never is.
#[verifier::external_body]
pub(crate) fn rand_unit() -> (u: u32)
    ensures
        u <= UNIT,
{
    rand::Rng::gen_range(&mut rand::thread_rng(), 0..=UNIT)
}

/// Relies on rand::thread_rng and rand::Rng::gen_range on `0..n`:
/// gen_range returns a value in the given range and panics only when the
/// range is empty, which `0..n` is not for n >= 1.
#[verifier::external_body]
fn rand_index(n: usize) -> (i: usize)
    requires
        n >= 1,
    ensures
        i < n,
{
    rand::Rng::gen_range(&mut rand::thread_rng(), 0..n)
}

/// A source of randomness, passed explicitly into every draw so that tests
/// can substitute a fixed sequence. `ambient` sources draw from the
/// process-wide generator; replay sources walk a fixed list of values and
/// are fully deterministic.
pub struct RandomSource {
    pub ambient: bool,
    pub values: Vec<u32>,
    pub pos: usize,
}

impl RandomSource {
    /// The raw value the next replay draw reads: the current list entry,
    /// or 0 once the list is exhausted.
    pub open spec fn peek_raw(&self) -> u32 {
        if self.pos < self.values@.len() {
            self.values@[self.pos as int]
        } else {
            0u32
        }
    }

    /// The value the next unit draw returns under replay: the raw value,
    /// clamped into [0, UNIT].
    pub open spec fn peek_unit(&self) -> u32 {
        if self.peek_raw() > UNIT {
            UNIT
        } else {
            self.peek_raw()
        }
    }

    /// The replay state after one draw: the position moves one entry
    /// forward until the list is exhausted.
    pub open spec fn advanced(&self) -> RandomSource {
        RandomSource {
            ambient: self.ambient,
            values: self.values,
            pos: if self.pos < self.values@.len() {
                (self.pos + 1) as usize
            } else {
                self.pos
            },
        }
    }

    /// A source that draws from the process-wide generator.
    pub fn ambient() -> (s: RandomSource)
        ensures
            s.ambient,
    {
        RandomSource { ambient: true, values: Vec::new(), pos: 0 }
    }

    /// A deterministic source that replays the given values in order.
    pub fn replay(values: Vec<u32>) -> (s: RandomSource)
        ensures
            !s.ambient,
            s.values@ == values@,
            s.pos == 0,
    {
        RandomSource { ambient: false, values, pos: 0 }
    }

    /// Draw one value uniform over [0, UNIT] (ambient), or the next replay
    /// value clamped into that range.
    pub fn next_unit(&mut self) -> (u: u32)
        ensures
            u <= UNIT,
            old(self).ambient ==> *final(self) == *old(self),
            !old(self).ambient ==> u == old(self).peek_unit() && *final(self) == old(self).advanced(),
    {
        if self.ambient {
            rand_unit()
        } else {
            let raw: u32 = if self.pos < self.values.len() {
                let v = self.values[self.pos];
                self.pos = self.pos + 1;
                v
            } else {
                0
            };
            if raw > UNIT {
                UNIT
            } else {
                raw
            }
        }
    }

    /// Draw one index uniform over [0, n) (ambient), or the next replay
    /// value reduced modulo n.
    pub fn next_index(&mut self, n: usize) -> (i: usize)
        requires
            n >= 1,
        ensures
            i < n,
            old(self).ambient ==> *final(self) == *old(self),
            !old(self).ambient ==> i == old(self).peek_raw() as usize % n && *final(self) == old(
                self,
            ).advanced(),
    {
        if self.ambient {
            rand_index(n)
        } else {
            let raw: u32 = if self.pos < self.values.len() {
                let v = self.values[self.pos];
                self.pos = self.pos + 1;
                v
            } else {
                0
            };
            (raw as usize) % n
        }
    }
}

} // verus!
