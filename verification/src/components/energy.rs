//! Integer energy accounting of a single module.

use vstd::prelude::*;

verus! {

/// The smaller of two integers.
pub open spec fn min_int(a: int, b: int) -> int {
    if a <= b {
        a
    } else {
        b
    }
}

/// The larger of two integers.
pub open spec fn max_int(a: int, b: int) -> int {
    if a >= b {
        a
    } else {
        b
    }
}

/// Energy held by a module, with its rates and its transfer capabilities.
#[derive(Clone, Copy, Debug, PartialEq, Eq, Structural)]
pub struct EnergyComponent {
    pub current: i32,
    pub max_capacity: i32,
    pub generation_rate: i32,
    pub consumption_rate: i32,
    pub max_transfer_rate: i32,
    pub can_receive: bool,
    pub can_extract: bool,
}

impl EnergyComponent {
    /// The stored amount lies between zero and the capacity.
    pub open spec fn wf(self) -> bool {
        0 <= self.current <= self.max_capacity
    }

    /// The same component holding `current`.
    pub open spec fn with_current(self, current: int) -> EnergyComponent {
        EnergyComponent { current: current as i32, ..self }
    }

    /// What one step may take out at most: the transfer rate or what is stored.
    pub open spec fn extractable(self) -> int {
        if self.can_extract {
            min_int(self.max_transfer_rate as int, self.current as int)
        } else {
            0
        }
    }

    /// What one step may put in at most: the transfer rate or the free capacity.
    pub open spec fn receivable(self) -> int {
        if self.can_receive {
            min_int(self.max_transfer_rate as int, self.max_capacity - self.current)
        } else {
            0
        }
    }

    /// The amount that a request to extract `max_amount` takes out: never negative.
    pub open spec fn extracted(self, max_amount: int) -> int {
        max_int(0, min_int(self.extractable(), max_amount))
    }

    /// The amount that an offer of `amount` puts in: never negative.
    pub open spec fn received(self, amount: int) -> int {
        max_int(0, min_int(self.receivable(), amount))
    }

    /// The stored amount after generation: capped at the capacity.
    pub open spec fn generated_level(self) -> int {
        if self.generation_rate > 0 {
            min_int(self.current + self.generation_rate, self.max_capacity as int)
        } else {
            self.current as int
        }
    }

    /// The stored amount after consumption: floored at zero.
    pub open spec fn consumed_level(self) -> int {
        if self.consumption_rate > 0 {
            max_int(self.current - self.consumption_rate, 0)
        } else {
            self.current as int
        }
    }

    /// The component after one step of generation followed by consumption.
    pub open spec fn stepped(self) -> EnergyComponent {
        let generated = self.with_current(self.generated_level());
        generated.with_current(generated.consumed_level())
    }

    /// The component after the host set its level to `value`, clamped into range.
    pub open spec fn with_level_clamped(self, value: int) -> EnergyComponent {
        self.with_current(min_int(max_int(value, 0), self.max_capacity as int))
    }

    /// An empty generator: it produces and may be drained, and accepts nothing.
    pub fn generator(max_capacity: i32, generation_rate: i32, transfer_rate: i32) -> (e: Self)
        ensures
            e == (EnergyComponent {
                current: 0,
                max_capacity,
                generation_rate,
                consumption_rate: 0,
                max_transfer_rate: transfer_rate,
                can_receive: false,
                can_extract: true,
            }),
    {
        EnergyComponent {
            current: 0,
            max_capacity,
            generation_rate,
            consumption_rate: 0,
            max_transfer_rate: transfer_rate,
            can_receive: false,
            can_extract: true,
        }
    }

    /// An empty storage unit: it accepts energy and may be drained.
    pub fn storage(max_capacity: i32, transfer_rate: i32) -> (e: Self)
        ensures
            e == (EnergyComponent {
                current: 0,
                max_capacity,
                generation_rate: 0,
                consumption_rate: 0,
                max_transfer_rate: transfer_rate,
                can_receive: true,
                can_extract: true,
            }),
    {
        EnergyComponent {
            current: 0,
            max_capacity,
            generation_rate: 0,
            consumption_rate: 0,
            max_transfer_rate: transfer_rate,
            can_receive: true,
            can_extract: true,
        }
    }

    /// A consumer without a buffer of its own: it accepts energy and gives none back.
    pub fn consumer(consumption_rate: i32, transfer_rate: i32) -> (e: Self)
        ensures
            e == (EnergyComponent {
                current: 0,
                max_capacity: 0,
                generation_rate: 0,
                consumption_rate,
                max_transfer_rate: transfer_rate,
                can_receive: true,
                can_extract: false,
            }),
    {
        EnergyComponent {
            current: 0,
            max_capacity: 0,
            generation_rate: 0,
            consumption_rate,
            max_transfer_rate: transfer_rate,
            can_receive: true,
            can_extract: false,
        }
    }

    /// Whether `amount` could be taken out of what is stored.
    pub fn can_provide_energy(&self, amount: i32) -> (r: bool)
        ensures
            r == (self.can_extract && self.current >= amount),
    {
        self.can_extract && self.current >= amount
    }

    /// Whether `amount` more would still fit under the capacity.
    pub fn can_accept_energy(&self, amount: i32) -> (r: bool)
        ensures
            r == (self.can_receive && self.current + amount <= self.max_capacity),
    {
        self.can_receive && (self.current as i64) + (amount as i64) <= (self.max_capacity as i64)
    }

    /// The most that one step may take out.
    pub fn max_extractable(&self) -> (r: i32)
        ensures
            r == self.extractable(),
    {
        if self.can_extract {
            if self.max_transfer_rate <= self.current {
                self.max_transfer_rate
            } else {
                self.current
            }
        } else {
            0
        }
    }

    /// The most that one step may put in.
    pub fn max_receivable(&self) -> (r: i32)
        requires
            self.wf(),
        ensures
            r == self.receivable(),
    {
        if self.can_receive {
            let headroom: i32 = self.max_capacity - self.current;
            if self.max_transfer_rate <= headroom {
                self.max_transfer_rate
            } else {
                headroom
            }
        } else {
            0
        }
    }

    /// Takes out up to `max_amount` and returns what was taken.
    pub fn extract_energy(&mut self, max_amount: i32) -> (taken: i32)
        requires
            old(self).wf(),
        ensures
            taken == old(self).extracted(max_amount as int),
            *final(self) == old(self).with_current(old(self).current - taken),
            final(self).wf(),
            0 <= taken <= old(self).current,
    {
        let limit: i32 = self.max_extractable();
        let bounded: i32 = if limit <= max_amount {
            limit
        } else {
            max_amount
        };
        let taken: i32 = if bounded > 0 {
            bounded
        } else {
            0
        };
        self.current = self.current - taken;
        taken
    }

    /// Puts in up to `amount` and returns what was accepted.
    pub fn receive_energy(&mut self, amount: i32) -> (accepted: i32)
        requires
            old(self).wf(),
        ensures
            accepted == old(self).received(amount as int),
            *final(self) == old(self).with_current(old(self).current + accepted),
            final(self).wf(),
            0 <= accepted <= old(self).max_capacity - old(self).current,
    {
        let limit: i32 = self.max_receivable();
        let bounded: i32 = if limit <= amount {
            limit
        } else {
            amount
        };
        let accepted: i32 = if bounded > 0 {
            bounded
        } else {
            0
        };
        self.current = self.current + accepted;
        accepted
    }

    /// Adds one step of generation and returns the gain.
    pub fn generate(&mut self) -> (gain: i32)
        requires
            old(self).wf(),
        ensures
            *final(self) == old(self).with_current(old(self).generated_level()),
            gain == final(self).current - old(self).current,
            gain >= 0,
            final(self).wf(),
    {
        let before: i32 = self.current;
        if self.generation_rate > 0 {
            let raised: i64 = (self.current as i64) + (self.generation_rate as i64);
            if raised <= self.max_capacity as i64 {
                self.current = raised as i32;
            } else {
                self.current = self.max_capacity;
            }
        }
        self.current - before
    }

    /// Removes one step of consumption and returns the loss.
    pub fn consume(&mut self) -> (loss: i32)
        requires
            old(self).wf(),
        ensures
            *final(self) == old(self).with_current(old(self).consumed_level()),
            loss == old(self).current - final(self).current,
            loss >= 0,
            final(self).wf(),
    {
        let before: i32 = self.current;
        if self.consumption_rate > 0 {
            if self.current >= self.consumption_rate {
                self.current = self.current - self.consumption_rate;
            } else {
                self.current = 0;
            }
        }
        before - self.current
    }

    /// Sets the stored amount to `value`, clamped between zero and the capacity.
    pub fn set_level(&mut self, value: i32)
        requires
            old(self).max_capacity >= 0,
        ensures
            *final(self) == old(self).with_level_clamped(value as int),
            final(self).wf(),
    {
        let floored: i32 = if value > 0 {
            value
        } else {
            0
        };
        self.current = if floored <= self.max_capacity {
            floored
        } else {
            self.max_capacity
        };
    }
}

impl Default for EnergyComponent {
    /// A storage unit of capacity 1000 and transfer rate 100.
    fn default() -> (e: Self)
        ensures
            e == (EnergyComponent {
                current: 0,
                max_capacity: 1000,
                generation_rate: 0,
                consumption_rate: 0,
                max_transfer_rate: 100,
                can_receive: true,
                can_extract: true,
            }),
    {
        EnergyComponent::storage(1000, 100)
    }
}

/// A step of generation and consumption keeps the stored amount in range.
pub proof fn lemma_stepped_wf(e: EnergyComponent)
    requires
        e.wf(),
    ensures
        e.stepped().wf(),
        e.stepped().max_capacity == e.max_capacity,
{
}

} // verus!
