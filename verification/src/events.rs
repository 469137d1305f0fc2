//! Records of what a step did, kept for the host.

use vstd::prelude::*;

verus! {

/// A transfer of energy between two modules: asked for, or carried out.
#[derive(Clone, Copy, Debug, PartialEq, Eq)]
pub struct EnergyTransfer {
    pub from_entity: u64,
    pub to_entity: u64,
    pub amount: i32,
    /// The step from the source to the sink, where it is known.
    pub direction: (i32, i32, i32),
}

impl EnergyTransfer {
    /// A transfer whose direction is not recorded.
    pub fn new(from_entity: u64, to_entity: u64, amount: i32) -> (t: Self)
        ensures
            t == (EnergyTransfer { from_entity, to_entity, amount, direction: (0i32, 0i32, 0i32) }),
    {
        EnergyTransfer { from_entity, to_entity, amount, direction: (0, 0, 0) }
    }

    /// The same transfer with `direction` recorded.
    pub fn with_direction(self, direction: (i32, i32, i32)) -> (t: Self)
        ensures
            t == (EnergyTransfer { direction, ..self }),
    {
        EnergyTransfer {
            from_entity: self.from_entity,
            to_entity: self.to_entity,
            amount: self.amount,
            direction,
        }
    }
}

/// The energy of a module before and after a change, with its capacity.
#[derive(Clone, Copy, Debug, PartialEq, Eq, Structural)]
pub struct EnergyChangeEvent {
    pub entity: u64,
    pub old_energy: i32,
    pub new_energy: i32,
    pub max_capacity: i32,
}

impl EnergyChangeEvent {
    pub fn new(entity: u64, old_energy: i32, new_energy: i32, max_capacity: i32) -> (e: Self)
        ensures
            e == (EnergyChangeEvent { entity, old_energy, new_energy, max_capacity }),
    {
        EnergyChangeEvent { entity, old_energy, new_energy, max_capacity }
    }

    /// By how much the energy rose; negative where it fell.
    pub fn energy_delta(&self) -> (d: i32)
        requires
            i32::MIN <= self.new_energy - self.old_energy <= i32::MAX,
        ensures
            d == self.new_energy - self.old_energy,
    {
        self.new_energy - self.old_energy
    }

    /// By how much the energy rose, or `None` where the difference does not fit.
    pub fn checked_energy_delta(&self) -> (d: Option<i32>)
        ensures
            d == if i32::MIN <= self.new_energy - self.old_energy <= i32::MAX {
                Some((self.new_energy - self.old_energy) as i32)
            } else {
                None
            },
    {
        let wide: i64 = (self.new_energy as i64) - (self.old_energy as i64);
        if wide >= i32::MIN as i64 && wide <= i32::MAX as i64 {
            Some(wide as i32)
        } else {
            None
        }
    }

    pub fn is_increase(&self) -> (r: bool)
        ensures
            r == (self.new_energy > self.old_energy),
    {
        self.new_energy > self.old_energy
    }

    pub fn is_decrease(&self) -> (r: bool)
        ensures
            r == (self.new_energy < self.old_energy),
    {
        self.new_energy < self.old_energy
    }

    pub fn has_changed(&self) -> (r: bool)
        ensures
            r == (self.old_energy != self.new_energy),
    {
        self.old_energy != self.new_energy
    }
}

/// A work cycle that came to its end.
#[derive(Clone, Debug)]
pub struct ProcessingCompleteEvent {
    pub entity: u64,
    pub processing_type: String,
    /// The length of the cycle, in units of progress.
    pub duration: i32,
}

/// What happened to a module as a whole.
#[derive(Clone, Debug)]
pub enum ModuleEvent {
    Spawned { entity: u64, module_type: String },
    Despawned { entity: u64 },
    StateChanged { entity: u64, old_state: String, new_state: String },
}

} // verus!
