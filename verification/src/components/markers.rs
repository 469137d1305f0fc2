//! Role markers that the lifecycle pass attaches to a module, and the record of
//! what the host has last been told about it.

use vstd::prelude::*;

verus! {

/// Marks a module as a generator, with the figures that generation goes by.
#[derive(Clone, Copy, Debug, PartialEq, Eq, Structural)]
pub struct EnergyGenerator {
    pub generation_rate: i32,
    pub max_capacity: i32,
}

/// Marks a module as a storage unit.
#[derive(Clone, Copy, Debug, PartialEq, Eq, Structural)]
pub struct EnergyStorage {
    pub max_capacity: i32,
    pub max_transfer_rate: i32,
}

/// Marks a module as a consumer, with the amount it uses up in one step.
#[derive(Clone, Copy, Debug, PartialEq, Eq, Structural)]
pub struct EnergyConsumer {
    pub consumption_rate: i32,
}

/// Whether a module has news for the host, and when the host was last told.
#[derive(Clone, Debug)]
pub struct JavaModuleSync {
    pub module_id: String,
    pub needs_sync: bool,
    pub last_sync_tick: u64,
}

} // verus!
