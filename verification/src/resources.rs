//! State that belongs to a world as a whole rather than to one module.

use crate::events::{EnergyChangeEvent, EnergyTransfer};
use vstd::prelude::*;

verus! {

/// The number of external ticks that a world has seen.
#[derive(Clone, Copy, Debug, PartialEq, Eq, Structural)]
pub struct TickCounter {
    pub count: u64,
}

impl Default for TickCounter {
    fn default() -> (t: Self)
        ensures
            t.count == 0,
    {
        TickCounter { count: 0 }
    }
}

/// Whether the current tick is a simulation step, and how much is waiting.
#[derive(Clone, Copy, Debug, PartialEq, Eq, Structural)]
pub struct BatchProcessor {
    pub should_process: bool,
    pub pending_changes: u32,
}

impl Default for BatchProcessor {
    fn default() -> (b: Self)
        ensures
            b == (BatchProcessor { should_process: false, pending_changes: 0 }),
    {
        BatchProcessor { should_process: false, pending_changes: 0 }
    }
}

/// The transfers that the last step planned, and those that it carried out.
#[derive(Debug)]
pub struct EnergyTransferBatch {
    pub pending_transfers: Vec<EnergyTransfer>,
    pub completed_transfers: Vec<EnergyTransfer>,
}

impl Default for EnergyTransferBatch {
    fn default() -> (b: Self)
        ensures
            b.pending_transfers@ == Seq::<EnergyTransfer>::empty(),
            b.completed_transfers@ == Seq::<EnergyTransfer>::empty(),
    {
        EnergyTransferBatch { pending_transfers: Vec::new(), completed_transfers: Vec::new() }
    }
}

/// The energy changes of the last step, in the order in which they happened.
#[derive(Debug)]
pub struct EnergyEventBatch {
    pub events: Vec<EnergyChangeEvent>,
}

impl Default for EnergyEventBatch {
    fn default() -> (b: Self)
        ensures
            b.events@ == Seq::<EnergyChangeEvent>::empty(),
    {
        EnergyEventBatch { events: Vec::new() }
    }
}

/// The progress made in the last step: for each module that moved, by how much.
/// A cycle that ended is recorded with its whole length.
#[derive(Debug)]
pub struct ProcessingChangeBatch {
    pub changes: Vec<(u64, i32)>,
}

impl Default for ProcessingChangeBatch {
    fn default() -> (b: Self)
        ensures
            b.changes@ == Seq::<(u64, i32)>::empty(),
    {
        ProcessingChangeBatch { changes: Vec::new() }
    }
}

} // verus!
