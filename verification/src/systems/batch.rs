//! The scheduler that lets a simulation step run on every fourth tick only.
//!
//! Between two steps the values that the host can read stay as the last step
//! left them: rates act in jumps of four ticks' worth, by design.

use crate::resources::{BatchProcessor, EnergyEventBatch, TickCounter};
use vstd::prelude::*;

verus! {

/// A simulation step runs on every tick whose number is a multiple of this.
pub const BATCH_INTERVAL: u64 = 4;

/// Whether the tick with this number is a simulation step.
pub open spec fn is_step_tick(count: u64) -> bool {
    count % BATCH_INTERVAL == 0
}

/// A counter of pending changes after one more: it stops at its largest value.
pub open spec fn one_more_pending(pending: u32) -> u32 {
    if pending < u32::MAX {
        (pending + 1) as u32
    } else {
        pending
    }
}

/// A number of events as a counter of pending changes: cut at its largest value.
pub open spec fn pending_from_len(len: nat) -> u32 {
    if len <= u32::MAX {
        len as u32
    } else {
        u32::MAX
    }
}

/// Counts one more tick and decides whether it is a simulation step.
pub fn batch_timing_system(tick_counter: &mut TickCounter, batch_processor: &mut BatchProcessor)
    requires
        old(tick_counter).count < u64::MAX,
    ensures
        final(tick_counter).count == old(tick_counter).count + 1,
        final(batch_processor).should_process == is_step_tick(final(tick_counter).count),
        final(batch_processor).pending_changes == old(batch_processor).pending_changes,
{
    tick_counter.count = tick_counter.count + 1;
    batch_processor.should_process = tick_counter.count % BATCH_INTERVAL == 0;
}

/// Brings the counter of pending changes up to date: on a simulation step it is
/// the number of events that the step left, on any other tick it grows by one.
pub fn batch_stats_system(
    tick_counter: &TickCounter,
    event_batch: &EnergyEventBatch,
    batch_processor: &mut BatchProcessor,
)
    ensures
        final(batch_processor).should_process == old(batch_processor).should_process,
        final(batch_processor).pending_changes == if old(batch_processor).should_process {
            pending_from_len(event_batch.events@.len())
        } else {
            one_more_pending(old(batch_processor).pending_changes)
        },
{
    if batch_processor.should_process {
        let len = event_batch.events.len();
        batch_processor.pending_changes = if len <= u32::MAX as usize {
            len as u32
        } else {
            u32::MAX
        };
    } else if batch_processor.pending_changes < u32::MAX {
        batch_processor.pending_changes = batch_processor.pending_changes + 1;
    }
}

/// Remembers whether the systems of a step are to run on this tick.
#[derive(Clone, Copy, Debug, PartialEq, Eq, Structural)]
pub struct BatchSystemRunner {
    pub should_run: bool,
}

impl BatchSystemRunner {
    /// A runner that runs nothing until it is told otherwise.
    pub fn new() -> (r: Self)
        ensures
            !r.should_run,
    {
        BatchSystemRunner { should_run: false }
    }

    /// Takes over the decision of the scheduler.
    pub fn update(&mut self, batch_processor: &BatchProcessor)
        ensures
            final(self).should_run == batch_processor.should_process,
    {
        self.should_run = batch_processor.should_process;
    }

    /// Runs `system` if this tick is a simulation step, and not otherwise.
    pub fn run_if_needed<F: FnOnce()>(&self, system: F) -> (ran: bool)
        requires
            self.should_run ==> system.requires(()),
        ensures
            ran == self.should_run,
            ran ==> system.ensures((), ()),
    {
        if self.should_run {
            system();
            true
        } else {
            false
        }
    }
}

/// Empties the event batch once a simulation step has been dealt with.
pub fn batch_cleanup_system(event_batch: &mut EnergyEventBatch, batch_processor: &BatchProcessor)
    ensures
        final(event_batch).events@ == if batch_processor.should_process {
            Seq::<crate::events::EnergyChangeEvent>::empty()
        } else {
            old(event_batch).events@
        },
{
    if batch_processor.should_process {
        event_batch.events.clear();
    }
}

/// Of any four ticks in a row exactly one is a simulation step.
pub proof fn lemma_one_step_in_four(count: u64)
    requires
        count <= u64::MAX - 3,
    ensures
        (if is_step_tick(count) {
            1int
        } else {
            0int
        }) + (if is_step_tick((count + 1) as u64) {
            1int
        } else {
            0int
        }) + (if is_step_tick((count + 2) as u64) {
            1int
        } else {
            0int
        }) + (if is_step_tick((count + 3) as u64) {
            1int
        } else {
            0int
        }) == 1,
{
}

} // verus!
