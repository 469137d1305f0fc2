//! Progress of work cycles, gated by the energy of the module that works.
//!
//! A module that also holds energy works only while it has some. It is switched
//! off when it runs dry and switched on again, by a pass of its own, only once
//! its energy has risen above a higher mark, so that it does not flicker around
//! a single threshold.

use crate::components::processing::ProcessingComponent;
use crate::resources::ProcessingChangeBatch;
use crate::store::{modules_wf, Module, Store};
use vstd::prelude::*;

verus! {

/// A working module needs more energy than this to go on.
pub const ACTIVATION_THRESHOLD: i32 = 0;

/// A module that was switched off needs more energy than this to start again.
pub const REACTIVATION_THRESHOLD: i32 = 20;

/// The energy that one unit of speed costs in one step of paid processing.
pub const ENERGY_PER_SPEED_UNIT: i32 = 2;

/// What the change batch records for a cycle that ended.
pub const CYCLE_COMPLETE_MARK: i32 = 100;

/// Whether the module holds energy and has too little of it to work.
pub open spec fn lacks_energy(module: Module) -> bool {
    module.energy matches Some(e) && e.current <= ACTIVATION_THRESHOLD
}

/// What the change batch records of one step from `before` to its successor:
/// the mark of a completed cycle, the progress made, or nothing where none was made.
pub open spec fn progress_record(entity: u64, before: ProcessingComponent) -> Option<(u64, i32)> {
    if before.completes() {
        Some((entity, CYCLE_COMPLETE_MARK))
    } else if before.ticked().current_progress != before.current_progress {
        Some((entity, (before.ticked().current_progress - before.current_progress) as i32))
    } else {
        None
    }
}

/// The module after the processing pass: an active module without the energy to
/// work is switched off, every other active module advances by one step.
pub open spec fn processing_step(module: Module) -> Module {
    match module.processing {
        Some(p) => if !p.is_active {
            module
        } else if lacks_energy(module) {
            module.with_processing(ProcessingComponent { is_active: false, ..p })
        } else {
            module.with_processing(p.ticked())
        },
        None => module,
    }
}

/// What the processing pass records of the module.
pub open spec fn processing_change(module: Module) -> Option<(u64, i32)> {
    match module.processing {
        Some(p) => if p.is_active && !lacks_energy(module) {
            progress_record(module.entity, p)
        } else {
            None
        },
        None => None,
    }
}

/// The records after the processing pass.
pub open spec fn processing_pass(modules: Seq<Module>) -> Seq<Module> {
    Seq::new(modules.len(), |i: int| processing_step(modules[i]))
}

/// What the processing pass records, in the order of the store.
pub open spec fn processing_changes(modules: Seq<Module>) -> Seq<(u64, i32)>
    decreases modules.len(),
{
    if modules.len() == 0 {
        Seq::empty()
    } else {
        let before = processing_changes(modules.drop_last());
        match processing_change(modules.last()) {
            Some(change) => before.push(change),
            None => before,
        }
    }
}

/// Advances `processing` by one step and says what the change batch records of it.
fn advance(entity: u64, processing: &mut ProcessingComponent) -> (record: Option<(u64, i32)>)
    requires
        old(processing).wf(),
        old(processing).is_active,
    ensures
        *final(processing) == old(processing).ticked(),
        record == progress_record(entity, *old(processing)),
        final(processing).wf(),
{
    let before: i32 = processing.current_progress;
    let completed = processing.tick();
    if completed {
        Some((entity, CYCLE_COMPLETE_MARK))
    } else if before != processing.current_progress {
        Some((entity, processing.current_progress - before))
    } else {
        None
    }
}

/// The processing pass. It starts the change batch afresh. Every active module
/// advances by one step, unless it holds energy and has none left: such a module
/// is switched off instead.
pub fn processing_system(store: &mut Store, change_batch: &mut ProcessingChangeBatch)
    requires
        old(store).wf(),
    ensures
        final(store)@ == processing_pass(old(store)@),
        final(change_batch).changes@ == processing_changes(old(store)@),
        final(store).clock() == old(store).clock(),
        final(store).wf(),
{
    change_batch.changes.clear();
    let n = store.len();
    let ghost before = store@;
    let ghost clock = store.clock();
    let mut i: usize = 0;
    while i < n
        invariant
            i <= n,
            n == before.len(),
            store@.len() == n,
            store.wf(),
            store.clock() == clock,
            modules_wf(before, clock),
            forall|k: int| 0 <= k < i ==> #[trigger] store@[k] == processing_step(before[k]),
            forall|k: int| i <= k < n ==> #[trigger] store@[k] == before[k],
            change_batch.changes@ == processing_changes(before.take(i as int)),
        decreases n - i,
    {
        proof {
            let upto = before.take(i as int + 1);
            assert(upto.drop_last() =~= before.take(i as int));
        }
        let module = store.module_at(i);
        let entity = module.entity;
        let dry = match module.energy {
            Some(energy) => energy.current <= ACTIVATION_THRESHOLD,
            None => false,
        };
        match module.processing {
            Some(processing) => {
                if processing.is_active {
                    let mut next = processing;
                    if dry {
                        next.set_active(false);
                    } else {
                        match advance(entity, &mut next) {
                            Some(change) => {
                                change_batch.changes.push(change);
                            },
                            None => {},
                        }
                    }
                    store.set_processing_at(i, next);
                }
            },
            None => {},
        }
        i += 1;
    }
    proof {
        assert(before.take(n as int) =~= before);
    }
}

/// The cost of one step of paid processing at the speed of `processing`.
pub open spec fn step_cost(processing: ProcessingComponent) -> int {
    processing.processing_speed * ENERGY_PER_SPEED_UNIT
}

/// Whether the module takes part in paid processing: it works, holds energy and
/// is switched on.
pub open spec fn pays_for_work(module: Module) -> bool {
    module.processing matches Some(p) && p.is_active && module.energy is Some
}

/// The module after the pass of paid processing: where it can pay for a step it
/// pays and advances, where it cannot it is switched off.
pub open spec fn paid_step(module: Module, clock: u64) -> Module {
    if pays_for_work(module) {
        let p = module.processing.unwrap();
        let e = module.energy.unwrap();
        if e.current >= step_cost(p) {
            module.with_energy(e.with_current(e.current - step_cost(p)), clock).with_processing(
                p.ticked(),
            )
        } else {
            module.with_processing(ProcessingComponent { is_active: false, ..p })
        }
    } else {
        module
    }
}

/// What the pass of paid processing records of the module.
pub open spec fn paid_change(module: Module) -> Option<(u64, i32)> {
    if pays_for_work(module) && module.energy.unwrap().current >= step_cost(
        module.processing.unwrap(),
    ) {
        progress_record(module.entity, module.processing.unwrap())
    } else {
        None
    }
}

/// The records after the pass of paid processing.
pub open spec fn paid_pass(modules: Seq<Module>, clock: u64) -> Seq<Module> {
    Seq::new(modules.len(), |i: int| paid_step(modules[i], clock))
}

/// What the pass of paid processing records, in the order of the store.
pub open spec fn paid_changes(modules: Seq<Module>) -> Seq<(u64, i32)>
    decreases modules.len(),
{
    if modules.len() == 0 {
        Seq::empty()
    } else {
        let before = paid_changes(modules.drop_last());
        match paid_change(modules.last()) {
            Some(change) => before.push(change),
            None => before,
        }
    }
}

/// Processing that is paid for in energy: each active module that holds energy
/// pays two units for every unit of its speed and advances by one step. A module
/// that cannot pay is switched off. The records are added to the change batch.
pub fn energy_processing_system(store: &mut Store, change_batch: &mut ProcessingChangeBatch)
    requires
        old(store).wf(),
    ensures
        final(store)@ == paid_pass(old(store)@, old(store).clock()),
        final(change_batch).changes@ == old(change_batch).changes@ + paid_changes(old(store)@),
        final(store).clock() == old(store).clock(),
        final(store).wf(),
{
    let n = store.len();
    let ghost before = store@;
    let ghost clock = store.clock();
    let ghost changes_before = change_batch.changes@;
    let mut i: usize = 0;
    while i < n
        invariant
            i <= n,
            n == before.len(),
            store@.len() == n,
            store.wf(),
            store.clock() == clock,
            modules_wf(before, clock),
            forall|k: int| 0 <= k < i ==> #[trigger] store@[k] == paid_step(before[k], clock),
            forall|k: int| i <= k < n ==> #[trigger] store@[k] == before[k],
            change_batch.changes@ == changes_before + paid_changes(before.take(i as int)),
        decreases n - i,
    {
        proof {
            let upto = before.take(i as int + 1);
            assert(upto.drop_last() =~= before.take(i as int));
        }
        let module = store.module_at(i);
        let entity = module.entity;
        match (module.processing, module.energy) {
            (Some(processing), Some(energy)) => {
                if processing.is_active {
                    let cost: i64 = (processing.processing_speed as i64) * (
                    ENERGY_PER_SPEED_UNIT as i64);
                    let mut next = processing;
                    if energy.current as i64 >= cost {
                        let mut paid = energy;
                        paid.current = ((energy.current as i64) - cost) as i32;
                        match advance(entity, &mut next) {
                            Some(change) => {
                                change_batch.changes.push(change);
                            },
                            None => {},
                        }
                        store.set_energy_at(i, paid);
                    } else {
                        next.set_active(false);
                    }
                    store.set_processing_at(i, next);
                }
            },
            _ => {},
        }
        i += 1;
    }
    proof {
        assert(before.take(n as int) =~= before);
    }
}

/// The module after the pass of reactivation: switched on again where it was off
/// and its energy has risen above the mark.
pub open spec fn reactivation_step(module: Module) -> Module {
    match (module.processing, module.energy) {
        (Some(p), Some(e)) => if !p.is_active && e.current > REACTIVATION_THRESHOLD {
            module.with_processing(ProcessingComponent { is_active: true, ..p })
        } else {
            module
        },
        _ => module,
    }
}

/// The records after the pass of reactivation.
pub open spec fn reactivation_pass(modules: Seq<Module>) -> Seq<Module> {
    Seq::new(modules.len(), |i: int| reactivation_step(modules[i]))
}

/// The pass of reactivation: a module that was switched off is switched on
/// again once it holds more energy than the reactivation mark.
pub fn processing_activation_system(store: &mut Store)
    requires
        old(store).wf(),
    ensures
        final(store)@ == reactivation_pass(old(store)@),
        final(store).clock() == old(store).clock(),
        final(store).wf(),
{
    let n = store.len();
    let ghost before = store@;
    let ghost clock = store.clock();
    let mut i: usize = 0;
    while i < n
        invariant
            i <= n,
            n == before.len(),
            store@.len() == n,
            store.wf(),
            store.clock() == clock,
            modules_wf(before, clock),
            forall|k: int| 0 <= k < i ==> #[trigger] store@[k] == reactivation_step(before[k]),
            forall|k: int| i <= k < n ==> #[trigger] store@[k] == before[k],
        decreases n - i,
    {
        let module = store.module_at(i);
        match (module.processing, module.energy) {
            (Some(processing), Some(energy)) => {
                if !processing.is_active && energy.current > REACTIVATION_THRESHOLD {
                    let mut next = processing;
                    next.set_active(true);
                    store.set_processing_at(i, next);
                }
            },
            _ => {},
        }
        i += 1;
    }
}

/// The processing pass leaves progress at or above zero and strictly below the
/// length of the cycle, on every module that works.
pub proof fn lemma_processing_pass_keeps_progress_in_range(modules: Seq<Module>, clock: u64, i: int)
    requires
        modules_wf(modules, clock),
        0 <= i < modules.len(),
        modules[i].processing is Some,
    ensures
        processing_pass(modules)[i].processing matches Some(p) && 0 <= p.current_progress
            < p.max_progress,
        reactivation_pass(modules)[i].processing matches Some(p) && 0 <= p.current_progress
            < p.max_progress,
        paid_pass(modules, clock)[i].processing matches Some(p) && 0 <= p.current_progress
            < p.max_progress,
{
}

/// A module that was switched off for want of energy stays off through the pass
/// of reactivation as long as its energy is at or below the reactivation mark,
/// and therefore makes no progress in the processing pass that follows.
pub proof fn lemma_no_reactivation_below_mark(module: Module)
    requires
        module.processing matches Some(p) && !p.is_active,
        module.energy matches Some(e) && e.current <= REACTIVATION_THRESHOLD,
    ensures
        reactivation_step(module) == module,
        processing_step(reactivation_step(module)) == module,
        processing_change(reactivation_step(module)) is None,
{
}

/// An active module without energy left is switched off by the processing pass
/// and keeps its progress.
pub proof fn lemma_dry_module_is_switched_off(module: Module)
    requires
        module.processing matches Some(p) && p.is_active,
        module.energy matches Some(e) && e.current <= ACTIVATION_THRESHOLD,
    ensures
        processing_step(module).processing matches Some(p) && !p.is_active && p.current_progress
            == module.processing.unwrap().current_progress,
        processing_change(module) is None,
{
}

} // verus!
