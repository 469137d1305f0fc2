//! Generation, consumption and transfer of energy.
//!
//! Transfer works in three phases. The plan is read off the records as they
//! stand: for every pair of modules, the earlier one as source and the later
//! one as sink. It is then applied transfer by transfer, in the order of the
//! plan, against the values that the modules hold at that moment, so that a
//! source drained by an earlier transfer gives less to a later one.

use crate::components::energy::{max_int, min_int, EnergyComponent};
use crate::components::position::{adjacent, manhattan, ModulePosition};
use crate::events::{EnergyChangeEvent, EnergyTransfer};
use crate::resources::{EnergyEventBatch, EnergyTransferBatch};
use crate::store::{distinct_entities, index_in, modules_wf, Module, Store};
use vstd::prelude::*;

verus! {

/// The most that one transfer moves in one step.
pub const MAX_TRANSFER_PER_STEP: i32 = 50;

/// The module after one step of generation and consumption.
pub open spec fn generation_step(module: Module, clock: u64) -> Module {
    match module.energy {
        Some(energy) => module.with_energy(energy.stepped(), clock),
        None => module,
    }
}

/// The records after one step of generation and consumption on each.
pub open spec fn generation_pass(modules: Seq<Module>, clock: u64) -> Seq<Module> {
    Seq::new(modules.len(), |i: int| generation_step(modules[i], clock))
}

/// The change record of a module whose level the step has moved.
pub open spec fn generation_event(module: Module) -> Option<EnergyChangeEvent> {
    match module.energy {
        Some(energy) => if energy.stepped().current != energy.current {
            Some(
                EnergyChangeEvent {
                    entity: module.entity,
                    old_energy: energy.current,
                    new_energy: energy.stepped().current,
                    max_capacity: energy.max_capacity,
                },
            )
        } else {
            None
        },
        None => None,
    }
}

/// The change records of one step of generation and consumption, in the order
/// of the store.
pub open spec fn generation_events(modules: Seq<Module>) -> Seq<EnergyChangeEvent>
    decreases modules.len(),
{
    if modules.len() == 0 {
        Seq::empty()
    } else {
        let before = generation_events(modules.drop_last());
        match generation_event(modules.last()) {
            Some(event) => before.push(event),
            None => before,
        }
    }
}

/// Generation and then consumption on every module that holds energy. Each
/// module whose level differs afterwards leaves a change record.
pub fn energy_generation_system(store: &mut Store, event_batch: &mut EnergyEventBatch)
    requires
        old(store).wf(),
    ensures
        final(store)@ == generation_pass(old(store)@, old(store).clock()),
        final(event_batch).events@ == old(event_batch).events@ + generation_events(old(store)@),
        final(store).clock() == old(store).clock(),
        final(store).wf(),
{
    let n = store.len();
    let ghost before = store@;
    let ghost clock = store.clock();
    let ghost events_before = event_batch.events@;
    let mut i: usize = 0;
    while i < n
        invariant
            i <= n,
            n == before.len(),
            store@.len() == n,
            store.wf(),
            store.clock() == clock,
            modules_wf(before, clock),
            forall|k: int| 0 <= k < i ==> #[trigger] store@[k] == generation_step(before[k], clock),
            forall|k: int| i <= k < n ==> #[trigger] store@[k] == before[k],
            event_batch.events@ == events_before + generation_events(before.take(i as int)),
        decreases n - i,
    {
        proof {
            let upto = before.take(i as int + 1);
            assert(upto.drop_last() =~= before.take(i as int));
        }
        match store.energy_at(i) {
            Some(energy) => {
                let entity = store.module_at(i).entity;
                let mut stepped = energy;
                stepped.generate();
                stepped.consume();
                store.set_energy_at(i, stepped);
                if energy.current != stepped.current {
                    event_batch.events.push(
                        EnergyChangeEvent {
                            entity,
                            old_energy: energy.current,
                            new_energy: stepped.current,
                            max_capacity: stepped.max_capacity,
                        },
                    );
                }
            },
            None => {},
        }
        i += 1;
    }
    proof {
        assert(before.take(n as int) =~= before);
    }
}

/// A module that has energy to give.
pub open spec fn is_source(energy: EnergyComponent) -> bool {
    energy.can_extract && energy.current > 0
}

/// A module that has room to take energy.
pub open spec fn is_sink(energy: EnergyComponent) -> bool {
    energy.can_receive && energy.current < energy.max_capacity
}

/// What the plan moves from `a` to `b`: nothing unless `a` is a source, `b` is a
/// sink and the two are adjacent; else the least of what `a` can give, what `b` can
/// take, and the cap of one step.
pub open spec fn pair_amount(a: Module, b: Module) -> int {
    match (a.energy, b.energy) {
        (Some(source), Some(sink)) => if is_source(source) && is_sink(sink) && adjacent(
            a.position,
            b.position,
        ) {
            min_int(
                min_int(source.extractable(), sink.receivable()),
                MAX_TRANSFER_PER_STEP as int,
            )
        } else {
            0
        },
        _ => 0,
    }
}

/// The step from `a` to `b`, axis by axis.
pub open spec fn direction_between(a: ModulePosition, b: ModulePosition) -> (i32, i32, i32) {
    ((b.x - a.x) as i32, (b.y - a.y) as i32, (b.z - a.z) as i32)
}

/// The transfer that the plan holds for the pair `a`, `b`.
pub open spec fn planned_transfer(a: Module, b: Module) -> EnergyTransfer {
    EnergyTransfer {
        from_entity: a.entity,
        to_entity: b.entity,
        amount: pair_amount(a, b) as i32,
        direction: direction_between(a.position, b.position),
    }
}

/// The transfers planned from the module at `source` to the modules after it
/// and before `end`.
pub open spec fn row_plan(modules: Seq<Module>, source: int, end: int) -> Seq<EnergyTransfer>
    decreases end - source,
{
    if end <= source + 1 {
        Seq::empty()
    } else {
        let before = row_plan(modules, source, end - 1);
        if pair_amount(modules[source], modules[end - 1]) > 0 {
            before.push(planned_transfer(modules[source], modules[end - 1]))
        } else {
            before
        }
    }
}

/// The transfers planned from the first `rows` modules.
pub open spec fn plan_upto(modules: Seq<Module>, rows: int) -> Seq<EnergyTransfer>
    decreases rows,
{
    if rows <= 0 {
        Seq::empty()
    } else {
        plan_upto(modules, rows - 1) + row_plan(modules, rows - 1, modules.len() as int)
    }
}

/// The whole plan: every pair of an earlier and a later module that can trade,
/// ordered by source and then by sink.
pub open spec fn transfer_plan(modules: Seq<Module>) -> Seq<EnergyTransfer> {
    plan_upto(modules, modules.len() as int)
}

proof fn lemma_row_without_source(modules: Seq<Module>, source: int, end: int)
    requires
        0 <= source < modules.len(),
        end <= modules.len(),
        modules[source].energy matches Some(e) ==> !is_source(e),
    ensures
        row_plan(modules, source, end) == Seq::<EnergyTransfer>::empty(),
    decreases end - source,
{
    if end > source + 1 {
        lemma_row_without_source(modules, source, end - 1);
    }
}

/// Reads the plan off the store: the transfers that a step starting from these
/// records is to make.
pub fn plan_energy_transfers(store: &Store) -> (plan: Vec<EnergyTransfer>)
    requires
        store.wf(),
    ensures
        plan@ == transfer_plan(store@),
{
    let n = store.len();
    let mut plan: Vec<EnergyTransfer> = Vec::new();
    let mut i: usize = 0;
    while i < n
        invariant
            i <= n,
            n == store@.len(),
            store.wf(),
            plan@ == plan_upto(store@, i as int),
        decreases n - i,
    {
        let a = store.module_at(i);
        let source_ready = match a.energy {
            Some(source) => source.can_extract && source.current > 0,
            None => false,
        };
        if source_ready {
            let source = a.energy.unwrap();
            let ghost rows_before = plan@;
            let mut j: usize = i + 1;
            while j < n
                invariant
                    i < j <= n,
                    n == store@.len(),
                    store.wf(),
                    *a == store@[i as int],
                    a.energy == Some(source),
                    is_source(source),
                    plan@ == rows_before + row_plan(store@, i as int, j as int),
                decreases n - j,
            {
                let b = store.module_at(j);
                match b.energy {
                    Some(sink) => {
                        if sink.can_receive && sink.current < sink.max_capacity
                            && a.position.is_adjacent(&b.position) {
                            let give: i32 = source.max_extractable();
                            let take: i32 = sink.max_receivable();
                            let both: i32 = if give <= take {
                                give
                            } else {
                                take
                            };
                            let amount: i32 = if both <= MAX_TRANSFER_PER_STEP {
                                both
                            } else {
                                MAX_TRANSFER_PER_STEP
                            };
                            if amount > 0 {
                                plan.push(
                                    EnergyTransfer {
                                        from_entity: a.entity,
                                        to_entity: b.entity,
                                        amount,
                                        direction: (
                                            b.position.x - a.position.x,
                                            b.position.y - a.position.y,
                                            b.position.z - a.position.z,
                                        ),
                                    },
                                );
                            }
                        }
                    },
                    None => {},
                }
                j += 1;
            }
        } else {
            proof {
                lemma_row_without_source(store@, i as int, n as int);
            }
        }
        i += 1;
    }
    plan
}

/// The energy component at `index`, where the index is that of a module with one.
pub open spec fn energy_in(modules: Seq<Module>, index: Option<int>) -> Option<EnergyComponent> {
    match index {
        Some(i) => modules[i].energy,
        None => None,
    }
}

/// What the transfer takes out of its source, as the source stands in `modules`:
/// nothing where the source is gone or holds no energy.
pub open spec fn taken_by(modules: Seq<Module>, transfer: EnergyTransfer) -> int {
    match energy_in(modules, index_in(modules, transfer.from_entity)) {
        Some(source) => source.extracted(transfer.amount as int),
        None => 0,
    }
}

/// The records once the transfer has taken its amount out of the source.
pub open spec fn after_extraction(
    modules: Seq<Module>,
    clock: u64,
    transfer: EnergyTransfer,
) -> Seq<Module> {
    match index_in(modules, transfer.from_entity) {
        Some(i) => match modules[i].energy {
            Some(source) => modules.update(
                i,
                modules[i].with_energy(
                    source.with_current(source.current - taken_by(modules, transfer)),
                    clock,
                ),
            ),
            None => modules,
        },
        None => modules,
    }
}

/// What the sink accepts of the amount taken, as it stands once the source has
/// given: nothing where nothing was taken, or where the sink is gone or holds no
/// energy.
pub open spec fn accepted_by(modules: Seq<Module>, clock: u64, transfer: EnergyTransfer) -> int {
    let drained = after_extraction(modules, clock, transfer);
    if taken_by(modules, transfer) > 0 {
        match energy_in(drained, index_in(drained, transfer.to_entity)) {
            Some(sink) => sink.received(taken_by(modules, transfer)),
            None => 0,
        }
    } else {
        0
    }
}

/// Whether the transfer reaches a sink: something was taken, and the sink is
/// there to be offered it.
pub open spec fn is_delivered(modules: Seq<Module>, clock: u64, transfer: EnergyTransfer) -> bool {
    let drained = after_extraction(modules, clock, transfer);
    &&& taken_by(modules, transfer) > 0
    &&& energy_in(drained, index_in(drained, transfer.to_entity)) is Some
}

/// The records after one transfer: the source gives what it can of the amount,
/// and the sink takes what it can of that. What the sink cannot take is lost.
pub open spec fn apply_transfer(
    modules: Seq<Module>,
    clock: u64,
    transfer: EnergyTransfer,
) -> Seq<Module> {
    let drained = after_extraction(modules, clock, transfer);
    if is_delivered(modules, clock, transfer) {
        let j = index_in(drained, transfer.to_entity).unwrap();
        let sink = drained[j].energy.unwrap();
        drained.update(
            j,
            drained[j].with_energy(
                sink.with_current(sink.current + accepted_by(modules, clock, transfer)),
                clock,
            ),
        )
    } else {
        drained
    }
}

/// The two change records of a delivered transfer: the source first, then the sink.
pub open spec fn transfer_events(
    modules: Seq<Module>,
    clock: u64,
    transfer: EnergyTransfer,
) -> Seq<EnergyChangeEvent> {
    if is_delivered(modules, clock, transfer) {
        let source = energy_in(modules, index_in(modules, transfer.from_entity)).unwrap();
        let drained = after_extraction(modules, clock, transfer);
        let sink = energy_in(drained, index_in(drained, transfer.to_entity)).unwrap();
        seq![
            EnergyChangeEvent {
                entity: transfer.from_entity,
                old_energy: source.current,
                new_energy: (source.current - taken_by(modules, transfer)) as i32,
                max_capacity: source.max_capacity,
            },
            EnergyChangeEvent {
                entity: transfer.to_entity,
                old_energy: sink.current,
                new_energy: (sink.current + accepted_by(modules, clock, transfer)) as i32,
                max_capacity: sink.max_capacity,
            },
        ]
    } else {
        Seq::empty()
    }
}

/// The record of a delivered transfer: what the sink accepted.
pub open spec fn completed_transfer(
    modules: Seq<Module>,
    clock: u64,
    transfer: EnergyTransfer,
) -> Seq<EnergyTransfer> {
    if is_delivered(modules, clock, transfer) {
        seq![
            EnergyTransfer {
                from_entity: transfer.from_entity,
                to_entity: transfer.to_entity,
                amount: accepted_by(modules, clock, transfer) as i32,
                direction: (0i32, 0i32, 0i32),
            },
        ]
    } else {
        Seq::empty()
    }
}

/// The records after the transfers of `plan`, applied one after the other.
pub open spec fn apply_plan(
    modules: Seq<Module>,
    clock: u64,
    plan: Seq<EnergyTransfer>,
) -> Seq<Module>
    decreases plan.len(),
{
    if plan.len() == 0 {
        modules
    } else {
        apply_transfer(apply_plan(modules, clock, plan.drop_last()), clock, plan.last())
    }
}

/// The change records that applying `plan` leaves, in the order of the plan.
pub open spec fn plan_events(
    modules: Seq<Module>,
    clock: u64,
    plan: Seq<EnergyTransfer>,
) -> Seq<EnergyChangeEvent>
    decreases plan.len(),
{
    if plan.len() == 0 {
        Seq::empty()
    } else {
        plan_events(modules, clock, plan.drop_last()) + transfer_events(
            apply_plan(modules, clock, plan.drop_last()),
            clock,
            plan.last(),
        )
    }
}

/// The delivered transfers of `plan`, in the order of the plan.
pub open spec fn plan_completed(
    modules: Seq<Module>,
    clock: u64,
    plan: Seq<EnergyTransfer>,
) -> Seq<EnergyTransfer>
    decreases plan.len(),
{
    if plan.len() == 0 {
        Seq::empty()
    } else {
        plan_completed(modules, clock, plan.drop_last()) + completed_transfer(
            apply_plan(modules, clock, plan.drop_last()),
            clock,
            plan.last(),
        )
    }
}

/// Applies one transfer to the store and returns its change records and, where
/// it was delivered, what the sink accepted.
fn apply_one_transfer(store: &mut Store, transfer: EnergyTransfer) -> (done: (
    Vec<EnergyChangeEvent>,
    Option<EnergyTransfer>,
))
    requires
        old(store).wf(),
    ensures
        final(store)@ == apply_transfer(old(store)@, old(store).clock(), transfer),
        done.0@ == transfer_events(old(store)@, old(store).clock(), transfer),
        match done.1 {
            Some(t) => completed_transfer(old(store)@, old(store).clock(), transfer) == seq![t],
            None => completed_transfer(old(store)@, old(store).clock(), transfer)
                == Seq::<EnergyTransfer>::empty(),
        },
        final(store).clock() == old(store).clock(),
        final(store).wf(),
{
    let mut events: Vec<EnergyChangeEvent> = Vec::new();
    let from_index = match store.index_of(transfer.from_entity) {
        Some(i) => i,
        None => {
            return (events, None);
        },
    };
    let source = match store.energy_at(from_index) {
        Some(e) => e,
        None => {
            return (events, None);
        },
    };
    let mut drained_source = source;
    let taken = drained_source.extract_energy(transfer.amount);
    store.set_energy_at(from_index, drained_source);
    if taken <= 0 {
        return (events, None);
    }
    let to_index = match store.index_of(transfer.to_entity) {
        Some(j) => j,
        None => {
            return (events, None);
        },
    };
    let sink = match store.energy_at(to_index) {
        Some(e) => e,
        None => {
            return (events, None);
        },
    };
    let mut filled_sink = sink;
    let accepted = filled_sink.receive_energy(taken);
    store.set_energy_at(to_index, filled_sink);
    events.push(
        EnergyChangeEvent {
            entity: transfer.from_entity,
            old_energy: source.current,
            new_energy: drained_source.current,
            max_capacity: drained_source.max_capacity,
        },
    );
    events.push(
        EnergyChangeEvent {
            entity: transfer.to_entity,
            old_energy: sink.current,
            new_energy: filled_sink.current,
            max_capacity: filled_sink.max_capacity,
        },
    );
    let record = EnergyTransfer {
        from_entity: transfer.from_entity,
        to_entity: transfer.to_entity,
        amount: accepted,
        direction: (0, 0, 0),
    };
    (events, Some(record))
}

/// Applies the transfers of `plan` in order, each against the levels that the
/// modules hold when its turn comes. Every delivered transfer leaves two change
/// records and a record of what the sink accepted.
pub fn apply_energy_transfers(
    store: &mut Store,
    plan: &Vec<EnergyTransfer>,
    transfer_batch: &mut EnergyTransferBatch,
    event_batch: &mut EnergyEventBatch,
)
    requires
        old(store).wf(),
    ensures
        final(store)@ == apply_plan(old(store)@, old(store).clock(), plan@),
        final(event_batch).events@ == old(event_batch).events@ + plan_events(
            old(store)@,
            old(store).clock(),
            plan@,
        ),
        final(transfer_batch).completed_transfers@ == old(transfer_batch).completed_transfers@
            + plan_completed(old(store)@, old(store).clock(), plan@),
        final(transfer_batch).pending_transfers@ == old(transfer_batch).pending_transfers@,
        final(store).clock() == old(store).clock(),
        final(store).wf(),
{
    let n = plan.len();
    let ghost before = store@;
    let ghost clock = store.clock();
    let ghost events_before = event_batch.events@;
    let ghost completed_before = transfer_batch.completed_transfers@;
    let mut k: usize = 0;
    while k < n
        invariant
            k <= n,
            n == plan@.len(),
            store.wf(),
            store.clock() == clock,
            store@ == apply_plan(before, clock, plan@.take(k as int)),
            event_batch.events@ == events_before + plan_events(before, clock, plan@.take(k as int)),
            transfer_batch.completed_transfers@ == completed_before + plan_completed(
                before,
                clock,
                plan@.take(k as int),
            ),
            transfer_batch.pending_transfers@ == old(transfer_batch).pending_transfers@,
        decreases n - k,
    {
        proof {
            let upto = plan@.take(k as int + 1);
            assert(upto.drop_last() =~= plan@.take(k as int));
        }
        let (mut events, record) = apply_one_transfer(store, plan[k]);
        event_batch.events.append(&mut events);
        match record {
            Some(t) => {
                transfer_batch.completed_transfers.push(t);
            },
            None => {},
        }
        k += 1;
    }
    assert(plan@.take(n as int) =~= plan@);
}

/// One pass of transfer: forgets the transfers of the pass before, plans on the
/// records as they stand, and applies the plan.
pub fn energy_transfer_system(
    store: &mut Store,
    transfer_batch: &mut EnergyTransferBatch,
    event_batch: &mut EnergyEventBatch,
)
    requires
        old(store).wf(),
    ensures
        final(transfer_batch).pending_transfers@ == transfer_plan(old(store)@),
        final(store)@ == apply_plan(
            old(store)@,
            old(store).clock(),
            transfer_plan(old(store)@),
        ),
        final(event_batch).events@ == old(event_batch).events@ + plan_events(
            old(store)@,
            old(store).clock(),
            transfer_plan(old(store)@),
        ),
        final(transfer_batch).completed_transfers@ == plan_completed(
            old(store)@,
            old(store).clock(),
            transfer_plan(old(store)@),
        ),
        final(store).clock() == old(store).clock(),
        final(store).wf(),
{
    transfer_batch.pending_transfers.clear();
    transfer_batch.completed_transfers.clear();
    let plan = plan_energy_transfers(store);
    apply_energy_transfers(store, &plan, transfer_batch, event_batch);
    transfer_batch.pending_transfers = plan;
}

/// Within its transfer rate, a source gives the amount asked for or all that it
/// holds, whichever is less.
pub proof fn lemma_extraction_within_rate(source: EnergyComponent, amount: int)
    requires
        source.wf(),
        source.can_extract,
        0 <= amount <= source.max_transfer_rate,
    ensures
        source.extracted(amount) == min_int(amount, source.current as int),
{
}

/// Within its transfer rate, a sink takes the amount offered or all that it has
/// room for, whichever is less.
pub proof fn lemma_receipt_within_rate(sink: EnergyComponent, amount: int)
    requires
        sink.wf(),
        sink.can_receive,
        0 <= amount <= sink.max_transfer_rate,
    ensures
        sink.received(amount) == min_int(amount, sink.max_capacity - sink.current),
{
}

/// A planned amount is positive, stays under the cap of one step and under both
/// transfer rates, and is no more than the source holds or the sink has room for.
pub proof fn lemma_pair_amount_bounds(a: Module, b: Module)
    requires
        pair_amount(a, b) > 0,
    ensures
        a.energy is Some,
        b.energy is Some,
        adjacent(a.position, b.position),
        pair_amount(a, b) <= MAX_TRANSFER_PER_STEP,
        pair_amount(a, b) <= a.energy.unwrap().max_transfer_rate,
        pair_amount(a, b) <= a.energy.unwrap().current,
        pair_amount(a, b) <= b.energy.unwrap().max_transfer_rate,
        pair_amount(a, b) <= b.energy.unwrap().max_capacity - b.energy.unwrap().current,
        a.energy.unwrap().can_extract,
        b.energy.unwrap().can_receive,
{
}

proof fn lemma_row_entries(modules: Seq<Module>, source: int, end: int, k: int)
    requires
        0 <= source < modules.len(),
        end <= modules.len(),
        0 <= k < row_plan(modules, source, end).len(),
    ensures
        exists|j: int|
            source < j < end && #[trigger] planned_transfer(modules[source], modules[j])
                == row_plan(modules, source, end)[k] && pair_amount(modules[source], modules[j])
                > 0,
    decreases end - source,
{
    if end > source + 1 {
        let before = row_plan(modules, source, end - 1);
        if k < before.len() {
            lemma_row_entries(modules, source, end - 1, k);
        }
    }
}

proof fn lemma_plan_entries(modules: Seq<Module>, rows: int, k: int)
    requires
        0 <= rows <= modules.len(),
        0 <= k < plan_upto(modules, rows).len(),
    ensures
        exists|i: int, j: int|
            0 <= i < j < modules.len() && #[trigger] planned_transfer(modules[i], modules[j])
                == plan_upto(modules, rows)[k] && pair_amount(modules[i], modules[j]) > 0,
    decreases rows,
{
    if rows > 0 {
        let before = plan_upto(modules, rows - 1);
        if k < before.len() {
            lemma_plan_entries(modules, rows - 1, k);
        } else {
            lemma_row_entries(modules, rows - 1, modules.len() as int, k - before.len());
        }
    }
}

/// Every planned transfer runs from an earlier module to a later one that lies
/// at Manhattan distance exactly one from it, and moves between 1 and the cap.
pub proof fn lemma_transfers_join_adjacent_modules(modules: Seq<Module>, k: int)
    requires
        0 <= k < transfer_plan(modules).len(),
    ensures
        exists|i: int, j: int|
            0 <= i < j < modules.len() && #[trigger] planned_transfer(modules[i], modules[j])
                == transfer_plan(modules)[k] && manhattan(modules[i].position, modules[j].position)
                == 1 && 0 < pair_amount(modules[i], modules[j]) <= MAX_TRANSFER_PER_STEP,
{
    lemma_plan_entries(modules, modules.len() as int, k);
}

/// Two modules whose Manhattan distance is not one never stand at the two ends
/// of a planned transfer, in either direction.
pub proof fn lemma_distant_pair_never_trades(modules: Seq<Module>, a: int, b: int, k: int)
    requires
        distinct_entities(modules),
        0 <= a < modules.len(),
        0 <= b < modules.len(),
        manhattan(modules[a].position, modules[b].position) != 1,
        0 <= k < transfer_plan(modules).len(),
    ensures
        !(transfer_plan(modules)[k].from_entity == modules[a].entity && transfer_plan(
            modules,
        )[k].to_entity == modules[b].entity),
        !(transfer_plan(modules)[k].from_entity == modules[b].entity && transfer_plan(
            modules,
        )[k].to_entity == modules[a].entity),
{
    lemma_transfers_join_adjacent_modules(modules, k);
}

/// A transfer changes nothing but the energy and the stamp of its two ends. It
/// keeps the order, the identifiers and the soundness of the records.
pub proof fn lemma_apply_transfer_shape(modules: Seq<Module>, clock: u64, transfer: EnergyTransfer)
    requires
        modules_wf(modules, clock),
    ensures
        apply_transfer(modules, clock, transfer).len() == modules.len(),
        modules_wf(apply_transfer(modules, clock, transfer), clock),
        forall|k: int|
            0 <= k < modules.len() ==> {
                let after = #[trigger] apply_transfer(modules, clock, transfer)[k];
                &&& after.entity == modules[k].entity
                &&& after.position == modules[k].position
                &&& after.energy is Some <==> modules[k].energy is Some
                &&& after.entity != transfer.from_entity && after.entity != transfer.to_entity
                    ==> after == modules[k]
            },
{
}

/// A plan changes nothing but the energy and the stamp of the modules at the
/// ends of its transfers. It keeps the order, the identifiers and the soundness
/// of the records.
pub proof fn lemma_apply_plan_shape(modules: Seq<Module>, clock: u64, plan: Seq<EnergyTransfer>)
    requires
        modules_wf(modules, clock),
    ensures
        apply_plan(modules, clock, plan).len() == modules.len(),
        modules_wf(apply_plan(modules, clock, plan), clock),
        forall|k: int|
            0 <= k < modules.len() ==> {
                let after = #[trigger] apply_plan(modules, clock, plan)[k];
                &&& after.entity == modules[k].entity
                &&& after.position == modules[k].position
                &&& after.energy is Some <==> modules[k].energy is Some
                &&& (forall|t: int|
                    0 <= t < plan.len() ==> (#[trigger] plan[t]).from_entity != after.entity
                        && plan[t].to_entity != after.entity) ==> after == modules[k]
            },
    decreases plan.len(),
{
    if plan.len() > 0 {
        let head = plan.drop_last();
        lemma_apply_plan_shape(modules, clock, head);
    }
}

/// A module that lies at Manhattan distance one from no other module comes out
/// of a pass of transfer exactly as it went in.
pub proof fn lemma_distant_module_keeps_its_energy(modules: Seq<Module>, clock: u64, i: int)
    requires
        modules_wf(modules, clock),
        0 <= i < modules.len(),
        forall|j: int|
            0 <= j < modules.len() && j != i ==> manhattan(
                modules[i].position,
                #[trigger] modules[j].position,
            ) != 1,
    ensures
        apply_plan(modules, clock, transfer_plan(modules))[i] == modules[i],
{
    let plan = transfer_plan(modules);
    lemma_apply_plan_shape(modules, clock, plan);
    let after = apply_plan(modules, clock, plan)[i];
    assert forall|t: int| 0 <= t < plan.len() implies (#[trigger] plan[t]).from_entity
        != after.entity && plan[t].to_entity != after.entity by {
        lemma_transfers_join_adjacent_modules(modules, t);
    }
}

/// Where the sink has room for all that the source gives, and its rate allows
/// it, the sink gains exactly what the source loses.
pub proof fn lemma_transfer_conserves_energy(
    modules: Seq<Module>,
    clock: u64,
    transfer: EnergyTransfer,
    i: int,
    j: int,
)
    requires
        modules_wf(modules, clock),
        0 <= i < modules.len(),
        0 <= j < modules.len(),
        i != j,
        modules[i].entity == transfer.from_entity,
        modules[j].entity == transfer.to_entity,
        modules[i].energy is Some,
        modules[j].energy is Some,
        modules[j].energy.unwrap().can_receive,
        taken_by(modules, transfer) <= modules[j].energy.unwrap().max_transfer_rate,
        taken_by(modules, transfer) <= modules[j].energy.unwrap().max_capacity
            - modules[j].energy.unwrap().current,
    ensures
        accepted_by(modules, clock, transfer) == taken_by(modules, transfer),
        apply_transfer(modules, clock, transfer)[i].energy.unwrap().current
            == modules[i].energy.unwrap().current - taken_by(modules, transfer),
        apply_transfer(modules, clock, transfer)[j].energy.unwrap().current
            == modules[j].energy.unwrap().current + taken_by(modules, transfer),
        apply_transfer(modules, clock, transfer)[i].energy.unwrap().current + apply_transfer(
            modules,
            clock,
            transfer,
        )[j].energy.unwrap().current == modules[i].energy.unwrap().current
            + modules[j].energy.unwrap().current,
{
}

/// Two adjacent modules alone in a world, the first a source and the second a
/// sink: a pass of transfer moves the planned amount from the one to the other,
/// and their energy taken together stays what it was.
pub proof fn lemma_isolated_pair_conserves_energy(modules: Seq<Module>, clock: u64)
    requires
        modules_wf(modules, clock),
        modules.len() == 2,
        pair_amount(modules[0], modules[1]) > 0,
    ensures
        transfer_plan(modules) == seq![planned_transfer(modules[0], modules[1])],
        apply_plan(modules, clock, transfer_plan(modules))[0].energy.unwrap().current
            == modules[0].energy.unwrap().current - pair_amount(modules[0], modules[1]),
        apply_plan(modules, clock, transfer_plan(modules))[1].energy.unwrap().current
            == modules[1].energy.unwrap().current + pair_amount(modules[0], modules[1]),
{
    let t = planned_transfer(modules[0], modules[1]);
    assert(row_plan(modules, 0, 1) =~= Seq::<EnergyTransfer>::empty());
    assert(plan_upto(modules, 0) =~= Seq::<EnergyTransfer>::empty());
    assert(plan_upto(modules, 1) =~= seq![t]);
    let plan = transfer_plan(modules);
    assert(apply_plan(modules, clock, plan.drop_last()) == modules);
}

/// Whether the module is a storage unit that balancing works on: it gives and
/// takes, and has a capacity.
pub open spec fn is_storage_unit(module: Module) -> bool {
    module.energy matches Some(e) && e.can_receive && e.can_extract && e.max_capacity > 0
}

/// The number of storage units among `modules`.
pub open spec fn storage_units(modules: Seq<Module>) -> nat
    decreases modules.len(),
{
    if modules.len() == 0 {
        0
    } else {
        storage_units(modules.drop_last()) + if is_storage_unit(modules.last()) {
            1nat
        } else {
            0nat
        }
    }
}

/// The level of a storage unit once it has moved towards `target`: it moves
/// only where it is off by more than a quarter of its transfer rate, upwards
/// by no more than it can take and downwards by no more than it can give.
pub open spec fn levelled(energy: EnergyComponent, target: int) -> int {
    let off = target - energy.current;
    let distance = if off >= 0 {
        off
    } else {
        -off
    };
    if 4 * distance > energy.max_transfer_rate {
        if off > 0 {
            energy.current + max_int(0, min_int(energy.receivable(), off))
        } else {
            energy.current - max_int(0, min_int(energy.extractable(), -off))
        }
    } else {
        energy.current as int
    }
}

/// The records once the storage unit `entity` has moved towards `target`. An
/// entity that is no storage unit stays as it is.
pub open spec fn balance_one(modules: Seq<Module>, clock: u64, entity: u64, target: i32) -> Seq<
    Module,
> {
    match index_in(modules, entity) {
        Some(i) => if is_storage_unit(modules[i]) {
            let e = modules[i].energy.unwrap();
            modules.update(i, modules[i].with_energy(e.with_current(levelled(e, target as int)), clock))
        } else {
            modules
        },
        None => modules,
    }
}

/// The change record of the storage unit `entity` moving towards `target`, where
/// it moves at all.
pub open spec fn balance_event(modules: Seq<Module>, entity: u64, target: i32) -> Seq<
    EnergyChangeEvent,
> {
    match index_in(modules, entity) {
        Some(i) => if is_storage_unit(modules[i]) && levelled(
            modules[i].energy.unwrap(),
            target as int,
        ) != modules[i].energy.unwrap().current {
            seq![
                EnergyChangeEvent {
                    entity,
                    old_energy: modules[i].energy.unwrap().current,
                    new_energy: levelled(modules[i].energy.unwrap(), target as int) as i32,
                    max_capacity: modules[i].energy.unwrap().max_capacity,
                },
            ]
        } else {
            Seq::empty()
        },
        None => Seq::empty(),
    }
}

/// The records once every unit of `targets` has moved towards its target, one
/// after the other.
pub open spec fn balance_all(modules: Seq<Module>, clock: u64, targets: Seq<(u64, i32)>) -> Seq<
    Module,
>
    decreases targets.len(),
{
    if targets.len() == 0 {
        modules
    } else {
        balance_one(
            balance_all(modules, clock, targets.drop_last()),
            clock,
            targets.last().0,
            targets.last().1,
        )
    }
}

/// The change records of the units of `targets` moving towards their targets.
pub open spec fn balance_events(modules: Seq<Module>, clock: u64, targets: Seq<(u64, i32)>) -> Seq<
    EnergyChangeEvent,
>
    decreases targets.len(),
{
    if targets.len() == 0 {
        Seq::empty()
    } else {
        balance_events(modules, clock, targets.drop_last()) + balance_event(
            balance_all(modules, clock, targets.drop_last()),
            targets.last().0,
            targets.last().1,
        )
    }
}

fn count_storage_units(store: &Store) -> (count: usize)
    ensures
        count == storage_units(store@),
{
    let n = store.len();
    let mut count: usize = 0;
    let mut i: usize = 0;
    while i < n
        invariant
            i <= n,
            n == store@.len(),
            count == storage_units(store@.take(i as int)),
            count <= i,
        decreases n - i,
    {
        proof {
            let upto = store@.take(i as int + 1);
            assert(upto.drop_last() =~= store@.take(i as int));
        }
        let unit = match store.module_at(i).energy {
            Some(e) => e.can_receive && e.can_extract && e.max_capacity > 0,
            None => false,
        };
        if unit {
            count += 1;
        }
        i += 1;
    }
    assert(store@.take(n as int) =~= store@);
    count
}

/// Levels storage units out: each unit named in `targets` moves towards the
/// level given for it, as far as its transfer rate and its range allow. A unit
/// that is off by no more than a quarter of its transfer rate stays where it
/// is. Nothing happens while the store holds fewer than two storage units.
pub fn energy_balancing_system(
    store: &mut Store,
    event_batch: &mut EnergyEventBatch,
    targets: &Vec<(u64, i32)>,
)
    requires
        old(store).wf(),
    ensures
        final(store)@ == if storage_units(old(store)@) < 2 {
            old(store)@
        } else {
            balance_all(old(store)@, old(store).clock(), targets@)
        },
        final(event_batch).events@ == old(event_batch).events@ + if storage_units(old(store)@)
            < 2 {
            Seq::<EnergyChangeEvent>::empty()
        } else {
            balance_events(old(store)@, old(store).clock(), targets@)
        },
        final(store).clock() == old(store).clock(),
        final(store).wf(),
{
    if count_storage_units(store) < 2 {
        return ;
    }
    let n = targets.len();
    let ghost before = store@;
    let ghost clock = store.clock();
    let ghost events_before = event_batch.events@;
    let mut k: usize = 0;
    while k < n
        invariant
            k <= n,
            n == targets@.len(),
            store.wf(),
            store.clock() == clock,
            store@ == balance_all(before, clock, targets@.take(k as int)),
            event_batch.events@ == events_before + balance_events(
                before,
                clock,
                targets@.take(k as int),
            ),
        decreases n - k,
    {
        proof {
            let upto = targets@.take(k as int + 1);
            assert(upto.drop_last() =~= targets@.take(k as int));
        }
        let entity = targets[k].0;
        let target = targets[k].1;
        match store.index_of(entity) {
            Some(i) => match store.energy_at(i) {
                Some(e) => {
                    if e.can_receive && e.can_extract && e.max_capacity > 0 {
                        let off: i64 = (target as i64) - (e.current as i64);
                        let distance: i64 = if off >= 0 {
                            off
                        } else {
                            -off
                        };
                        let mut next = e;
                        if 4 * distance > e.max_transfer_rate as i64 {
                            if off > 0 {
                                let room: i64 = e.max_receivable() as i64;
                                let up: i64 = if room <= off {
                                    room
                                } else {
                                    off
                                };
                                if up > 0 {
                                    next.current = ((e.current as i64) + up) as i32;
                                }
                            } else {
                                let give: i64 = e.max_extractable() as i64;
                                let down: i64 = if give <= -off {
                                    give
                                } else {
                                    -off
                                };
                                if down > 0 {
                                    next.current = ((e.current as i64) - down) as i32;
                                }
                            }
                        }
                        store.set_energy_at(i, next);
                        if e.current != next.current {
                            event_batch.events.push(
                                EnergyChangeEvent {
                                    entity,
                                    old_energy: e.current,
                                    new_energy: next.current,
                                    max_capacity: next.max_capacity,
                                },
                            );
                        }
                    }
                },
                None => {},
            },
            None => {},
        }
        k += 1;
    }
    assert(targets@.take(n as int) =~= targets@);
}

/// Balancing keeps every unit within its range.
pub proof fn lemma_levelled_in_range(energy: EnergyComponent, target: int)
    requires
        energy.wf(),
    ensures
        0 <= levelled(energy, target) <= energy.max_capacity,
{
}

} // verus!
