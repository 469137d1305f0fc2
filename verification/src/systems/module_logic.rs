//! The passes that work by the role of a module: what a generator produces,
//! what a consumer uses up, what adjacent modules hand to each other, and what
//! the host is to be told.

use crate::components::energy::{max_int, min_int, EnergyComponent};
use crate::components::kind::{role_of, LifecycleRole};
use crate::components::markers::{EnergyConsumer, EnergyGenerator, EnergyStorage};
use crate::events::EnergyTransfer;
use crate::resources::TickCounter;
use crate::store::{index_in, modules_wf, Module, RoleKit, Store};
use crate::systems::energy::{energy_in, plan_energy_transfers, transfer_plan};
use crate::systems::sync::{marked, sync_of, EnergySyncManager, WorldSyncView, SYNC_INTERVAL_TICKS};
use vstd::prelude::*;

verus! {

/// What the lifecycle pass attaches to a module of the given role.
pub open spec fn kit_of(role: LifecycleRole) -> RoleKit {
    match role {
        LifecycleRole::Generator => RoleKit {
            generator: Some(EnergyGenerator { generation_rate: 10, max_capacity: 1000 }),
            energy_storage: None,
            consumer: None,
            energy: EnergyComponent {
                current: 0,
                max_capacity: 1000,
                generation_rate: 10,
                consumption_rate: 0,
                max_transfer_rate: 100,
                can_receive: false,
                can_extract: true,
            },
        },
        LifecycleRole::Storage => RoleKit {
            generator: None,
            energy_storage: Some(EnergyStorage { max_capacity: 50000, max_transfer_rate: 100 }),
            consumer: None,
            energy: EnergyComponent {
                current: 0,
                max_capacity: 50000,
                generation_rate: 0,
                consumption_rate: 0,
                max_transfer_rate: 100,
                can_receive: true,
                can_extract: true,
            },
        },
        LifecycleRole::Consumer => RoleKit {
            generator: None,
            energy_storage: None,
            consumer: Some(EnergyConsumer { consumption_rate: 20 }),
            energy: EnergyComponent {
                current: 0,
                max_capacity: 0,
                generation_rate: 0,
                consumption_rate: 20,
                max_transfer_rate: 50,
                can_receive: true,
                can_extract: false,
            },
        },
        LifecycleRole::Plain => RoleKit {
            generator: None,
            energy_storage: None,
            consumer: None,
            energy: EnergyComponent {
                current: 0,
                max_capacity: 1000,
                generation_rate: 0,
                consumption_rate: 0,
                max_transfer_rate: 100,
                can_receive: true,
                can_extract: true,
            },
        },
    }
}

fn role_kit(role: LifecycleRole) -> (kit: RoleKit)
    ensures
        kit == kit_of(role),
        kit.energy.wf(),
{
    match role {
        LifecycleRole::Generator => RoleKit {
            generator: Some(EnergyGenerator { generation_rate: 10, max_capacity: 1000 }),
            energy_storage: None,
            consumer: None,
            energy: EnergyComponent::generator(1000, 10, 100),
        },
        LifecycleRole::Storage => RoleKit {
            generator: None,
            energy_storage: Some(EnergyStorage { max_capacity: 50000, max_transfer_rate: 100 }),
            consumer: None,
            energy: EnergyComponent::storage(50000, 100),
        },
        LifecycleRole::Consumer => RoleKit {
            generator: None,
            energy_storage: None,
            consumer: Some(EnergyConsumer { consumption_rate: 20 }),
            energy: EnergyComponent::consumer(20, 50),
        },
        LifecycleRole::Plain => RoleKit {
            generator: None,
            energy_storage: None,
            consumer: None,
            energy: EnergyComponent::default(),
        },
    }
}

/// The module after the lifecycle pass at `tick`: a module that the pass has not
/// dealt with yet gets the kit of its role.
pub open spec fn lifecycle_step(module: Module, tick: u64, clock: u64) -> Module {
    if module.initialized {
        module
    } else {
        module.with_roles(kit_of(role_of(module.module_type.type_id@)), tick, clock)
    }
}

/// The records after the lifecycle pass.
pub open spec fn lifecycle_pass(modules: Seq<Module>, tick: u64, clock: u64) -> Seq<Module> {
    Seq::new(modules.len(), |i: int| lifecycle_step(modules[i], tick, clock))
}

/// The lifecycle pass: every module that is new to it gets the markers and the
/// energy component of its role, and a record of what the host knows.
pub fn rust_module_lifecycle_system(tick_counter: &TickCounter, store: &mut Store)
    requires
        old(store).wf(),
    ensures
        final(store)@ == lifecycle_pass(old(store)@, tick_counter.count, old(store).clock()),
        final(store).clock() == old(store).clock(),
        final(store).wf(),
{
    let n = store.len();
    let ghost before = store@;
    let ghost clock = store.clock();
    let tick = tick_counter.count;
    let mut i: usize = 0;
    while i < n
        invariant
            i <= n,
            n == before.len(),
            store@.len() == n,
            store.wf(),
            store.clock() == clock,
            forall|k: int| 0 <= k < i ==> #[trigger] store@[k] == lifecycle_step(before[k], tick, clock),
            forall|k: int| i <= k < n ==> #[trigger] store@[k] == before[k],
        decreases n - i,
    {
        let module = store.module_at(i);
        if !module.initialized {
            let kit = role_kit(module.module_type.lifecycle_role());
            store.attach_roles_at(i, kit, tick);
        }
        i += 1;
    }
}

/// Whether the generator pass works on the module: a generator that is no
/// consumer and holds less than its marker allows.
pub open spec fn generates(module: Module) -> bool {
    &&& module.energy matches Some(e)
    &&& module.generator matches Some(g)
    &&& module.consumer is None
    &&& e.current < g.max_capacity
}

/// The level of a generator after one more step: raised by the rate of the
/// marker up to the capacity of the marker, and kept within the component's own
/// range.
pub open spec fn raised_level(energy: EnergyComponent, generator: EnergyGenerator) -> int {
    min_int(
        max_int(
            min_int(energy.current + generator.generation_rate, generator.max_capacity as int),
            0,
        ),
        energy.max_capacity as int,
    )
}

/// The module after the generator pass.
pub open spec fn role_generation_step(module: Module, clock: u64) -> Module {
    if generates(module) {
        let e = module.energy.unwrap();
        module.with_energy(
            e.with_current(raised_level(e, module.generator.unwrap())),
            clock,
        ).with_sync_requested()
    } else {
        module
    }
}

/// The records after the generator pass.
pub open spec fn role_generation_pass(modules: Seq<Module>, clock: u64) -> Seq<Module> {
    Seq::new(modules.len(), |i: int| role_generation_step(modules[i], clock))
}

/// The worlds once the generator pass has reported every generator that it
/// worked on, with the level that it left.
pub open spec fn role_generation_marks(
    worlds: Seq<WorldSyncView>,
    world_pos: (i32, i32, i32),
    modules: Seq<Module>,
    clock: u64,
) -> Seq<WorldSyncView>
    decreases modules.len(),
{
    if modules.len() == 0 {
        worlds
    } else {
        let before = role_generation_marks(worlds, world_pos, modules.drop_last(), clock);
        if generates(modules.last()) {
            marked(before, world_pos, sync_of(role_generation_step(modules.last(), clock)))
        } else {
            before
        }
    }
}

/// The generator pass: every generator that is no consumer and holds less than
/// its marker allows gains the rate of its marker. Each such module is reported
/// to the synchronisation manager and has news for the host.
pub fn rust_energy_generation_system(
    store: &mut Store,
    sync_manager: &mut EnergySyncManager,
    world_pos: (i32, i32, i32),
)
    requires
        old(store).wf(),
        old(sync_manager).wf(),
    ensures
        final(store)@ == role_generation_pass(old(store)@, old(store).clock()),
        final(sync_manager)@ == role_generation_marks(
            old(sync_manager)@,
            world_pos,
            old(store)@,
            old(store).clock(),
        ),
        final(sync_manager).current_tick() == old(sync_manager).current_tick(),
        final(store).clock() == old(store).clock(),
        final(store).wf(),
        final(sync_manager).wf(),
{
    let n = store.len();
    let ghost before = store@;
    let ghost clock = store.clock();
    let ghost worlds_before = sync_manager@;
    let mut i: usize = 0;
    while i < n
        invariant
            i <= n,
            n == before.len(),
            store@.len() == n,
            store.wf(),
            sync_manager.wf(),
            sync_manager.current_tick() == old(sync_manager).current_tick(),
            store.clock() == clock,
            modules_wf(before, clock),
            forall|k: int|
                0 <= k < i ==> #[trigger] store@[k] == role_generation_step(before[k], clock),
            forall|k: int| i <= k < n ==> #[trigger] store@[k] == before[k],
            sync_manager@ == role_generation_marks(
                worlds_before,
                world_pos,
                before.take(i as int),
                clock,
            ),
        decreases n - i,
    {
        proof {
            let upto = before.take(i as int + 1);
            assert(upto.drop_last() =~= before.take(i as int));
        }
        let module = store.module_at(i);
        let position = module.position;
        match (module.energy, module.generator) {
            (Some(energy), Some(generator)) => {
                if module.consumer.is_none() && energy.current < generator.max_capacity {
                    let raised: i64 = (energy.current as i64) + (generator.generation_rate as i64);
                    let capped: i64 = if raised <= generator.max_capacity as i64 {
                        raised
                    } else {
                        generator.max_capacity as i64
                    };
                    let floored: i64 = if capped >= 0 {
                        capped
                    } else {
                        0
                    };
                    let mut next = energy;
                    next.current = if floored <= energy.max_capacity as i64 {
                        floored as i32
                    } else {
                        energy.max_capacity
                    };
                    store.set_energy_at(i, next);
                    sync_manager.mark_energy_changed(
                        world_pos,
                        (position.x, position.y, position.z),
                        next.current,
                        next.max_capacity,
                    );
                    store.request_sync_at(i);
                }
            },
            _ => {},
        }
        i += 1;
    }
    proof {
        assert(before.take(n as int) =~= before);
    }
}

/// Whether the consumer pass works on the module: a consumer that is no
/// generator and holds some energy.
pub open spec fn consumes(module: Module) -> bool {
    &&& module.energy matches Some(e)
    &&& module.consumer is Some
    &&& module.generator is None
    &&& e.current > 0
}

/// What a consumer uses up in one step: the rate of its marker or all that it
/// holds, whichever is less, and never less than nothing.
pub open spec fn used_up(energy: EnergyComponent, consumer: EnergyConsumer) -> int {
    max_int(0, min_int(consumer.consumption_rate as int, energy.current as int))
}

/// The module after the consumer pass.
pub open spec fn role_consumption_step(module: Module, clock: u64) -> Module {
    if consumes(module) {
        let e = module.energy.unwrap();
        let used = used_up(e, module.consumer.unwrap());
        let drained = module.with_energy(e.with_current(e.current - used), clock);
        if used > 0 {
            drained.with_sync_requested()
        } else {
            drained
        }
    } else {
        module
    }
}

/// The records after the consumer pass.
pub open spec fn role_consumption_pass(modules: Seq<Module>, clock: u64) -> Seq<Module> {
    Seq::new(modules.len(), |i: int| role_consumption_step(modules[i], clock))
}

/// The consumer pass: every consumer that is no generator uses up the rate of
/// its marker, or what it holds where that is less, and then has news for the
/// host.
pub fn rust_energy_consumption_system(store: &mut Store)
    requires
        old(store).wf(),
    ensures
        final(store)@ == role_consumption_pass(old(store)@, old(store).clock()),
        final(store).clock() == old(store).clock(),
        final(store).wf(),
{
    let n = store.len();
    let ghost before = store@;
    let ghost clock = store.clock();
    let mut i: usize = 0;
    while i < n
        invariant
            i <= n,
            n == before.len(),
            store@.len() == n,
            store.wf(),
            store.clock() == clock,
            modules_wf(before, clock),
            forall|k: int|
                0 <= k < i ==> #[trigger] store@[k] == role_consumption_step(before[k], clock),
            forall|k: int| i <= k < n ==> #[trigger] store@[k] == before[k],
        decreases n - i,
    {
        let module = store.module_at(i);
        match (module.energy, module.consumer) {
            (Some(energy), Some(consumer)) => {
                if module.generator.is_none() && energy.current > 0 {
                    let wanted: i32 = if consumer.consumption_rate <= energy.current {
                        consumer.consumption_rate
                    } else {
                        energy.current
                    };
                    let used: i32 = if wanted > 0 {
                        wanted
                    } else {
                        0
                    };
                    let mut next = energy;
                    next.current = energy.current - used;
                    store.set_energy_at(i, next);
                    if used > 0 {
                        store.request_sync_at(i);
                    }
                }
            },
            _ => {},
        }
        i += 1;
    }
}

/// Whether the host is to be told about the module at `tick`: it has news, it
/// holds energy, and the interval since the host was last told has passed.
pub open spec fn sync_due(module: Module, tick: u64) -> bool {
    &&& module.energy is Some
    &&& module.java_sync matches Some(sync)
    &&& sync.needs_sync
    &&& tick - sync.last_sync_tick >= SYNC_INTERVAL_TICKS
}

/// The module after the pass of collection at `tick`.
pub open spec fn collection_step(module: Module, tick: u64) -> Module {
    if sync_due(module, tick) {
        module.with_sync_completed(tick)
    } else {
        module
    }
}

/// The records after the pass of collection.
pub open spec fn collection_pass(modules: Seq<Module>, tick: u64) -> Seq<Module> {
    Seq::new(modules.len(), |i: int| collection_step(modules[i], tick))
}

/// The identifiers of the modules that the host is to be told about at `tick`,
/// in the order of the store.
pub open spec fn collected(modules: Seq<Module>, tick: u64) -> Seq<u64>
    decreases modules.len(),
{
    if modules.len() == 0 {
        Seq::empty()
    } else {
        let before = collected(modules.drop_last(), tick);
        if sync_due(modules.last(), tick) {
            before.push(modules.last().entity)
        } else {
            before
        }
    }
}

/// The pass of collection: returns the modules that have news and whose interval
/// has passed, and notes on each that the host is told now.
pub fn rust_java_sync_collection_system(tick_counter: &TickCounter, store: &mut Store) -> (due: Vec<
    u64,
>)
    requires
        old(store).wf(),
    ensures
        due@ == collected(old(store)@, tick_counter.count),
        final(store)@ == collection_pass(old(store)@, tick_counter.count),
        final(store).clock() == old(store).clock(),
        final(store).wf(),
{
    let n = store.len();
    let ghost before = store@;
    let tick = tick_counter.count;
    let mut due: Vec<u64> = Vec::new();
    let mut i: usize = 0;
    while i < n
        invariant
            i <= n,
            n == before.len(),
            store@.len() == n,
            store.wf(),
            store.clock() == old(store).clock(),
            forall|k: int| 0 <= k < i ==> #[trigger] store@[k] == collection_step(before[k], tick),
            forall|k: int| i <= k < n ==> #[trigger] store@[k] == before[k],
            due@ == collected(before.take(i as int), tick),
        decreases n - i,
    {
        proof {
            let upto = before.take(i as int + 1);
            assert(upto.drop_last() =~= before.take(i as int));
        }
        let module = store.module_at(i);
        let entity = module.entity;
        let is_due = match &module.java_sync {
            Some(sync) => module.energy.is_some() && sync.needs_sync && tick >= sync.last_sync_tick
                && tick - sync.last_sync_tick >= SYNC_INTERVAL_TICKS,
            None => false,
        };
        if is_due {
            store.complete_sync_at(i, tick);
            due.push(entity);
        }
        i += 1;
    }
    proof {
        assert(before.take(n as int) =~= before);
    }
    due
}

/// What a hand-over takes out of its source, as the source stands in `modules`:
/// the amount asked for or all that the source holds, whichever is less.
pub open spec fn handed_out(modules: Seq<Module>, transfer: EnergyTransfer) -> int {
    match energy_in(modules, index_in(modules, transfer.from_entity)) {
        Some(source) => max_int(0, min_int(transfer.amount as int, source.current as int)),
        None => 0,
    }
}

/// The records once the source of a hand-over has given: it holds less, and it
/// has news for the host.
pub open spec fn after_handing_out(
    modules: Seq<Module>,
    clock: u64,
    transfer: EnergyTransfer,
) -> Seq<Module> {
    match index_in(modules, transfer.from_entity) {
        Some(i) => match modules[i].energy {
            Some(source) => modules.update(
                i,
                modules[i].with_energy(
                    source.with_current(source.current - handed_out(modules, transfer)),
                    clock,
                ).with_sync_requested(),
            ),
            None => modules,
        },
        None => modules,
    }
}

/// The records after one hand-over: the source gives the amount or all that it
/// holds, and the sink takes of that what it has room for. Both then have news
/// for the host.
pub open spec fn hand_over(modules: Seq<Module>, clock: u64, transfer: EnergyTransfer) -> Seq<
    Module,
> {
    let given = after_handing_out(modules, clock, transfer);
    if energy_in(modules, index_in(modules, transfer.from_entity)) is Some {
        match index_in(given, transfer.to_entity) {
            Some(j) => match given[j].energy {
                Some(sink) => given.update(
                    j,
                    given[j].with_energy(
                        sink.with_current(
                            sink.current + min_int(
                                handed_out(modules, transfer),
                                sink.max_capacity - sink.current,
                            ),
                        ),
                        clock,
                    ).with_sync_requested(),
                ),
                None => given,
            },
            None => given,
        }
    } else {
        given
    }
}

/// The records after the hand-overs of `plan`, one after the other.
pub open spec fn hand_over_all(modules: Seq<Module>, clock: u64, plan: Seq<EnergyTransfer>) -> Seq<
    Module,
>
    decreases plan.len(),
{
    if plan.len() == 0 {
        modules
    } else {
        hand_over(hand_over_all(modules, clock, plan.drop_last()), clock, plan.last())
    }
}

fn hand_over_one(store: &mut Store, transfer: EnergyTransfer)
    requires
        old(store).wf(),
    ensures
        final(store)@ == hand_over(old(store)@, old(store).clock(), transfer),
        final(store).clock() == old(store).clock(),
        final(store).wf(),
{
    let ghost before = store@;
    let ghost clock = store.clock();
    let from_index = match store.index_of(transfer.from_entity) {
        Some(i) => i,
        None => {
            return ;
        },
    };
    let source = match store.energy_at(from_index) {
        Some(e) => e,
        None => {
            return ;
        },
    };
    let wanted: i32 = if transfer.amount <= source.current {
        transfer.amount
    } else {
        source.current
    };
    let given: i32 = if wanted > 0 {
        wanted
    } else {
        0
    };
    let mut drained = source;
    drained.current = source.current - given;
    store.set_energy_at(from_index, drained);
    store.request_sync_at(from_index);
    assert(store@ =~= after_handing_out(before, clock, transfer));
    let to_index = match store.index_of(transfer.to_entity) {
        Some(j) => j,
        None => {
            return ;
        },
    };
    let sink = match store.energy_at(to_index) {
        Some(e) => e,
        None => {
            return ;
        },
    };
    let room: i32 = sink.max_capacity - sink.current;
    let taken: i32 = if given <= room {
        given
    } else {
        room
    };
    let mut filled = sink;
    filled.current = sink.current + taken;
    store.set_energy_at(to_index, filled);
    store.request_sync_at(to_index);
}

/// The pass of hand-overs between adjacent modules: plans on the records as they
/// stand, then lets each source give and each sink take in the order of the
/// plan. Whoever takes part has news for the host.
pub fn rust_energy_transfer_system(store: &mut Store)
    requires
        old(store).wf(),
    ensures
        final(store)@ == hand_over_all(
            old(store)@,
            old(store).clock(),
            transfer_plan(old(store)@),
        ),
        final(store).clock() == old(store).clock(),
        final(store).wf(),
{
    let plan = plan_energy_transfers(store);
    let n = plan.len();
    let ghost before = store@;
    let ghost clock = store.clock();
    let mut k: usize = 0;
    while k < n
        invariant
            k <= n,
            n == plan@.len(),
            store.wf(),
            store.clock() == clock,
            store@ == hand_over_all(before, clock, plan@.take(k as int)),
        decreases n - k,
    {
        proof {
            let upto = plan@.take(k as int + 1);
            assert(upto.drop_last() =~= plan@.take(k as int));
        }
        hand_over_one(store, plan[k]);
        k += 1;
    }
    assert(plan@.take(n as int) =~= plan@);
}

} // verus!
