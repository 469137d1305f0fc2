//! One world: its store, its resources, and the tick that drives them.
//!
//! A tick counts itself and is a simulation step only when its number is a
//! multiple of the batch interval. A step runs its passes in a fixed order:
//! lifecycle, transfer planning, generation and consumption, the planned
//! transfers, reactivation, processing, and the detection of what the host has
//! to be told. The transfers are planned on the levels with which the step
//! begins and applied to the levels that generation and consumption leave.

use crate::components::display::{can_fit, DisplayComponent};
use crate::entities::MAX_ENTITIES;
use crate::components::energy::EnergyComponent;
use crate::components::kind::{kind_of, ModuleKind, ModuleType};
use crate::components::position::{manhattan, ModulePosition};
use crate::components::processing::ProcessingComponent;
use crate::components::storage::StorageComponent;
use crate::events::{EnergyChangeEvent, EnergyTransfer};
use crate::host::{pack_energy, pack_pair, pack_record, packed_energy, packed_pair, packed_record};
use crate::resources::{
    BatchProcessor, EnergyEventBatch, EnergyTransferBatch, ProcessingChangeBatch, TickCounter,
};
use crate::store::{
    entity_ids, index_in, lemma_selected_ids_members, modules_wf, next_clock,
    selected_ids, ChangeObserver, ComponentSet, Module, ModuleBundle, Store,
};
use crate::systems::batch::{
    batch_stats_system, batch_timing_system, is_step_tick, one_more_pending, pending_from_len,
};
use crate::systems::energy::{
    apply_energy_transfers, apply_plan, energy_generation_system, generation_events,
    generation_pass, lemma_apply_plan_shape, lemma_transfers_join_adjacent_modules,
    plan_completed, plan_energy_transfers, plan_events, transfer_plan,
};
use crate::systems::module_logic::{lifecycle_pass, rust_module_lifecycle_system};
use crate::systems::processing::{
    processing_activation_system, processing_changes, processing_pass, processing_system,
    reactivation_pass,
};
use crate::systems::sync::{
    detected, due_at, energy_sync_batch_system, energy_sync_detection_system, flushed,
    mark_changed_since, next_tick, pending_of, registered, world_index, EnergySync,
    EnergySyncManager, WorldSyncView,
};
use vstd::prelude::*;

verus! {

/// The energy component that a module of the given class is spawned with.
pub open spec fn spawn_energy(kind: ModuleKind) -> Option<EnergyComponent> {
    let base = EnergyComponent {
        current: 0,
        max_capacity: 0,
        generation_rate: 0,
        consumption_rate: 0,
        max_transfer_rate: 0,
        can_receive: true,
        can_extract: false,
    };
    match kind {
        ModuleKind::EnergyGenerator => Some(
            EnergyComponent {
                max_capacity: 1000,
                generation_rate: 10,
                max_transfer_rate: 100,
                can_receive: false,
                can_extract: true,
                ..base
            },
        ),
        ModuleKind::EnergyStorage => Some(
            EnergyComponent { max_capacity: 5000, max_transfer_rate: 100, can_extract: true, ..base },
        ),
        ModuleKind::EnergyConsumer => Some(
            EnergyComponent { consumption_rate: 10, max_transfer_rate: 50, ..base },
        ),
        ModuleKind::AdvancedEnergyGenerator => Some(
            EnergyComponent {
                max_capacity: 2000,
                generation_rate: 25,
                max_transfer_rate: 200,
                can_receive: false,
                can_extract: true,
                ..base
            },
        ),
        ModuleKind::AdvancedEnergyStorage => Some(
            EnergyComponent {
                max_capacity: 10000,
                max_transfer_rate: 200,
                can_extract: true,
                ..base
            },
        ),
        ModuleKind::HighPowerConsumer => Some(
            EnergyComponent { consumption_rate: 50, max_transfer_rate: 100, ..base },
        ),
        ModuleKind::Processor => Some(
            EnergyComponent { consumption_rate: 20, max_transfer_rate: 100, ..base },
        ),
        ModuleKind::AdvancedProcessor => Some(
            EnergyComponent { consumption_rate: 40, max_transfer_rate: 150, ..base },
        ),
        _ => None,
    }
}

/// The processing component that a module of the given class is spawned with.
pub open spec fn spawn_processing(kind: ModuleKind) -> Option<ProcessingComponent> {
    match kind {
        ModuleKind::Processor => Some(
            ProcessingComponent {
                processing_speed: 1,
                current_progress: 0,
                max_progress: 100,
                is_active: true,
            },
        ),
        ModuleKind::AdvancedProcessor => Some(
            ProcessingComponent {
                processing_speed: 2,
                current_progress: 0,
                max_progress: 100,
                is_active: true,
            },
        ),
        _ => None,
    }
}

/// The number of slots that a module of the given class is spawned with, where
/// it is an inventory.
pub open spec fn spawn_slots(kind: ModuleKind) -> Option<i32> {
    match kind {
        ModuleKind::Storage => Some(9i32),
        ModuleKind::AdvancedStorage => Some(27i32),
        _ => None,
    }
}

/// Whether `module` is what a module of type `module_type` at `position` is
/// spawned as: it carries the components of its class, all of them empty.
pub open spec fn spawned_as(
    module: Module,
    entity: u64,
    module_type: ModuleType,
    position: ModulePosition,
    clock: u64,
) -> bool {
    let kind = kind_of(module_type.type_id@);
    &&& module.entity == entity
    &&& module.position == position
    &&& module.module_type == module_type
    &&& module.energy == spawn_energy(kind)
    &&& module.processing == spawn_processing(kind)
    &&& match spawn_slots(kind) {
        Some(slots) => module.storage matches Some(s) && s.max_slots == slots && s.item_slots@.len()
            == 0,
        None => module.storage is None,
    }
    &&& if kind == ModuleKind::Display {
        module.display matches Some(d) && d.display_text@.len() == 0 && d.max_length == 256
            && d.is_visible
    } else {
        module.display is None
    }
    &&& module.generator is None
    &&& module.energy_storage is None
    &&& module.consumer is None
    &&& module.java_sync is None
    &&& module.energy_stamp == clock
    &&& module.initialized
}

/// The components that a module of type `module_type` is spawned with.
fn bundle_for(module_type: ModuleType, position: ModulePosition) -> (bundle: ModuleBundle)
    ensures
        bundle.wf(),
        bundle.position == position,
        bundle.module_type == module_type,
        bundle.energy == spawn_energy(kind_of(module_type.type_id@)),
        bundle.processing == spawn_processing(kind_of(module_type.type_id@)),
        match spawn_slots(kind_of(module_type.type_id@)) {
            Some(slots) => bundle.storage matches Some(s) && s.max_slots == slots
                && s.item_slots@.len() == 0,
            None => bundle.storage is None,
        },
        if kind_of(module_type.type_id@) == ModuleKind::Display {
            bundle.display matches Some(d) && d.display_text@.len() == 0 && d.max_length == 256
                && d.is_visible
        } else {
            bundle.display is None
        },
{
    let kind = module_type.kind();
    let mut bundle = ModuleBundle::bare(position, module_type);
    match kind {
        ModuleKind::EnergyGenerator => {
            bundle.energy = Some(EnergyComponent::generator(1000, 10, 100));
        },
        ModuleKind::EnergyStorage => {
            bundle.energy = Some(EnergyComponent::storage(5000, 100));
        },
        ModuleKind::EnergyConsumer => {
            bundle.energy = Some(EnergyComponent::consumer(10, 50));
        },
        ModuleKind::AdvancedEnergyGenerator => {
            bundle.energy = Some(EnergyComponent::generator(2000, 25, 200));
        },
        ModuleKind::AdvancedEnergyStorage => {
            bundle.energy = Some(EnergyComponent::storage(10000, 200));
        },
        ModuleKind::HighPowerConsumer => {
            bundle.energy = Some(EnergyComponent::consumer(50, 100));
        },
        ModuleKind::Processor => {
            bundle.processing = Some(ProcessingComponent::new(1));
            bundle.energy = Some(EnergyComponent::consumer(20, 100));
        },
        ModuleKind::AdvancedProcessor => {
            bundle.processing = Some(ProcessingComponent::new(2));
            bundle.energy = Some(EnergyComponent::consumer(40, 150));
        },
        ModuleKind::Display => {
            bundle.display = Some(DisplayComponent::new(String::new()));
        },
        ModuleKind::Storage => {
            bundle.storage = Some(StorageComponent::new(9));
        },
        ModuleKind::AdvancedStorage => {
            bundle.storage = Some(StorageComponent::new(27));
        },
        _ => {},
    }
    bundle
}

/// The records with which the passes of a step start: those that the lifecycle
/// pass leaves.
pub open spec fn step_start(modules: Seq<Module>, tick: u64, clock: u64) -> Seq<Module> {
    lifecycle_pass(modules, tick, clock)
}

/// The transfers of a step: planned on the records with which the step starts.
pub open spec fn step_plan(modules: Seq<Module>, tick: u64, clock: u64) -> Seq<EnergyTransfer> {
    transfer_plan(step_start(modules, tick, clock))
}

/// The records after generation and consumption of a step.
pub open spec fn step_generated(modules: Seq<Module>, tick: u64, clock: u64) -> Seq<Module> {
    generation_pass(step_start(modules, tick, clock), clock)
}

/// The records after the energy passes of a step.
pub open spec fn step_traded(modules: Seq<Module>, tick: u64, clock: u64) -> Seq<Module> {
    apply_plan(step_generated(modules, tick, clock), clock, step_plan(modules, tick, clock))
}

/// The records after a whole step.
pub open spec fn stepped_modules(modules: Seq<Module>, tick: u64, clock: u64) -> Seq<Module> {
    processing_pass(reactivation_pass(step_traded(modules, tick, clock)))
}

/// The change records of a step: those of generation and consumption, then
/// those of the transfers.
pub open spec fn step_events(modules: Seq<Module>, tick: u64, clock: u64) -> Seq<
    EnergyChangeEvent,
> {
    generation_events(step_start(modules, tick, clock)) + plan_events(
        step_generated(modules, tick, clock),
        clock,
        step_plan(modules, tick, clock),
    )
}

/// One world of modules.
pub struct GridWorld {
    pub store: Store,
    pub tick_counter: TickCounter,
    pub batch_processor: BatchProcessor,
    pub transfer_batch: EnergyTransferBatch,
    pub event_batch: EnergyEventBatch,
    pub processing_batch: ProcessingChangeBatch,
    pub sync_manager: EnergySyncManager,
    pub sync_observer: ChangeObserver,
    pub world_pos: (i32, i32, i32),
}

impl GridWorld {
    /// The invariant of a world: that of its store and of its synchronisation
    /// manager. It holds the range of every energy and of every progress.
    pub open spec fn wf(&self) -> bool {
        &&& self.store.wf()
        &&& self.sync_manager.wf()
    }

    /// An empty world at `world_pos`, registered for synchronisation, before its
    /// first tick.
    pub fn new(world_pos: (i32, i32, i32)) -> (w: Self)
        ensures
            w.wf(),
            w.store@ == Seq::<Module>::empty(),
            w.store.clock() == 0,
            w.tick_counter.count == 0,
            w.batch_processor == (BatchProcessor { should_process: false, pending_changes: 0 }),
            w.transfer_batch.pending_transfers@ == Seq::<EnergyTransfer>::empty(),
            w.transfer_batch.completed_transfers@ == Seq::<EnergyTransfer>::empty(),
            w.event_batch.events@ == Seq::<EnergyChangeEvent>::empty(),
            w.processing_batch.changes@ == Seq::<(u64, i32)>::empty(),
            w.sync_manager@ == seq![WorldSyncView::fresh(world_pos)],
            w.sync_manager.current_tick() == 0,
            w.sync_observer.seen == 0,
            w.world_pos == world_pos,
    {
        let mut sync_manager = EnergySyncManager::new();
        sync_manager.register_world(world_pos);
        GridWorld {
            store: Store::new(),
            tick_counter: TickCounter::default(),
            batch_processor: BatchProcessor::default(),
            transfer_batch: EnergyTransferBatch::default(),
            event_batch: EnergyEventBatch::default(),
            processing_batch: ProcessingChangeBatch::default(),
            sync_manager,
            sync_observer: ChangeObserver::new(),
            world_pos,
        }
    }

    /// Spawns a module of type `module_type` at `position` with the components
    /// of its class, and returns its identifier.
    pub fn spawn_entity(&mut self, module_type: ModuleType, position: ModulePosition) -> (entity:
        u64)
        requires
            old(self).wf(),
            old(self).store@.len() < MAX_ENTITIES,
        ensures
            final(self).store@.len() == old(self).store@.len() + 1,
            final(self).store@.drop_last() == old(self).store@,
            spawned_as(
                final(self).store@.last(),
                entity,
                module_type,
                position,
                old(self).store.clock(),
            ),
            !entity_ids(old(self).store@).contains(entity),
            final(self).store.clock() == old(self).store.clock(),
            final(self).same_resources(old(self)),
            final(self).wf(),
    {
        let bundle = bundle_for(module_type, position);
        let entity = self.store.spawn(bundle);
        let last = self.store.len() - 1;
        self.store.mark_initialized_at(last);
        entity
    }

    /// Spawns a module of type `module_type` at `position` without components.
    /// The lifecycle pass of the next step attaches those of its role.
    pub fn create_module(&mut self, module_type: ModuleType, position: ModulePosition) -> (entity:
        u64)
        requires
            old(self).wf(),
            old(self).store@.len() < MAX_ENTITIES,
        ensures
            final(self).store@ == old(self).store@.push(
                Module::fresh(
                    ModuleBundle {
                        position,
                        module_type,
                        energy: None,
                        processing: None,
                        storage: None,
                        display: None,
                    },
                    entity,
                    old(self).store.clock(),
                ),
            ),
            !entity_ids(old(self).store@).contains(entity),
            final(self).store.clock() == old(self).store.clock(),
            final(self).same_resources(old(self)),
            final(self).wf(),
    {
        self.store.spawn(
            ModuleBundle {
                position,
                module_type,
                energy: None,
                processing: None,
                storage: None,
                display: None,
            },
        )
    }

    /// Whether everything but the store is as it is in `other`.
    pub open spec fn same_resources(&self, other: &GridWorld) -> bool {
        &&& self.tick_counter == other.tick_counter
        &&& self.batch_processor == other.batch_processor
        &&& self.transfer_batch == other.transfer_batch
        &&& self.event_batch == other.event_batch
        &&& self.processing_batch == other.processing_batch
        &&& self.sync_manager == other.sync_manager
        &&& self.sync_observer == other.sync_observer
        &&& self.world_pos == other.world_pos
    }

    /// Removes the module `entity`. Returns whether it was there; where it was
    /// not, the world stays as it is.
    pub fn despawn_entity(&mut self, entity: u64) -> (removed: bool)
        requires
            old(self).wf(),
        ensures
            match index_in(old(self).store@, entity) {
                Some(i) => removed && final(self).store@ == old(self).store@.remove(i),
                None => !removed && final(self).store@ == old(self).store@,
            },
            final(self).store.clock() == old(self).store.clock(),
            final(self).same_resources(old(self)),
            final(self).wf(),
    {
        self.store.despawn(entity)
    }

    /// The energy that the module `entity` holds, or -1 where there is no such
    /// module or it holds no energy.
    pub fn get_energy_level(&self, entity: u64) -> (level: i32)
        requires
            self.wf(),
        ensures
            level == match index_in(self.store@, entity) {
                Some(i) => match self.store@[i].energy {
                    Some(e) => e.current,
                    None => -1i32,
                },
                None => -1i32,
            },
            level >= -1,
    {
        match self.store.get(entity) {
            Some(module) => {
                match module.energy {
                    Some(energy) => energy.current,
                    None => -1,
                }
            },
            None => -1,
        }
    }

    /// Sets the energy of the module `entity` to `value`, clamped between zero
    /// and its capacity. Returns whether there is such a module with energy;
    /// where there is not, nothing changes.
    pub fn set_energy_level(&mut self, entity: u64, value: i32) -> (done: bool)
        requires
            old(self).wf(),
        ensures
            match index_in(old(self).store@, entity) {
                Some(i) => match old(self).store@[i].energy {
                    Some(e) => done && final(self).store@ == old(self).store@.update(
                        i,
                        old(self).store@[i].with_energy(
                            e.with_level_clamped(value as int),
                            old(self).store.clock(),
                        ),
                    ),
                    None => !done && final(self).store@ == old(self).store@,
                },
                None => !done && final(self).store@ == old(self).store@,
            },
            final(self).store.clock() == old(self).store.clock(),
            final(self).same_resources(old(self)),
            final(self).wf(),
    {
        match self.store.index_of(entity) {
            Some(i) => match self.store.energy_at(i) {
                Some(energy) => {
                    let mut next = energy;
                    next.set_level(value);
                    self.store.set_energy_at(i, next);
                    true
                },
                None => false,
            },
            None => false,
        }
    }

    /// Shows `text` on the display of the module `entity`, cut to the limit of
    /// the display. Returns whether it did: not where there is no such module,
    /// where it has no display, or where the cut would fall inside a character.
    pub fn set_display_text(&mut self, entity: u64, text: String) -> (done: bool)
        requires
            old(self).wf(),
        ensures
            done == (index_in(old(self).store@, entity) matches Some(i) && old(
                self,
            ).store@[i].display matches Some(d) && can_fit(text@, d.max_length)),
            !done ==> final(self).store@ == old(self).store@,
            done ==> final(self).store@.len() == old(self).store@.len() && old(self).store@[index_in(
                old(self).store@,
                entity,
            ).unwrap()].redisplayed(
                final(self).store@[index_in(old(self).store@, entity).unwrap()],
                text@,
            ),
            final(self).store.clock() == old(self).store.clock(),
            final(self).same_resources(old(self)),
            final(self).wf(),
    {
        match self.store.index_of(entity) {
            Some(i) => self.store.set_display_text_at(i, text),
            None => false,
        }
    }

    /// One tick. It is counted, and the synchronisation manager counts it too.
    /// Where its number is a multiple of the batch interval it is a simulation
    /// step; on any other tick the modules stay as they are and the counter of
    /// pending changes grows by one.
    pub fn tick(&mut self)
        requires
            old(self).wf(),
            old(self).tick_counter.count < u64::MAX,
        ensures
            final(self).wf(),
            final(self).tick_counter.count == old(self).tick_counter.count + 1,
            final(self).batch_processor.should_process == is_step_tick(
                final(self).tick_counter.count,
            ),
            final(self).world_pos == old(self).world_pos,
            final(self).sync_manager.current_tick() == next_tick(
                old(self).sync_manager.current_tick(),
            ),
            final(self).stepped_from(old(self)) || final(self).idled_from(old(self)),
            is_step_tick(final(self).tick_counter.count) ==> final(self).stepped_from(old(self)),
            !is_step_tick(final(self).tick_counter.count) ==> final(self).idled_from(old(self)),
    {
        batch_timing_system(&mut self.tick_counter, &mut self.batch_processor);
        if self.batch_processor.should_process {
            self.step();
            batch_stats_system(&self.tick_counter, &self.event_batch, &mut self.batch_processor);
            let _ready = energy_sync_batch_system(&mut self.sync_manager);
        } else {
            batch_stats_system(&self.tick_counter, &self.event_batch, &mut self.batch_processor);
            self.sync_manager.advance_tick();
        }
    }

    /// Whether this world is `before` after one tick.
    pub open spec fn ticked_from(&self, before: &GridWorld) -> bool {
        &&& self.wf()
        &&& self.tick_counter.count == before.tick_counter.count + 1
        &&& self.batch_processor.should_process == is_step_tick(self.tick_counter.count)
        &&& self.world_pos == before.world_pos
        &&& self.sync_manager.current_tick() == next_tick(before.sync_manager.current_tick())
        &&& if is_step_tick(self.tick_counter.count) {
            self.stepped_from(before)
        } else {
            self.idled_from(before)
        }
    }

    /// Whether this world is `before` after the energy of `entity` was set to
    /// `value`, with `done` as the answer.
    pub open spec fn energy_set_from(
        &self,
        before: &GridWorld,
        entity: u64,
        value: i32,
        done: bool,
    ) -> bool {
        &&& match index_in(before.store@, entity) {
            Some(i) => match before.store@[i].energy {
                Some(e) => done && self.store@ == before.store@.update(
                    i,
                    before.store@[i].with_energy(
                        e.with_level_clamped(value as int),
                        before.store.clock(),
                    ),
                ),
                None => !done && self.store@ == before.store@,
            },
            None => !done && self.store@ == before.store@,
        }
        &&& self.store.clock() == before.store.clock()
        &&& self.same_resources(before)
    }

    /// Whether this world is `before` after `text` was to be shown on the
    /// display of `entity`, with `done` as the answer.
    pub open spec fn text_set_from(
        &self,
        before: &GridWorld,
        entity: u64,
        text: Seq<char>,
        done: bool,
    ) -> bool {
        &&& done == (index_in(before.store@, entity) matches Some(i)
            && before.store@[i].display matches Some(d) && can_fit(text, d.max_length))
        &&& !done ==> self.store@ == before.store@
        &&& done ==> self.store@.len() == before.store@.len() && before.store@[index_in(
            before.store@,
            entity,
        ).unwrap()].redisplayed(self.store@[index_in(before.store@, entity).unwrap()], text)
        &&& self.store.clock() == before.store.clock()
        &&& self.same_resources(before)
    }

    /// Whether this world is `before` after its batch was handed out as `batch`.
    pub open spec fn drained_from(&self, before: &GridWorld, batch: Seq<EnergySync>) -> bool {
        &&& batch == pending_of(before.sync_manager@, before.world_pos)
        &&& self.sync_manager@ == flushed(
            before.sync_manager@,
            before.world_pos,
            before.sync_manager.current_tick(),
        )
        &&& pending_of(self.sync_manager@, self.world_pos) == Seq::<EnergySync>::empty()
        &&& !due_at(self.sync_manager@, self.world_pos, self.sync_manager.current_tick())
        &&& self.sync_manager.current_tick() == before.sync_manager.current_tick()
        &&& self.store == before.store
        &&& self.tick_counter == before.tick_counter
        &&& self.world_pos == before.world_pos
    }

    /// Whether this world is `before` after its pending batch of `count` records
    /// was taken unread.
    pub open spec fn batch_taken_from(&self, before: &GridWorld, count: usize) -> bool {
        &&& count == pending_of(before.sync_manager@, before.world_pos).len()
        &&& self.sync_manager@ == if count > 0 {
            flushed(before.sync_manager@, before.world_pos, before.sync_manager.current_tick())
        } else {
            before.sync_manager@
        }
        &&& self.sync_manager.current_tick() == before.sync_manager.current_tick()
        &&& self.store == before.store
        &&& self.tick_counter == before.tick_counter
        &&& self.world_pos == before.world_pos
    }

    /// Whether this world is `before` after the energy of all its modules was
    /// taken in for the host.
    pub open spec fn all_marked_from(&self, before: &GridWorld) -> bool {
        &&& self.sync_manager@ == detected(
            registered(before.sync_manager@, before.world_pos),
            before.world_pos,
            before.store@,
            0,
        )
        &&& self.sync_manager.current_tick() == before.sync_manager.current_tick()
        &&& self.store == before.store
        &&& self.tick_counter == before.tick_counter
        &&& self.world_pos == before.world_pos
    }

    /// Whether this world is `before` after a tick that was no simulation step.
    pub open spec fn idled_from(&self, before: &GridWorld) -> bool {
        &&& self.store@ == before.store@
        &&& self.store.clock() == before.store.clock()
        &&& self.batch_processor.pending_changes == one_more_pending(
            before.batch_processor.pending_changes,
        )
        &&& self.transfer_batch == before.transfer_batch
        &&& self.event_batch == before.event_batch
        &&& self.processing_batch == before.processing_batch
        &&& self.sync_manager@ == before.sync_manager@
        &&& self.sync_observer == before.sync_observer
    }

    /// Whether this world is `before` after a tick that was a simulation step.
    pub open spec fn stepped_from(&self, before: &GridWorld) -> bool {
        let tick = self.tick_counter.count;
        let clock = before.store.clock();
        &&& self.store@ == stepped_modules(before.store@, tick, clock)
        &&& self.store.clock() == next_clock(clock)
        &&& self.event_batch.events@ == step_events(before.store@, tick, clock)
        &&& self.transfer_batch.pending_transfers@ == step_plan(before.store@, tick, clock)
        &&& self.transfer_batch.completed_transfers@ == plan_completed(
            step_generated(before.store@, tick, clock),
            clock,
            step_plan(before.store@, tick, clock),
        )
        &&& self.processing_batch.changes@ == processing_changes(
            reactivation_pass(step_traded(before.store@, tick, clock)),
        )
        &&& self.sync_manager@ == detected(
            before.sync_manager@,
            before.world_pos,
            stepped_modules(before.store@, tick, clock),
            before.sync_observer.seen,
        )
        &&& self.sync_observer.seen == self.store.clock()
        &&& self.batch_processor.pending_changes == pending_from_len(self.event_batch.events@.len())
    }

    /// The passes of one simulation step, in their order.
    fn step(&mut self)
        requires
            old(self).wf(),
        ensures
            final(self).wf(),
            final(self).tick_counter == old(self).tick_counter,
            final(self).batch_processor == old(self).batch_processor,
            final(self).world_pos == old(self).world_pos,
            final(self).sync_manager.current_tick() == old(self).sync_manager.current_tick(),
            final(self).store@ == stepped_modules(
                old(self).store@,
                old(self).tick_counter.count,
                old(self).store.clock(),
            ),
            final(self).store.clock() == next_clock(old(self).store.clock()),
            final(self).event_batch.events@ == step_events(
                old(self).store@,
                old(self).tick_counter.count,
                old(self).store.clock(),
            ),
            final(self).transfer_batch.pending_transfers@ == step_plan(
                old(self).store@,
                old(self).tick_counter.count,
                old(self).store.clock(),
            ),
            final(self).transfer_batch.completed_transfers@ == plan_completed(
                step_generated(
                    old(self).store@,
                    old(self).tick_counter.count,
                    old(self).store.clock(),
                ),
                old(self).store.clock(),
                step_plan(old(self).store@, old(self).tick_counter.count, old(self).store.clock()),
            ),
            final(self).processing_batch.changes@ == processing_changes(
                reactivation_pass(
                    step_traded(
                        old(self).store@,
                        old(self).tick_counter.count,
                        old(self).store.clock(),
                    ),
                ),
            ),
            final(self).sync_manager@ == detected(
                old(self).sync_manager@,
                old(self).world_pos,
                stepped_modules(
                    old(self).store@,
                    old(self).tick_counter.count,
                    old(self).store.clock(),
                ),
                old(self).sync_observer.seen,
            ),
            final(self).sync_observer.seen == final(self).store.clock(),
    {
        self.event_batch.events.clear();
        self.transfer_batch.pending_transfers.clear();
        self.transfer_batch.completed_transfers.clear();
        rust_module_lifecycle_system(&self.tick_counter, &mut self.store);
        let plan = plan_energy_transfers(&self.store);
        energy_generation_system(&mut self.store, &mut self.event_batch);
        apply_energy_transfers(
            &mut self.store,
            &plan,
            &mut self.transfer_batch,
            &mut self.event_batch,
        );
        self.transfer_batch.pending_transfers = plan;
        processing_activation_system(&mut self.store);
        processing_system(&mut self.store, &mut self.processing_batch);
        energy_sync_detection_system(
            &mut self.sync_manager,
            &mut self.store,
            &mut self.sync_observer,
            self.world_pos,
        );
    }

    /// Whether a batch for the host is due: the world has news, and the interval
    /// since the last batch has passed.
    pub fn should_flush(&self) -> (r: bool)
        requires
            self.wf(),
        ensures
            r == due_at(self.sync_manager@, self.world_pos, self.sync_manager.current_tick()),
    {
        self.sync_manager.should_flush(self.world_pos)
    }

    /// Hands out what the host has yet to be told: for each module that changed,
    /// its position with its latest energy and capacity. Nothing is pending
    /// afterwards, and the batch counts as taken at the current tick.
    pub fn drain_sync_batch(&mut self) -> (batch: Vec<EnergySync>)
        requires
            old(self).wf(),
        ensures
            batch@ == pending_of(old(self).sync_manager@, old(self).world_pos),
            final(self).sync_manager@ == flushed(
                old(self).sync_manager@,
                old(self).world_pos,
                old(self).sync_manager.current_tick(),
            ),
            pending_of(final(self).sync_manager@, final(self).world_pos) == Seq::<
                EnergySync,
            >::empty(),
            !due_at(
                final(self).sync_manager@,
                final(self).world_pos,
                final(self).sync_manager.current_tick(),
            ),
            final(self).sync_manager.current_tick() == old(self).sync_manager.current_tick(),
            final(self).store == old(self).store,
            final(self).tick_counter == old(self).tick_counter,
            final(self).world_pos == old(self).world_pos,
            final(self).wf(),
    {
        self.sync_manager.drain_world(self.world_pos)
    }
}

/// The choice of the energy component alone.
pub open spec fn energy_only() -> ComponentSet {
    ComponentSet {
        energy: true,
        processing: false,
        storage: false,
        display: false,
        generator: false,
        energy_storage: false,
        consumer: false,
        java_sync: false,
    }
}

/// The empty choice.
pub open spec fn no_components() -> ComponentSet {
    ComponentSet { energy: false, ..energy_only() }
}

/// The identifiers of the modules that hold energy, in the order of the store.
pub open spec fn energy_ids(modules: Seq<Module>) -> Seq<u64> {
    selected_ids(modules, energy_only(), no_components(), None)
}

/// The number of modules that have news for the host on their own record.
pub open spec fn needing_sync(modules: Seq<Module>) -> nat
    decreases modules.len(),
{
    if modules.len() == 0 {
        0
    } else {
        needing_sync(modules.drop_last()) + if modules.last().java_sync matches Some(s)
            && s.needs_sync {
            1nat
        } else {
            0nat
        }
    }
}

proof fn lemma_needing_sync_bound(modules: Seq<Module>)
    ensures
        needing_sync(modules) <= modules.len(),
    decreases modules.len(),
{
    if modules.len() > 0 {
        lemma_needing_sync_bound(modules.drop_last());
    }
}

impl GridWorld {
    /// The tick count and the counter of pending changes in one word: the count
    /// in the upper half, the counter in the lower.
    pub fn batch_stats(&self) -> (word: u64)
        ensures
            word == packed_pair(self.tick_counter.count, self.batch_processor.pending_changes),
    {
        pack_pair(self.tick_counter.count, self.batch_processor.pending_changes)
    }

    /// The number of change records of the last step, in the upper half of a
    /// word; zero where there are none.
    pub fn energy_event_stats(&self) -> (word: u64)
        ensures
            word == if self.event_batch.events@.len() == 0 {
                0
            } else {
                packed_pair(self.event_batch.events@.len() as u64, 0)
            },
    {
        let count = self.event_batch.events.len();
        if count == 0 {
            0
        } else {
            pack_pair(count as u64, 0)
        }
    }

    /// The change record at `index` in one word: the module, its new level and
    /// its capacity. `None` where the last step left no such record.
    pub fn energy_event_data(&self, index: usize) -> (word: Option<u64>)
        ensures
            word == if index < self.event_batch.events@.len() {
                Some(
                    packed_record(
                        self.event_batch.events@[index as int].entity,
                        self.event_batch.events@[index as int].new_energy,
                        self.event_batch.events@[index as int].max_capacity,
                    ),
                )
            } else {
                None
            },
    {
        if index < self.event_batch.events.len() {
            let event = &self.event_batch.events[index];
            Some(pack_record(event.entity, event.new_energy, event.max_capacity))
        } else {
            None
        }
    }

    /// The number of modules that hold energy.
    pub fn energy_entity_count(&self) -> (count: usize)
        ensures
            count == energy_ids(self.store@).len(),
    {
        let required = ComponentSet { energy: true, ..ComponentSet::none() };
        self.store.query(&required, &ComponentSet::none()).len()
    }

    /// The module that stands at `index` among those that hold energy, in one
    /// word: the module, its level and its capacity. `None` where fewer modules
    /// hold energy.
    pub fn energy_data_by_index(&self, index: usize) -> (word: Option<u64>)
        requires
            self.wf(),
        ensures
            match word {
                Some(w) => {
                    &&& index < energy_ids(self.store@).len()
                    &&& index_in(self.store@, energy_ids(self.store@)[index as int]) matches Some(
                        i,
                    )
                    &&& self.store@[i].energy matches Some(e)
                    &&& w == packed_record(self.store@[i].entity, e.current, e.max_capacity)
                },
                None => index >= energy_ids(self.store@).len(),
            },
    {
        let required = ComponentSet { energy: true, ..ComponentSet::none() };
        let ids = self.store.query(&required, &ComponentSet::none());
        if index >= ids.len() {
            return None;
        }
        let entity = ids[index];
        proof {
            lemma_selected_ids_members(
                self.store@,
                energy_only(),
                no_components(),
                None,
                index as int,
            );
        }
        match self.store.get(entity) {
            Some(module) => match module.energy {
                Some(energy) => Some(pack_record(entity, energy.current, energy.max_capacity)),
                None => None,
            },
            None => None,
        }
    }

    /// The numbers of planned and of delivered transfers of the last step in one
    /// word: the planned in the upper half, the delivered in the lower.
    pub fn transfer_stats(&self) -> (word: u64)
        ensures
            word == packed_pair(
                pending_from_len(self.transfer_batch.pending_transfers@.len()) as u64,
                pending_from_len(self.transfer_batch.completed_transfers@.len()),
            ),
    {
        let planned = self.transfer_batch.pending_transfers.len();
        let delivered = self.transfer_batch.completed_transfers.len();
        let planned_count: u32 = if planned <= u32::MAX as usize {
            planned as u32
        } else {
            u32::MAX
        };
        let delivered_count: u32 = if delivered <= u32::MAX as usize {
            delivered as u32
        } else {
            u32::MAX
        };
        pack_pair(planned_count as u64, delivered_count)
    }

    /// The energy of the module `entity` in one word: its generation rate, its
    /// flags, its capacity and its level. `None` where there is no such module or
    /// it holds no energy.
    pub fn module_energy(&self, entity: u64) -> (word: Option<u64>)
        requires
            self.wf(),
        ensures
            word == match index_in(self.store@, entity) {
                Some(i) => match self.store@[i].energy {
                    Some(e) => Some(
                        packed_energy(
                            e.generation_rate,
                            e.can_receive,
                            e.can_extract,
                            e.max_capacity,
                            e.current,
                        ),
                    ),
                    None => None,
                },
                None => None,
            },
    {
        match self.store.get(entity) {
            Some(module) => match module.energy {
                Some(e) => Some(
                    pack_energy(
                        e.generation_rate,
                        e.can_receive,
                        e.can_extract,
                        e.max_capacity,
                        e.current,
                    ),
                ),
                None => None,
            },
            None => None,
        }
    }

    /// How much the host has yet to be told: the number of pending records of
    /// this world, or, where the world is not registered for synchronisation, the
    /// number of modules that have news on their own record.
    pub fn modules_to_sync(&self) -> (count: usize)
        requires
            self.wf(),
        ensures
            count == match world_index(self.sync_manager@, self.world_pos) {
                Some(i) => self.sync_manager@[i].energy_updates.len(),
                None => needing_sync(self.store@),
            },
    {
        match self.sync_manager.get_world_sync_data(self.world_pos) {
            Some(data) => data.energy_updates.len(),
            None => {
                let n = self.store.len();
                let mut count: usize = 0;
                let mut i: usize = 0;
                while i < n
                    invariant
                        i <= n,
                        n == self.store@.len(),
                        count == needing_sync(self.store@.take(i as int)),
                        count <= i,
                    decreases n - i,
                {
                    proof {
                        let upto = self.store@.take(i as int + 1);
                        assert(upto.drop_last() =~= self.store@.take(i as int));
                    }
                    let waiting = match &self.store.module_at(i).java_sync {
                        Some(sync) => sync.needs_sync,
                        None => false,
                    };
                    if waiting {
                        count += 1;
                    }
                    i += 1;
                }
                assert(self.store@.take(n as int) =~= self.store@);
                count
            },
        }
    }

    /// Takes the pending batch of this world without reading it: returns how
    /// many records it held and forgets them. Where nothing is pending, nothing
    /// changes.
    pub fn get_sync_data(&mut self) -> (count: usize)
        requires
            old(self).wf(),
        ensures
            count == pending_of(old(self).sync_manager@, old(self).world_pos).len(),
            final(self).sync_manager@ == if count > 0 {
                flushed(
                    old(self).sync_manager@,
                    old(self).world_pos,
                    old(self).sync_manager.current_tick(),
                )
            } else {
                old(self).sync_manager@
            },
            final(self).sync_manager.current_tick() == old(self).sync_manager.current_tick(),
            final(self).store == old(self).store,
            final(self).tick_counter == old(self).tick_counter,
            final(self).world_pos == old(self).world_pos,
            final(self).wf(),
    {
        let count = match self.sync_manager.get_world_sync_data(self.world_pos) {
            Some(data) => data.energy_updates.len(),
            None => 0,
        };
        if count > 0 {
            self.sync_manager.clear_world_updates(self.world_pos);
        }
        count
    }

    /// Makes sure that this world is registered for synchronisation and takes in
    /// the energy of every module that holds energy, changed or not.
    pub fn force_sync_all(&mut self)
        requires
            old(self).wf(),
        ensures
            final(self).sync_manager@ == detected(
                registered(old(self).sync_manager@, old(self).world_pos),
                old(self).world_pos,
                old(self).store@,
                0,
            ),
            final(self).sync_manager.current_tick() == old(self).sync_manager.current_tick(),
            final(self).store == old(self).store,
            final(self).tick_counter == old(self).tick_counter,
            final(self).world_pos == old(self).world_pos,
            final(self).wf(),
    {
        self.sync_manager.register_world(self.world_pos);
        mark_changed_since(&mut self.sync_manager, &self.store, self.world_pos, 0);
    }
}

/// In a sound world every energy lies between zero and its capacity, and every
/// progress lies at or above zero and strictly below the length of its cycle.
pub proof fn lemma_sound_world_keeps_ranges(world: &GridWorld, i: int)
    requires
        world.wf(),
        0 <= i < world.store@.len(),
    ensures
        world.store@[i].energy matches Some(e) ==> 0 <= e.current <= e.max_capacity,
        world.store@[i].processing matches Some(p) ==> 0 <= p.current_progress < p.max_progress,
{
}

/// A simulation step keeps the order and the identifiers of the modules, and
/// leaves every energy and every progress within its range.
pub proof fn lemma_step_keeps_modules_sound(modules: Seq<Module>, tick: u64, clock: u64)
    requires
        modules_wf(modules, clock),
    ensures
        modules_wf(step_start(modules, tick, clock), clock),
        modules_wf(step_generated(modules, tick, clock), clock),
        modules_wf(step_traded(modules, tick, clock), clock),
        modules_wf(stepped_modules(modules, tick, clock), clock),
        stepped_modules(modules, tick, clock).len() == modules.len(),
        forall|i: int|
            0 <= i < modules.len() ==> {
                let after = #[trigger] stepped_modules(modules, tick, clock)[i];
                &&& after.entity == modules[i].entity
                &&& after.position == modules[i].position
                &&& after.energy matches Some(e) ==> 0 <= e.current <= e.max_capacity
                &&& after.processing matches Some(p) ==> 0 <= p.current_progress < p.max_progress
            },
{
    let generated = step_generated(modules, tick, clock);
    lemma_apply_plan_shape(generated, clock, step_plan(modules, tick, clock));
}

/// In any simulation step, every transfer runs between two modules that lie at
/// Manhattan distance exactly one from each other.
pub proof fn lemma_step_transfers_join_neighbours(
    modules: Seq<Module>,
    tick: u64,
    clock: u64,
    k: int,
)
    requires
        0 <= k < step_plan(modules, tick, clock).len(),
    ensures
        exists|i: int, j: int|
            0 <= i < j < modules.len() && step_plan(modules, tick, clock)[k].from_entity
                == (#[trigger] modules[i]).entity && step_plan(modules, tick, clock)[k].to_entity
                == (#[trigger] modules[j]).entity && manhattan(
                modules[i].position,
                modules[j].position,
            ) == 1,
{
    let born = step_start(modules, tick, clock);
    lemma_transfers_join_adjacent_modules(born, k);
}

/// A module that lies at Manhattan distance one from no other module takes part
/// in no transfer: a simulation step leaves it with the energy that generation
/// and consumption alone give it.
pub proof fn lemma_step_leaves_distant_module_untraded(
    modules: Seq<Module>,
    tick: u64,
    clock: u64,
    i: int,
)
    requires
        modules_wf(modules, clock),
        0 <= i < modules.len(),
        forall|j: int|
            0 <= j < modules.len() && j != i ==> manhattan(
                modules[i].position,
                #[trigger] modules[j].position,
            ) != 1,
    ensures
        step_traded(modules, tick, clock)[i] == step_generated(modules, tick, clock)[i],
        stepped_modules(modules, tick, clock)[i].energy == step_generated(
            modules,
            tick,
            clock,
        )[i].energy,
{
    let generated = step_generated(modules, tick, clock);
    let plan = step_plan(modules, tick, clock);
    lemma_apply_plan_shape(generated, clock, plan);
    let after = apply_plan(generated, clock, plan)[i];
    assert forall|t: int| 0 <= t < plan.len() implies (#[trigger] plan[t]).from_entity
        != after.entity && plan[t].to_entity != after.entity by {
        lemma_step_transfers_join_neighbours(modules, tick, clock, t);
    }
}

} // verus!
