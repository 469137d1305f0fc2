use fiatlux_ecs::components::energy::EnergyComponent;
use fiatlux_ecs::components::kind::ModuleType;
use fiatlux_ecs::components::position::ModulePosition;
use fiatlux_ecs::components::processing::ProcessingComponent;
use fiatlux_ecs::events::{EnergyChangeEvent, EnergyTransfer};
use fiatlux_ecs::resources::{
    BatchProcessor, EnergyEventBatch, EnergyTransferBatch, ProcessingChangeBatch, TickCounter,
};
use fiatlux_ecs::store::{ChangeObserver, ModuleBundle, Store};
use fiatlux_ecs::systems::batch::{
    batch_cleanup_system, batch_stats_system, batch_timing_system, BatchSystemRunner,
    BATCH_INTERVAL,
};
use fiatlux_ecs::systems::energy::{
    apply_energy_transfers, energy_balancing_system, energy_generation_system,
    energy_transfer_system, plan_energy_transfers, MAX_TRANSFER_PER_STEP,
};
use fiatlux_ecs::systems::module_logic::{
    rust_energy_consumption_system, rust_energy_generation_system, rust_energy_transfer_system,
    rust_java_sync_collection_system, rust_module_lifecycle_system,
};
use fiatlux_ecs::systems::processing::{
    energy_processing_system, processing_activation_system, processing_system,
};
use fiatlux_ecs::systems::sync::{
    energy_sync_batch_system, energy_sync_detection_system, EnergySync, EnergySyncManager,
    WorldSyncData, SYNC_INTERVAL_TICKS,
};

fn spawn_energy(store: &mut Store, at: (i32, i32, i32), energy: EnergyComponent) -> u64 {
    let mut bundle =
        ModuleBundle::bare(ModulePosition::new(at.0, at.1, at.2), ModuleType::new("m".to_string()));
    bundle.energy = Some(energy);
    store.spawn(bundle)
}

fn level(store: &Store, entity: u64) -> i32 {
    store.get_energy(entity).unwrap().current
}

fn source(current: i32, rate: i32) -> EnergyComponent {
    let mut e = EnergyComponent::generator(1000, 0, rate);
    e.current = current;
    e
}

fn sink(current: i32, capacity: i32, rate: i32) -> EnergyComponent {
    let mut e = EnergyComponent::consumer(0, rate);
    e.max_capacity = capacity;
    e.current = current;
    e
}

#[test]
fn generation_records_only_what_changed() {
    let mut store = Store::new();
    let mut full = EnergyComponent::generator(100, 10, 10);
    full.current = 100;
    let g = spawn_energy(&mut store, (0, 0, 0), EnergyComponent::generator(1000, 10, 100));
    let f = spawn_energy(&mut store, (5, 0, 0), full);
    let mut hungry = EnergyComponent::consumer(7, 10);
    hungry.max_capacity = 50;
    hungry.current = 20;
    let c = spawn_energy(&mut store, (9, 0, 0), hungry);
    let mut both = EnergyComponent::storage(100, 10);
    both.generation_rate = 5;
    both.consumption_rate = 5;
    both.current = 50;
    let b = spawn_energy(&mut store, (12, 0, 0), both);
    let mut events = EnergyEventBatch::default();
    events.events.push(EnergyChangeEvent::new(99, 1, 2, 3));
    energy_generation_system(&mut store, &mut events);
    assert_eq!(level(&store, g), 10);
    assert_eq!(level(&store, f), 100);
    assert_eq!(level(&store, c), 13);
    assert_eq!(level(&store, b), 50);
    assert_eq!(
        events.events,
        vec![
            EnergyChangeEvent::new(99, 1, 2, 3),
            EnergyChangeEvent::new(g, 0, 10, 1000),
            EnergyChangeEvent::new(c, 20, 13, 50),
        ]
    );
}

#[test]
fn generation_then_consumption_in_one_step() {
    let mut store = Store::new();
    let mut e = EnergyComponent::storage(100, 10);
    e.generation_rate = 30;
    e.consumption_rate = 50;
    e.current = 90;
    let m = spawn_energy(&mut store, (0, 0, 0), e);
    let mut events = EnergyEventBatch::default();
    energy_generation_system(&mut store, &mut events);
    assert_eq!(level(&store, m), 50);
    assert_eq!(events.events, vec![EnergyChangeEvent::new(m, 90, 50, 100)]);
}

#[test]
fn transfer_moves_the_least_of_give_take_and_cap() {
    let cases = [
        (100, 30, 0, 1000, 100, 30),
        (100, 80, 0, 1000, 100, 50),
        (20, 80, 0, 1000, 100, 20),
        (100, 80, 0, 1000, 7, 7),
        (100, 80, 995, 1000, 100, 5),
        (100, 80, 0, 1000, 0, 0),
        (100, 0, 0, 1000, 100, 0),
        (0, 80, 0, 1000, 100, 0),
        (100, 80, 1000, 1000, 100, 0),
    ];
    for (have, give_rate, held, capacity, take_rate, moved) in cases {
        let mut store = Store::new();
        let a = spawn_energy(&mut store, (0, 0, 0), source(have, give_rate));
        let b = spawn_energy(&mut store, (0, 0, 1), sink(held, capacity, take_rate));
        let mut transfers = EnergyTransferBatch::default();
        let mut events = EnergyEventBatch::default();
        energy_transfer_system(&mut store, &mut transfers, &mut events);
        assert_eq!(level(&store, a), have - moved);
        assert_eq!(level(&store, b), held + moved);
        assert_eq!(level(&store, a) + level(&store, b), have + held);
        if moved > 0 {
            assert_eq!(
                transfers.pending_transfers,
                vec![EnergyTransfer::new(a, b, moved).with_direction((0, 0, 1))]
            );
            assert_eq!(transfers.completed_transfers, vec![EnergyTransfer::new(a, b, moved)]);
            assert_eq!(
                events.events,
                vec![
                    EnergyChangeEvent::new(a, have, have - moved, 1000),
                    EnergyChangeEvent::new(b, held, held + moved, capacity),
                ]
            );
        } else {
            assert!(transfers.pending_transfers.is_empty());
            assert!(transfers.completed_transfers.is_empty());
            assert!(events.events.is_empty());
        }
    }
    assert_eq!(MAX_TRANSFER_PER_STEP, 50);
}

#[test]
fn only_the_earlier_module_gives_to_the_later() {
    let mut store = Store::new();
    let b = spawn_energy(&mut store, (0, 0, 1), sink(0, 1000, 100));
    let a = spawn_energy(&mut store, (0, 0, 0), source(100, 30));
    assert!(plan_energy_transfers(&store).is_empty());
    let mut transfers = EnergyTransferBatch::default();
    let mut events = EnergyEventBatch::default();
    energy_transfer_system(&mut store, &mut transfers, &mut events);
    assert_eq!((level(&store, a), level(&store, b)), (100, 0));
    assert!(events.events.is_empty());
}

#[test]
fn modules_that_are_not_at_distance_one_never_trade() {
    let places = [(2, 0, 0), (1, 1, 0), (1, 1, 1), (0, 0, 0), (0, -2, 0), (-1, 0, 1), (7, 7, 7)];
    for place in places {
        let mut store = Store::new();
        let a = spawn_energy(&mut store, (0, 0, 0), source(100, 30));
        let b = spawn_energy(&mut store, place, sink(0, 1000, 100));
        let mut transfers = EnergyTransferBatch::default();
        let mut events = EnergyEventBatch::default();
        for _ in 0..5 {
            energy_transfer_system(&mut store, &mut transfers, &mut events);
        }
        assert_eq!((level(&store, a), level(&store, b)), (100, 0));
        assert!(transfers.pending_transfers.is_empty());
        assert!(events.events.is_empty());
    }
}

#[test]
fn a_source_serves_its_sinks_in_order_until_it_is_dry() {
    let mut store = Store::new();
    let a = spawn_energy(&mut store, (0, 0, 0), source(40, 30));
    let b = spawn_energy(&mut store, (1, 0, 0), sink(0, 1000, 100));
    let c = spawn_energy(&mut store, (0, 1, 0), sink(0, 1000, 100));
    let d = spawn_energy(&mut store, (0, 0, 1), sink(0, 1000, 100));
    let plan = plan_energy_transfers(&store);
    assert_eq!(
        plan,
        vec![
            EnergyTransfer::new(a, b, 30).with_direction((1, 0, 0)),
            EnergyTransfer::new(a, c, 30).with_direction((0, 1, 0)),
            EnergyTransfer::new(a, d, 30).with_direction((0, 0, 1)),
        ]
    );
    let mut transfers = EnergyTransferBatch::default();
    let mut events = EnergyEventBatch::default();
    energy_transfer_system(&mut store, &mut transfers, &mut events);
    assert_eq!(level(&store, a), 0);
    assert_eq!(level(&store, b), 30);
    assert_eq!(level(&store, c), 10);
    assert_eq!(level(&store, d), 0);
    assert_eq!(
        transfers.completed_transfers,
        vec![EnergyTransfer::new(a, b, 30), EnergyTransfer::new(a, c, 10)]
    );
    assert_eq!(events.events.len(), 4);
    assert_eq!(events.events[2], EnergyChangeEvent::new(a, 10, 0, 1000));
    assert_eq!(events.events[3], EnergyChangeEvent::new(c, 0, 10, 1000));
}

#[test]
fn what_a_full_sink_cannot_take_is_lost() {
    let mut store = Store::new();
    let a = spawn_energy(&mut store, (0, 0, 0), source(100, 30));
    let b = spawn_energy(&mut store, (2, 0, 0), source(100, 30));
    let k = spawn_energy(&mut store, (1, 0, 0), sink(995, 1000, 100));
    let mut transfers = EnergyTransferBatch::default();
    let mut events = EnergyEventBatch::default();
    energy_transfer_system(&mut store, &mut transfers, &mut events);
    assert_eq!(level(&store, a), 95);
    assert_eq!(level(&store, b), 95);
    assert_eq!(level(&store, k), 1000);
    assert_eq!(
        transfers.completed_transfers,
        vec![EnergyTransfer::new(a, k, 5), EnergyTransfer::new(b, k, 0)]
    );
    assert_eq!(events.events[3], EnergyChangeEvent::new(k, 1000, 1000, 1000));
}

#[test]
fn a_plan_is_applied_to_the_levels_of_its_time() {
    let mut store = Store::new();
    let a = spawn_energy(&mut store, (0, 0, 0), source(10, 100));
    let b = spawn_energy(&mut store, (1, 0, 0), sink(0, 5000, 100));
    let plan = plan_energy_transfers(&store);
    assert_eq!(plan, vec![EnergyTransfer::new(a, b, 10).with_direction((1, 0, 0))]);
    let mut raised = source(20, 100);
    raised.generation_rate = 0;
    store.set_energy(a, raised);
    let mut transfers = EnergyTransferBatch::default();
    let mut events = EnergyEventBatch::default();
    apply_energy_transfers(&mut store, &plan, &mut transfers, &mut events);
    assert_eq!((level(&store, a), level(&store, b)), (10, 10));
    let gone = vec![EnergyTransfer::new(a + 1000, b, 10), EnergyTransfer::new(a, b + 1000, 4)];
    apply_energy_transfers(&mut store, &gone, &mut transfers, &mut events);
    assert_eq!((level(&store, a), level(&store, b)), (6, 10));
    assert_eq!(transfers.completed_transfers, vec![EnergyTransfer::new(a, b, 10)]);
    assert_eq!(events.events.len(), 2);
}

#[test]
fn every_fourth_tick_is_a_simulation_step() {
    assert_eq!(BATCH_INTERVAL, 4);
    let mut counter = TickCounter::default();
    let mut batch = BatchProcessor::default();
    let mut steps = Vec::new();
    for _ in 0..12 {
        batch_timing_system(&mut counter, &mut batch);
        if batch.should_process {
            steps.push(counter.count);
        }
    }
    assert_eq!(steps, vec![4, 8, 12]);
    assert_eq!(counter.count, 12);
}

#[test]
fn pending_changes_count_events_on_steps_and_ticks_between() {
    let counter = TickCounter::default();
    let mut events = EnergyEventBatch::default();
    events.events.push(EnergyChangeEvent::new(1, 0, 1, 2));
    events.events.push(EnergyChangeEvent::new(2, 0, 1, 2));
    let mut batch = BatchProcessor { should_process: true, pending_changes: 9 };
    batch_stats_system(&counter, &events, &mut batch);
    assert_eq!(batch.pending_changes, 2);
    batch.should_process = false;
    batch_stats_system(&counter, &events, &mut batch);
    batch_stats_system(&counter, &events, &mut batch);
    assert_eq!(batch.pending_changes, 4);
    batch.pending_changes = u32::MAX;
    batch_stats_system(&counter, &events, &mut batch);
    assert_eq!(batch.pending_changes, u32::MAX);
    batch_cleanup_system(&mut events, &batch);
    assert_eq!(events.events.len(), 2);
    batch.should_process = true;
    batch_cleanup_system(&mut events, &batch);
    assert!(events.events.is_empty());
}

#[test]
fn runner_runs_only_on_steps() {
    let mut runner = BatchSystemRunner::new();
    let mut ran = 0;
    assert!(!runner.run_if_needed(|| ran += 1));
    runner.update(&BatchProcessor { should_process: true, pending_changes: 0 });
    assert!(runner.run_if_needed(|| ran += 1));
    runner.update(&BatchProcessor { should_process: false, pending_changes: 0 });
    assert!(!runner.run_if_needed(|| ran += 1));
    assert_eq!(ran, 1);
}

#[test]
fn later_changes_of_a_position_replace_earlier_ones() {
    let at = |p: i32, energy: i32| EnergySync {
        position: (p, 0, 0),
        energy,
        max_energy: 100,
        changed: true,
    };
    let mut world = WorldSyncData::new((1, 2, 3));
    assert!(!world.dirty);
    world.add_energy_update(at(1, 10));
    world.add_energy_update(at(2, 5));
    world.add_energy_update(at(1, 20));
    world.add_energy_update(at(3, 7));
    world.add_energy_update(at(2, 6));
    assert!(world.dirty);
    assert_eq!(world.energy_updates, vec![at(1, 20), at(3, 7), at(2, 6)]);
    let batch = world.drain(9);
    assert_eq!(batch, vec![at(1, 20), at(3, 7), at(2, 6)]);
    assert!(world.drain(9).is_empty());
    assert!(!world.dirty);
    assert_eq!(world.last_sync_tick, 9);
    world.add_energy_update(at(1, 1));
    world.clear_updates(11);
    assert!(world.energy_updates.is_empty());
    assert_eq!(world.last_sync_tick, 11);
}

#[test]
fn a_batch_is_due_only_with_news_and_after_the_interval() {
    assert_eq!(SYNC_INTERVAL_TICKS, 5);
    let mut world = WorldSyncData::new((0, 0, 0));
    assert!(!world.should_sync(100));
    world.add_energy_update(EnergySync {
        position: (0, 0, 0),
        energy: 1,
        max_energy: 2,
        changed: true,
    });
    world.last_sync_tick = 10;
    assert!(!world.should_sync(0));
    assert!(!world.should_sync(10));
    assert!(!world.should_sync(14));
    assert!(world.should_sync(15));
    assert!(world.should_sync(u64::MAX));
}

#[test]
fn manager_keeps_worlds_apart_and_ignores_unknown_ones() {
    let mut manager = EnergySyncManager::new();
    manager.mark_energy_changed((0, 0, 0), (1, 1, 1), 5, 10);
    assert!(manager.get_world_sync_data((0, 0, 0)).is_none());
    manager.register_world((0, 0, 0));
    manager.register_world((9, 9, 9));
    manager.register_world((0, 0, 0));
    manager.mark_energy_changed((0, 0, 0), (1, 1, 1), 5, 10);
    manager.mark_energy_changed((0, 0, 0), (1, 1, 1), 6, 10);
    manager.mark_energy_changed((9, 9, 9), (1, 1, 1), 7, 10);
    manager.mark_energy_changed((4, 4, 4), (1, 1, 1), 8, 10);
    let first = manager.get_world_sync_data((0, 0, 0)).unwrap();
    assert_eq!(first.energy_updates.len(), 1);
    assert_eq!(first.energy_updates[0].energy, 6);
    assert!(first.energy_updates[0].changed);
    assert_eq!(manager.get_world_sync_data((9, 9, 9)).unwrap().energy_updates[0].energy, 7);
    assert!(manager.get_world_sync_data((4, 4, 4)).is_none());
    for _ in 0..4 {
        assert!(manager.get_pending_syncs().is_empty());
        assert!(!manager.should_flush((0, 0, 0)));
    }
    assert_eq!(manager.get_pending_syncs(), vec![(0, 0, 0), (9, 9, 9)]);
    assert!(manager.should_flush((0, 0, 0)));
    assert!(!manager.should_flush((4, 4, 4)));
    let batch = manager.drain_world((0, 0, 0));
    assert_eq!(batch.len(), 1);
    assert!(manager.drain_world((0, 0, 0)).is_empty());
    assert!(manager.drain_world((4, 4, 4)).is_empty());
    assert_eq!(manager.get_pending_syncs(), vec![(9, 9, 9)]);
    manager.clear_world_updates((9, 9, 9));
    assert!(manager.get_world_sync_data((9, 9, 9)).unwrap().energy_updates.is_empty());
    assert_eq!(manager.get_world_sync_data((9, 9, 9)).unwrap().last_sync_tick, 6);
    assert!(energy_sync_batch_system(&mut manager).is_empty());
}

#[test]
fn batching_reports_only_worlds_with_records() {
    let mut manager = EnergySyncManager::new();
    manager.register_world((1, 0, 0));
    manager.register_world((2, 0, 0));
    manager.mark_energy_changed((2, 0, 0), (0, 0, 0), 1, 2);
    for _ in 0..4 {
        assert!(energy_sync_batch_system(&mut manager).is_empty());
    }
    assert_eq!(energy_sync_batch_system(&mut manager), vec![(2, 0, 0)]);
}

#[test]
fn detection_forwards_what_changed_since_it_last_looked() {
    let mut store = Store::new();
    let a = spawn_energy(&mut store, (1, 2, 3), source(10, 5));
    let _b = spawn_energy(&mut store, (4, 5, 6), source(20, 5));
    let mut manager = EnergySyncManager::new();
    manager.register_world((0, 0, 0));
    let mut observer = ChangeObserver::new();
    energy_sync_detection_system(&mut manager, &mut store, &mut observer, (0, 0, 0));
    let all = manager.drain_world((0, 0, 0));
    assert_eq!(all.iter().map(|s| (s.position, s.energy)).collect::<Vec<_>>(), vec![
        ((1, 2, 3), 10),
        ((4, 5, 6), 20)
    ]);
    energy_sync_detection_system(&mut manager, &mut store, &mut observer, (0, 0, 0));
    assert!(manager.drain_world((0, 0, 0)).is_empty());
    store.set_energy(a, source(11, 5));
    energy_sync_detection_system(&mut manager, &mut store, &mut observer, (0, 0, 0));
    let one = manager.drain_world((0, 0, 0));
    assert_eq!(one.len(), 1);
    assert_eq!((one[0].position, one[0].energy, one[0].max_energy), ((1, 2, 3), 11, 1000));
}

fn spawn_worker(store: &mut Store, energy: Option<EnergyComponent>, speed: i32) -> u64 {
    let mut bundle =
        ModuleBundle::bare(ModulePosition::new(0, 0, 0), ModuleType::new("w".to_string()));
    bundle.energy = energy;
    bundle.processing = Some(ProcessingComponent::new(speed));
    store.spawn(bundle)
}

fn progress(store: &Store, entity: u64) -> (i32, bool) {
    let p = store.get(entity).unwrap().processing.unwrap();
    (p.current_progress, p.is_active)
}

#[test]
fn processing_without_energy_component_is_not_gated() {
    let mut store = Store::new();
    let free = spawn_worker(&mut store, None, 40);
    let fed = spawn_worker(&mut store, Some(source(1, 1)), 40);
    let dry = spawn_worker(&mut store, Some(source(0, 1)), 40);
    let mut changes = ProcessingChangeBatch::default();
    changes.changes.push((77, 1));
    processing_system(&mut store, &mut changes);
    assert_eq!(progress(&store, free), (40, true));
    assert_eq!(progress(&store, fed), (40, true));
    assert_eq!(progress(&store, dry), (0, false));
    assert_eq!(changes.changes, vec![(free, 40), (fed, 40)]);
    processing_system(&mut store, &mut changes);
    processing_system(&mut store, &mut changes);
    assert_eq!(progress(&store, free), (0, true));
    assert_eq!(changes.changes, vec![(free, 100), (fed, 100)]);
    processing_activation_system(&mut store);
    assert_eq!(progress(&store, dry), (0, false));
}

#[test]
fn paid_processing_costs_two_units_per_unit_of_speed() {
    let mut store = Store::new();
    let rich = spawn_worker(&mut store, Some(source(25, 1)), 10);
    let poor = spawn_worker(&mut store, Some(source(19, 1)), 10);
    let free = spawn_worker(&mut store, None, 10);
    let mut changes = ProcessingChangeBatch::default();
    energy_processing_system(&mut store, &mut changes);
    assert_eq!(progress(&store, rich), (10, true));
    assert_eq!(level(&store, rich), 5);
    assert_eq!(progress(&store, poor), (0, false));
    assert_eq!(level(&store, poor), 19);
    assert_eq!(progress(&store, free), (0, true));
    assert_eq!(changes.changes, vec![(rich, 10)]);
    energy_processing_system(&mut store, &mut changes);
    assert_eq!(progress(&store, rich), (10, false));
    assert_eq!(level(&store, rich), 5);
    assert_eq!(changes.changes, vec![(rich, 10)]);
    processing_activation_system(&mut store);
    assert_eq!(progress(&store, rich), (10, false));
    assert_eq!(progress(&store, poor), (0, false));
    store.set_energy(poor, source(21, 1));
    processing_activation_system(&mut store);
    assert_eq!(progress(&store, poor), (0, true));
}

fn spawn_bare(store: &mut Store, id: &str, at: (i32, i32, i32)) -> u64 {
    store.spawn(ModuleBundle::bare(
        ModulePosition::new(at.0, at.1, at.2),
        ModuleType::new(id.to_string()),
    ))
}

#[test]
fn lifecycle_equips_new_modules_by_their_role() {
    let mut store = Store::new();
    let g = spawn_bare(&mut store, "test_module", (0, 0, 0));
    let s = spawn_bare(&mut store, "energy_storage", (1, 0, 0));
    let c = spawn_bare(&mut store, "energy_consumer", (2, 0, 0));
    let p = spawn_bare(&mut store, "anything", (3, 0, 0));
    let counter = TickCounter { count: 17 };
    rust_module_lifecycle_system(&counter, &mut store);
    let generator = store.get(g).unwrap();
    assert_eq!(generator.energy, Some(EnergyComponent::generator(1000, 10, 100)));
    assert_eq!(generator.generator.unwrap().generation_rate, 10);
    assert_eq!(generator.generator.unwrap().max_capacity, 1000);
    assert!(generator.energy_storage.is_none() && generator.consumer.is_none());
    assert!(generator.initialized);
    let sync = generator.java_sync.as_ref().unwrap();
    assert_eq!((sync.module_id.as_str(), sync.needs_sync, sync.last_sync_tick), ("test_module", false, 17));
    let storage = store.get(s).unwrap();
    assert_eq!(storage.energy, Some(EnergyComponent::storage(50000, 100)));
    assert_eq!(storage.energy_storage.unwrap().max_capacity, 50000);
    assert_eq!(storage.energy_storage.unwrap().max_transfer_rate, 100);
    let consumer = store.get(c).unwrap();
    assert_eq!(consumer.energy, Some(EnergyComponent::consumer(20, 50)));
    assert_eq!(consumer.consumer.unwrap().consumption_rate, 20);
    let plain = store.get(p).unwrap();
    assert_eq!(plain.energy, Some(EnergyComponent::default()));
    assert!(plain.generator.is_none() && plain.energy_storage.is_none() && plain.consumer.is_none());
    assert_eq!(plain.java_sync.as_ref().unwrap().module_id, "anything");

    store.set_energy(g, source(500, 100));
    rust_module_lifecycle_system(&TickCounter { count: 18 }, &mut store);
    assert_eq!(level(&store, g), 500);
    assert_eq!(store.get(g).unwrap().java_sync.as_ref().unwrap().last_sync_tick, 17);
}

#[test]
fn role_passes_generate_hand_over_and_consume() {
    let mut store = Store::new();
    let g = spawn_bare(&mut store, "test_module", (0, 0, 0));
    let s = spawn_bare(&mut store, "energy_storage", (1, 0, 0));
    rust_module_lifecycle_system(&TickCounter { count: 0 }, &mut store);
    let mut manager = EnergySyncManager::new();
    manager.register_world((5, 5, 5));
    rust_energy_generation_system(&mut store, &mut manager, (5, 5, 5));
    assert_eq!(level(&store, g), 10);
    assert_eq!(level(&store, s), 0);
    assert!(store.get(g).unwrap().java_sync.as_ref().unwrap().needs_sync);
    assert!(!store.get(s).unwrap().java_sync.as_ref().unwrap().needs_sync);
    let marked = manager.get_world_sync_data((5, 5, 5)).unwrap();
    assert_eq!(marked.energy_updates.len(), 1);
    assert_eq!((marked.energy_updates[0].position, marked.energy_updates[0].energy), ((0, 0, 0), 10));

    rust_energy_transfer_system(&mut store);
    assert_eq!((level(&store, g), level(&store, s)), (0, 10));
    assert!(store.get(s).unwrap().java_sync.as_ref().unwrap().needs_sync);

    let mut full = EnergyComponent::generator(1000, 10, 100);
    full.current = 995;
    store.set_energy(g, full);
    rust_energy_generation_system(&mut store, &mut manager, (5, 5, 5));
    assert_eq!(level(&store, g), 1000);
    rust_energy_generation_system(&mut store, &mut manager, (5, 5, 5));
    assert_eq!(level(&store, g), 1000);

    let mut other = Store::new();
    let c = spawn_bare(&mut other, "energy_consumer", (0, 0, 0));
    rust_module_lifecycle_system(&TickCounter { count: 0 }, &mut other);
    let mut stocked = EnergyComponent::consumer(20, 50);
    stocked.max_capacity = 100;
    stocked.current = 30;
    other.set_energy(c, stocked);
    rust_energy_consumption_system(&mut other);
    assert_eq!(level(&other, c), 10);
    assert!(other.get(c).unwrap().java_sync.as_ref().unwrap().needs_sync);
    rust_energy_consumption_system(&mut other);
    assert_eq!(level(&other, c), 0);
    rust_energy_consumption_system(&mut other);
    assert_eq!(level(&other, c), 0);
}

#[test]
fn collection_tells_the_host_once_per_interval() {
    let mut store = Store::new();
    let g = spawn_bare(&mut store, "test_module", (0, 0, 0));
    let s = spawn_bare(&mut store, "energy_storage", (3, 0, 0));
    rust_module_lifecycle_system(&TickCounter { count: 10 }, &mut store);
    let mut manager = EnergySyncManager::new();
    rust_energy_generation_system(&mut store, &mut manager, (0, 0, 0));
    assert!(rust_java_sync_collection_system(&TickCounter { count: 9 }, &mut store).is_empty());
    assert!(rust_java_sync_collection_system(&TickCounter { count: 14 }, &mut store).is_empty());
    assert!(store.get(g).unwrap().java_sync.as_ref().unwrap().needs_sync);
    assert_eq!(rust_java_sync_collection_system(&TickCounter { count: 15 }, &mut store), vec![g]);
    let sync = store.get(g).unwrap().java_sync.as_ref().unwrap();
    assert_eq!((sync.needs_sync, sync.last_sync_tick), (false, 15));
    assert_eq!(store.get(s).unwrap().java_sync.as_ref().unwrap().last_sync_tick, 10);
    assert!(rust_java_sync_collection_system(&TickCounter { count: 30 }, &mut store).is_empty());
}

#[test]
fn balancing_moves_units_towards_their_targets() {
    let mut store = Store::new();
    let mut low = EnergyComponent::storage(1000, 100);
    low.current = 100;
    let mut high = EnergyComponent::storage(1000, 100);
    high.current = 900;
    let mut near = EnergyComponent::storage(1000, 100);
    near.current = 490;
    let a = spawn_energy(&mut store, (0, 0, 0), low);
    let b = spawn_energy(&mut store, (5, 0, 0), high);
    let c = spawn_energy(&mut store, (9, 0, 0), near);
    let g = spawn_energy(&mut store, (12, 0, 0), source(100, 100));
    let mut events = EnergyEventBatch::default();
    let targets = vec![(a, 500), (b, 500), (c, 500), (g, 500), (a + 1000, 500), (c, 516)];
    energy_balancing_system(&mut store, &mut events, &targets);
    assert_eq!(level(&store, a), 200);
    assert_eq!(level(&store, b), 800);
    assert_eq!(level(&store, c), 516);
    assert_eq!(level(&store, g), 100);
    assert_eq!(
        events.events,
        vec![
            EnergyChangeEvent::new(a, 100, 200, 1000),
            EnergyChangeEvent::new(b, 900, 800, 1000),
            EnergyChangeEvent::new(c, 490, 516, 1000),
        ]
    );
    energy_balancing_system(&mut store, &mut events, &vec![(c, 541), (c, 542)]);
    assert_eq!(level(&store, c), 542);
    energy_balancing_system(&mut store, &mut events, &vec![(a, 2000), (b, -50)]);
    assert_eq!(level(&store, a), 300);
    assert_eq!(level(&store, b), 700);
}

#[test]
fn balancing_needs_two_storage_units() {
    let mut store = Store::new();
    let mut low = EnergyComponent::storage(1000, 100);
    low.current = 100;
    let a = spawn_energy(&mut store, (0, 0, 0), low);
    let _g = spawn_energy(&mut store, (12, 0, 0), source(100, 100));
    let mut events = EnergyEventBatch::default();
    energy_balancing_system(&mut store, &mut events, &vec![(a, 500)]);
    assert_eq!(level(&store, a), 100);
    assert!(events.events.is_empty());
}
