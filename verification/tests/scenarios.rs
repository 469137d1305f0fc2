use fiatlux_ecs::components::energy::EnergyComponent;
use fiatlux_ecs::components::kind::ModuleType;
use fiatlux_ecs::components::position::ModulePosition;
use fiatlux_ecs::components::processing::ProcessingComponent;
use fiatlux_ecs::resources::ProcessingChangeBatch;
use fiatlux_ecs::store::ModuleBundle;
use fiatlux_ecs::systems::processing::{processing_activation_system, processing_system};
use fiatlux_ecs::world::GridWorld;
use fiatlux_ecs::world_manager::WorldRegistry;

fn module_type(id: &str) -> ModuleType {
    ModuleType::new(id.to_string())
}

#[test]
fn generator_feeds_adjacent_storage_in_step_order() {
    let mut registry = WorldRegistry::new();
    let world = registry.create_world().unwrap();
    let generator = registry
        .spawn_entity(world, module_type("energy_generator"), ModulePosition::new(0, 0, 0))
        .unwrap();
    let storage = registry
        .spawn_entity(world, module_type("energy_storage"), ModulePosition::new(1, 0, 0))
        .unwrap();
    assert_eq!(registry.get_energy(world, generator), 0);
    assert_eq!(registry.get_energy(world, storage), 0);
    for _ in 0..3 {
        assert!(registry.tick(world));
        assert_eq!(registry.get_energy(world, generator), 0);
    }
    assert!(registry.tick(world));
    assert_eq!(registry.get_energy(world, generator), 10);
    assert_eq!(registry.get_energy(world, storage), 0);
    for _ in 0..3 {
        assert!(registry.tick(world));
        assert_eq!(registry.get_energy(world, generator), 10);
        assert_eq!(registry.get_energy(world, storage), 0);
    }
    assert!(registry.tick(world));
    assert_eq!(registry.get_energy(world, storage), 10);
    assert_eq!(registry.get_energy(world, generator), 10);
    let state = registry.world(world).unwrap();
    assert_eq!(state.transfer_batch.pending_transfers.len(), 1);
    assert_eq!(state.transfer_batch.pending_transfers[0].amount, 10);
    assert_eq!(state.transfer_batch.pending_transfers[0].direction, (1, 0, 0));
    assert_eq!(state.transfer_batch.completed_transfers.len(), 1);
    assert_eq!(state.transfer_batch.completed_transfers[0].amount, 10);
    assert_eq!(state.event_batch.events.len(), 3);
    assert_eq!(state.event_batch.events[0].old_energy, 10);
    assert_eq!(state.event_batch.events[0].new_energy, 20);
    assert_eq!(state.event_batch.events[1].old_energy, 20);
    assert_eq!(state.event_batch.events[1].new_energy, 10);
    assert_eq!(state.event_batch.events[2].old_energy, 0);
    assert_eq!(state.event_batch.events[2].new_energy, 10);
}

#[test]
fn despawn_of_unknown_entity_fails_and_changes_nothing() {
    let mut registry = WorldRegistry::new();
    let world = registry.create_world().unwrap();
    let generator = registry
        .spawn_entity(world, module_type("energy_generator"), ModulePosition::new(0, 0, 0))
        .unwrap();
    for _ in 0..4 {
        registry.tick(world);
    }
    let unknown = generator.wrapping_add(12345);
    assert!(!registry.despawn_entity(world, unknown));
    assert!(!registry.despawn_entity(world, u64::MAX));
    assert!(!registry.despawn_entity(world, 0));
    let state = registry.world(world).unwrap();
    assert_eq!(state.store.len(), 1);
    assert_eq!(state.tick_counter.count, 4);
    assert_eq!(registry.get_energy(world, generator), 10);
    assert!(!registry.despawn_entity(world + 1, generator));
    assert_eq!(registry.get_energy(world, generator), 10);
    assert!(registry.despawn_entity(world, generator));
    assert!(!registry.despawn_entity(world, generator));
    assert_eq!(registry.get_energy(world, generator), -1);
}

#[test]
fn one_batch_per_interval_with_latest_value() {
    let mut registry = WorldRegistry::new();
    let world = registry.create_world().unwrap();
    let generator = registry
        .spawn_entity(world, module_type("energy_generator"), ModulePosition::new(2, 1, 0))
        .unwrap();
    let mut batches = Vec::new();
    for tick in 1..=20u64 {
        assert!(registry.tick(world));
        if registry.should_flush(world) {
            let batch = registry.drain_sync_batch(world);
            assert!(!batch.is_empty());
            assert_eq!(batch.len(), 1);
            assert_eq!(batch[0].position, (2, 1, 0));
            assert_eq!(batch[0].energy, registry.get_energy(world, generator));
            assert_eq!(batch[0].max_energy, 1000);
            batches.push((tick, batch[0].energy));
            assert!(registry.drain_sync_batch(world).is_empty());
            assert!(!registry.should_flush(world));
        }
    }
    assert!(batches.len() <= 4);
    assert_eq!(batches, vec![(5, 10), (10, 20), (15, 30), (20, 50)]);
}

fn world_with_processor(energy: i32) -> (GridWorld, u64) {
    let mut world = GridWorld::new((0, 0, 0));
    let mut held = EnergyComponent::storage(100, 10);
    held.current = energy;
    let mut bundle = ModuleBundle::bare(ModulePosition::new(0, 0, 0), module_type("processor"));
    bundle.energy = Some(held);
    bundle.processing = Some(ProcessingComponent::new(30));
    let entity = world.store.spawn(bundle);
    (world, entity)
}

fn progress_of(world: &GridWorld, entity: u64) -> (i32, bool) {
    let processing = world.store.get(entity).unwrap().processing.unwrap();
    (processing.current_progress, processing.is_active)
}

#[test]
fn processor_switches_off_dry_and_on_above_higher_mark() {
    let (mut world, entity) = world_with_processor(5);
    let mut changes = ProcessingChangeBatch::default();
    processing_activation_system(&mut world.store);
    processing_system(&mut world.store, &mut changes);
    assert_eq!(progress_of(&world, entity), (30, true));
    assert_eq!(changes.changes, vec![(entity, 30)]);

    assert!(world.set_energy_level(entity, 0));
    processing_activation_system(&mut world.store);
    processing_system(&mut world.store, &mut changes);
    assert_eq!(progress_of(&world, entity), (30, false));
    assert!(changes.changes.is_empty());

    for level in [1, 10, 20] {
        assert!(world.set_energy_level(entity, level));
        for _ in 0..3 {
            processing_activation_system(&mut world.store);
            processing_system(&mut world.store, &mut changes);
            assert_eq!(progress_of(&world, entity), (30, false));
            assert!(changes.changes.is_empty());
        }
    }

    assert!(world.set_energy_level(entity, 21));
    processing_activation_system(&mut world.store);
    assert_eq!(progress_of(&world, entity), (30, true));
    processing_system(&mut world.store, &mut changes);
    assert_eq!(progress_of(&world, entity), (60, true));
    processing_system(&mut world.store, &mut changes);
    assert_eq!(progress_of(&world, entity), (90, true));
    processing_system(&mut world.store, &mut changes);
    assert_eq!(progress_of(&world, entity), (0, true));
    assert_eq!(changes.changes, vec![(entity, 100)]);
}
