use fiatlux_ecs::components::energy::EnergyComponent;
use fiatlux_ecs::components::kind::ModuleType;
use fiatlux_ecs::components::position::ModulePosition;
use fiatlux_ecs::entities::MAX_ENTITIES;
use fiatlux_ecs::host::{
    handle_jni_error, host_string_result, pack_energy, pack_pair, pack_record, BridgeError,
};
use fiatlux_ecs::world::GridWorld;
use fiatlux_ecs::world_manager::{WorldManager, WorldRegistry};

fn module_type(id: &str) -> ModuleType {
    ModuleType::new(id.to_string())
}

#[test]
fn new_world_is_empty_and_registered_for_synchronisation() {
    let world = GridWorld::new((3, 4, 5));
    assert_eq!(world.store.len(), 0);
    assert_eq!(world.tick_counter.count, 0);
    assert_eq!(world.world_pos, (3, 4, 5));
    assert!(!world.should_flush());
    assert!(world.sync_manager.get_world_sync_data((3, 4, 5)).is_some());
    assert_eq!(world.modules_to_sync(), 0);
    assert_eq!(world.batch_stats(), 0);
    assert_eq!(world.energy_event_stats(), 0);
    assert_eq!(world.transfer_stats(), 0);
    assert_eq!(world.energy_event_data(0), None);
    assert_eq!(world.energy_data_by_index(0), None);
    assert_eq!(MAX_ENTITIES, 0xFFFF_FFFF);
}

#[test]
fn modules_are_spawned_with_the_components_of_their_class() {
    let mut world = GridWorld::new((0, 0, 0));
    let at = ModulePosition::new(1, 2, 3);
    let table = [
        ("energy_generator", Some(EnergyComponent::generator(1000, 10, 100)), None),
        ("basic_energy_generator", Some(EnergyComponent::generator(1000, 10, 100)), None),
        ("energy_storage", Some(EnergyComponent::storage(5000, 100)), None),
        ("basic_energy_storage", Some(EnergyComponent::storage(5000, 100)), None),
        ("energy_consumer", Some(EnergyComponent::consumer(10, 50)), None),
        ("basic_energy_consumer", Some(EnergyComponent::consumer(10, 50)), None),
        ("advanced_energy_generator", Some(EnergyComponent::generator(2000, 25, 200)), None),
        ("advanced_energy_storage", Some(EnergyComponent::storage(10000, 200)), None),
        ("high_power_consumer", Some(EnergyComponent::consumer(50, 100)), None),
        ("processor", Some(EnergyComponent::consumer(20, 100)), Some(1)),
        ("advanced_processor", Some(EnergyComponent::consumer(40, 150)), Some(2)),
        ("display", None, None),
        ("storage", None, None),
        ("advanced_storage", None, None),
        ("test_module", None, None),
        ("something_else", None, None),
    ];
    for (id, energy, speed) in table {
        let entity = world.spawn_entity(module_type(id), at);
        let module = world.store.get(entity).unwrap();
        assert_eq!(module.energy, energy);
        assert_eq!(module.processing.map(|p| p.processing_speed), speed);
        assert_eq!(module.position, at);
        assert_eq!(module.module_type.type_id, id);
        assert!(module.initialized);
        assert_eq!(module.display.is_some(), id == "display");
        let slots = module.storage.as_ref().map(|s| s.max_slots);
        let expected = match id {
            "storage" => Some(9),
            "advanced_storage" => Some(27),
            _ => None,
        };
        assert_eq!(slots, expected);
        assert_eq!(world.get_energy_level(entity), if energy.is_some() { 0 } else { -1 });
    }
    assert_eq!(world.energy_entity_count(), 11);
}

#[test]
fn energy_is_read_and_set_through_the_world() {
    let mut world = GridWorld::new((0, 0, 0));
    let storage = world.spawn_entity(module_type("energy_storage"), ModulePosition::new(0, 0, 0));
    let display = world.spawn_entity(module_type("display"), ModulePosition::new(1, 0, 0));
    assert!(world.set_energy_level(storage, 1234));
    assert_eq!(world.get_energy_level(storage), 1234);
    assert!(world.set_energy_level(storage, -5));
    assert_eq!(world.get_energy_level(storage), 0);
    assert!(world.set_energy_level(storage, i32::MAX));
    assert_eq!(world.get_energy_level(storage), 5000);
    assert!(!world.set_energy_level(display, 5));
    assert_eq!(world.get_energy_level(display), -1);
    assert!(!world.set_energy_level(storage + 1000, 5));
    assert_eq!(world.get_energy_level(storage + 1000), -1);
    assert_eq!(
        world.module_energy(storage),
        Some(pack_energy(0, true, true, 5000, 5000))
    );
    assert_eq!(world.module_energy(display), None);
}

#[test]
fn display_text_is_set_through_the_world() {
    let mut world = GridWorld::new((0, 0, 0));
    let display = world.spawn_entity(module_type("display"), ModulePosition::new(0, 0, 0));
    let storage = world.spawn_entity(module_type("storage"), ModulePosition::new(1, 0, 0));
    assert!(world.set_display_text(display, "power: 42".to_string()));
    let shown = world.store.get(display).unwrap().display.as_ref().unwrap();
    assert_eq!(shown.get_display_text(), "power: 42");
    assert!(!world.set_display_text(storage, "x".to_string()));
    assert!(!world.set_display_text(display + 1000, "x".to_string()));
    let long = "x".repeat(300);
    assert!(world.set_display_text(display, long));
    let cut = world.store.get(display).unwrap().display.as_ref().unwrap();
    assert_eq!(cut.text_length(), 256);
    assert!(cut.get_display_text().ends_with("..."));
}

#[test]
fn ticks_between_steps_leave_the_modules_alone() {
    let mut world = GridWorld::new((0, 0, 0));
    let g = world.spawn_entity(module_type("energy_generator"), ModulePosition::new(0, 0, 0));
    let mut seen = Vec::new();
    for _ in 0..9 {
        world.tick();
        seen.push((
            world.tick_counter.count,
            world.batch_processor.should_process,
            world.get_energy_level(g),
            world.batch_processor.pending_changes,
        ));
    }
    assert_eq!(
        seen,
        vec![
            (1, false, 0, 1),
            (2, false, 0, 2),
            (3, false, 0, 3),
            (4, true, 10, 1),
            (5, false, 10, 2),
            (6, false, 10, 3),
            (7, false, 10, 4),
            (8, true, 20, 1),
            (9, false, 20, 2),
        ]
    );
    assert_eq!(world.batch_stats(), (9u64 << 32) | 2);
    assert_eq!(world.energy_event_stats(), 1u64 << 32);
    assert_eq!(world.energy_event_data(0), Some(pack_record(g, 20, 1000)));
    assert_eq!(world.energy_event_data(1), None);
    assert_eq!(world.energy_data_by_index(0), Some(pack_record(g, 20, 1000)));
    assert_eq!(world.energy_data_by_index(1), None);
}

#[test]
fn bare_modules_are_equipped_by_the_first_step() {
    let mut world = GridWorld::new((0, 0, 0));
    let g = world.create_module(module_type("test_module"), ModulePosition::new(0, 0, 0));
    let s = world.create_module(module_type("energy_storage"), ModulePosition::new(0, 1, 0));
    assert_eq!(world.get_energy_level(g), -1);
    for _ in 0..3 {
        world.tick();
    }
    assert_eq!(world.get_energy_level(g), -1);
    world.tick();
    assert_eq!(world.get_energy_level(g), 10);
    assert_eq!(world.get_energy_level(s), 0);
    assert_eq!(world.store.get(g).unwrap().java_sync.as_ref().unwrap().last_sync_tick, 4);
    assert_eq!(world.store.get(s).unwrap().energy.unwrap().max_capacity, 50000);
    for _ in 0..4 {
        world.tick();
    }
    assert_eq!(world.get_energy_level(g), 10);
    assert_eq!(world.get_energy_level(s), 10);
    assert_eq!(world.transfer_stats(), (1u64 << 32) | 1);
}

#[test]
fn energy_and_progress_stay_in_range_over_many_ticks() {
    let mut world = GridWorld::new((0, 0, 0));
    let mut entities = Vec::new();
    let kinds = [
        "energy_generator",
        "energy_storage",
        "advanced_energy_generator",
        "processor",
        "advanced_energy_storage",
        "energy_consumer",
        "advanced_processor",
        "high_power_consumer",
    ];
    for (i, kind) in kinds.iter().enumerate() {
        let at = ModulePosition::new((i % 2) as i32, (i / 2 % 2) as i32, (i / 4) as i32);
        entities.push(world.spawn_entity(module_type(kind), at));
    }
    for tick in 0..400 {
        if tick % 37 == 0 {
            world.set_energy_level(entities[1], 4990);
        }
        world.tick();
        for index in 0..world.store.len() {
            let module = world.store.module_at(index);
            if let Some(e) = module.energy {
                assert!(0 <= e.current && e.current <= e.max_capacity);
            }
            if let Some(p) = module.processing {
                assert!(0 <= p.current_progress && p.current_progress < p.max_progress);
            }
        }
    }
    assert!(world.get_energy_level(entities[1]) > 0);
}

#[test]
fn sync_counts_and_forced_sync() {
    let mut world = GridWorld::new((7, 7, 7));
    let a = world.spawn_entity(module_type("energy_storage"), ModulePosition::new(0, 0, 0));
    let _b = world.spawn_entity(module_type("energy_generator"), ModulePosition::new(5, 0, 0));
    let _c = world.spawn_entity(module_type("display"), ModulePosition::new(9, 0, 0));
    assert_eq!(world.modules_to_sync(), 0);
    assert_eq!(world.get_sync_data(), 0);
    world.force_sync_all();
    assert_eq!(world.modules_to_sync(), 2);
    world.set_energy_level(a, 77);
    world.force_sync_all();
    assert_eq!(world.modules_to_sync(), 2);
    let data = world.sync_manager.get_world_sync_data((7, 7, 7)).unwrap();
    assert_eq!(data.energy_updates[0].position, (0, 0, 0));
    assert_eq!(data.energy_updates[0].energy, 77);
    assert_eq!(world.get_sync_data(), 2);
    assert_eq!(world.modules_to_sync(), 0);
    assert_eq!(world.get_sync_data(), 0);
    assert!(world.drain_sync_batch().is_empty());
}

#[test]
fn worlds_are_isolated_from_each_other() {
    let mut registry = WorldRegistry::new();
    let first = registry.create_world().unwrap();
    let second = registry.create_world_at((1, 0, 0)).unwrap();
    assert_ne!(first, second);
    assert_eq!(registry.get_world_count(), 2);
    let in_first = registry
        .spawn_entity(first, module_type("energy_generator"), ModulePosition::new(0, 0, 0))
        .unwrap();
    let in_second = registry
        .spawn_entity(second, module_type("energy_generator"), ModulePosition::new(0, 0, 0))
        .unwrap();
    for _ in 0..8 {
        assert!(registry.tick(first));
    }
    assert_eq!(registry.get_energy(first, in_first), 20);
    assert_eq!(registry.get_energy(second, in_second), 0);
    assert_eq!(registry.world(second).unwrap().tick_counter.count, 0);
    assert!(registry.set_energy(second, in_second, 500));
    assert_eq!(registry.get_energy(first, in_first), 20);
    assert!(registry.destroy_world(first));
    assert!(!registry.destroy_world(first));
    assert!(registry.world(first).is_none());
    assert_eq!(registry.get_energy(first, in_first), -1);
    assert_eq!(registry.get_energy(second, in_second), 500);
    let third = registry.create_world().unwrap();
    assert!(third != first && third != second);
    assert_eq!(registry.get_world_count(), 2);
    registry.cleanup_all_worlds();
    assert_eq!(registry.get_world_count(), 0);
    let fourth = registry.create_world().unwrap();
    assert!(fourth != first && fourth != second && fourth != third);
}

#[test]
fn operations_on_unknown_worlds_are_quiet_failures() {
    let mut registry = WorldRegistry::new();
    let at = ModulePosition::new(0, 0, 0);
    assert_eq!(registry.spawn_entity(1, module_type("energy_generator"), at), None);
    assert_eq!(registry.create_module(1, module_type("test_module"), at), None);
    assert!(!registry.despawn_entity(1, 0));
    assert!(!registry.tick(1));
    assert_eq!(registry.get_energy(1, 0), -1);
    assert!(!registry.set_energy(1, 0, 5));
    assert!(!registry.set_display_text(1, 0, "x".to_string()));
    assert!(!registry.should_flush(1));
    assert!(registry.drain_sync_batch(1).is_empty());
    assert_eq!(registry.get_sync_data(1), 0);
    assert!(!registry.force_sync_all(1));
    assert!(!registry.destroy_world(1));
    assert_eq!(registry.with_world(1, |w| w.store.len()), None);
    assert_eq!(registry.with_world_mut(1, |w| w.tick_counter.count = 9), None);
    assert_eq!(registry.get_world_count(), 0);
}

#[test]
fn closures_reach_one_world() {
    let mut registry = WorldRegistry::new();
    let id = registry.create_world().unwrap();
    let other = registry.create_world().unwrap();
    registry.spawn_entity(id, module_type("display"), ModulePosition::new(0, 0, 0));
    assert_eq!(registry.with_world(id, |w| w.store.len()), Some(1));
    assert_eq!(registry.with_world(other, |w| w.store.len()), Some(0));
    let count = registry.with_world_mut(id, |w| {
        w.tick();
        w.tick_counter.count
    });
    assert_eq!(count, Some(1));
    assert_eq!(registry.with_world(other, |w| w.tick_counter.count), Some(0));
    assert!(registry.set_display_text(id, registry.world(id).unwrap().store.module_at(0).entity, "hi".to_string()));
}

#[test]
fn positions_map_to_worlds_once() {
    let mut registry = WorldRegistry::new();
    let mut manager = WorldManager::new();
    assert_eq!(manager.get_world_id(&(1, 2, 3)), None);
    let a = manager.get_or_create_world(&mut registry, (1, 2, 3)).unwrap();
    let again = manager.get_or_create_world(&mut registry, (1, 2, 3)).unwrap();
    let b = manager.get_or_create_world(&mut registry, (1, 2, 4)).unwrap();
    assert_eq!(a, again);
    assert_ne!(a, b);
    assert_eq!(registry.get_world_count(), 2);
    assert_eq!(manager.get_world_id(&(1, 2, 3)), Some(a));
    assert_eq!(manager.get_world_id_for_pos(&(1, 2, 4)), Some(b));
    assert_eq!(registry.world(a).unwrap().world_pos, (1, 2, 3));
    assert!(manager.remove_world(&mut registry, (1, 2, 3)));
    assert!(!manager.remove_world(&mut registry, (1, 2, 3)));
    assert_eq!(manager.get_world_id(&(1, 2, 3)), None);
    assert!(registry.world(a).is_none());
    assert!(registry.world(b).is_some());
    let c = manager.get_or_create_world(&mut registry, (1, 2, 3)).unwrap();
    assert!(c != a && c != b);
    assert!(registry.destroy_world(b));
    assert!(!manager.remove_world(&mut registry, (1, 2, 4)));
    assert_eq!(manager.get_world_id(&(1, 2, 4)), None);
    let fresh = WorldManager::default();
    assert_eq!(fresh.get_world_id(&(0, 0, 0)), None);
}

#[test]
fn words_for_the_host_are_packed_field_by_field() {
    assert_eq!(pack_pair(5, 2), (5u64 << 32) | 2);
    assert_eq!(pack_pair(0, u32::MAX), 0xFFFF_FFFF);
    assert_eq!(pack_pair(0x1_0000_0003, 1), (3u64 << 32) | 1);
    assert_eq!(pack_record(7, 20, 1000), (7u64 << 32) | (20 << 16) | 1000);
    assert_eq!(pack_record(0x9_0000_0007, 0x1_2345, 0x7_0001), (7u64 << 32) | (0x2345 << 16) | 1);
    assert_eq!(pack_record(1, -1, -2), (1u64 << 32) | (0xFFFF << 16) | 0xFFFE);
    assert_eq!(pack_record(1, i32::MIN, i32::MAX), (1u64 << 32) | 0xFFFF);
    assert_eq!(
        pack_energy(10, false, true, 1000, 250),
        (10u64 << 48) | (2u64 << 32) | (1000u64 << 16) | 250
    );
    assert_eq!(pack_energy(0, true, false, 0, 0), 1u64 << 32);
    assert_eq!(pack_energy(0, true, true, 0, 0), 3u64 << 32);
    assert_eq!(pack_energy(-1, false, false, 70000, 65536), (0xFFFFu64 << 48) | (4464u64 << 16));
}

#[test]
fn host_results_keep_the_string_or_the_words_of_the_error() {
    assert_eq!(host_string_result(Ok("energy_storage".to_string())).unwrap(), "energy_storage");
    let failed = host_string_result(Err(jni::errors::Error::NullPtr("get_string obj argument")));
    let message = failed.unwrap_err().message;
    assert_eq!(message, jni::errors::Error::NullPtr("get_string obj argument").to_string());
    assert!(message.contains("get_string obj argument"));
    assert_eq!(handle_jni_error(Ok(5), 9), 5);
    assert_eq!(handle_jni_error(Err(BridgeError { message: "no".to_string() }), 9), 9);
    assert_eq!(
        handle_jni_error(host_string_result(Err(jni::errors::Error::JavaException)), "x".to_string()),
        "x"
    );
}
