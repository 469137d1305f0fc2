use fiatlux_ecs::components::energy::EnergyComponent;
use fiatlux_ecs::components::kind::ModuleType;
use fiatlux_ecs::components::position::ModulePosition;
use fiatlux_ecs::components::processing::ProcessingComponent;
use fiatlux_ecs::store::{ChangeObserver, ComponentSet, ModuleBundle, Store};

fn bundle(id: &str, x: i32, energy: Option<EnergyComponent>) -> ModuleBundle {
    let mut b = ModuleBundle::bare(ModulePosition::new(x, 0, 0), ModuleType::new(id.to_string()));
    b.energy = energy;
    b
}

fn energy_set() -> ComponentSet {
    let mut set = ComponentSet::none();
    set.energy = true;
    set
}

#[test]
fn spawned_entities_are_distinct_and_keep_their_order() {
    let mut store = Store::new();
    assert_eq!(store.len(), 0);
    let a = store.spawn(bundle("a", 0, None));
    let b = store.spawn(bundle("b", 1, None));
    let c = store.spawn(bundle("c", 2, None));
    assert!(a != b && b != c && a != c);
    assert_eq!(store.len(), 3);
    assert_eq!(store.index_of(a), Some(0));
    assert_eq!(store.index_of(b), Some(1));
    assert_eq!(store.index_of(c), Some(2));
    assert_eq!(store.module_at(1).entity, b);
    assert_eq!(store.module_at(1).module_type.type_id, "b");
    assert_eq!(store.get(c).unwrap().position, ModulePosition::new(2, 0, 0));
    assert!(store.contains(a));
    assert!(!store.module_at(0).initialized);
}

#[test]
fn despawn_removes_once_and_keeps_the_rest_in_order() {
    let mut store = Store::new();
    let a = store.spawn(bundle("a", 0, None));
    let b = store.spawn(bundle("b", 1, None));
    let c = store.spawn(bundle("c", 2, None));
    assert!(store.despawn(b));
    assert!(!store.despawn(b));
    assert_eq!(store.len(), 2);
    assert_eq!(store.index_of(a), Some(0));
    assert_eq!(store.index_of(b), None);
    assert_eq!(store.index_of(c), Some(1));
    assert!(!store.contains(b));
    assert!(store.get(b).is_none());
    assert_eq!(store.query(&ComponentSet::none(), &ComponentSet::none()), vec![a, c]);
}

#[test]
fn despawn_of_what_was_never_spawned_fails() {
    let mut store = Store::new();
    assert!(!store.despawn(0));
    assert!(!store.despawn(1));
    assert!(!store.despawn(u64::MAX));
    let a = store.spawn(bundle("a", 0, None));
    assert!(!store.despawn(a + 1));
    assert!(!store.despawn(a.wrapping_add(1 << 32)));
    assert_eq!(store.len(), 1);
    assert!(store.contains(a));
}

#[test]
fn identifier_of_a_despawned_entity_is_not_handed_out_again() {
    let mut store = Store::new();
    let first = store.spawn(bundle("first", 0, Some(EnergyComponent::storage(10, 1))));
    assert!(store.despawn(first));
    let second = store.spawn(bundle("second", 0, None));
    assert_ne!(first, second);
    assert!(!store.contains(first));
    assert!(store.get_energy(first).is_none());
    assert!(!store.set_energy(first, EnergyComponent::storage(10, 1)));
    assert!(!store.despawn(first));
    assert!(store.contains(second));
    let mut seen = vec![first, second];
    for _ in 0..50 {
        let next = store.spawn(bundle("next", 0, None));
        assert!(!seen.contains(&next));
        seen.push(next);
        assert!(store.despawn(next));
    }
}

#[test]
fn queries_filter_by_what_is_attached() {
    let mut store = Store::new();
    let plain = store.spawn(bundle("plain", 0, None));
    let powered = store.spawn(bundle("powered", 1, Some(EnergyComponent::storage(10, 1))));
    let mut working = bundle("working", 2, Some(EnergyComponent::storage(10, 1)));
    working.processing = Some(ProcessingComponent::new(1));
    let worker = store.spawn(working);
    let mut proc_set = ComponentSet::none();
    proc_set.processing = true;
    assert_eq!(store.query(&energy_set(), &ComponentSet::none()), vec![powered, worker]);
    assert_eq!(store.query(&energy_set(), &proc_set), vec![powered]);
    assert_eq!(store.query(&proc_set, &ComponentSet::none()), vec![worker]);
    assert_eq!(store.query(&ComponentSet::none(), &energy_set()), vec![plain]);
    assert_eq!(store.query(&energy_set(), &energy_set()), Vec::<u64>::new());
    let mut both = energy_set();
    both.processing = true;
    assert_eq!(store.query(&both, &ComponentSet::none()), vec![worker]);
    let mut display = ComponentSet::none();
    display.display = true;
    assert!(store.query(&display, &ComponentSet::none()).is_empty());
}

#[test]
fn changes_are_shown_once_to_each_observer() {
    let mut store = Store::new();
    let a = store.spawn(bundle("a", 0, Some(EnergyComponent::storage(100, 10))));
    let b = store.spawn(bundle("b", 1, Some(EnergyComponent::storage(100, 10))));
    let _plain = store.spawn(bundle("c", 2, None));
    let none = ComponentSet::none();
    let mut first = ChangeObserver::new();
    let mut second = ChangeObserver::new();
    assert_eq!(store.query_changed(&energy_set(), &none, &mut first), vec![a, b]);
    assert!(store.query_changed(&energy_set(), &none, &mut first).is_empty());

    let mut changed = EnergyComponent::storage(100, 10);
    changed.current = 40;
    assert!(store.set_energy(b, changed));
    assert_eq!(store.query_changed(&energy_set(), &none, &mut first), vec![b]);
    assert!(store.query_changed(&energy_set(), &none, &mut first).is_empty());

    assert!(store.set_energy(b, changed));
    assert!(store.query_changed(&energy_set(), &none, &mut first).is_empty());

    assert_eq!(store.query_changed(&energy_set(), &none, &mut second), vec![a, b]);
    assert!(store.query_changed(&energy_set(), &none, &mut second).is_empty());

    changed.current = 41;
    assert!(store.set_energy(a, changed));
    assert_eq!(store.query_changed(&none, &none, &mut second), vec![a]);
    assert_eq!(store.query_changed(&energy_set(), &none, &mut first), vec![a]);
    assert_eq!(store.get_energy(a), Some(changed));
}

#[test]
fn components_are_replaced_in_place() {
    let mut store = Store::new();
    let a = store.spawn(bundle("a", 0, None));
    assert_eq!(store.get_energy(a), None);
    assert_eq!(store.energy_at(0), None);
    let energy = EnergyComponent::generator(50, 5, 5);
    store.set_energy_at(0, energy);
    assert_eq!(store.energy_at(0), Some(energy));
    store.set_processing_at(0, ProcessingComponent::new(3));
    assert_eq!(store.module_at(0).processing, Some(ProcessingComponent::new(3)));
    store.mark_initialized_at(0);
    assert!(store.module_at(0).initialized);
    assert_eq!(store.module_at(0).entity, a);
    assert!(!store.set_display_text_at(0, "no display".to_string()));
}
