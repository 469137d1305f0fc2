//! The entity and component store of one world.
//!
//! Every module is one record: its identifier, its position and type, and the
//! components attached to it. The records stand in the order in which the modules
//! were spawned, and every pass over the store walks them in that order.

use crate::components::display::{can_fit, fitted, DisplayComponent};
use crate::components::energy::EnergyComponent;
use crate::components::kind::ModuleType;
use crate::components::markers::{EnergyConsumer, EnergyGenerator, EnergyStorage, JavaModuleSync};
use crate::components::position::ModulePosition;
use crate::components::processing::ProcessingComponent;
use crate::components::storage::StorageComponent;
use crate::entities::{
    allocate_entity, live_entities, new_entity_world, release_entity, MAX_ENTITIES,
};
use bevy_ecs::world::World;
use vstd::prelude::*;

verus! {

/// What a module is spawned with.
pub struct ModuleBundle {
    pub position: ModulePosition,
    pub module_type: ModuleType,
    pub energy: Option<EnergyComponent>,
    pub processing: Option<ProcessingComponent>,
    pub storage: Option<StorageComponent>,
    pub display: Option<DisplayComponent>,
}

/// One module of a world with everything attached to it.
pub struct Module {
    pub entity: u64,
    pub position: ModulePosition,
    pub module_type: ModuleType,
    pub energy: Option<EnergyComponent>,
    pub processing: Option<ProcessingComponent>,
    pub storage: Option<StorageComponent>,
    pub display: Option<DisplayComponent>,
    pub generator: Option<EnergyGenerator>,
    pub energy_storage: Option<EnergyStorage>,
    pub consumer: Option<EnergyConsumer>,
    pub java_sync: Option<JavaModuleSync>,
    /// The value of the store's change clock when the energy component was last
    /// attached or given another value.
    pub energy_stamp: u64,
    /// Whether the lifecycle pass has dealt with this module.
    pub initialized: bool,
}

/// What the lifecycle pass attaches to a module of one role.
#[derive(Clone, Copy, Debug, PartialEq, Eq, Structural)]
pub struct RoleKit {
    pub generator: Option<EnergyGenerator>,
    pub energy_storage: Option<EnergyStorage>,
    pub consumer: Option<EnergyConsumer>,
    pub energy: EnergyComponent,
}

/// A choice of component kinds, used to say what a query asks for or rules out.
#[derive(Clone, Copy, Debug, PartialEq, Eq, Structural)]
pub struct ComponentSet {
    pub energy: bool,
    pub processing: bool,
    pub storage: bool,
    pub display: bool,
    pub generator: bool,
    pub energy_storage: bool,
    pub consumer: bool,
    pub java_sync: bool,
}

/// The context of one caller that asks the store for changes: everything stamped
/// before `seen` has been shown to it.
#[derive(Clone, Copy, Debug, PartialEq, Eq, Structural)]
pub struct ChangeObserver {
    pub seen: u64,
}

impl ModuleBundle {
    /// The components of the bundle respect their invariants.
    pub open spec fn wf(self) -> bool {
        &&& self.energy matches Some(e) ==> e.wf()
        &&& self.processing matches Some(p) ==> p.wf()
    }

    /// A bundle of position and type alone.
    pub fn bare(position: ModulePosition, module_type: ModuleType) -> (b: Self)
        ensures
            b.position == position,
            b.module_type == module_type,
            b.energy is None,
            b.processing is None,
            b.storage is None,
            b.display is None,
            b.wf(),
    {
        ModuleBundle {
            position,
            module_type,
            energy: None,
            processing: None,
            storage: None,
            display: None,
        }
    }
}

impl Module {
    /// The components of the module respect their invariants.
    pub open spec fn wf(self) -> bool {
        &&& self.energy matches Some(e) ==> e.wf()
        &&& self.processing matches Some(p) ==> p.wf()
    }

    /// The record of a module spawned from `bundle` under `entity` at `clock`.
    pub open spec fn fresh(bundle: ModuleBundle, entity: u64, clock: u64) -> Module {
        Module {
            entity,
            position: bundle.position,
            module_type: bundle.module_type,
            energy: bundle.energy,
            processing: bundle.processing,
            storage: bundle.storage,
            display: bundle.display,
            generator: None,
            energy_storage: None,
            consumer: None,
            java_sync: None,
            energy_stamp: clock,
            initialized: false,
        }
    }

    /// The module with `energy` as its energy component. The stamp moves to
    /// `clock` where that is another component than before.
    pub open spec fn with_energy(self, energy: EnergyComponent, clock: u64) -> Module {
        Module {
            energy: Some(energy),
            energy_stamp: if self.energy == Some(energy) {
                self.energy_stamp
            } else {
                clock
            },
            ..self
        }
    }

    /// The module with `processing` as its processing component.
    pub open spec fn with_processing(self, processing: ProcessingComponent) -> Module {
        Module { processing: Some(processing), ..self }
    }

    /// The module once the lifecycle pass has dealt with it: it carries the role
    /// markers and the energy component of `kit` and a fresh record of what the
    /// host knows, named after its type.
    pub open spec fn with_roles(self, kit: RoleKit, tick: u64, clock: u64) -> Module {
        Module {
            generator: if kit.generator is Some {
                kit.generator
            } else {
                self.generator
            },
            energy_storage: if kit.energy_storage is Some {
                kit.energy_storage
            } else {
                self.energy_storage
            },
            consumer: if kit.consumer is Some {
                kit.consumer
            } else {
                self.consumer
            },
            java_sync: Some(
                JavaModuleSync {
                    module_id: self.module_type.type_id,
                    needs_sync: false,
                    last_sync_tick: tick,
                },
            ),
            initialized: true,
            ..self.with_energy(kit.energy, clock)
        }
    }

    /// Whether `after` is this module with `text` on its display, cut to the
    /// limit of the display, and nothing else changed.
    pub open spec fn redisplayed(self, after: Module, text: Seq<char>) -> bool {
        &&& self.display matches Some(shown_before)
        &&& after.display matches Some(shown_after)
        &&& shown_after.display_text@ == fitted(text, shown_before.max_length)
        &&& shown_after.max_length == shown_before.max_length
        &&& shown_after.is_visible == shown_before.is_visible
        &&& after.entity == self.entity
        &&& after.position == self.position
        &&& after.module_type == self.module_type
        &&& after.energy == self.energy
        &&& after.processing == self.processing
        &&& after.storage == self.storage
        &&& after.generator == self.generator
        &&& after.energy_storage == self.energy_storage
        &&& after.consumer == self.consumer
        &&& after.java_sync == self.java_sync
        &&& after.energy_stamp == self.energy_stamp
        &&& after.initialized == self.initialized
    }

    /// The module with news for the host, where it keeps a record of that.
    pub open spec fn with_sync_requested(self) -> Module {
        match self.java_sync {
            Some(sync) => Module {
                java_sync: Some(JavaModuleSync { needs_sync: true, ..sync }),
                ..self
            },
            None => self,
        }
    }

    /// The module once the host has been told at `tick`, where it keeps a record
    /// of that.
    pub open spec fn with_sync_completed(self, tick: u64) -> Module {
        match self.java_sync {
            Some(sync) => Module {
                java_sync: Some(
                    JavaModuleSync { needs_sync: false, last_sync_tick: tick, ..sync },
                ),
                ..self
            },
            None => self,
        }
    }

    /// Whether the module carries every component kind of `set`.
    pub open spec fn has_all(self, set: ComponentSet) -> bool {
        &&& set.energy ==> self.energy is Some
        &&& set.processing ==> self.processing is Some
        &&& set.storage ==> self.storage is Some
        &&& set.display ==> self.display is Some
        &&& set.generator ==> self.generator is Some
        &&& set.energy_storage ==> self.energy_storage is Some
        &&& set.consumer ==> self.consumer is Some
        &&& set.java_sync ==> self.java_sync is Some
    }

    /// Whether the module carries no component kind of `set`.
    pub open spec fn has_none(self, set: ComponentSet) -> bool {
        &&& set.energy ==> self.energy is None
        &&& set.processing ==> self.processing is None
        &&& set.storage ==> self.storage is None
        &&& set.display ==> self.display is None
        &&& set.generator ==> self.generator is None
        &&& set.energy_storage ==> self.energy_storage is None
        &&& set.consumer ==> self.consumer is None
        &&& set.java_sync ==> self.java_sync is None
    }

    /// Whether a query for `required` without `excluded` picks the module. With
    /// `seen`, only where its energy component was stamped at `seen` or later.
    pub open spec fn selected_by(
        self,
        required: ComponentSet,
        excluded: ComponentSet,
        seen: Option<u64>,
    ) -> bool {
        &&& self.has_all(required)
        &&& self.has_none(excluded)
        &&& seen matches Some(s) ==> self.energy is Some && self.energy_stamp >= s
    }

    fn carries_all(&self, set: &ComponentSet) -> (r: bool)
        ensures
            r == self.has_all(*set),
    {
        (!set.energy || self.energy.is_some()) && (!set.processing || self.processing.is_some())
            && (!set.storage || self.storage.is_some()) && (!set.display
            || self.display.is_some()) && (!set.generator || self.generator.is_some()) && (
        !set.energy_storage || self.energy_storage.is_some()) && (!set.consumer
            || self.consumer.is_some()) && (!set.java_sync || self.java_sync.is_some())
    }

    fn carries_none(&self, set: &ComponentSet) -> (r: bool)
        ensures
            r == self.has_none(*set),
    {
        (!set.energy || self.energy.is_none()) && (!set.processing || self.processing.is_none())
            && (!set.storage || self.storage.is_none()) && (!set.display
            || self.display.is_none()) && (!set.generator || self.generator.is_none()) && (
        !set.energy_storage || self.energy_storage.is_none()) && (!set.consumer
            || self.consumer.is_none()) && (!set.java_sync || self.java_sync.is_none())
    }
}

impl ComponentSet {
    /// The empty choice.
    pub fn none() -> (s: Self)
        ensures
            s == (ComponentSet {
                energy: false,
                processing: false,
                storage: false,
                display: false,
                generator: false,
                energy_storage: false,
                consumer: false,
                java_sync: false,
            }),
    {
        ComponentSet {
            energy: false,
            processing: false,
            storage: false,
            display: false,
            generator: false,
            energy_storage: false,
            consumer: false,
            java_sync: false,
        }
    }
}

impl ChangeObserver {
    /// An observer that has been shown nothing yet.
    pub fn new() -> (o: Self)
        ensures
            o.seen == 0,
    {
        ChangeObserver { seen: 0 }
    }
}

/// The identifiers carried by the records of `modules`.
pub open spec fn entity_ids(modules: Seq<Module>) -> Set<u64> {
    Set::new(|id: u64| exists|i: int| 0 <= i < modules.len() && #[trigger] modules[i].entity == id)
}

/// No identifier stands on two records.
pub open spec fn distinct_entities(modules: Seq<Module>) -> bool {
    forall|i: int, j: int|
        0 <= i < j < modules.len() ==> #[trigger] modules[i].entity != #[trigger] modules[j].entity
}

/// Where `entity` stands among `modules`, if it does.
pub open spec fn index_in(modules: Seq<Module>, entity: u64) -> Option<int> {
    if exists|i: int| 0 <= i < modules.len() && #[trigger] modules[i].entity == entity {
        Some(choose|i: int| 0 <= i < modules.len() && #[trigger] modules[i].entity == entity)
    } else {
        None
    }
}

/// The records are those of distinct entities, each with sound components and a
/// stamp that the clock has reached.
pub open spec fn modules_wf(modules: Seq<Module>, clock: u64) -> bool {
    &&& distinct_entities(modules)
    &&& forall|i: int|
        0 <= i < modules.len() ==> (#[trigger] modules[i]).wf() && modules[i].energy_stamp
            <= clock
}

/// The clock after one observation: it moves on by one until it can move no more.
pub open spec fn next_clock(clock: u64) -> u64 {
    if clock < u64::MAX {
        (clock + 1) as u64
    } else {
        clock
    }
}

/// The identifiers of the modules that a query picks, in the order of the store.
pub open spec fn selected_ids(
    modules: Seq<Module>,
    required: ComponentSet,
    excluded: ComponentSet,
    seen: Option<u64>,
) -> Seq<u64>
    decreases modules.len(),
{
    if modules.len() == 0 {
        Seq::empty()
    } else {
        let before = selected_ids(modules.drop_last(), required, excluded, seen);
        if modules.last().selected_by(required, excluded, seen) {
            before.push(modules.last().entity)
        } else {
            before
        }
    }
}

/// Every identifier that a query returns is that of a record which the query
/// picks.
pub proof fn lemma_selected_ids_members(
    modules: Seq<Module>,
    required: ComponentSet,
    excluded: ComponentSet,
    seen: Option<u64>,
    k: int,
)
    requires
        0 <= k < selected_ids(modules, required, excluded, seen).len(),
    ensures
        exists|i: int|
            0 <= i < modules.len() && (#[trigger] modules[i]).entity == selected_ids(
                modules,
                required,
                excluded,
                seen,
            )[k] && modules[i].selected_by(required, excluded, seen),
    decreases modules.len(),
{
    let head = modules.drop_last();
    let before = selected_ids(head, required, excluded, seen);
    if k < before.len() {
        lemma_selected_ids_members(head, required, excluded, seen, k);
    }
}

/// Under distinct identifiers a record is found where it stands.
pub proof fn lemma_index_in_found(modules: Seq<Module>, i: int)
    requires
        distinct_entities(modules),
        0 <= i < modules.len(),
    ensures
        index_in(modules, modules[i].entity) == Some(i),
{
}

/// An identifier that stands on no record is found nowhere.
pub proof fn lemma_index_in_none(modules: Seq<Module>, entity: u64)
    ensures
        index_in(modules, entity) is None <==> !entity_ids(modules).contains(entity),
        index_in(modules, entity) matches Some(i) ==> 0 <= i < modules.len() && modules[i].entity
            == entity,
{
}

proof fn lemma_ids_count(modules: Seq<Module>)
    requires
        distinct_entities(modules),
    ensures
        entity_ids(modules).finite(),
        entity_ids(modules).len() == modules.len(),
{
    let ids = modules.map_values(|m: Module| m.entity);
    assert forall|id: u64| ids.to_set().contains(id) == entity_ids(modules).contains(id) by {
        if ids.to_set().contains(id) {
            let k = choose|k: int| 0 <= k < ids.len() && ids[k] == id;
            assert(modules[k].entity == id);
        }
        if entity_ids(modules).contains(id) {
            let k = choose|k: int| 0 <= k < modules.len() && #[trigger] modules[k].entity == id;
            assert(ids[k] == id);
        }
    }
    assert(ids.to_set() =~= entity_ids(modules));
    ids.unique_seq_to_set();
}

proof fn lemma_ids_after_update(modules: Seq<Module>, i: int, module: Module)
    requires
        0 <= i < modules.len(),
        module.entity == modules[i].entity,
    ensures
        entity_ids(modules.update(i, module)) == entity_ids(modules),
        distinct_entities(modules) ==> distinct_entities(modules.update(i, module)),
{
    let after = modules.update(i, module);
    assert forall|id: u64| entity_ids(after).contains(id) == entity_ids(modules).contains(
        id,
    ) by {
        if entity_ids(after).contains(id) {
            let k = choose|k: int| 0 <= k < after.len() && #[trigger] after[k].entity == id;
            assert(modules[k].entity == id);
        }
        if entity_ids(modules).contains(id) {
            let k = choose|k: int| 0 <= k < modules.len() && #[trigger] modules[k].entity == id;
            assert(after[k].entity == id);
        }
    }
}

proof fn lemma_ids_after_push(modules: Seq<Module>, module: Module)
    ensures
        entity_ids(modules.push(module)) == entity_ids(modules).insert(module.entity),
        distinct_entities(modules) && !entity_ids(modules).contains(module.entity)
            ==> distinct_entities(modules.push(module)),
{
    let after = modules.push(module);
    assert forall|id: u64| entity_ids(after).contains(id) == entity_ids(modules).insert(
        module.entity,
    ).contains(id) by {
        if entity_ids(after).contains(id) {
            let k = choose|k: int| 0 <= k < after.len() && #[trigger] after[k].entity == id;
            assert(k < modules.len() ==> modules[k].entity == id);
        }
        if entity_ids(modules).contains(id) {
            let k = choose|k: int| 0 <= k < modules.len() && #[trigger] modules[k].entity == id;
            assert(after[k].entity == id);
        }
        if id == module.entity {
            assert(after[modules.len() as int].entity == id);
        }
    }
}

proof fn lemma_ids_after_remove(modules: Seq<Module>, i: int)
    requires
        0 <= i < modules.len(),
        distinct_entities(modules),
    ensures
        entity_ids(modules.remove(i)) == entity_ids(modules).remove(modules[i].entity),
        distinct_entities(modules.remove(i)),
{
    let after = modules.remove(i);
    let gone = modules[i].entity;
    assert forall|id: u64| entity_ids(after).contains(id) == entity_ids(modules).remove(
        gone,
    ).contains(id) by {
        if entity_ids(after).contains(id) {
            let k = choose|k: int| 0 <= k < after.len() && #[trigger] after[k].entity == id;
            let k0 = if k < i {
                k
            } else {
                k + 1
            };
            assert(modules[k0].entity == id);
        }
        if entity_ids(modules).contains(id) && id != gone {
            let k = choose|k: int| 0 <= k < modules.len() && #[trigger] modules[k].entity == id;
            let k1 = if k < i {
                k
            } else {
                k - 1
            };
            assert(after[k1].entity == id);
        }
    }
}

/// The entities of one world and what is attached to them.
pub struct Store {
    world: World,
    modules: Vec<Module>,
    clock: u64,
}

impl View for Store {
    type V = Seq<Module>;

    /// The records of the store, in the order in which they were spawned.
    closed spec fn view(&self) -> Seq<Module> {
        self.modules@
    }
}

impl Store {
    /// The change clock: the stamp that the next change of an energy component gets.
    pub closed spec fn clock(&self) -> u64 {
        self.clock
    }

    /// The records are those of the entities that the allocator holds alive.
    pub closed spec fn entities_agree(&self) -> bool {
        live_entities(self.world) == entity_ids(self.modules@)
    }

    /// The invariant of the store.
    pub open spec fn wf(&self) -> bool {
        &&& self.entities_agree()
        &&& modules_wf(self@, self.clock())
    }

    /// An empty store.
    pub fn new() -> (s: Self)
        ensures
            s@ == Seq::<Module>::empty(),
            s.clock() == 0,
            s.wf(),
    {
        let s = Store { world: new_entity_world(), modules: Vec::new(), clock: 0 };
        assert(entity_ids(s.modules@) =~= Set::<u64>::empty());
        s
    }

    /// The number of modules.
    pub fn len(&self) -> (n: usize)
        ensures
            n == self@.len(),
    {
        self.modules.len()
    }

    /// The record at `index`.
    pub fn module_at(&self, index: usize) -> (m: &Module)
        requires
            index < self@.len(),
        ensures
            *m == self@[index as int],
    {
        &self.modules[index]
    }

    /// Where the record of `entity` stands, if the entity is alive.
    pub fn index_of(&self, entity: u64) -> (r: Option<usize>)
        requires
            self.wf(),
        ensures
            match r {
                Some(i) => index_in(self@, entity) == Some(i as int) && i < self@.len()
                    && self@[i as int].entity == entity,
                None => index_in(self@, entity) is None,
            },
    {
        let n = self.modules.len();
        let mut i: usize = 0;
        while i < n
            invariant
                n == self.modules@.len(),
                i <= n,
                distinct_entities(self.modules@),
                forall|k: int| 0 <= k < i ==> (#[trigger] self.modules@[k]).entity != entity,
            decreases n - i,
        {
            if self.modules[i].entity == entity {
                return Some(i);
            }
            i += 1;
        }
        None
    }

    /// Whether `entity` is alive in this store.
    pub fn contains(&self, entity: u64) -> (r: bool)
        requires
            self.wf(),
        ensures
            r == entity_ids(self@).contains(entity),
            r == index_in(self@, entity) is Some,
    {
        self.index_of(entity).is_some()
    }

    /// The record of `entity`, if the entity is alive.
    pub fn get(&self, entity: u64) -> (r: Option<&Module>)
        requires
            self.wf(),
        ensures
            match r {
                Some(m) => index_in(self@, entity) matches Some(i) && *m == self@[i],
                None => index_in(self@, entity) is None,
            },
    {
        match self.index_of(entity) {
            Some(i) => Some(&self.modules[i]),
            None => None,
        }
    }

    /// Spawns a module with the components of `bundle` and returns its identifier,
    /// which no module alive carries. The new record stands last.
    pub fn spawn(&mut self, bundle: ModuleBundle) -> (entity: u64)
        requires
            old(self).wf(),
            old(self)@.len() < MAX_ENTITIES,
            bundle.wf(),
        ensures
            final(self)@ == old(self)@.push(Module::fresh(bundle, entity, old(self).clock())),
            !entity_ids(old(self)@).contains(entity),
            final(self).clock() == old(self).clock(),
            final(self).wf(),
    {
        proof {
            lemma_ids_count(self.modules@);
        }
        let entity = allocate_entity(&mut self.world);
        let module = Module {
            entity,
            position: bundle.position,
            module_type: bundle.module_type,
            energy: bundle.energy,
            processing: bundle.processing,
            storage: bundle.storage,
            display: bundle.display,
            generator: None,
            energy_storage: None,
            consumer: None,
            java_sync: None,
            energy_stamp: self.clock,
            initialized: false,
        };
        proof {
            lemma_ids_after_push(self.modules@, module);
        }
        self.modules.push(module);
        entity
    }

    /// Removes `entity` with everything attached to it. Returns whether it was
    /// alive; where it was not, nothing changes.
    pub fn despawn(&mut self, entity: u64) -> (removed: bool)
        requires
            old(self).wf(),
        ensures
            match index_in(old(self)@, entity) {
                Some(i) => removed && final(self)@ == old(self)@.remove(i),
                None => !removed && final(self)@ == old(self)@,
            },
            final(self).clock() == old(self).clock(),
            final(self).wf(),
    {
        let found = self.index_of(entity);
        let removed = release_entity(&mut self.world, entity);
        match found {
            Some(i) => {
                proof {
                    lemma_ids_after_remove(self.modules@, i as int);
                }
                self.modules.remove(i);
                removed
            },
            None => {
                assert(live_entities(self.world) =~= live_entities(old(self).world));
                removed
            },
        }
    }

    /// The energy component at `index`.
    pub fn energy_at(&self, index: usize) -> (e: Option<EnergyComponent>)
        requires
            index < self@.len(),
        ensures
            e == self@[index as int].energy,
    {
        self.modules[index].energy
    }

    /// Attaches `energy` at `index`, in place of the energy component that was
    /// there. The module is stamped as changed where the component differs.
    pub fn set_energy_at(&mut self, index: usize, energy: EnergyComponent)
        requires
            old(self).wf(),
            index < old(self)@.len(),
            energy.wf(),
        ensures
            final(self)@ == old(self)@.update(
                index as int,
                old(self)@[index as int].with_energy(energy, old(self).clock()),
            ),
            final(self).clock() == old(self).clock(),
            final(self).wf(),
    {
        let clock = self.clock;
        let same = match self.modules[index].energy {
            Some(previous) => previous == energy,
            None => false,
        };
        proof {
            lemma_ids_after_update(
                self.modules@,
                index as int,
                self.modules@[index as int].with_energy(energy, clock),
            );
        }
        self.modules[index].energy = Some(energy);
        if !same {
            self.modules[index].energy_stamp = clock;
        }
        assert(self.modules@ =~= old(self).modules@.update(
            index as int,
            old(self).modules@[index as int].with_energy(energy, clock),
        ));
    }

    /// The energy component of `entity`: `None` where the entity is not alive or
    /// holds no energy.
    pub fn get_energy(&self, entity: u64) -> (e: Option<EnergyComponent>)
        requires
            self.wf(),
        ensures
            e == match index_in(self@, entity) {
                Some(i) => self@[i].energy,
                None => None,
            },
    {
        match self.index_of(entity) {
            Some(i) => self.modules[i].energy,
            None => None,
        }
    }

    /// Attaches `energy` to `entity`, in place of the energy component that was
    /// there. Returns whether the entity is alive; where it is not, nothing
    /// changes.
    pub fn set_energy(&mut self, entity: u64, energy: EnergyComponent) -> (done: bool)
        requires
            old(self).wf(),
            energy.wf(),
        ensures
            match index_in(old(self)@, entity) {
                Some(i) => done && final(self)@ == old(self)@.update(
                    i,
                    old(self)@[i].with_energy(energy, old(self).clock()),
                ),
                None => !done && final(self)@ == old(self)@,
            },
            final(self).clock() == old(self).clock(),
            final(self).wf(),
    {
        match self.index_of(entity) {
            Some(i) => {
                self.set_energy_at(i, energy);
                true
            },
            None => false,
        }
    }

    /// Attaches `processing` at `index`, in place of what was there.
    pub fn set_processing_at(&mut self, index: usize, processing: ProcessingComponent)
        requires
            old(self).wf(),
            index < old(self)@.len(),
            processing.wf(),
        ensures
            final(self)@ == old(self)@.update(
                index as int,
                old(self)@[index as int].with_processing(processing),
            ),
            final(self).clock() == old(self).clock(),
            final(self).wf(),
    {
        proof {
            lemma_ids_after_update(
                self.modules@,
                index as int,
                self.modules@[index as int].with_processing(processing),
            );
        }
        self.modules[index].processing = Some(processing);
    }

    /// Attaches the role markers and the energy component of `kit` at `index`,
    /// with a fresh record of what the host knows, and notes that the lifecycle
    /// pass has dealt with the module.
    pub fn attach_roles_at(&mut self, index: usize, kit: RoleKit, tick: u64)
        requires
            old(self).wf(),
            index < old(self)@.len(),
            kit.energy.wf(),
        ensures
            final(self)@ == old(self)@.update(
                index as int,
                old(self)@[index as int].with_roles(kit, tick, old(self).clock()),
            ),
            final(self).clock() == old(self).clock(),
            final(self).wf(),
    {
        let ghost target = self.modules@[index as int].with_roles(kit, tick, self.clock);
        proof {
            lemma_ids_after_update(self.modules@, index as int, target);
            lemma_ids_after_update(
                self.modules@,
                index as int,
                self.modules@[index as int].with_energy(kit.energy, self.clock),
            );
        }
        self.set_energy_at(index, kit.energy);
        let module_id = self.modules[index].module_type.type_id.clone();
        if kit.generator.is_some() {
            self.modules[index].generator = kit.generator;
        }
        if kit.energy_storage.is_some() {
            self.modules[index].energy_storage = kit.energy_storage;
        }
        if kit.consumer.is_some() {
            self.modules[index].consumer = kit.consumer;
        }
        self.modules[index].java_sync = Some(
            JavaModuleSync { module_id, needs_sync: false, last_sync_tick: tick },
        );
        self.modules[index].initialized = true;
        assert(self.modules@ =~= old(self).modules@.update(index as int, target));
    }

    /// Notes that the lifecycle pass need not deal with the module at `index`.
    pub fn mark_initialized_at(&mut self, index: usize)
        requires
            old(self).wf(),
            index < old(self)@.len(),
        ensures
            final(self)@ == old(self)@.update(
                index as int,
                Module { initialized: true, ..old(self)@[index as int] },
            ),
            final(self).clock() == old(self).clock(),
            final(self).wf(),
    {
        proof {
            lemma_ids_after_update(
                self.modules@,
                index as int,
                Module { initialized: true, ..self.modules@[index as int] },
            );
        }
        self.modules[index].initialized = true;
    }

    /// Notes that the module at `index` has news for the host, where the module
    /// keeps a record of that.
    pub fn request_sync_at(&mut self, index: usize)
        requires
            old(self).wf(),
            index < old(self)@.len(),
        ensures
            final(self)@ == old(self)@.update(
                index as int,
                old(self)@[index as int].with_sync_requested(),
            ),
            final(self).clock() == old(self).clock(),
            final(self).wf(),
    {
        proof {
            lemma_ids_after_update(
                self.modules@,
                index as int,
                self.modules@[index as int].with_sync_requested(),
            );
        }
        match &mut self.modules[index].java_sync {
            Some(sync) => {
                sync.needs_sync = true;
            },
            None => {},
        }
    }

    /// Notes that the host has been told about the module at `index` at `tick`,
    /// where the module keeps a record of that.
    pub fn complete_sync_at(&mut self, index: usize, tick: u64)
        requires
            old(self).wf(),
            index < old(self)@.len(),
        ensures
            final(self)@ == old(self)@.update(
                index as int,
                old(self)@[index as int].with_sync_completed(tick),
            ),
            final(self).clock() == old(self).clock(),
            final(self).wf(),
    {
        proof {
            lemma_ids_after_update(
                self.modules@,
                index as int,
                self.modules@[index as int].with_sync_completed(tick),
            );
        }
        match &mut self.modules[index].java_sync {
            Some(sync) => {
                sync.needs_sync = false;
                sync.last_sync_tick = tick;
            },
            None => {},
        }
    }

    /// Shows `text` on the display at `index`, cut to the limit of the display.
    /// Returns whether it did: not where the module has no display, nor where
    /// the cut would fall inside a character. Then nothing changes.
    pub fn set_display_text_at(&mut self, index: usize, text: String) -> (done: bool)
        requires
            old(self).wf(),
            index < old(self)@.len(),
        ensures
            done == (old(self)@[index as int].display matches Some(d) && can_fit(
                text@,
                d.max_length,
            )),
            !done ==> final(self)@ == old(self)@,
            done ==> final(self)@.len() == old(self)@.len() && old(self)@[index as int].redisplayed(
                final(self)@[index as int],
                text@,
            ) && forall|k: int|
                0 <= k < old(self)@.len() && k != index ==> #[trigger] final(self)@[k] == old(
                    self,
                )@[k],
            final(self).clock() == old(self).clock(),
            final(self).wf(),
    {
        let ghost before = self.modules@;
        let done = match &mut self.modules[index].display {
            Some(display) => display.try_set_text(text),
            None => false,
        };
        proof {
            if done {
                assert forall|id: u64| entity_ids(self.modules@).contains(id) == entity_ids(
                    before,
                ).contains(id) by {
                    if entity_ids(self.modules@).contains(id) {
                        let k = choose|k: int|
                            0 <= k < self.modules@.len() && #[trigger] self.modules@[k].entity
                                == id;
                        assert(before[k].entity == id);
                    }
                    if entity_ids(before).contains(id) {
                        let k = choose|k: int|
                            0 <= k < before.len() && #[trigger] before[k].entity == id;
                        assert(self.modules@[k].entity == id);
                    }
                }
                assert(entity_ids(self.modules@) =~= entity_ids(before));
            } else {
                assert(self.modules@ =~= before);
            }
        }
        done
    }

    /// The identifiers of the modules that carry all of `required` and none of
    /// `excluded`, in the order of the store.
    pub fn query(&self, required: &ComponentSet, excluded: &ComponentSet) -> (ids: Vec<u64>)
        ensures
            ids@ == selected_ids(self@, *required, *excluded, None),
    {
        self.collect(required, excluded, None)
    }

    /// The identifiers of the modules that carry all of `required` and none of
    /// `excluded`, and whose energy component has changed since `observer` last
    /// asked. The observer has then been shown everything up to now.
    pub fn query_changed(
        &mut self,
        required: &ComponentSet,
        excluded: &ComponentSet,
        observer: &mut ChangeObserver,
    ) -> (ids: Vec<u64>)
        requires
            old(self).wf(),
        ensures
            ids@ == selected_ids(old(self)@, *required, *excluded, Some(old(observer).seen)),
            final(self)@ == old(self)@,
            final(self).clock() == next_clock(old(self).clock()),
            final(observer).seen == final(self).clock(),
            final(self).wf(),
    {
        let ids = self.collect(required, excluded, Some(observer.seen));
        self.observe(observer);
        ids
    }

    /// Notes that `observer` has been shown every change made so far: the clock
    /// moves on, and what is stamped from now on is new to the observer.
    pub fn observe(&mut self, observer: &mut ChangeObserver)
        requires
            old(self).wf(),
        ensures
            final(self)@ == old(self)@,
            final(self).clock() == next_clock(old(self).clock()),
            final(observer).seen == final(self).clock(),
            final(self).wf(),
    {
        if self.clock < u64::MAX {
            self.clock = self.clock + 1;
        }
        observer.seen = self.clock;
    }

    fn collect(&self, required: &ComponentSet, excluded: &ComponentSet, seen: Option<u64>) -> (ids:
        Vec<u64>)
        ensures
            ids@ == selected_ids(self@, *required, *excluded, seen),
    {
        let n = self.modules.len();
        let mut ids: Vec<u64> = Vec::new();
        let mut i: usize = 0;
        while i < n
            invariant
                n == self.modules@.len(),
                i <= n,
                ids@ == selected_ids(self.modules@.take(i as int), *required, *excluded, seen),
            decreases n - i,
        {
            let module = &self.modules[i];
            let fresh_enough = match seen {
                Some(s) => module.energy.is_some() && module.energy_stamp >= s,
                None => true,
            };
            proof {
                let upto = self.modules@.take(i as int + 1);
                assert(upto.drop_last() =~= self.modules@.take(i as int));
            }
            if module.carries_all(required) && module.carries_none(excluded) && fresh_enough {
                ids.push(module.entity);
            }
            i += 1;
        }
        assert(self.modules@.take(n as int) =~= self.modules@);
        ids
    }
}

} // verus!
