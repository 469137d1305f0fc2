//! The registry of worlds and the operations that the host reaches them by.
//!
//! A world is known by an identifier that the registry hands out once and never
//! again. Every operation names the world it is for, touches that world alone,
//! and is a quiet no-op where the world is not there.

use crate::entities::MAX_ENTITIES;
use crate::components::kind::ModuleType;
use crate::components::position::ModulePosition;
use crate::store::{entity_ids, index_in, Module, ModuleBundle};
use crate::systems::sync::{due_at, pending_of, EnergySync};
use crate::world::{spawned_as, GridWorld};
use vstd::prelude::*;

verus! {

/// A world with the identifier that it is registered under.
pub struct WorldEntry {
    pub id: u64,
    pub world: GridWorld,
}

/// Where the world `id` stands among `entries`, if it is registered.
pub open spec fn slot_of(entries: Seq<WorldEntry>, id: u64) -> Option<int> {
    if exists|i: int| 0 <= i < entries.len() && (#[trigger] entries[i]).id == id {
        Some(choose|i: int| 0 <= i < entries.len() && (#[trigger] entries[i]).id == id)
    } else {
        None
    }
}

/// Every world is sound and registered under an identifier of its own, below
/// the next one to be handed out.
pub open spec fn entries_wf(entries: Seq<WorldEntry>, next_id: u64) -> bool {
    &&& forall|i: int, j: int|
        0 <= i < j < entries.len() ==> (#[trigger] entries[i]).id != (#[trigger] entries[j]).id
    &&& forall|i: int|
        0 <= i < entries.len() ==> (#[trigger] entries[i]).id < next_id && entries[i].world.wf()
}

/// Whether `after` is `before` with nothing changed but the world at `slot`,
/// which keeps its identifier.
pub open spec fn only_world_changed(before: Seq<WorldEntry>, after: Seq<WorldEntry>, slot: int) -> bool {
    &&& after.len() == before.len()
    &&& 0 <= slot < before.len()
    &&& after[slot].id == before[slot].id
    &&& forall|k: int| 0 <= k < before.len() && k != slot ==> #[trigger] after[k] == before[k]
}

/// The worlds of one process, each under its identifier.
pub struct WorldRegistry {
    entries: Vec<WorldEntry>,
    next_id: u64,
}

impl View for WorldRegistry {
    type V = Seq<WorldEntry>;

    /// The registered worlds, in the order in which they were created.
    closed spec fn view(&self) -> Seq<WorldEntry> {
        self.entries@
    }
}

impl WorldRegistry {
    /// The identifier that the next world gets.
    pub closed spec fn next_id(&self) -> u64 {
        self.next_id
    }

    /// The invariant of the registry.
    pub open spec fn wf(&self) -> bool {
        entries_wf(self@, self.next_id())
    }

    /// A registry without worlds. Identifiers start at one.
    pub fn new() -> (r: Self)
        ensures
            r@ == Seq::<WorldEntry>::empty(),
            r.next_id() == 1,
            r.wf(),
    {
        WorldRegistry { entries: Vec::new(), next_id: 1 }
    }

    fn find(&self, id: u64) -> (r: Option<usize>)
        requires
            self.wf(),
        ensures
            match r {
                Some(i) => slot_of(self@, id) == Some(i as int) && i < self@.len() && self@[i as int].id
                    == id,
                None => slot_of(self@, id) is None,
            },
    {
        let n = self.entries.len();
        let mut i: usize = 0;
        while i < n
            invariant
                i <= n,
                n == self.entries@.len(),
                self.wf(),
                forall|k: int| 0 <= k < i ==> (#[trigger] self.entries@[k]).id != id,
            decreases n - i,
        {
            if self.entries[i].id == id {
                return Some(i);
            }
            i += 1;
        }
        None
    }

    /// Creates an empty world at the origin and returns its identifier.
    pub fn create_world(&mut self) -> (id: Option<u64>)
        requires
            old(self).wf(),
        ensures
            final(self).created_from(old(self), id, (0i32, 0i32, 0i32)),
            final(self).wf(),
    {
        self.create_world_at((0, 0, 0))
    }

    /// Whether this registry is `before` after the creation of a world at
    /// `world_pos`: the new world stands last under the identifier that was next,
    /// and the others are as they were. Nothing is created once the identifiers
    /// have run out.
    pub open spec fn created_from(
        &self,
        before: &WorldRegistry,
        id: Option<u64>,
        world_pos: (i32, i32, i32),
    ) -> bool {
        if before.next_id() < u64::MAX {
            &&& id == Some(before.next_id())
            &&& self.next_id() == before.next_id() + 1
            &&& self@.len() == before@.len() + 1
            &&& self@.drop_last() == before@
            &&& self@.last().id == before.next_id()
            &&& self@.last().world.world_pos == world_pos
            &&& self@.last().world.store@ == Seq::<Module>::empty()
            &&& self@.last().world.tick_counter.count == 0
            &&& pending_of(self@.last().world.sync_manager@, world_pos) == Seq::<
                EnergySync,
            >::empty()
            &&& slot_of(before@, before.next_id()) is None
        } else {
            &&& id is None
            &&& self@ == before@
            &&& self.next_id() == before.next_id()
        }
    }

    /// Creates an empty world at `world_pos` and returns its identifier, which
    /// no world has had before. Returns `None` once the identifiers have run out.
    pub fn create_world_at(&mut self, world_pos: (i32, i32, i32)) -> (id: Option<u64>)
        requires
            old(self).wf(),
        ensures
            final(self).created_from(old(self), id, world_pos),
            final(self).wf(),
    {
        if self.next_id == u64::MAX {
            return None;
        }
        let id = self.next_id;
        let ghost before = self.entries@;
        let world = GridWorld::new(world_pos);
        self.entries.push(WorldEntry { id, world });
        self.next_id = id + 1;
        proof {
            assert(self.entries@.drop_last() =~= before);
        }
        Some(id)
    }

    /// Destroys the world `id` with everything in it. Returns whether it was
    /// there; the other worlds stay as they are.
    pub fn destroy_world(&mut self, id: u64) -> (destroyed: bool)
        requires
            old(self).wf(),
        ensures
            match slot_of(old(self)@, id) {
                Some(i) => destroyed && final(self)@ == old(self)@.remove(i),
                None => !destroyed && final(self)@ == old(self)@,
            },
            slot_of(final(self)@, id) is None,
            final(self).next_id() == old(self).next_id(),
            final(self).wf(),
    {
        match self.find(id) {
            Some(i) => {
                self.entries.remove(i);
                true
            },
            None => false,
        }
    }

    /// The world `id`, if it is registered.
    pub fn world(&self, id: u64) -> (r: Option<&GridWorld>)
        requires
            self.wf(),
        ensures
            match r {
                Some(w) => slot_of(self@, id) matches Some(i) && *w == self@[i].world && w.wf(),
                None => slot_of(self@, id) is None,
            },
    {
        match self.find(id) {
            Some(i) => Some(&self.entries[i].world),
            None => None,
        }
    }

    /// The number of worlds.
    pub fn get_world_count(&self) -> (n: usize)
        ensures
            n == self@.len(),
    {
        self.entries.len()
    }

    /// Destroys every world. Identifiers that were handed out stay used.
    pub fn cleanup_all_worlds(&mut self)
        ensures
            final(self)@ == Seq::<WorldEntry>::empty(),
            final(self).next_id() == old(self).next_id(),
            final(self).wf(),
    {
        self.entries.clear();
    }

    /// Calls `f` on the world `id` and returns what it gives; `None` where there
    /// is no such world.
    pub fn with_world<T, F: FnOnce(&GridWorld) -> T>(&self, id: u64, f: F) -> (r: Option<T>)
        requires
            self.wf(),
            forall|w: &GridWorld| w.wf() ==> #[trigger] f.requires((w,)),
        ensures
            match r {
                Some(t) => slot_of(self@, id) matches Some(i) && f.ensures((&self@[i].world,), t),
                None => slot_of(self@, id) is None,
            },
    {
        match self.find(id) {
            Some(i) => Some(f(&self.entries[i].world)),
            None => None,
        }
    }

    /// Calls `f` on the world `id`, which it may change, and returns what it
    /// gives; `None` where there is no such world. The other worlds stay as they
    /// are.
    pub fn with_world_mut<T, F: FnOnce(&mut GridWorld) -> T>(&mut self, id: u64, f: F) -> (r:
        Option<T>)
        requires
            old(self).wf(),
            forall|w: &mut GridWorld| w.wf() ==> #[trigger] f.requires((w,)),
            forall|w: &mut GridWorld, t: T|
                w.wf() && #[trigger] f.ensures((w,), t) ==> final(w).wf(),
        ensures
            match slot_of(old(self)@, id) {
                Some(i) => {
                    &&& r matches Some(t)
                    &&& only_world_changed(old(self)@, final(self)@, i)
                    &&& exists|w: &mut GridWorld|
                        *w == old(self)@[i].world && *final(w) == final(self)@[i].world
                            && f.ensures((w,), t)
                },
                None => r is None && final(self)@ == old(self)@,
            },
            final(self).next_id() == old(self).next_id(),
            final(self).wf(),
    {
        match self.find(id) {
            Some(i) => {
                let given = f(&mut self.entries[i].world);
                Some(given)
            },
            None => None,
        }
    }

    /// Spawns a module of type `module_type` at `position` in the world `id` and
    /// returns its identifier; `None` where there is no such world or the world
    /// is full.
    pub fn spawn_entity(&mut self, id: u64, module_type: ModuleType, position: ModulePosition) -> (entity:
        Option<u64>)
        requires
            old(self).wf(),
        ensures
            match slot_of(old(self)@, id) {
                Some(i) => if old(self)@[i].world.store@.len() >= MAX_ENTITIES {
                    entity is None && final(self)@ == old(self)@
                } else {
                    &&& entity matches Some(e)
                    &&& only_world_changed(old(self)@, final(self)@, i)
                    &&& final(self)@[i].world.store@.len() == old(self)@[i].world.store@.len() + 1
                    &&& final(self)@[i].world.store@.drop_last() == old(self)@[i].world.store@
                    &&& spawned_as(
                        final(self)@[i].world.store@.last(),
                        e,
                        module_type,
                        position,
                        old(self)@[i].world.store.clock(),
                    )
                    &&& !entity_ids(old(self)@[i].world.store@).contains(e)
                    &&& final(self)@[i].world.same_resources(&old(self)@[i].world)
                },
                None => entity is None && final(self)@ == old(self)@,
            },
            final(self).next_id() == old(self).next_id(),
            final(self).wf(),
    {
        match self.find(id) {
            Some(i) => {
                if self.entries[i].world.store.len() >= MAX_ENTITIES {
                    return None;
                }
                let entity = self.entries[i].world.spawn_entity(module_type, position);
                Some(entity)
            },
            None => None,
        }
    }

    /// Spawns a module of type `module_type` at `position` in the world `id`
    /// without components, for the lifecycle pass to equip, and returns its
    /// identifier; `None` where there is no such world or the world is full.
    pub fn create_module(&mut self, id: u64, module_type: ModuleType, position: ModulePosition) -> (entity:
        Option<u64>)
        requires
            old(self).wf(),
        ensures
            match slot_of(old(self)@, id) {
                Some(i) => if old(self)@[i].world.store@.len() >= MAX_ENTITIES {
                    entity is None && final(self)@ == old(self)@
                } else {
                    &&& entity matches Some(e)
                    &&& only_world_changed(old(self)@, final(self)@, i)
                    &&& final(self)@[i].world.store@ == old(self)@[i].world.store@.push(
                        Module::fresh(
                            ModuleBundle {
                                position,
                                module_type,
                                energy: None,
                                processing: None,
                                storage: None,
                                display: None,
                            },
                            e,
                            old(self)@[i].world.store.clock(),
                        ),
                    )
                    &&& !entity_ids(old(self)@[i].world.store@).contains(e)
                    &&& final(self)@[i].world.same_resources(&old(self)@[i].world)
                },
                None => entity is None && final(self)@ == old(self)@,
            },
            final(self).next_id() == old(self).next_id(),
            final(self).wf(),
    {
        match self.find(id) {
            Some(i) => {
                if self.entries[i].world.store.len() >= MAX_ENTITIES {
                    return None;
                }
                let entity = self.entries[i].world.create_module(module_type, position);
                Some(entity)
            },
            None => None,
        }
    }

    /// Takes the pending batch of the world `id` without reading it: returns how
    /// many records it held and forgets them. Zero where there is no such world.
    pub fn get_sync_data(&mut self, id: u64) -> (count: usize)
        requires
            old(self).wf(),
        ensures
            match slot_of(old(self)@, id) {
                Some(i) => {
                    &&& only_world_changed(old(self)@, final(self)@, i)
                    &&& final(self)@[i].world.batch_taken_from(&old(self)@[i].world, count)
                },
                None => count == 0 && final(self)@ == old(self)@,
            },
            final(self).next_id() == old(self).next_id(),
            final(self).wf(),
    {
        match self.find(id) {
            Some(i) => {
                let count = self.entries[i].world.get_sync_data();
                count
            },
            None => 0,
        }
    }

    /// Takes in the energy of every module of the world `id` for the host,
    /// changed or not. Returns whether there is such a world.
    pub fn force_sync_all(&mut self, id: u64) -> (done: bool)
        requires
            old(self).wf(),
        ensures
            match slot_of(old(self)@, id) {
                Some(i) => {
                    &&& done
                    &&& only_world_changed(old(self)@, final(self)@, i)
                    &&& final(self)@[i].world.all_marked_from(&old(self)@[i].world)
                },
                None => !done && final(self)@ == old(self)@,
            },
            final(self).next_id() == old(self).next_id(),
            final(self).wf(),
    {
        match self.find(id) {
            Some(i) => {
                self.entries[i].world.force_sync_all();
                true
            },
            None => false,
        }
    }

    /// Removes the module `entity` from the world `id`. Returns whether it did;
    /// where the world or the module is not there, nothing changes.
    pub fn despawn_entity(&mut self, id: u64, entity: u64) -> (removed: bool)
        requires
            old(self).wf(),
        ensures
            match slot_of(old(self)@, id) {
                Some(i) => match index_in(old(self)@[i].world.store@, entity) {
                    Some(m) => {
                        &&& removed
                        &&& only_world_changed(old(self)@, final(self)@, i)
                        &&& final(self)@[i].world.store@ == old(self)@[i].world.store@.remove(m)
                        &&& final(self)@[i].world.same_resources(&old(self)@[i].world)
                    },
                    None => {
                        &&& !removed
                        &&& only_world_changed(old(self)@, final(self)@, i)
                        &&& final(self)@[i].world.store@ == old(self)@[i].world.store@
                        &&& final(self)@[i].world.store.clock() == old(self)@[i].world.store.clock()
                        &&& final(self)@[i].world.same_resources(&old(self)@[i].world)
                    },
                },
                None => !removed && final(self)@ == old(self)@,
            },
            final(self).next_id() == old(self).next_id(),
            final(self).wf(),
    {
        match self.find(id) {
            Some(i) => {
                let removed = self.entries[i].world.despawn_entity(entity);
                removed
            },
            None => false,
        }
    }

    /// One tick of the world `id`. Returns whether the world was ticked: not
    /// where there is no such world, nor where its tick counter stands at its
    /// largest value. Then nothing changes.
    pub fn tick(&mut self, id: u64) -> (ticked: bool)
        requires
            old(self).wf(),
        ensures
            match slot_of(old(self)@, id) {
                Some(i) => if old(self)@[i].world.tick_counter.count < u64::MAX {
                    &&& ticked
                    &&& only_world_changed(old(self)@, final(self)@, i)
                    &&& final(self)@[i].world.ticked_from(&old(self)@[i].world)
                } else {
                    !ticked && final(self)@ == old(self)@
                },
                None => !ticked && final(self)@ == old(self)@,
            },
            final(self).next_id() == old(self).next_id(),
            final(self).wf(),
    {
        match self.find(id) {
            Some(i) => {
                if self.entries[i].world.tick_counter.count < u64::MAX {
                    self.entries[i].world.tick();
                    true
                } else {
                    false
                }
            },
            None => false,
        }
    }

    /// The energy that the module `entity` of the world `id` holds, or -1 where
    /// the world or the module is not there or the module holds no energy.
    pub fn get_energy(&self, id: u64, entity: u64) -> (level: i32)
        requires
            self.wf(),
        ensures
            level == match slot_of(self@, id) {
                Some(i) => match index_in(self@[i].world.store@, entity) {
                    Some(m) => match self@[i].world.store@[m].energy {
                        Some(e) => e.current,
                        None => -1i32,
                    },
                    None => -1i32,
                },
                None => -1i32,
            },
            level >= -1,
    {
        match self.find(id) {
            Some(i) => {
                self.entries[i].world.get_energy_level(entity)
            },
            None => -1,
        }
    }

    /// Sets the energy of the module `entity` of the world `id` to `value`,
    /// clamped between zero and its capacity. Returns whether it did; where the
    /// world or the module is not there or the module holds no energy, nothing
    /// changes.
    pub fn set_energy(&mut self, id: u64, entity: u64, value: i32) -> (done: bool)
        requires
            old(self).wf(),
        ensures
            match slot_of(old(self)@, id) {
                Some(i) => {
                    &&& only_world_changed(old(self)@, final(self)@, i)
                    &&& final(self)@[i].world.energy_set_from(
                        &old(self)@[i].world,
                        entity,
                        value,
                        done,
                    )
                },
                None => !done && final(self)@ == old(self)@,
            },
            final(self).next_id() == old(self).next_id(),
            final(self).wf(),
    {
        match self.find(id) {
            Some(i) => {
                let done = self.entries[i].world.set_energy_level(entity, value);
                done
            },
            None => false,
        }
    }

    /// Shows `text` on the display of the module `entity` of the world `id`.
    /// Returns whether it did.
    pub fn set_display_text(&mut self, id: u64, entity: u64, text: String) -> (done: bool)
        requires
            old(self).wf(),
        ensures
            match slot_of(old(self)@, id) {
                Some(i) => {
                    &&& only_world_changed(old(self)@, final(self)@, i)
                    &&& final(self)@[i].world.text_set_from(&old(self)@[i].world, entity, text@, done)
                },
                None => !done && final(self)@ == old(self)@,
            },
            final(self).next_id() == old(self).next_id(),
            final(self).wf(),
    {
        match self.find(id) {
            Some(i) => {
                let done = self.entries[i].world.set_display_text(entity, text);
                done
            },
            None => false,
        }
    }

    /// Whether a batch of the world `id` is due for the host.
    pub fn should_flush(&self, id: u64) -> (r: bool)
        requires
            self.wf(),
        ensures
            r == match slot_of(self@, id) {
                Some(i) => due_at(
                    self@[i].world.sync_manager@,
                    self@[i].world.world_pos,
                    self@[i].world.sync_manager.current_tick(),
                ),
                None => false,
            },
    {
        match self.find(id) {
            Some(i) => {
                self.entries[i].world.should_flush()
            },
            None => false,
        }
    }

    /// Hands out what the host has yet to be told about the world `id`, and
    /// forgets it. Nothing is handed out where there is no such world.
    pub fn drain_sync_batch(&mut self, id: u64) -> (batch: Vec<EnergySync>)
        requires
            old(self).wf(),
        ensures
            match slot_of(old(self)@, id) {
                Some(i) => {
                    &&& only_world_changed(old(self)@, final(self)@, i)
                    &&& final(self)@[i].world.drained_from(&old(self)@[i].world, batch@)
                },
                None => batch@ == Seq::<EnergySync>::empty() && final(self)@ == old(self)@,
            },
            final(self).next_id() == old(self).next_id(),
            final(self).wf(),
    {
        match self.find(id) {
            Some(i) => {
                let batch = self.entries[i].world.drain_sync_batch();
                batch
            },
            None => Vec::new(),
        }
    }
}

/// The identifier that `places` holds for the world at `world_pos`, if any.
pub open spec fn id_at(places: Seq<((i32, i32, i32), u64)>, world_pos: (i32, i32, i32)) -> Option<
    u64,
> {
    if exists|i: int| 0 <= i < places.len() && (#[trigger] places[i]).0 == world_pos {
        Some(places[choose|i: int| 0 <= i < places.len() && (#[trigger] places[i]).0 == world_pos].1)
    } else {
        None
    }
}

/// No position is held twice.
pub open spec fn places_wf(places: Seq<((i32, i32, i32), u64)>) -> bool {
    forall|i: int, j: int|
        0 <= i < j < places.len() ==> (#[trigger] places[i]).0 != (#[trigger] places[j]).0
}

proof fn lemma_place_found(places: Seq<((i32, i32, i32), u64)>, i: int)
    requires
        places_wf(places),
        0 <= i < places.len(),
    ensures
        id_at(places, places[i].0) == Some(places[i].1),
{
}

/// Which world of the registry stands at which position of the host's space.
pub struct WorldManager {
    worlds: Vec<((i32, i32, i32), u64)>,
}

impl View for WorldManager {
    type V = Seq<((i32, i32, i32), u64)>;

    /// The positions with their worlds, in the order in which they were taken.
    closed spec fn view(&self) -> Seq<((i32, i32, i32), u64)> {
        self.worlds@
    }
}

impl Default for WorldManager {
    fn default() -> (m: Self)
        ensures
            m@ == Seq::<((i32, i32, i32), u64)>::empty(),
            m.wf(),
    {
        WorldManager { worlds: Vec::new() }
    }
}

impl WorldManager {
    /// The invariant of the manager.
    pub open spec fn wf(&self) -> bool {
        places_wf(self@)
    }

    /// A manager that knows no position.
    pub fn new() -> (m: Self)
        ensures
            m@ == Seq::<((i32, i32, i32), u64)>::empty(),
            m.wf(),
    {
        WorldManager { worlds: Vec::new() }
    }

    fn find(&self, world_pos: (i32, i32, i32)) -> (r: Option<usize>)
        requires
            self.wf(),
        ensures
            match r {
                Some(i) => i < self@.len() && self@[i as int].0 == world_pos && id_at(
                    self@,
                    world_pos,
                ) == Some(self@[i as int].1),
                None => id_at(self@, world_pos) is None,
            },
    {
        let n = self.worlds.len();
        let mut i: usize = 0;
        while i < n
            invariant
                i <= n,
                n == self.worlds@.len(),
                self.wf(),
                forall|k: int| 0 <= k < i ==> (#[trigger] self.worlds@[k]).0 != world_pos,
            decreases n - i,
        {
            let place = self.worlds[i].0;
            if place.0 == world_pos.0 && place.1 == world_pos.1 && place.2 == world_pos.2 {
                return Some(i);
            }
            i += 1;
        }
        None
    }

    /// The world at `world_pos`. Where the position has none yet, one is created
    /// in `registry`; `None` where the registry can create no more.
    pub fn get_or_create_world(&mut self, registry: &mut WorldRegistry, world_pos: (i32, i32, i32)) -> (id:
        Option<u64>)
        requires
            old(self).wf(),
            old(registry).wf(),
        ensures
            match id_at(old(self)@, world_pos) {
                Some(known) => id == Some(known) && final(self)@ == old(self)@ && final(registry)@
                    == old(registry)@ && final(registry).next_id() == old(registry).next_id(),
                None => {
                    &&& final(registry).created_from(old(registry), id, world_pos)
                    &&& final(self)@ == match id {
                        Some(created) => old(self)@.push((world_pos, created)),
                        None => old(self)@,
                    }
                },
            },
            id_at(final(self)@, world_pos) == id,
            final(self).wf(),
            final(registry).wf(),
    {
        match self.find(world_pos) {
            Some(i) => Some(self.worlds[i].1),
            None => {
                match registry.create_world_at(world_pos) {
                    Some(id) => {
                        let ghost before = self.worlds@;
                        self.worlds.push((world_pos, id));
                        proof {
                            lemma_place_found(self.worlds@, before.len() as int);
                        }
                        Some(id)
                    },
                    None => None,
                }
            },
        }
    }

    /// The world at `world_pos`, if the position has one.
    pub fn get_world_id(&self, world_pos: &(i32, i32, i32)) -> (id: Option<u64>)
        requires
            self.wf(),
        ensures
            id == id_at(self@, *world_pos),
    {
        match self.find(*world_pos) {
            Some(i) => Some(self.worlds[i].1),
            None => None,
        }
    }

    /// The world at `world_pos`, if the position has one.
    pub fn get_world_id_for_pos(&self, world_pos: &(i32, i32, i32)) -> (id: Option<u64>)
        requires
            self.wf(),
        ensures
            id == id_at(self@, *world_pos),
    {
        self.get_world_id(world_pos)
    }

    /// Gives up the position `world_pos` and destroys its world in `registry`.
    /// Returns whether a world was destroyed.
    pub fn remove_world(&mut self, registry: &mut WorldRegistry, world_pos: (i32, i32, i32)) -> (removed:
        bool)
        requires
            old(self).wf(),
            old(registry).wf(),
        ensures
            match id_at(old(self)@, world_pos) {
                Some(known) => {
                    &&& removed == slot_of(old(registry)@, known) is Some
                    &&& slot_of(final(registry)@, known) is None
                    &&& match slot_of(old(registry)@, known) {
                        Some(i) => final(registry)@ == old(registry)@.remove(i),
                        None => final(registry)@ == old(registry)@,
                    }
                },
                None => !removed && final(registry)@ == old(registry)@ && final(self)@ == old(
                    self,
                )@,
            },
            id_at(final(self)@, world_pos) is None,
            final(registry).next_id() == old(registry).next_id(),
            final(self).wf(),
            final(registry).wf(),
    {
        match self.find(world_pos) {
            Some(i) => {
                let id = self.worlds[i].1;
                self.worlds.remove(i);
                registry.destroy_world(id)
            },
            None => false,
        }
    }
}

} // verus!
