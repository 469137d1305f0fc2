//! What the host has yet to be told about the energy of the modules.
//!
//! Changes are kept per world and per module position. A later change of the
//! same position takes the place of the earlier one, so that a batch never
//! holds more than the latest value of a module. A world's batch is offered to
//! the host only once enough ticks have passed since the last one was taken.

use crate::store::{ChangeObserver, Module, Store};
use vstd::prelude::*;

verus! {

/// The least number of ticks between two batches of one world.
pub const SYNC_INTERVAL_TICKS: u64 = 5;

/// The number of modules that the host takes in one batch.
pub const MAX_SYNC_BATCH_SIZE: usize = 64;

/// The energy of the module at one position, as the host is to see it.
#[derive(Clone, Copy, Debug, PartialEq, Eq)]
pub struct EnergySync {
    pub position: (i32, i32, i32),
    pub energy: i32,
    pub max_energy: i32,
    pub changed: bool,
}

/// Marks a module whose energy the host has yet to be told.
#[derive(Clone, Copy, Debug, PartialEq, Eq)]
pub struct EnergyDirty {
    pub world_pos: (i32, i32, i32),
    pub module_pos: (i32, i32, i32),
}

/// The pending changes of one world.
#[derive(Debug)]
pub struct WorldSyncData {
    pub world_pos: (i32, i32, i32),
    pub energy_updates: Vec<EnergySync>,
    pub dirty: bool,
    pub last_sync_tick: u64,
}

/// The pending changes of one world, as a value.
pub struct WorldSyncView {
    pub world_pos: (i32, i32, i32),
    pub energy_updates: Seq<EnergySync>,
    pub dirty: bool,
    pub last_sync_tick: u64,
}

/// The records of `updates` that are not about `position`, in their order.
pub open spec fn without_position(updates: Seq<EnergySync>, position: (i32, i32, i32)) -> Seq<
    EnergySync,
>
    decreases updates.len(),
{
    if updates.len() == 0 {
        Seq::empty()
    } else {
        let before = without_position(updates.drop_last(), position);
        if updates.last().position != position {
            before.push(updates.last())
        } else {
            before
        }
    }
}

/// The pending records once `sync` has come in: it stands last, and any earlier
/// record of its position is gone.
pub open spec fn coalesced(updates: Seq<EnergySync>, sync: EnergySync) -> Seq<EnergySync> {
    without_position(updates, sync.position).push(sync)
}

/// No position has two records.
pub open spec fn positions_distinct(updates: Seq<EnergySync>) -> bool {
    forall|i: int, j: int|
        0 <= i < j < updates.len() ==> (#[trigger] updates[i]).position
            != (#[trigger] updates[j]).position
}

impl WorldSyncView {
    /// Pending changes with one record per position.
    pub open spec fn wf(self) -> bool {
        positions_distinct(self.energy_updates)
    }

    /// The state after `sync` has come in.
    pub open spec fn with_update(self, sync: EnergySync) -> WorldSyncView {
        WorldSyncView {
            energy_updates: coalesced(self.energy_updates, sync),
            dirty: true,
            ..self
        }
    }

    /// The state after the batch was taken at `tick`.
    pub open spec fn cleared(self, tick: u64) -> WorldSyncView {
        WorldSyncView {
            energy_updates: Seq::empty(),
            dirty: false,
            last_sync_tick: tick,
            ..self
        }
    }

    /// Whether a batch is due at `tick`: there is news, and the interval since
    /// the last batch has passed.
    pub open spec fn due(self, tick: u64) -> bool {
        self.dirty && tick - self.last_sync_tick >= SYNC_INTERVAL_TICKS
    }

    /// The state of a world that has just been registered.
    pub open spec fn fresh(world_pos: (i32, i32, i32)) -> WorldSyncView {
        WorldSyncView { world_pos, energy_updates: Seq::empty(), dirty: false, last_sync_tick: 0 }
    }
}

impl View for WorldSyncData {
    type V = WorldSyncView;

    open spec fn view(&self) -> WorldSyncView {
        WorldSyncView {
            world_pos: self.world_pos,
            energy_updates: self.energy_updates@,
            dirty: self.dirty,
            last_sync_tick: self.last_sync_tick,
        }
    }
}

fn same_position(a: (i32, i32, i32), b: (i32, i32, i32)) -> (r: bool)
    ensures
        r == (a == b),
{
    a.0 == b.0 && a.1 == b.1 && a.2 == b.2
}

proof fn lemma_without_position_members(updates: Seq<EnergySync>, position: (i32, i32, i32))
    ensures
        without_position(updates, position).len() <= updates.len(),
        forall|k: int|
            0 <= k < without_position(updates, position).len() ==> {
                let kept = #[trigger] without_position(updates, position)[k];
                kept.position != position && updates.contains(kept)
            },
        positions_distinct(updates) ==> positions_distinct(without_position(updates, position)),
        forall|k: int|
            0 <= k < updates.len() && (#[trigger] updates[k]).position != position
                ==> without_position(updates, position).contains(updates[k]),
    decreases updates.len(),
{
    if updates.len() > 0 {
        let head = updates.drop_last();
        lemma_without_position_members(head, position);
        let kept_head = without_position(head, position);
        let kept = without_position(updates, position);
        assert forall|k: int|
            0 <= k < updates.len() && (#[trigger] updates[k]).position
                != position implies kept.contains(updates[k]) by {
            if k < head.len() {
                assert(head[k] == updates[k]);
                let w = choose|w: int| 0 <= w < kept_head.len() && kept_head[w] == updates[k];
                assert(kept[w] == updates[k]);
            } else {
                assert(kept[kept.len() - 1] == updates[k]);
            }
        }
    }
}

/// Latest wins: after `sync` has come in, it is the one record of its position,
/// it stands last, every position still has at most one record, and the records
/// of the other positions are those that were there before.
pub proof fn lemma_coalesced_latest_wins(updates: Seq<EnergySync>, sync: EnergySync)
    requires
        positions_distinct(updates),
    ensures
        positions_distinct(coalesced(updates, sync)),
        coalesced(updates, sync).last() == sync,
        coalesced(updates, sync).len() <= updates.len() + 1,
        forall|k: int|
            0 <= k < coalesced(updates, sync).len() && (#[trigger] coalesced(
                updates,
                sync,
            )[k]).position == sync.position ==> coalesced(updates, sync)[k] == sync,
        forall|k: int|
            0 <= k < updates.len() && (#[trigger] updates[k]).position != sync.position
                ==> coalesced(updates, sync).contains(updates[k]),
        forall|k: int|
            0 <= k < coalesced(updates, sync).len() - 1 ==> updates.contains(
                #[trigger] coalesced(updates, sync)[k],
            ),
{
    lemma_without_position_members(updates, sync.position);
    let kept = without_position(updates, sync.position);
    let after = coalesced(updates, sync);
    assert forall|k: int|
        0 <= k < updates.len() && (#[trigger] updates[k]).position
            != sync.position implies after.contains(updates[k]) by {
        let w = choose|w: int| 0 <= w < kept.len() && kept[w] == updates[k];
        assert(after[w] == updates[k]);
    }
}

impl WorldSyncData {
    /// The invariant: one record per position.
    pub open spec fn wf(&self) -> bool {
        self@.wf()
    }

    /// A world without news.
    pub fn new(world_pos: (i32, i32, i32)) -> (w: Self)
        ensures
            w@ == WorldSyncView::fresh(world_pos),
            w.wf(),
    {
        WorldSyncData { world_pos, energy_updates: Vec::new(), dirty: false, last_sync_tick: 0 }
    }

    /// Takes in a change: it replaces the pending record of the same position,
    /// if there is one, and the world has news.
    pub fn add_energy_update(&mut self, sync: EnergySync)
        requires
            old(self).wf(),
        ensures
            final(self)@ == old(self)@.with_update(sync),
            final(self).wf(),
    {
        let n = self.energy_updates.len();
        let mut kept: Vec<EnergySync> = Vec::new();
        let mut i: usize = 0;
        while i < n
            invariant
                i <= n,
                n == self.energy_updates@.len(),
                kept@ == without_position(self.energy_updates@.take(i as int), sync.position),
            decreases n - i,
        {
            proof {
                let upto = self.energy_updates@.take(i as int + 1);
                assert(upto.drop_last() =~= self.energy_updates@.take(i as int));
            }
            let entry = self.energy_updates[i];
            if !same_position(entry.position, sync.position) {
                kept.push(entry);
            }
            i += 1;
        }
        proof {
            assert(self.energy_updates@.take(n as int) =~= self.energy_updates@);
            lemma_coalesced_latest_wins(self.energy_updates@, sync);
        }
        kept.push(sync);
        self.energy_updates = kept;
        self.dirty = true;
    }

    /// Forgets the pending records and notes that the batch was taken at
    /// `current_tick`.
    pub fn clear_updates(&mut self, current_tick: u64)
        ensures
            final(self)@ == old(self)@.cleared(current_tick),
            final(self).wf(),
    {
        self.energy_updates.clear();
        self.dirty = false;
        self.last_sync_tick = current_tick;
    }

    /// Whether a batch is due at `current_tick`.
    pub fn should_sync(&self, current_tick: u64) -> (r: bool)
        ensures
            r == self@.due(current_tick),
    {
        self.dirty && current_tick >= self.last_sync_tick && current_tick - self.last_sync_tick
            >= SYNC_INTERVAL_TICKS
    }

    /// Hands out the pending records, in the order in which their latest values
    /// came in, and leaves the world without news, the batch taken at
    /// `current_tick`.
    pub fn drain(&mut self, current_tick: u64) -> (batch: Vec<EnergySync>)
        ensures
            batch@ == old(self)@.energy_updates,
            final(self)@ == old(self)@.cleared(current_tick),
            final(self).wf(),
    {
        let mut batch: Vec<EnergySync> = Vec::new();
        batch.append(&mut self.energy_updates);
        self.dirty = false;
        self.last_sync_tick = current_tick;
        batch
    }
}

/// Draining twice with nothing in between: the second batch is empty.
pub proof fn lemma_second_drain_is_empty(world: WorldSyncView, first_tick: u64, second_tick: u64)
    ensures
        world.cleared(first_tick).energy_updates == Seq::<EnergySync>::empty(),
        !world.cleared(first_tick).dirty,
        !world.cleared(first_tick).due(second_tick),
        world.cleared(first_tick).cleared(second_tick).energy_updates == Seq::<
            EnergySync,
        >::empty(),
{
}

/// However many changes came in, a world whose batch was taken is not due again
/// before the interval has passed.
pub proof fn lemma_not_due_within_interval(
    world: WorldSyncView,
    taken_at: u64,
    sync: EnergySync,
    tick: u64,
)
    requires
        tick - taken_at < SYNC_INTERVAL_TICKS,
    ensures
        !world.cleared(taken_at).with_update(sync).due(tick),
{
}

/// Where the world at `world_pos` stands among `worlds`, if it is registered.
pub open spec fn world_index(worlds: Seq<WorldSyncView>, world_pos: (i32, i32, i32)) -> Option<
    int,
> {
    if exists|i: int| 0 <= i < worlds.len() && (#[trigger] worlds[i]).world_pos == world_pos {
        Some(choose|i: int| 0 <= i < worlds.len() && (#[trigger] worlds[i]).world_pos == world_pos)
    } else {
        None
    }
}

/// Every world is registered once, and holds one record per position.
pub open spec fn worlds_wf(worlds: Seq<WorldSyncView>) -> bool {
    &&& forall|i: int, j: int|
        0 <= i < j < worlds.len() ==> (#[trigger] worlds[i]).world_pos
            != (#[trigger] worlds[j]).world_pos
    &&& forall|i: int| 0 <= i < worlds.len() ==> (#[trigger] worlds[i]).wf()
}

/// The worlds once the world at `world_pos` is registered.
pub open spec fn registered(worlds: Seq<WorldSyncView>, world_pos: (i32, i32, i32)) -> Seq<
    WorldSyncView,
> {
    if world_index(worlds, world_pos) is Some {
        worlds
    } else {
        worlds.push(WorldSyncView::fresh(world_pos))
    }
}

/// The worlds once `sync` has come in for the world at `world_pos`. A change for
/// a world that is not registered is dropped.
pub open spec fn marked(
    worlds: Seq<WorldSyncView>,
    world_pos: (i32, i32, i32),
    sync: EnergySync,
) -> Seq<WorldSyncView> {
    match world_index(worlds, world_pos) {
        Some(i) => worlds.update(i, worlds[i].with_update(sync)),
        None => worlds,
    }
}

/// The worlds once the batch of the world at `world_pos` was taken at `tick`.
pub open spec fn flushed(worlds: Seq<WorldSyncView>, world_pos: (i32, i32, i32), tick: u64) -> Seq<
    WorldSyncView,
> {
    match world_index(worlds, world_pos) {
        Some(i) => worlds.update(i, worlds[i].cleared(tick)),
        None => worlds,
    }
}

/// The pending records of the world at `world_pos`: none where it is not registered.
pub open spec fn pending_of(worlds: Seq<WorldSyncView>, world_pos: (i32, i32, i32)) -> Seq<
    EnergySync,
> {
    match world_index(worlds, world_pos) {
        Some(i) => worlds[i].energy_updates,
        None => Seq::empty(),
    }
}

/// Whether a batch of the world at `world_pos` is due at `tick`.
pub open spec fn due_at(worlds: Seq<WorldSyncView>, world_pos: (i32, i32, i32), tick: u64) -> bool {
    match world_index(worlds, world_pos) {
        Some(i) => worlds[i].due(tick),
        None => false,
    }
}

/// The positions of the worlds whose batch is due at `tick`, in the order in
/// which the worlds were registered.
pub open spec fn due_positions(worlds: Seq<WorldSyncView>, tick: u64) -> Seq<(i32, i32, i32)>
    decreases worlds.len(),
{
    if worlds.len() == 0 {
        Seq::empty()
    } else {
        let before = due_positions(worlds.drop_last(), tick);
        if worlds.last().due(tick) {
            before.push(worlds.last().world_pos)
        } else {
            before
        }
    }
}

/// The positions of the worlds whose batch is due at `tick` and holds a record.
pub open spec fn ready_positions(worlds: Seq<WorldSyncView>, tick: u64) -> Seq<(i32, i32, i32)>
    decreases worlds.len(),
{
    if worlds.len() == 0 {
        Seq::empty()
    } else {
        let before = ready_positions(worlds.drop_last(), tick);
        if worlds.last().due(tick) && worlds.last().energy_updates.len() > 0 {
            before.push(worlds.last().world_pos)
        } else {
            before
        }
    }
}

/// A tick counter after one more tick: it stops at its largest value.
pub open spec fn next_tick(tick: u64) -> u64 {
    if tick < u64::MAX {
        (tick + 1) as u64
    } else {
        tick
    }
}

proof fn lemma_world_index_found(worlds: Seq<WorldSyncView>, i: int)
    requires
        worlds_wf(worlds),
        0 <= i < worlds.len(),
    ensures
        world_index(worlds, worlds[i].world_pos) == Some(i),
{
}

/// The pending changes of the worlds that are registered for synchronisation,
/// and the tick that they are measured against.
pub struct EnergySyncManager {
    worlds: Vec<WorldSyncData>,
    current_tick: u64,
}

impl View for EnergySyncManager {
    type V = Seq<WorldSyncView>;

    /// The registered worlds, in the order in which they were registered.
    closed spec fn view(&self) -> Seq<WorldSyncView> {
        Seq::new(self.worlds@.len(), |i: int| self.worlds@[i]@)
    }
}

impl EnergySyncManager {
    /// The tick that batches are measured against.
    pub closed spec fn current_tick(&self) -> u64 {
        self.current_tick
    }

    /// The invariant of the manager.
    pub open spec fn wf(&self) -> bool {
        worlds_wf(self@)
    }

    /// A manager without worlds, at tick zero.
    pub fn new() -> (m: Self)
        ensures
            m@ == Seq::<WorldSyncView>::empty(),
            m.current_tick() == 0,
            m.wf(),
    {
        let m = EnergySyncManager { worlds: Vec::new(), current_tick: 0 };
        m
    }

    fn find(&self, world_pos: (i32, i32, i32)) -> (r: Option<usize>)
        requires
            self.wf(),
        ensures
            match r {
                Some(i) => world_index(self@, world_pos) == Some(i as int) && i
                    < self.worlds@.len() && self.worlds@[i as int].world_pos == world_pos,
                None => world_index(self@, world_pos) is None,
            },
    {
        let n = self.worlds.len();
        let mut i: usize = 0;
        while i < n
            invariant
                i <= n,
                n == self.worlds@.len(),
                self.wf(),
                forall|k: int| 0 <= k < i ==> (#[trigger] self@[k]).world_pos != world_pos,
            decreases n - i,
        {
            if same_position(self.worlds[i].world_pos, world_pos) {
                proof {
                    lemma_world_index_found(self@, i as int);
                }
                return Some(i);
            }
            i += 1;
        }
        None
    }

    /// Registers the world at `world_pos`, unless it is registered already.
    pub fn register_world(&mut self, world_pos: (i32, i32, i32))
        requires
            old(self).wf(),
        ensures
            final(self)@ == registered(old(self)@, world_pos),
            final(self).current_tick() == old(self).current_tick(),
            final(self).wf(),
    {
        if self.find(world_pos).is_none() {
            let ghost before = self@;
            self.worlds.push(WorldSyncData::new(world_pos));
            proof {
                assert forall|i: int| 0 <= i < self@.len() implies (#[trigger] self@[i]).wf() by {
                    if i < before.len() {
                        assert(before[i].wf());
                    }
                }
            }
        }
    }

    /// Takes in the energy of the module at `module_pos` of the world at
    /// `world_pos`. It replaces what was pending for that module. Nothing
    /// happens where the world is not registered.
    pub fn mark_energy_changed(
        &mut self,
        world_pos: (i32, i32, i32),
        module_pos: (i32, i32, i32),
        energy: i32,
        max_energy: i32,
    )
        requires
            old(self).wf(),
        ensures
            final(self)@ == marked(
                old(self)@,
                world_pos,
                EnergySync { position: module_pos, energy, max_energy, changed: true },
            ),
            final(self).current_tick() == old(self).current_tick(),
            final(self).wf(),
    {
        match self.find(world_pos) {
            Some(i) => {
                let ghost before = self@;
                let sync = EnergySync { position: module_pos, energy, max_energy, changed: true };
                let world = &mut self.worlds[i];
                world.add_energy_update(sync);
                proof {
                    assert(self@ =~= before.update(i as int, before[i as int].with_update(sync)));
                }
            },
            None => {},
        }
    }

    /// Counts one more tick.
    pub fn advance_tick(&mut self)
        ensures
            final(self)@ == old(self)@,
            final(self).current_tick() == next_tick(old(self).current_tick()),
    {
        if self.current_tick < u64::MAX {
            self.current_tick = self.current_tick + 1;
        }
    }

    /// Counts one more tick and returns the positions of the worlds whose batch
    /// is due at it.
    pub fn get_pending_syncs(&mut self) -> (due: Vec<(i32, i32, i32)>)
        ensures
            final(self)@ == old(self)@,
            final(self).current_tick() == next_tick(old(self).current_tick()),
            due@ == due_positions(final(self)@, final(self).current_tick()),
    {
        self.advance_tick();
        let n = self.worlds.len();
        let mut due: Vec<(i32, i32, i32)> = Vec::new();
        let mut i: usize = 0;
        while i < n
            invariant
                i <= n,
                n == self.worlds@.len(),
                due@ == due_positions(self@.take(i as int), self.current_tick),
            decreases n - i,
        {
            proof {
                let upto = self@.take(i as int + 1);
                assert(upto.drop_last() =~= self@.take(i as int));
            }
            if self.worlds[i].should_sync(self.current_tick) {
                due.push(self.worlds[i].world_pos);
            }
            i += 1;
        }
        assert(self@.take(n as int) =~= self@);
        due
    }

    /// The pending changes of the world at `world_pos`, if it is registered.
    pub fn get_world_sync_data(&self, world_pos: (i32, i32, i32)) -> (r: Option<&WorldSyncData>)
        requires
            self.wf(),
        ensures
            match r {
                Some(w) => world_index(self@, world_pos) matches Some(i) && w@ == self@[i],
                None => world_index(self@, world_pos) is None,
            },
    {
        match self.find(world_pos) {
            Some(i) => Some(&self.worlds[i]),
            None => None,
        }
    }

    /// Forgets what is pending for the world at `world_pos` and notes that its
    /// batch was taken at the current tick.
    pub fn clear_world_updates(&mut self, world_pos: (i32, i32, i32))
        requires
            old(self).wf(),
        ensures
            final(self)@ == flushed(old(self)@, world_pos, old(self).current_tick()),
            final(self).current_tick() == old(self).current_tick(),
            final(self).wf(),
    {
        match self.find(world_pos) {
            Some(i) => {
                let ghost before = self@;
                let tick = self.current_tick;
                let world = &mut self.worlds[i];
                world.clear_updates(tick);
                proof {
                    assert(self@ =~= before.update(i as int, before[i as int].cleared(tick)));
                }
            },
            None => {},
        }
    }

    /// Whether a batch of the world at `world_pos` is due: the world has news,
    /// and the interval since its last batch has passed.
    pub fn should_flush(&self, world_pos: (i32, i32, i32)) -> (r: bool)
        requires
            self.wf(),
        ensures
            r == due_at(self@, world_pos, self.current_tick()),
    {
        match self.find(world_pos) {
            Some(i) => self.worlds[i].should_sync(self.current_tick),
            None => false,
        }
    }

    /// Hands out what is pending for the world at `world_pos`, one record per
    /// module, and leaves the world without news, its batch taken at the current
    /// tick. A world that is not registered has nothing pending.
    pub fn drain_world(&mut self, world_pos: (i32, i32, i32)) -> (batch: Vec<EnergySync>)
        requires
            old(self).wf(),
        ensures
            batch@ == pending_of(old(self)@, world_pos),
            final(self)@ == flushed(old(self)@, world_pos, old(self).current_tick()),
            pending_of(final(self)@, world_pos) == Seq::<EnergySync>::empty(),
            !due_at(final(self)@, world_pos, final(self).current_tick()),
            final(self).current_tick() == old(self).current_tick(),
            final(self).wf(),
    {
        match self.find(world_pos) {
            Some(i) => {
                let ghost before = self@;
                let tick = self.current_tick;
                let world = &mut self.worlds[i];
                let batch = world.drain(tick);
                proof {
                    assert(self@ =~= before.update(i as int, before[i as int].cleared(tick)));
                }
                batch
            },
            None => Vec::new(),
        }
    }
}

/// A world that has just been registered alone has nothing pending.
pub proof fn lemma_fresh_world_has_nothing_pending(world_pos: (i32, i32, i32))
    ensures
        pending_of(seq![WorldSyncView::fresh(world_pos)], world_pos) == Seq::<EnergySync>::empty(),
        worlds_wf(seq![WorldSyncView::fresh(world_pos)]),
{
}

/// Draining a world twice with nothing in between: the second batch is empty.
pub proof fn lemma_second_drain_of_world_is_empty(
    worlds: Seq<WorldSyncView>,
    world_pos: (i32, i32, i32),
    tick: u64,
)
    requires
        worlds_wf(worlds),
    ensures
        pending_of(flushed(worlds, world_pos, tick), world_pos) == Seq::<EnergySync>::empty(),
{
    match world_index(worlds, world_pos) {
        Some(i) => {
        },
        None => {},
    }
}

/// What the host is told about a module that holds energy.
pub open spec fn sync_of(module: Module) -> EnergySync {
    EnergySync {
        position: (module.position.x, module.position.y, module.position.z),
        energy: module.energy.unwrap().current,
        max_energy: module.energy.unwrap().max_capacity,
        changed: true,
    }
}

/// The worlds once the changes of `modules` that are new to an observer who has
/// seen everything before `seen` have come in for the world at `world_pos`, in
/// the order of the store.
pub open spec fn detected(
    worlds: Seq<WorldSyncView>,
    world_pos: (i32, i32, i32),
    modules: Seq<Module>,
    seen: u64,
) -> Seq<WorldSyncView>
    decreases modules.len(),
{
    if modules.len() == 0 {
        worlds
    } else {
        let before = detected(worlds, world_pos, modules.drop_last(), seen);
        let module = modules.last();
        if module.energy is Some && module.energy_stamp >= seen {
            marked(before, world_pos, sync_of(module))
        } else {
            before
        }
    }
}

/// Takes in, for the world at `world_pos`, the energy of every module that was
/// stamped at `seen` or later, in the order of the store.
pub fn mark_changed_since(
    sync_manager: &mut EnergySyncManager,
    store: &Store,
    world_pos: (i32, i32, i32),
    seen: u64,
)
    requires
        old(sync_manager).wf(),
    ensures
        final(sync_manager)@ == detected(old(sync_manager)@, world_pos, store@, seen),
        final(sync_manager).current_tick() == old(sync_manager).current_tick(),
        final(sync_manager).wf(),
{
    let n = store.len();
    let ghost worlds_before = sync_manager@;
    let mut i: usize = 0;
    while i < n
        invariant
            i <= n,
            n == store@.len(),
            sync_manager.wf(),
            sync_manager.current_tick() == old(sync_manager).current_tick(),
            sync_manager@ == detected(worlds_before, world_pos, store@.take(i as int), seen),
        decreases n - i,
    {
        proof {
            let upto = store@.take(i as int + 1);
            assert(upto.drop_last() =~= store@.take(i as int));
        }
        let module = store.module_at(i);
        match module.energy {
            Some(energy) => {
                if module.energy_stamp >= seen {
                    sync_manager.mark_energy_changed(
                        world_pos,
                        (module.position.x, module.position.y, module.position.z),
                        energy.current,
                        energy.max_capacity,
                    );
                }
            },
            None => {},
        }
        i += 1;
    }
    assert(store@.take(n as int) =~= store@);
}

/// The pass of detection: the energy of every module that changed since
/// `observer` last looked comes in for the world at `world_pos`. The observer
/// has then seen every change made so far.
pub fn energy_sync_detection_system(
    sync_manager: &mut EnergySyncManager,
    store: &mut Store,
    observer: &mut ChangeObserver,
    world_pos: (i32, i32, i32),
)
    requires
        old(sync_manager).wf(),
        old(store).wf(),
    ensures
        final(sync_manager)@ == detected(
            old(sync_manager)@,
            world_pos,
            old(store)@,
            old(observer).seen,
        ),
        final(sync_manager).current_tick() == old(sync_manager).current_tick(),
        final(sync_manager).wf(),
        final(store)@ == old(store)@,
        final(store).clock() == crate::store::next_clock(old(store).clock()),
        final(observer).seen == final(store).clock(),
        final(store).wf(),
{
    mark_changed_since(sync_manager, store, world_pos, observer.seen);
    store.observe(observer);
}

/// The pass of batching: counts one more tick and returns the positions of the
/// worlds whose batch is due at it and holds at least one record.
pub fn energy_sync_batch_system(sync_manager: &mut EnergySyncManager) -> (ready: Vec<
    (i32, i32, i32),
>)
    requires
        old(sync_manager).wf(),
    ensures
        final(sync_manager)@ == old(sync_manager)@,
        final(sync_manager).current_tick() == next_tick(old(sync_manager).current_tick()),
        ready@ == ready_positions(final(sync_manager)@, final(sync_manager).current_tick()),
        final(sync_manager).wf(),
{
    sync_manager.advance_tick();
    let n = sync_manager.worlds.len();
    let mut ready: Vec<(i32, i32, i32)> = Vec::new();
    let mut i: usize = 0;
    while i < n
        invariant
            i <= n,
            n == sync_manager.worlds@.len(),
            ready@ == ready_positions(sync_manager@.take(i as int), sync_manager.current_tick),
        decreases n - i,
    {
        proof {
            let upto = sync_manager@.take(i as int + 1);
            assert(upto.drop_last() =~= sync_manager@.take(i as int));
        }
        let world = &sync_manager.worlds[i];
        if world.should_sync(sync_manager.current_tick) && world.energy_updates.len() > 0 {
            ready.push(world.world_pos);
        }
        i += 1;
    }
    assert(sync_manager@.take(n as int) =~= sync_manager@);
    ready
}

} // verus!
