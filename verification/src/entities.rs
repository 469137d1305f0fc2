//! Allocation of entity identifiers, which is left to `bevy_ecs`.
//!
//! An identifier is the 64-bit form of a `bevy_ecs` entity: its index together
//! with the generation of that index, so that an identifier handed out again
//! after a despawn differs from the one that went before.

use bevy_ecs::entity::Entity;
use bevy_ecs::world::World;
use vstd::prelude::*;

verus! {

/// `bevy_ecs::world::World`, held for its entity allocator. Nothing inside it is
/// visible to the proofs.
#[verifier::external_type_specification]
#[verifier::external_body]
pub struct ExWorld(World);

/// The identifiers (`Entity::to_bits`) of the entities that are alive in `world`.
pub uninterp spec fn live_entities(world: World) -> Set<u64>;

/// `World::new`: a world without entities. (It panics only once a process has
/// created `usize::MAX` worlds.)
#[verifier::external_body]
pub(crate) fn new_entity_world() -> (world: World)
    ensures
        live_entities(world) == Set::<u64>::empty(),
{
    World::new()
}

/// The number of entities that one world can hold alive at a time: the
/// allocator counts them in 32 bits.
pub const MAX_ENTITIES: usize = 0xFFFF_FFFF;

/// `World::spawn_empty`, then `EntityWorldMut::id` and `Entity::to_bits`: one more
/// entity is alive, and its identifier was not alive before. Every other entity
/// stays as it was. The allocator panics once it would need an index beyond 32
/// bits, which it does only while that many entities are alive.
#[verifier::external_body]
pub(crate) fn allocate_entity(world: &mut World) -> (id: u64)
    requires
        live_entities(*old(world)).finite(),
        live_entities(*old(world)).len() < MAX_ENTITIES,
    ensures
        !live_entities(*old(world)).contains(id),
        live_entities(*final(world)) == live_entities(*old(world)).insert(id),
{
    world.spawn_empty().id().to_bits()
}

/// `Entity::try_from_bits`, then `World::despawn`: returns whether `id` was alive,
/// and it is not alive afterwards. Bits that are no entity's are never alive.
#[verifier::external_body]
pub(crate) fn release_entity(world: &mut World, id: u64) -> (was_alive: bool)
    ensures
        was_alive == live_entities(*old(world)).contains(id),
        live_entities(*final(world)) == live_entities(*old(world)).remove(id),
{
    match Entity::try_from_bits(id) {
        Ok(entity) => world.despawn(entity),
        Err(_) => false,
    }
}

} // verus!
