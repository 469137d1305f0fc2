//! Energy, processing and synchronisation engine for modules placed on a small
//! three-dimensional grid, one isolated world per grid.
//!
//! A host drives each world tick by tick and reads or sets single modules in
//! between. Every fourth tick is a simulation step: generators produce,
//! consumers use up, adjacent modules hand energy to each other, processors
//! advance, and whatever changed is kept, one record per module, until the host
//! takes it.
//!
//! - [`components`]: what a module carries, with the ranges that every pass keeps.
//! - [`store`]: the modules of one world, in the order in which they were spawned.
//! - [`systems`]: the passes of a step, each stated over the records of the store.
//! - [`world`]: one world and its tick.
//! - [`world_manager`]: the registry of worlds and the operations of the host.
//! - [`entities`] and [`host`]: what is left to `bevy_ecs` and to `jni`.

pub mod components;
pub mod entities;
pub mod events;
pub mod host;
pub mod resources;
pub mod store;
pub mod systems;
mod text;
pub mod world;
pub mod world_manager;
