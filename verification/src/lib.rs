//! A verified entity-component simulation core.
//!
//! The library keeps a mutable world of generation-counted entities with
//! typed component records, answers queries over the entities that carry a
//! requested set of component types, records structural mutations in a
//! command buffer that is applied atomically at a flush point, and runs an
//! ordered schedule of per-tick systems over the world.

pub mod command;
pub mod components;
pub mod entity;
pub mod host;
pub mod laws;
pub mod schedule;
pub mod world;
