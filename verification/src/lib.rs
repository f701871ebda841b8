//! Introspection layer over a decoded game-replay stream.
//!
//! The replay parser (an external collaborator) decodes the stream and owns,
//! tick by tick, the live entities, the baseline entities and the string
//! tables, every entity's fields encoded against a self-describing schema.
//! This crate is the part worth stating precisely: translating a compact
//! numeric field path into a named path and a declared type, and packaging
//! per-entity and per-table state into stable, independent snapshots.

pub mod decimal;
pub mod entity;
pub mod facade;
pub mod fieldvalue;
pub mod handle;
pub mod schema;
pub mod stringtable;
