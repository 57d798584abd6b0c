//! Data-driven manifests: canonical definitions of game entities, loaded from
//! a serialized source, converted into a read-only lookup table keyed by
//! stable identifiers, and gated behind a readiness state machine.
pub mod identifier;
pub mod table;
pub mod item;
pub mod loading;
pub mod manifest;
pub mod recipe;
