//! Schema-driven type generator core.
//!
//! Given a versioned binary description of a remote system's data types
//! (a metadata envelope), this crate resolves where the metadata comes
//! from, decodes the envelope into a versioned type registry, configures
//! type-substitution and derive registries, compiles the registry into a
//! set of local type definitions, and assembles those definitions into a
//! caller-named namespace together with a fixed set of compatibility
//! shim re-exports.

pub mod assemble;
pub mod codec;
pub mod compile;
pub mod derives;
pub mod envelope;
pub mod generate;
pub mod paths;
pub mod registry;
pub mod source;
pub mod substitute;
