//! The service specification subsystem of a service supervisor: the
//! persisted, versioned description of which service, at what version, with
//! what topology, update policy and bindings, should run.
//!
//! The library covers the spec data model with its two on-disk schema
//! generations and the upgrade path between them, the textual grammar for
//! inter-service bindings, the resolver that merges a composite's declared
//! bind mappings with caller overrides into each member's binding set, and
//! the validator that checks a spec's bindings against a package's
//! required/optional bind contract. Reading and writing spec files, and
//! scanning a directory for them, are left to the thin I/O layer around the
//! library.

/// The binding grammar: one named link from a service to a service group.
pub mod bind;
/// The topology, update strategy, binding mode and desired state words.
pub mod choices;
/// Standalone and composite specs.
pub mod composite;
/// The closed set of failures.
pub mod error;
/// Package identities.
pub mod ident;
/// The superseded on-disk schema and its upgrade.
pub mod legacy;
/// Load requests, bind-mapping tables and the composite bind resolver.
pub mod load;
/// The service group grammar.
pub mod service_group;
/// The current on-disk schema: reading, writing, defaults and naming.
pub mod spec;
/// Verified splitting and joining of strings.
pub mod strutil;
/// The document codec boundary: tables of plain values.
pub mod toml_codec;
/// The bind contract validator.
pub mod validate;
