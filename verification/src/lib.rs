//! Structural differencing for tests: compare two values of the same shape and
//! get back a minimal, deterministic description of what changed.
//!
//! The [`types::Comparable`] trait carries the two operations, `describe` and
//! `comparison`, together with hand-written instances for scalars, strings,
//! sequences, sets, maps and optional values.  The schema modules model the
//! shape of a composite type (its fields, variants and directives) and derive
//! from it the mirror type definitions and the comparison algorithm itself.

pub mod boxes;
pub mod compare;
pub mod definition;
pub mod empty;
pub mod enums;
pub mod generic_enum;
pub mod laws;
pub mod map;
pub mod opt;
pub mod outputs;
pub mod scalar;
pub mod schema;
pub mod set;
pub mod string;
pub mod structs;
pub mod tuple;
pub mod types;
pub mod utils;
