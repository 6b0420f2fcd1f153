//! Compiles instruction-set grammar documents into canonical, queryable
//! lookup tables and renders them as declarations for a consumer library.
//!
//! A run goes through these stages, each a function of what the one before
//! it returned:
//!
//! - [`schema`] holds a grammar document in memory, optional fields kept
//!   optional;
//! - [`canon`] picks one instruction per opcode and orders them, and
//!   [`registry`] collects the extension names in lexicographic order;
//! - [`validate`] tells the faults that forbid compilation, and [`tables`]
//!   compiles the four lookup tables, each a [`table::Table`] keyed by one
//!   64-bit integer made in [`keys`];
//! - [`enums`], [`classify`], [`defs`], [`header`] and [`cpp`] render the
//!   three sorts of artifact, and [`compiler`] picks the one that a request
//!   asks for.
//!
//! [`lookup`] states what the queries on compiled tables answer, in terms of
//! the grammars alone.

pub mod canon;
pub mod classify;
pub mod compiler;
pub mod cpp;
pub mod defs;
pub mod emit;
pub mod enums;
pub mod header;
pub mod info;
pub mod keys;
pub mod literal;
pub mod lookup;
pub mod operand;
pub mod registry;
pub mod schema;
pub mod symbol;
pub mod table;
pub mod tables;
pub mod text;
pub mod validate;
pub mod version;
