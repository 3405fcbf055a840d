//! Decoding of JVM class files into an in-memory model, and the text that a
//! `javap -v` style disassembly shows for it.
//!
//! - `reader`: a cursor over bytes that yields integers and fails at the end of input.
//! - `constant_pool`: the pool's entries, their decoding, and the resolvers that turn
//!   indices into text.
//! - `descriptor`: the type-descriptor grammar, its parser and its Java rendering.
//! - `bytecode`: the instruction decoder for a `Code` block.
//! - `attributes`, `fields`, `methods`, `classfile`: the rest of the class-file format.
//! - `access_flags`, `reference_kind`: flag words per context and method-handle kinds.
//! - `printer`, `listing`: the lines of the disassembly.
//! - `text`: decimal and hexadecimal notation, padding, and string helpers.
//! - `error`: why decoding failed.

pub mod error;
pub mod reader;
pub mod text;
pub mod reference_kind;
pub mod access_flags;
pub mod constant_pool;
pub mod descriptor;
pub mod bytecode;
pub mod attributes;
pub mod fields;
pub mod methods;
pub mod classfile;
pub mod printer;
pub mod listing;
