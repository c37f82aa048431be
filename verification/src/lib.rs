//! Function-extraction and byte-matching engine for compiled executables.
//!
//! The crate builds a name-indexed table of function byte ranges out of an
//! object file's symbol table, a PDB debug-info stream, or a user-supplied
//! address/size mapping, reconciles the three sources by a fixed priority,
//! computes a positional byte-similarity score between two same-named
//! functions, and renders a function's bytes as an instruction listing with
//! optional call-target name resolution.

pub mod disasm;
pub mod error;
pub mod executable;
pub mod function;
pub mod mapping;
pub mod sources;
