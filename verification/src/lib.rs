//! Structural analysis of Go source files and rule checks on parsed Rust
//! functions.

pub mod go;
pub mod laws;
pub mod model;
pub mod order;
pub mod rust_rules;
pub mod syntax;
pub mod text;
pub mod treesitter;
