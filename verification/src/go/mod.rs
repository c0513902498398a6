//! Analysis of Go source files.

pub mod treecopy;
pub mod collect;
pub mod comments;
pub mod parser;
pub mod patterns;
pub mod tree;
