//! A decoder for the `attribute_info` records of JVM class files, with the
//! two collaborators that it reads through: a forward-only byte cursor and
//! the constant pool's text entries.
//!
//! Beside it stand two small parts of a grammar front end: the node types
//! of a parse tree, and a registry of rules.

pub mod classfile;
pub mod oops;
pub mod pt;
pub mod rules;
