//! Generates the module declaration files that connect a directory tree of
//! source files into one module hierarchy.
//!
//! The caller lists the tree into [`tree::Entry`] values; [`walker::crateify`]
//! decides which declaration files are written, with which contents and in
//! which order, and where the traversal stops on a failure.

pub mod cli;
pub mod laws;
pub mod names;
pub mod patterns;
pub mod report;
pub mod samples;
pub mod tree;
pub mod walker;
pub mod writer;
