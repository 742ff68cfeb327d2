//! Reports, for a filesystem subtree and a target user, which of read, write
//! and traverse access that user holds on each node, drawn as a tree.
//!
//! The library holds the decisions: how a permission probe is invoked and how
//! its outcome is judged (fail-closed), the order in which nodes are visited,
//! and how each node's line is drawn. The program around it performs the
//! filesystem and process work.

pub mod cli;
pub mod probe;
pub mod render;
pub mod style;
pub mod walk;
