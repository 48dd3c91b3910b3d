//! Core data model of the zkay syntax tree: node kinds and their hierarchy,
//! kind tests, a node store with parent, child, scope and reference links,
//! statements and definitions with the order of their children, the storage
//! locations that expressions denote, and the messages reported against
//! source locations.
use vstd::prelude::*;

pub mod ast_type;
pub mod definitions;
pub mod instance_target;
pub mod messages;
pub mod node_kind;
pub mod shared_cell;
pub mod source_unit;
pub mod statement;
pub mod text;
pub mod tree;

verus! {
} // verus!
