//! A source unit: the pragma, the contracts of one source file and the
//! contracts it uses.
use vstd::prelude::*;

use crate::tree::{add_children, ASTChildren, AstArena, ChildListBuilder};

verus! {

/// One source file: its pragma directive, its contracts and the names of
/// the contracts it uses. Its source text is held by its node in the store.
pub struct SourceUnit {
    pub pragma_directive: String,
    pub contracts: Vec<usize>,
    pub used_contracts: Vec<String>,
}

impl SourceUnit {
    pub fn new(pragma_directive: String, contracts: Vec<usize>, used_contracts: Vec<String>) -> (r: Self)
        ensures
            r.pragma_directive@ == pragma_directive@,
            r.contracts@ == contracts@,
            r.used_contracts@ == used_contracts@,
    {
        SourceUnit { pragma_directive, contracts, used_contracts }
    }

    /// The node that declares `key` in the scope of the source unit whose
    /// node is `node`, if the name is declared there.
    pub fn get_item(arena: &AstArena, node: usize, key: &String) -> (r: Option<usize>)
        requires
            arena.wf(),
            node < arena@.len(),
        ensures
            r == (if arena@[node as int].names.dom().contains(key@) {
                arena@[arena@[node as int].names[key@] as int].parent
            } else {
                None
            }),
    {
        match arena.lookup_name(node, key) {
            Some(c_identifier) => arena.parent(c_identifier),
            None => None,
        }
    }
}

impl ASTChildren for SourceUnit {
    /// The contracts, in order.
    open spec fn spec_children(&self) -> Seq<usize> {
        self.contracts@
    }

    fn process_children(&self, cb: &mut ChildListBuilder) {
        add_children(cb, &self.contracts);
    }
}

} // verus!
