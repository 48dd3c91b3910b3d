//! The storage location that an expression reads or writes: a declared
//! variable, and for a member access or an index into it, the member or the
//! index key.
use vstd::prelude::*;

use crate::ast_type::ASTType;
use crate::node_kind::{spec_is_instance, is_instance, NodeKind};
use crate::tree::{AstArena, NodeView, tree_wf};

verus! {

/// A kind that declares a variable: a variable declaration, a parameter or
/// a state variable declaration.
pub open spec fn is_variable_declaration(k: NodeKind) -> bool {
    ||| spec_is_instance(k, ASTType::VariableDeclaration)
    ||| spec_is_instance(k, ASTType::Parameter)
    ||| spec_is_instance(k, ASTType::StateVariableDeclaration)
}

/// The (target, key) pair stored for `expr`: a pair of two entries is kept as
/// it is; otherwise the first entry decides. A variable declaration is its
/// own target; an identifier expression targets what it refers to; a member
/// access (children: object, member) and an index expression (children:
/// array, key) target what their first child refers to and are keyed by
/// their second child; anything else has neither.
pub open spec fn spec_target_key(v: Seq<NodeView>, expr: Seq<Option<usize>>) -> Seq<Option<usize>> {
    if expr.len() == 2 {
        expr
    } else {
        let e = expr[0]->Some_0 as int;
        let k = v[e].kind;
        if spec_is_instance(k, ASTType::VariableDeclaration) {
            seq![expr[0], None]
        } else if k.ast_type == ASTType::IdentifierExpr {
            seq![v[e].target, None]
        } else if k.ast_type == ASTType::MemberAccessExpr || k.ast_type == ASTType::IndexExpr {
            seq![v[v[e].children[0] as int].target, Some(v[e].children[1])]
        } else {
            seq![None, None]
        }
    }
}

/// The inputs on which `InstanceTarget::new` succeeds: the expression that
/// decides is a node of the store (with both children where it is a member
/// access or an index expression), and the resulting target is a variable
/// declaration of the store.
pub open spec fn instance_target_ok(v: Seq<NodeView>, expr: Seq<Option<usize>>) -> bool {
    &&& expr.len() != 2 ==> {
        &&& expr.len() >= 1
        &&& expr[0] matches Some(e)
        &&& e < v.len()
        &&& (v[e as int].kind.ast_type == ASTType::MemberAccessExpr || v[e as int].kind.ast_type
            == ASTType::IndexExpr) ==> v[e as int].children.len() >= 2
    }
    &&& spec_target_key(v, expr)[0] matches Some(t)
    &&& t < v.len()
    &&& is_variable_declaration(v[t as int].kind)
}

/// Locations agree along references: an identifier expression that refers
/// to a variable declaration denotes the same location as that declaration
/// (the declared variable, with no key), and a member access or index
/// expression whose first child is such an identifier lies in that same
/// variable, keyed by its second child. A given (target, key) pair denotes
/// itself.
pub proof fn lemma_locations_follow_references(
    v: Seq<NodeView>,
    d: int,
    e: int,
    m: int,
    pair: Seq<Option<usize>>,
)
    requires
        tree_wf(v),
        0 <= d < v.len(),
        0 <= e < v.len(),
        0 <= m < v.len(),
        v[d].kind.ast_type == ASTType::VariableDeclaration,
        v[e].kind.ast_type == ASTType::IdentifierExpr,
        v[e].target == Some(d as usize),
        pair.len() == 2,
    ensures
        spec_target_key(v, seq![Some(e as usize)]) == spec_target_key(v, seq![Some(d as usize)]),
        spec_target_key(v, seq![Some(d as usize)]) == seq![Some(d as usize), None],
        (v[m].kind.ast_type == ASTType::MemberAccessExpr || v[m].kind.ast_type
            == ASTType::IndexExpr) && v[m].children.len() >= 2 && v[m].children[0] == e as usize
            ==> spec_target_key(v, seq![Some(m as usize)]) == seq![
            spec_target_key(v, seq![Some(e as usize)])[0],
            Some(v[m].children[1]),
        ],
        spec_target_key(v, pair) == pair,
{
    assert(seq![Some(e as usize)][0] == Some(e as usize));
    assert(seq![Some(d as usize)][0] == Some(d as usize));
    assert(seq![Some(m as usize)][0] == Some(m as usize));
    assert(spec_target_key(v, seq![Some(d as usize)]) =~= seq![Some(d as usize), None]);
    assert(spec_target_key(v, seq![Some(e as usize)]) =~= seq![Some(d as usize), None]);
}

/// A storage location: the declared variable and, where the location is a
/// member or an element of it, the member or index key.
#[derive(Clone, Debug, PartialEq, PartialOrd, Eq, Ord, Hash)]
pub struct InstanceTarget {
    pub target_key: Vec<Option<usize>>,
}

impl InstanceTarget {
    /// The location that `expr` denotes: see `spec_target_key`.
    pub fn new(arena: &AstArena, expr: Vec<Option<usize>>) -> (r: Self)
        requires
            arena.wf(),
            instance_target_ok(arena@, expr@),
        ensures
            r.target_key@ == spec_target_key(arena@, expr@),
            r.target_key@.len() == 2,
            r.target_key@[0] matches Some(t) && t < arena@.len() && is_variable_declaration(
                arena@[t as int].kind,
            ),
    {
        if expr.len() == 2 {
            return InstanceTarget { target_key: expr };
        }
        let first = expr[0];
        let e = first.unwrap();
        let k = arena.kind(e);
        let target_key = if is_instance(&k, ASTType::VariableDeclaration) {
            vec![first, None]
        } else {
            match k.ast_type {
                ASTType::IdentifierExpr => vec![arena.target(e), None],
                ASTType::MemberAccessExpr | ASTType::IndexExpr => {
                    let ch = arena.children(e);
                    vec![arena.target(ch[0]), Some(ch[1])]
                },
                _ => vec![None, None],
            }
        };
        proof {
            assert(target_key@ =~= spec_target_key(arena@, expr@));
        }
        InstanceTarget { target_key }
    }

    /// The declared variable, if the location names one.
    pub fn target(&self) -> (r: Option<usize>)
        requires
            self.target_key@.len() > 0 ==> self.target_key@[0] is Some,
        ensures
            r == (if self.target_key@.len() == 0 {
                None
            } else {
                self.target_key@[0]
            }),
    {
        if self.target_key.len() == 0 {
            None
        } else {
            Some(self.target_key[0].unwrap())
        }
    }

    /// The member or index key, if the location has one.
    pub fn key(&self) -> (r: Option<usize>)
        ensures
            r == (if self.target_key@.len() > 1 {
                self.target_key@[1]
            } else {
                None
            }),
    {
        if self.target_key.len() > 1 {
            self.target_key[1]
        } else {
            None
        }
    }
}

} // verus!
