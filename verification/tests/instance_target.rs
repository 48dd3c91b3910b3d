use zkay_ast::ast_type::ASTType;
use zkay_ast::instance_target::InstanceTarget;
use zkay_ast::node_kind::{AstShape, ExpressionKind, NodeKind, TupleOrLocationExprKind};
use zkay_ast::tree::{AstArena, AstNode};

fn decl(t: ASTType) -> AstNode {
    AstNode::new(NodeKind { shape: AstShape::IdentifierDeclaration, ast_type: t }, None, None)
}

fn location(t: ASTType, target: Option<usize>) -> AstNode {
    AstNode::new(
        NodeKind {
            shape: AstShape::Expression(ExpressionKind::TupleOrLocationExpr(
                TupleOrLocationExprKind::LocationExpr,
            )),
            ast_type: t,
        },
        None,
        target,
    )
}

fn identifier() -> AstNode {
    AstNode::new(NodeKind { shape: AstShape::Identifier, ast_type: ASTType::IdentifierBase }, None, None)
}

#[test]
fn declaration_is_its_own_target() {
    let mut a = AstArena::new();
    let v = a.add_node(decl(ASTType::VariableDeclaration), vec![]);
    let t = InstanceTarget::new(&a, vec![Some(v)]);
    assert_eq!(t.target_key, vec![Some(v), None]);
    assert_eq!(t.target(), Some(v));
    assert_eq!(t.key(), None);
}

#[test]
fn identifier_expression_targets_its_declaration() {
    let mut a = AstArena::new();
    let p = a.add_node(decl(ASTType::Parameter), vec![]);
    let e = a.add_node(location(ASTType::IdentifierExpr, Some(p)), vec![]);
    let t = InstanceTarget::new(&a, vec![Some(e)]);
    assert_eq!(t.target_key, vec![Some(p), None]);
    assert_eq!(t.target(), Some(p));
}

#[test]
fn member_access_is_keyed_by_the_member() {
    let mut a = AstArena::new();
    let s = a.add_node(decl(ASTType::StateVariableDeclaration), vec![]);
    let obj = a.add_node(location(ASTType::IdentifierExpr, Some(s)), vec![]);
    let member = a.add_node(identifier(), vec![]);
    let m = a.add_node(location(ASTType::MemberAccessExpr, None), vec![obj, member]);
    let t = InstanceTarget::new(&a, vec![Some(m)]);
    assert_eq!(t.target_key, vec![Some(s), Some(member)]);
    assert_eq!(t.target(), Some(s));
    assert_eq!(t.key(), Some(member));
}

#[test]
fn index_expression_is_keyed_by_the_index() {
    let mut a = AstArena::new();
    let s = a.add_node(decl(ASTType::StateVariableDeclaration), vec![]);
    let arr = a.add_node(location(ASTType::IdentifierExpr, Some(s)), vec![]);
    let key = a.add_node(location(ASTType::IdentifierExpr, None), vec![]);
    let ix = a.add_node(location(ASTType::IndexExpr, None), vec![arr, key]);
    let t = InstanceTarget::new(&a, vec![Some(ix), None, None]);
    assert_eq!(t.target_key, vec![Some(s), Some(key)]);
    assert_eq!(t.key(), Some(key));
}

#[test]
fn a_pair_is_kept_as_given() {
    let mut a = AstArena::new();
    let v = a.add_node(decl(ASTType::VariableDeclaration), vec![]);
    let k = a.add_node(identifier(), vec![]);
    let t = InstanceTarget::new(&a, vec![Some(v), Some(k)]);
    assert_eq!(t.target_key, vec![Some(v), Some(k)]);
    assert_eq!(t.key(), Some(k));
}

#[test]
fn target_and_key_of_short_lists() {
    let empty = InstanceTarget { target_key: vec![] };
    assert_eq!(empty.target(), None);
    assert_eq!(empty.key(), None);
    let one = InstanceTarget { target_key: vec![Some(3)] };
    assert_eq!(one.target(), Some(3));
    assert_eq!(one.key(), None);
}
