use zkay_ast::ast_type::ASTType;
use zkay_ast::node_kind::{AstShape, ExpressionKind, NodeKind, SimpleStatementKind, StatementKind, TupleOrLocationExprKind};
use zkay_ast::tree::{AstArena, AstNode, ChildListBuilder};

fn stmt_kind() -> NodeKind {
    NodeKind {
        shape: AstShape::Statement(StatementKind::SimpleStatement(
            SimpleStatementKind::ExpressionStatement,
        )),
        ast_type: ASTType::ExpressionStatement,
    }
}

fn block_kind() -> NodeKind {
    NodeKind { shape: AstShape::Statement(StatementKind::StatementList), ast_type: ASTType::Block }
}

fn expr_kind() -> NodeKind {
    NodeKind {
        shape: AstShape::Expression(ExpressionKind::TupleOrLocationExpr(
            TupleOrLocationExprKind::LocationExpr,
        )),
        ast_type: ASTType::IdentifierExpr,
    }
}

fn identifier_kind() -> NodeKind {
    NodeKind { shape: AstShape::Identifier, ast_type: ASTType::IdentifierBase }
}

#[test]
fn new_store_is_empty() {
    let a = AstArena::new();
    assert_eq!(a.len(), 0);
}

#[test]
fn fresh_node_defaults() {
    let n = AstNode::new(stmt_kind(), None, None);
    assert_eq!(n.line, -1);
    assert_eq!(n.column, -1);
    assert!(n.namespace.is_empty());
    assert!(n.original_code.is_empty());
    assert_eq!(n.kind, stmt_kind());
}

#[test]
fn add_node_links_children_to_parent() {
    let mut a = AstArena::new();
    let s0 = a.add_node(AstNode::new(stmt_kind(), None, None), vec![]);
    let s1 = a.add_node(AstNode::new(stmt_kind(), None, None), vec![]);
    let b = a.add_node(AstNode::new(block_kind(), None, None), vec![s1, s0]);
    assert_eq!((s0, s1, b), (0, 1, 2));
    assert_eq!(a.len(), 3);
    assert_eq!(a.children(b), vec![1, 0]);
    assert_eq!(a.parent(s0), Some(2));
    assert_eq!(a.parent(s1), Some(2));
    assert_eq!(a.parent(b), None);
    assert_eq!(a.kind(b), block_kind());
    assert_eq!(a.line(b), -1);
    assert_eq!(a.column(b), -1);
    assert_eq!(a.statement(s0), None);
    assert_eq!(a.function(s0), None);
    assert_eq!(a.target(s0), None);
    assert!(a.children(s0).is_empty());
}

#[test]
fn is_parent_of_follows_parent_links() {
    let mut a = AstArena::new();
    let s = a.add_node(AstNode::new(stmt_kind(), None, None), vec![]);
    let inner = a.add_node(AstNode::new(block_kind(), None, None), vec![s]);
    let outer = a.add_node(AstNode::new(block_kind(), None, None), vec![inner]);
    let other = a.add_node(AstNode::new(stmt_kind(), None, None), vec![]);
    assert!(a.is_parent_of(outer, s));
    assert!(a.is_parent_of(inner, s));
    assert!(a.is_parent_of(s, s));
    assert!(!a.is_parent_of(s, outer));
    assert!(!a.is_parent_of(other, s));
    assert!(!a.is_parent_of(outer, other));
}

#[test]
fn statement_lists_contain_nested_statements() {
    let mut a = AstArena::new();
    let s0 = a.add_node(AstNode::new(stmt_kind(), None, None), vec![]);
    let s1 = a.add_node(AstNode::new(stmt_kind(), None, None), vec![]);
    let inner = a.add_node(AstNode::new(block_kind(), None, None), vec![s0]);
    let outer = a.add_node(AstNode::new(block_kind(), None, None), vec![inner, s1]);
    let loose = a.add_node(AstNode::new(stmt_kind(), None, None), vec![]);
    assert!(a.statement_list_contains(outer, s0));
    assert!(a.statement_list_contains(outer, s1));
    assert!(a.statement_list_contains(outer, inner));
    assert!(a.statement_list_contains(inner, s0));
    assert!(!a.statement_list_contains(inner, s1));
    assert!(!a.statement_list_contains(outer, loose));
    assert!(!a.statement_list_contains(outer, outer));
    assert_eq!(a.statement_list_get_item(outer, 0), inner);
    assert_eq!(a.statement_list_get_item(outer, 1), s1);
}

#[test]
fn nested_non_list_children_are_not_searched() {
    let mut a = AstArena::new();
    let s0 = a.add_node(AstNode::new(stmt_kind(), None, None), vec![]);
    let wrapper = a.add_node(AstNode::new(stmt_kind(), None, None), vec![s0]);
    let outer = a.add_node(AstNode::new(block_kind(), None, None), vec![wrapper]);
    assert!(a.statement_list_contains(outer, wrapper));
    assert!(!a.statement_list_contains(outer, s0));
}

#[test]
fn qualified_names() {
    let mut a = AstArena::new();
    let i0 = a.add_node(AstNode::new(identifier_kind(), None, None), vec![]);
    let i1 = a.add_node(AstNode::new(identifier_kind(), None, None), vec![]);
    let i2 = a.add_node(AstNode::new(identifier_kind(), None, None), vec![]);
    let mut n = AstNode::new(stmt_kind(), Some(i2), None);
    n.namespace = vec![i0, i1];
    let with_ns = a.add_node(n, vec![]);
    let mut m = AstNode::new(stmt_kind(), Some(i1), None);
    m.namespace = vec![i0, i1];
    let ends_with_own = a.add_node(m, vec![]);
    let no_ns = a.add_node(AstNode::new(stmt_kind(), Some(i0), None), vec![]);
    let no_idf = a.add_node(AstNode::new(stmt_kind(), None, None), vec![]);
    assert_eq!(a.qualified_name(with_ns), vec![i0, i1, i2]);
    assert_eq!(a.qualified_name(ends_with_own), vec![i0, i1]);
    assert_eq!(a.qualified_name(no_ns), vec![i0]);
    assert_eq!(a.qualified_name(no_idf), Vec::<usize>::new());
}

#[test]
fn recorded_links_are_read_back() {
    let mut a = AstArena::new();
    let e = a.add_node(AstNode::new(expr_kind(), None, None), vec![]);
    let s = a.add_node(AstNode::new(stmt_kind(), None, None), vec![e]);
    let f = a.add_node(AstNode::new(block_kind(), None, None), vec![]);
    a.set_statement(e, s);
    a.set_function(s, f);
    a.set_target(e, f);
    assert_eq!(a.statement(e), Some(s));
    assert_eq!(a.function(s), Some(f));
    assert_eq!(a.target(e), Some(f));
    assert_eq!(a.statement(s), None);
    assert_eq!(a.parent(e), Some(s));
    let with_target = a.add_node(AstNode::new(expr_kind(), None, Some(e)), vec![]);
    assert_eq!(a.target(with_target), Some(e));
}

#[test]
fn declared_names_are_looked_up_last_one_winning() {
    let mut a = AstArena::new();
    let i0 = a.add_node(AstNode::new(identifier_kind(), None, None), vec![]);
    let i1 = a.add_node(AstNode::new(identifier_kind(), None, None), vec![]);
    let scope = a.add_node(AstNode::new(block_kind(), None, None), vec![]);
    assert_eq!(a.lookup_name(scope, &String::from("x")), None);
    a.add_name(scope, String::from("x"), i0);
    a.add_name(scope, String::from("y"), i1);
    assert_eq!(a.lookup_name(scope, &String::from("x")), Some(i0));
    assert_eq!(a.lookup_name(scope, &String::from("y")), Some(i1));
    a.add_name(scope, String::from("x"), i1);
    assert_eq!(a.lookup_name(scope, &String::from("x")), Some(i1));
    assert_eq!(a.lookup_name(scope, &String::from("z")), None);
    assert_eq!(a.lookup_name(i0, &String::from("x")), None);
}

#[test]
fn source_text_is_kept() {
    let mut a = AstArena::new();
    let mut n = AstNode::new(NodeKind { shape: AstShape::SourceUnit, ast_type: ASTType::SourceUnit }, None, None);
    n.original_code = vec![String::from("line one"), String::from("line two")];
    let su = a.add_node(n, vec![]);
    assert_eq!(a.original_code(su), vec![String::from("line one"), String::from("line two")]);
}

#[test]
fn child_list_builder_appends_in_order() {
    let mut cb = ChildListBuilder::new();
    assert!(cb.children.is_empty());
    cb.add_child(4);
    cb.add_child(2);
    cb.add_child(4);
    assert_eq!(cb.children, vec![4, 2, 4]);
}

#[test]
fn adding_a_node_keeps_existing_ancestry() {
    let mut a = AstArena::new();
    let s0 = a.add_node(AstNode::new(stmt_kind(), None, None), vec![]);
    let b0 = a.add_node(AstNode::new(block_kind(), None, None), vec![s0]);
    let s1 = a.add_node(AstNode::new(stmt_kind(), None, None), vec![]);
    let before: Vec<bool> = [(b0, s0), (s1, s0), (b0, s1), (s0, s0)]
        .iter()
        .map(|&(x, y)| a.is_parent_of(x, y))
        .collect();
    let top = a.add_node(AstNode::new(block_kind(), None, None), vec![b0]);
    let after: Vec<bool> = [(b0, s0), (s1, s0), (b0, s1), (s0, s0)]
        .iter()
        .map(|&(x, y)| a.is_parent_of(x, y))
        .collect();
    assert_eq!(before, after);
    assert!(a.is_parent_of(top, s0));
    assert!(a.is_parent_of(top, b0));
    assert!(!a.is_parent_of(top, s1));
}

#[test]
fn assign_copies_content_and_leaves_the_source() {
    let mut a = AstArena::new();
    let old_child = a.add_node(AstNode::new(stmt_kind(), None, None), vec![]);
    let dst = a.add_node(AstNode::new(block_kind(), None, None), vec![old_child]);
    let top = a.add_node(AstNode::new(block_kind(), None, None), vec![dst]);
    let mut leaf = AstNode::new(expr_kind(), None, None);
    leaf.line = 9;
    let src_leaf = a.add_node(leaf, vec![]);
    let src_child = a.add_node(AstNode::new(stmt_kind(), None, None), vec![src_leaf]);
    let mut s = AstNode::new(block_kind(), None, Some(old_child));
    s.line = 7;
    s.column = 3;
    let src = a.add_node(s, vec![src_child]);
    let before = a.len();
    a.assign(dst, src);
    // the destination holds a fresh copy of the source's subtree
    let copies = a.children(dst);
    assert_eq!(copies.len(), 1);
    let copy = copies[0];
    assert!(copy >= before);
    assert_eq!(a.parent(copy), Some(dst));
    assert_eq!(a.kind(copy), stmt_kind());
    let inner = a.children(copy);
    assert_eq!(inner.len(), 1);
    assert!(inner[0] >= before && inner[0] != src_leaf);
    assert_eq!(a.line(inner[0]), 9);
    assert_eq!(a.parent(inner[0]), Some(copy));
    assert_eq!(a.parent(dst), Some(top));
    assert_eq!(a.line(dst), 7);
    assert_eq!(a.column(dst), 3);
    assert_eq!(a.target(dst), Some(old_child));
    // the source and its subtree are untouched
    assert_eq!(a.children(src), vec![src_child]);
    assert_eq!(a.parent(src_child), Some(src));
    assert_eq!(a.children(src_child), vec![src_leaf]);
    assert_eq!(a.line(src), 7);
    // the former child of the destination is no longer under it
    assert_eq!(a.parent(old_child), None);
}

#[test]
fn assign_onto_itself_changes_nothing() {
    let mut a = AstArena::new();
    let c = a.add_node(AstNode::new(stmt_kind(), None, None), vec![]);
    let b = a.add_node(AstNode::new(block_kind(), None, None), vec![c]);
    a.assign(b, b);
    assert_eq!(a.len(), 2);
    assert_eq!(a.children(b), vec![c]);
    assert_eq!(a.parent(c), Some(b));
}

#[test]
fn assign_expression_into_expression() {
    let mut a = AstArena::new();
    let dst = a.add_node(AstNode::new(expr_kind(), None, None), vec![]);
    let lit = NodeKind {
        shape: AstShape::Expression(ExpressionKind::LiteralExpr(zkay_ast::node_kind::LiteralExprKind::OtherLiteral)),
        ast_type: ASTType::NumberLiteralExpr,
    };
    let src = a.add_node(AstNode::new(lit, None, None), vec![]);
    a.assign(dst, src);
    assert_eq!(a.kind(dst), lit);
    assert_eq!(a.kind(src), lit);
}

#[test]
fn replace_children_overwrites_each_child_in_place() {
    let mut a = AstArena::new();
    let c0 = a.add_node(AstNode::new(stmt_kind(), None, None), vec![]);
    let c1 = a.add_node(AstNode::new(stmt_kind(), None, None), vec![]);
    let mut r = AstNode::new(stmt_kind(), None, None);
    r.line = 5;
    let r0 = a.add_node(r, vec![]);
    let b = a.add_node(AstNode::new(block_kind(), None, None), vec![c0, c1]);
    a.replace_children(b, |c: usize| if c == c0 { Some(r0) } else { Some(c) });
    assert_eq!(a.children(b), vec![c0, c1]);
    assert_eq!(a.line(c0), 5);
    assert_eq!(a.line(c1), -1);
    assert_eq!(a.parent(c0), Some(b));
    assert_eq!(a.parent(r0), None);
    assert_eq!(a.line(r0), 5);
}

#[test]
fn record_children_become_store_children() {
    let mut a = AstArena::new();
    let cond = a.add_node(AstNode::new(expr_kind(), None, None), vec![]);
    let body = a.add_node(AstNode::new(block_kind(), None, None), vec![]);
    let w = zkay_ast::statement::WhileStatement::new(cond, body);
    let kind = NodeKind { shape: AstShape::Statement(StatementKind::WhileStatement), ast_type: ASTType::WhileStatement };
    let n = a.add_node_of(AstNode::new(kind, None, None), &w);
    assert_eq!(a.children(n), vec![cond, body]);
    assert_eq!(a.parent(cond), Some(n));
}
