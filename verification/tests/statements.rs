use zkay_ast::statement::{
    AssignmentStatementBase, Block, CircuitInputStatement, DoWhileStatement, ExpressionStatement,
    ForStatement, IfStatement, IndentBlock, RequireStatement, ReturnStatement, StatementListBase,
    VariableDeclarationStatement, WhileStatement,
};
use zkay_ast::tree::{ASTChildren, ChildListBuilder};

#[test]
fn if_statement_children() {
    assert_eq!(IfStatement::new(1, 2, Some(3)).children(), vec![1, 2, 3]);
    assert_eq!(IfStatement::new(1, 2, None).children(), vec![1, 2]);
}

#[test]
fn loop_children() {
    assert_eq!(WhileStatement::new(5, 6).children(), vec![5, 6]);
    let d = DoWhileStatement::new(6, 5);
    assert_eq!((d.body, d.condition), (6, 5));
    assert_eq!(d.children(), vec![6, 5]);
}

#[test]
fn for_statement_parts() {
    let full = ForStatement::new(Some(1), 2, Some(3), 4);
    assert_eq!(full.statements(), vec![1, 2, 3, 4]);
    assert_eq!(full.children(), vec![1, 2, 3, 4]);
    let bare = ForStatement::new(None, 2, None, 4);
    assert_eq!(bare.statements(), vec![2, 4]);
    assert_eq!(bare.children(), vec![2, 4]);
    let no_update = ForStatement::new(Some(1), 2, None, 4);
    assert_eq!(no_update.statements(), vec![1, 2, 4]);
}

#[test]
fn simple_statement_children() {
    assert_eq!(ReturnStatement::new(Some(7)).children(), vec![7]);
    assert!(ReturnStatement::new(None).children().is_empty());
    assert_eq!(ExpressionStatement::new(8).children(), vec![8]);
    assert_eq!(VariableDeclarationStatement::new(9, Some(10)).children(), vec![9, 10]);
    assert_eq!(VariableDeclarationStatement::new(9, None).children(), vec![9]);
}

#[test]
fn require_statement_defaults_its_text() {
    let r = RequireStatement::new(3, None);
    assert_eq!(r.unmodified_code, "");
    assert_eq!(r.children(), vec![3]);
    let r2 = RequireStatement::new(3, Some(String::from("require(x > 0);")));
    assert_eq!(r2.unmodified_code, "require(x > 0);");
}

#[test]
fn assignment_children_and_operator() {
    let a = AssignmentStatementBase::new(Some(1), Some(2), Some(String::from("+=")));
    assert_eq!(a.op, "+=");
    assert_eq!(a.children(), vec![1, 2]);
    let b = AssignmentStatementBase::new(None, Some(2), None);
    assert_eq!(b.op, "");
    assert_eq!(b.children(), vec![2]);
    let c = CircuitInputStatement::new(4, 5, None);
    assert_eq!(c.assignment_statement_base.lhs, Some(4));
    assert_eq!(c.assignment_statement_base.rhs, Some(5));
    assert!(c.children().is_empty());
}

#[test]
fn statement_lists() {
    let l = StatementListBase::new(vec![3, 1, 2], true);
    assert!(l.excluded_from_simulation);
    assert_eq!(l.children(), vec![3, 1, 2]);
    let b = Block::new(vec![4, 5], true);
    assert!(b.was_single_statement);
    assert!(!b.statement_list_base.excluded_from_simulation);
    assert_eq!(b.children(), vec![4, 5]);
    let i = IndentBlock::new(vec![]);
    assert!(!i.statement_list_base.excluded_from_simulation);
    assert!(i.children().is_empty());
}

#[test]
fn process_children_appends_to_the_builder() {
    let mut cb = ChildListBuilder::new();
    cb.add_child(100);
    IfStatement::new(1, 2, None).process_children(&mut cb);
    WhileStatement::new(3, 4).process_children(&mut cb);
    assert_eq!(cb.children, vec![100, 1, 2, 3, 4]);
}

#[test]
fn markers_without_children() {
    let _ = zkay_ast::statement::BreakStatement::new();
    let _ = zkay_ast::statement::ContinueStatement::new();
    assert_eq!(zkay_ast::statement::CircuitComputationStatement::new(Some(2)).idf, Some(2));
}
