use zkay_ast::ast_type::ASTType;
use zkay_ast::messages::{
    ast_exception_msg_defined, code_error_msg_defined, compiler_warning_message, get_ast_exception_msg,
    get_code_error_msg, AstException,
};
use zkay_ast::node_kind::{AstShape, ExpressionKind, NodeKind, SimpleStatementKind, StatementKind, TupleOrLocationExprKind};
use zkay_ast::tree::{AstArena, AstNode};

fn code() -> Vec<String> {
    vec![
        String::from("contract C {"),
        String::from("\tuint x = 1;"),
        String::from("}"),
    ]
}

fn stmt_kind() -> NodeKind {
    NodeKind {
        shape: AstShape::Statement(StatementKind::SimpleStatement(
            SimpleStatementKind::ExpressionStatement,
        )),
        ast_type: ASTType::ExpressionStatement,
    }
}

fn expr_kind() -> NodeKind {
    NodeKind {
        shape: AstShape::Expression(ExpressionKind::TupleOrLocationExpr(
            TupleOrLocationExprKind::LocationExpr,
        )),
        ast_type: ASTType::IdentifierExpr,
    }
}

fn function_kind() -> NodeKind {
    NodeKind { shape: AstShape::NamespaceDefinition, ast_type: ASTType::ConstructorOrFunctionDefinition }
}

fn contract_kind() -> NodeKind {
    NodeKind { shape: AstShape::NamespaceDefinition, ast_type: ASTType::ContractDefinition }
}

fn source_unit_kind() -> NodeKind {
    NodeKind { shape: AstShape::SourceUnit, ast_type: ASTType::SourceUnit }
}

fn at(kind: NodeKind, line: i32, column: i32) -> AstNode {
    let mut n = AstNode::new(kind, None, None);
    n.line = line;
    n.column = column;
    n
}

/// expression 0 in statement 1 in function 2 in contract 3 in source unit 4.
fn program() -> AstArena {
    let mut a = AstArena::new();
    let e = a.add_node(at(expr_kind(), 2, 3), vec![]);
    let s = a.add_node(at(stmt_kind(), 2, 2), vec![e]);
    let f = a.add_node(at(function_kind(), 1, 1), vec![s]);
    let c = a.add_node(at(contract_kind(), 1, 1), vec![f]);
    let mut su = at(source_unit_kind(), 1, 1);
    su.original_code = code();
    let _ = a.add_node(su, vec![c]);
    a.set_statement(e, s);
    a.set_function(s, f);
    a
}

#[test]
fn location_outside_the_code_is_reported_alone() {
    let a = AstArena::new();
    assert_eq!(get_code_error_msg(&a, 0, 5, &code(), None, None, None), "At line: 0;5");
    assert_eq!(get_code_error_msg(&a, 3, 0, &code(), None, None, None), "At line: 3;0");
    assert_eq!(get_code_error_msg(&a, 4, 1, &code(), None, None, None), "At line: 4;1");
    assert_eq!(get_code_error_msg(&a, -7, 2, &code(), None, None, None), "At line: -7;2");
}

#[test]
fn offending_line_is_quoted_with_tabs_expanded_and_marked() {
    let a = AstArena::new();
    assert_eq!(
        get_code_error_msg(&a, 2, 3, &code(), None, None, None),
        "At line: 2;3     uint x = 1; -----/"
    );
    assert_eq!(get_code_error_msg(&a, 1, 1, &code(), None, None, None), "At line: 1;1 contract C { /");
    assert_eq!(
        get_code_error_msg(&a, 1, 10, &code(), None, None, None),
        "At line: 1;10 contract C { ---------/"
    );
}

#[test]
fn context_and_statement_lines_are_included() {
    let a = program();
    assert_eq!(
        get_code_error_msg(&a, 2, 3, &code(), Some(3), None, None),
        "At line: 2;3, in contract \"{ctr.idf.name}\"     uint x = 1; -----/"
    );
    assert_eq!(
        get_code_error_msg(&a, 2, 3, &code(), Some(3), Some(2), Some(2)),
        "At line: 2;3, in function \"{fct.name}\" of contract \"{ctr.idf.name}\" contract C {     uint x = 1; -----/"
    );
}

#[test]
fn statement_without_position_quotes_nothing() {
    let mut a = AstArena::new();
    let s = a.add_node(AstNode::new(stmt_kind(), None, None), vec![]);
    assert_eq!(get_code_error_msg(&a, 2, 3, &code(), None, None, Some(s)), "At line: 2;3 ");
}

#[test]
fn statement_starting_after_the_line_quotes_only_the_marker() {
    let mut a = AstArena::new();
    let s = a.add_node(at(stmt_kind(), 3, 1), vec![]);
    assert_eq!(get_code_error_msg(&a, 2, 3, &code(), None, None, Some(s)), "At line: 2;3 -----/");
}

#[test]
fn exception_message_describes_the_enclosing_function_and_contract() {
    let a = program();
    assert_eq!(
        get_ast_exception_msg(&a, 0, String::from("bad expression")),
        " At line: 2;3, in function \"{fct.name}\" of contract \"{ctr.idf.name}\"     uint x = 1; -----/  bad expression"
    );
    let e = AstException::new(&a, 1, String::from("bad statement"));
    assert_eq!(
        e.0,
        " At line: 2;2, in function \"{fct.name}\" of contract \"{ctr.idf.name}\"     uint x = 1; ----/  bad statement"
    );
}

#[test]
fn exception_message_about_a_contract() {
    let a = program();
    assert_eq!(
        get_ast_exception_msg(&a, 3, String::from("m")),
        " At line: 1;1, in contract \"{ctr.idf.name}\" contract C { /  m"
    );
}

#[test]
fn exception_message_without_source_unit() {
    let mut a = AstArena::new();
    let _ = a.add_node(at(expr_kind(), 2, 3), vec![]);
    assert_eq!(get_ast_exception_msg(&a, 0, String::from("msg")), " error  msg");
    assert_eq!(AstException::new(&a, 0, String::from("x")).0, " error  x");
}

#[test]
fn warning_text() {
    let mut a = AstArena::new();
    let _ = a.add_node(at(expr_kind(), 2, 3), vec![]);
    assert_eq!(
        compiler_warning_message(&a, 0, String::from("Unused: "), String::from("x")),
        " \nWARNING: Unused:  error  x"
    );
}

#[test]
fn defined_inputs_of_code_error_msg() {
    let a = program();
    assert!(code_error_msg_defined(&a, 2, 3, &code(), None, None, None));
    assert!(code_error_msg_defined(&a, 9, 3, &code(), None, Some(2), None));
    assert!(!code_error_msg_defined(&a, 2, 3, &code(), None, Some(2), None));
    assert!(!code_error_msg_defined(&a, 2, 30, &code(), None, None, None));
    assert!(!code_error_msg_defined(&a, 2, 3, &code(), None, None, Some(99)));
    let lines = vec![String::from("é = 1")];
    assert!(code_error_msg_defined(&a, 1, 3, &lines, None, None, None));
    assert!(!code_error_msg_defined(&a, 1, 2, &lines, None, None, None));
}

#[test]
fn defined_inputs_of_exception_msg() {
    let a = program();
    assert!(ast_exception_msg_defined(&a, 0));
    assert!(ast_exception_msg_defined(&a, 3));
    let mut b = AstArena::new();
    let s = b.add_node(at(stmt_kind(), 1, 1), vec![]);
    assert!(!ast_exception_msg_defined(&b, s));
}
