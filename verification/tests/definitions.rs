use zkay_ast::definitions::{
    ConstructorOrFunctionDefinition, ContractDefinition, ContractItem, EnumDefinition,
    StructDefinition,
};
use zkay_ast::ast_type::ASTType;
use zkay_ast::node_kind::{AstShape, NodeKind};
use zkay_ast::source_unit::SourceUnit;
use zkay_ast::tree::{ASTChildren, AstArena, AstNode};

fn modifiers(m: &[&str]) -> Vec<String> {
    m.iter().map(|s| String::from(*s)).collect()
}

#[test]
fn function_definition_with_return_variables() {
    let f = ConstructorOrFunctionDefinition::new(
        Some(String::from("f")),
        Some(0),
        vec![1, 2],
        modifiers(&["pure", "external"]),
        vec![3, 4, 5],
        Some(6),
        "ret",
    );
    assert_eq!(f.name(), "f");
    assert_eq!(f.get_name(), "f");
    assert_eq!(f.return_var_names, vec!["ret_0", "ret_1", "ret_2"]);
    assert_eq!(f.parameters, vec![1, 2]);
    assert_eq!(f.return_parameters, vec![3, 4, 5]);
    assert_eq!(f.body, Some(6));
    assert!(!f.has_side_effects());
    assert!(f.can_be_external());
    assert!(f.is_external());
    assert!(!f.is_payable());
    assert!(f.is_function());
    assert!(!f.is_constructor());
    assert!(!f.get_requires_verification_when_external());
    assert!(f.has_static_body && f.can_be_private && !f.is_recursive);
    assert!(!f.requires_verification);
    assert_eq!(f.original_body, None);
    assert!(f.called_functions.is_empty());
    assert!(f.used_homomorphisms.is_none());
    assert_eq!(f.idf_node, Some(0));
    assert_eq!(f.children(), vec![0, 1, 2, 3, 4, 5, 6]);
}

#[test]
fn unnamed_definition_is_the_constructor() {
    let c = ConstructorOrFunctionDefinition::new(None, None, vec![], modifiers(&["payable", "internal"]), vec![], None, "ret");
    assert_eq!(c.name(), "constructor");
    assert!(c.is_constructor());
    assert!(!c.is_function());
    assert!(c.has_side_effects());
    assert!(!c.can_be_external());
    assert!(c.is_payable());
    assert!(c.return_var_names.is_empty());
}

#[test]
fn view_and_private_modifiers() {
    let f = ConstructorOrFunctionDefinition::new(Some(String::from("g")), None, vec![], modifiers(&["view", "private"]), vec![], None, "r");
    assert!(!f.has_side_effects());
    assert!(!f.can_be_external());
    assert!(!f.is_external());
}

#[test]
fn many_return_variables_count_in_decimal() {
    let f = ConstructorOrFunctionDefinition::new(Some(String::from("h")), None, vec![], vec![], (0..12).collect(), None, "out");
    assert_eq!(f.return_var_names[10], "out_10");
    assert_eq!(f.return_var_names[11], "out_11");
    assert_eq!(f.return_var_names.len(), 12);
}

#[test]
fn definitions_list_their_children() {
    let e = EnumDefinition::new(Some(1), vec![2, 3]);
    assert_eq!(e.children(), vec![1, 2, 3]);
    let s = StructDefinition::new(None, vec![4, 5]);
    assert_eq!(s.children(), vec![4, 5]);
    let c = ContractDefinition::new(Some(0), vec![10, 11], vec![20], vec![30, 31], vec![40], vec![50]);
    assert_eq!(c.children(), vec![0, 40, 50, 10, 11, 20, 30, 31]);
    let u = SourceUnit::new(String::from("pragma zkay ^0.3.0;"), vec![7, 8], vec![String::from("D")]);
    assert_eq!(u.children(), vec![7, 8]);
    assert_eq!(u.pragma_directive, "pragma zkay ^0.3.0;");
    assert_eq!(u.used_contracts, vec!["D"]);
}

fn contract_store() -> (AstArena, usize, usize) {
    let mut a = AstArena::new();
    let idf = a.add_node(AstNode::new(NodeKind { shape: AstShape::Identifier, ast_type: ASTType::IdentifierBase }, None, None), vec![]);
    let var = a.add_node(
        AstNode::new(NodeKind { shape: AstShape::IdentifierDeclaration, ast_type: ASTType::StateVariableDeclaration }, Some(idf), None),
        vec![idf],
    );
    let contract = a.add_node(
        AstNode::new(NodeKind { shape: AstShape::NamespaceDefinition, ast_type: ASTType::ContractDefinition }, None, None),
        vec![var],
    );
    a.add_name(contract, String::from("x"), idf);
    (a, contract, var)
}

#[test]
fn contract_lookup_of_declared_names() {
    let (a, contract, var) = contract_store();
    let c = ContractDefinition::new(None, vec![var], vec![], vec![], vec![], vec![]);
    match c.get_item(&a, contract, &String::from("x")) {
        Some(ContractItem::Node(n)) => assert_eq!(n, var),
        _ => panic!("x should be found"),
    }
}

fn function_node() -> AstNode {
    AstNode::new(NodeKind { shape: AstShape::NamespaceDefinition, ast_type: ASTType::ConstructorOrFunctionDefinition }, None, None)
}

fn contract_node() -> AstNode {
    AstNode::new(NodeKind { shape: AstShape::NamespaceDefinition, ast_type: ASTType::ContractDefinition }, None, None)
}

#[test]
fn contract_lookup_of_constructor() {
    let mut a = AstArena::new();
    let none = ContractDefinition::new(None, vec![], vec![], vec![], vec![], vec![]);
    let n0 = a.add_node_of(contract_node(), &none);
    match none.get_item(&a, n0, &String::from("constructor")) {
        Some(ContractItem::EmptyConstructor(c, parent)) => {
            assert_eq!(parent, n0);
            assert!(c.is_constructor());
            assert!(c.called_functions.is_empty() && c.used_homomorphisms.is_none());
            assert!(c.parameters.is_empty() && c.body.is_none());
        },
        _ => panic!("an empty constructor is expected"),
    }
    let k = a.add_node(function_node(), vec![]);
    let one = ContractDefinition::new(None, vec![], vec![k], vec![], vec![], vec![]);
    let n1 = a.add_node_of(contract_node(), &one);
    assert_eq!(a.children(n1), vec![k]);
    match one.get_item(&a, n1, &String::from("constructor")) {
        Some(ContractItem::Node(n)) => assert_eq!(n, k),
        _ => panic!("the one constructor is expected"),
    }
    let k1 = a.add_node(function_node(), vec![]);
    let k2 = a.add_node(function_node(), vec![]);
    let two = ContractDefinition::new(None, vec![], vec![k1, k2], vec![], vec![], vec![]);
    let n2 = a.add_node_of(contract_node(), &two);
    assert!(two.get_item(&a, n2, &String::from("constructor")).is_none());
}

#[test]
fn source_unit_lookup() {
    let mut a = AstArena::new();
    let idf = a.add_node(AstNode::new(NodeKind { shape: AstShape::Identifier, ast_type: ASTType::IdentifierBase }, None, None), vec![]);
    let contract = a.add_node(
        AstNode::new(NodeKind { shape: AstShape::NamespaceDefinition, ast_type: ASTType::ContractDefinition }, Some(idf), None),
        vec![idf],
    );
    let su = a.add_node(AstNode::new(NodeKind { shape: AstShape::SourceUnit, ast_type: ASTType::SourceUnit }, None, None), vec![contract]);
    a.add_name(su, String::from("C"), idf);
    assert_eq!(SourceUnit::get_item(&a, su, &String::from("C")), Some(contract));
    assert_eq!(SourceUnit::get_item(&a, su, &String::from("D")), None);
}
