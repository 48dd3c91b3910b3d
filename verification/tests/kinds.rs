use zkay_ast::ast_type::{bases, ASTType};
use zkay_ast::node_kind::{
    is_instance, is_instances, ASTInstanceOf, AstShape, DeepClone, ExpressionKind, Immutable,
    IntoExpression, LiteralExprKind, NodeKind, SimpleStatementKind, StatementKind,
    TupleOrLocationExprKind,
};

fn block_kind() -> NodeKind {
    NodeKind { shape: AstShape::Statement(StatementKind::StatementList), ast_type: ASTType::Block }
}

fn identifier_expr_kind() -> NodeKind {
    NodeKind {
        shape: AstShape::Expression(ExpressionKind::TupleOrLocationExpr(
            TupleOrLocationExprKind::LocationExpr,
        )),
        ast_type: ASTType::IdentifierExpr,
    }
}

#[test]
fn bases_gives_direct_base() {
    assert_eq!(bases(&ASTType::IfStatement), Some(ASTType::StatementBase));
    assert_eq!(bases(&ASTType::KeyLiteralExpr), Some(ASTType::ArrayLiteralExprBase));
    assert_eq!(bases(&ASTType::CircuitInputStatement), Some(ASTType::AssignmentStatementBase));
    assert_eq!(bases(&ASTType::UintTypeName), Some(ASTType::NumberTypeNameBase));
    assert_eq!(bases(&ASTType::SourceUnit), Some(ASTType::ASTBase));
    assert_eq!(bases(&ASTType::ASTBase), None);
}

#[test]
fn every_chain_of_bases_reaches_the_root() {
    let kinds = [
        ASTType::IntTypeName,
        ASTType::KeyLiteralExpr,
        ASTType::CircuitInputStatement,
        ASTType::IndexExpr,
        ASTType::Parameter,
        ASTType::CircEqConstraint,
    ];
    for k in kinds {
        let mut t = k;
        let mut steps = 0;
        while let Some(p) = bases(&t) {
            assert_ne!(p, t);
            t = p;
            steps += 1;
        }
        assert_eq!(t, ASTType::ASTBase);
        assert!(steps <= 4);
    }
}

#[test]
fn is_instance_of_base_kinds() {
    let b = block_kind();
    assert!(is_instance(&b, ASTType::StatementListBase));
    assert!(is_instance(&b, ASTType::StatementBase));
    assert!(is_instance(&b, ASTType::Block));
    assert!(!is_instance(&b, ASTType::IndentBlock));
    assert!(!is_instance(&b, ASTType::ExpressionBase));
    let e = identifier_expr_kind();
    assert!(is_instance(&e, ASTType::ExpressionBase));
    assert!(is_instance(&e, ASTType::TupleOrLocationExprBase));
    assert!(is_instance(&e, ASTType::LocationExprBase));
    assert!(!is_instance(&e, ASTType::LiteralExprBase));
    let a = NodeKind {
        shape: AstShape::Statement(StatementKind::SimpleStatement(
            SimpleStatementKind::AssignmentStatement,
        )),
        ast_type: ASTType::CircuitInputStatement,
    };
    assert!(is_instance(&a, ASTType::AssignmentStatementBase));
    assert!(is_instance(&a, ASTType::SimpleStatementBase));
    let lit = NodeKind {
        shape: AstShape::Expression(ExpressionKind::LiteralExpr(LiteralExprKind::ArrayLiteralExpr)),
        ast_type: ASTType::KeyLiteralExpr,
    };
    assert!(is_instance(&lit, ASTType::ArrayLiteralExprBase));
    assert!(is_instance(&lit, ASTType::LiteralExprBase));
}

#[test]
fn is_instances_any_of() {
    let e = identifier_expr_kind();
    assert!(is_instances(&e, vec![ASTType::StatementBase, ASTType::IdentifierExpr]));
    assert!(!is_instances(&e, vec![ASTType::StatementBase, ASTType::IndexExpr]));
    assert!(!is_instances(&e, vec![]));
}

#[test]
fn kind_accessors() {
    let b = block_kind();
    assert_eq!(b.get_ast_type(), ASTType::Block);
    assert!(b.is_immutable());
    let e = identifier_expr_kind();
    assert_eq!(
        e.to_expr(),
        ExpressionKind::TupleOrLocationExpr(TupleOrLocationExprKind::LocationExpr)
    );
    assert_eq!(e.into_expr(), ExpressionKind::TupleOrLocationExpr(TupleOrLocationExprKind::LocationExpr));
}

#[test]
fn deep_clone_keeps_content() {
    let v = vec![block_kind(), identifier_expr_kind()];
    let c = v.clone_inner();
    assert_eq!(c, v);
    let o: Option<NodeKind> = Some(block_kind());
    assert_eq!(o.clone_inner(), o);
    let n: Option<NodeKind> = None;
    assert_eq!(n.clone_inner(), None);
}

#[test]
fn kind_tests_agree_with_the_hierarchy() {
    let placed = [
        (AstShape::Statement(StatementKind::IfStatement), ASTType::IfStatement),
        (
            AstShape::Statement(StatementKind::SimpleStatement(SimpleStatementKind::AssignmentStatement)),
            ASTType::CircuitInputStatement,
        ),
        (AstShape::Statement(StatementKind::StatementList), ASTType::IndentBlock),
        (AstShape::NamespaceDefinition, ASTType::ContractDefinition),
        (AstShape::SourceUnit, ASTType::SourceUnit),
    ];
    let targets = [
        ASTType::StatementBase,
        ASTType::SimpleStatementBase,
        ASTType::AssignmentStatementBase,
        ASTType::CircuitInputStatement,
        ASTType::StatementListBase,
        ASTType::IndentBlock,
        ASTType::Block,
        ASTType::IfStatement,
        ASTType::NamespaceDefinitionBase,
        ASTType::ContractDefinition,
        ASTType::SourceUnit,
        ASTType::ExpressionBase,
    ];
    for (shape, t) in placed {
        let k = NodeKind { shape, ast_type: t };
        let mut chain = vec![t];
        let mut c = t;
        while let Some(p) = bases(&c) {
            chain.push(p);
            c = p;
        }
        for target in targets {
            assert_eq!(is_instance(&k, target), chain.contains(&target), "{:?} {:?}", t, target);
        }
        assert!(!is_instance(&k, ASTType::ASTBase));
    }
}

#[test]
fn base_record_presence() {
    assert!(zkay_ast::node_kind::has_ast_base(&block_kind()));
    assert!(!zkay_ast::node_kind::has_ast_base(&NodeKind { shape: AstShape::Pragma, ast_type: ASTType::Pragma }));
    assert!(!zkay_ast::node_kind::has_ast_base(&NodeKind {
        shape: AstShape::Statement(StatementKind::CircuitStatement),
        ast_type: ASTType::CircComment,
    }));
}
