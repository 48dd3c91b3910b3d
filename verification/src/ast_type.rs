//! The kinds of syntax-tree nodes and the class hierarchy that relates them.
use vstd::prelude::*;

verus! {

/// Every kind of node that can occur in a syntax tree, including the
/// abstract "base" kinds that only serve as ancestors in the hierarchy.
#[derive(Clone, Copy, Debug, PartialEq, Eq, Structural, PartialOrd, Ord, Hash)]
pub enum ASTType {
    ASTBase,
    IdentifierBase,
    CommentBase,
    ExpressionBase,
    StatementBase,
    TypeNameBase,
    AnnotatedTypeName,
    IdentifierDeclarationBase,
    NamespaceDefinitionBase,
    EnumValue,
    SourceUnit,
    Pragma,
    VersionPragma,
    Modifier,
    Homomorphism,
    BlankLine,
    BuiltinFunction,
    FunctionCallExprBase,
    NewExpr,
    PrimitiveCastExpr,
    LiteralExprBase,
    TupleOrLocationExprBase,
    MeExpr,
    AllExpr,
    ReclassifyExpr,
    BooleanLiteralExpr,
    NumberLiteralExpr,
    StringLiteralExpr,
    ArrayLiteralExprBase,
    KeyLiteralExpr,
    TupleExpr,
    LocationExprBase,
    IdentifierExpr,
    MemberAccessExpr,
    IndexExpr,
    SliceExpr,
    ReclassifyExprBase,
    RehomExpr,
    EncryptionExpression,
    HybridArgumentIdf,
    CircuitDirectiveStatementBase,
    IfStatement,
    WhileStatement,
    DoWhileStatement,
    ForStatement,
    BreakStatement,
    ContinueStatement,
    ReturnStatement,
    SimpleStatementBase,
    StatementListBase,
    CircuitComputationStatement,
    EnterPrivateKeyStatement,
    ExpressionStatement,
    RequireStatement,
    AssignmentStatementBase,
    VariableDeclarationStatement,
    CircuitInputStatement,
    Block,
    IndentBlock,
    ElementaryTypeNameBase,
    UserDefinedTypeNameBase,
    Mapping,
    TupleType,
    FunctionTypeName,
    Literal,
    BoolTypeName,
    BooleanLiteralType,
    NumberLiteralType,
    IntTypeName,
    UintTypeName,
    NumberTypeNameBase,
    EnumTypeName,
    EnumValueTypeName,
    StructTypeName,
    ContractTypeName,
    AddressTypeName,
    AddressPayableTypeName,
    CipherText,
    Randomness,
    Key,
    Proof,
    ArrayBase,
    VariableDeclaration,
    Parameter,
    StateVariableDeclaration,
    ConstructorOrFunctionDefinition,
    EnumDefinition,
    StructDefinition,
    ContractDefinition,
    DummyAnnotation,
    CircComment,
    CircIndentBlock,
    CircCall,
    CircVarDecl,
    CircGuardModification,
    CircEncConstraint,
    CircSymmEncConstraint,
    CircEqConstraint,
}

/// The direct base kind of a node kind; `ASTBase` is the one root and has none.
pub open spec fn base_of(t: ASTType) -> Option<ASTType> {
    match t {
        ASTType::IdentifierBase |
        ASTType::CommentBase |
        ASTType::ExpressionBase |
        ASTType::StatementBase |
        ASTType::TypeNameBase |
        ASTType::AnnotatedTypeName |
        ASTType::IdentifierDeclarationBase |
        ASTType::NamespaceDefinitionBase |
        ASTType::EnumValue |
        ASTType::SourceUnit |
        ASTType::Pragma |
        ASTType::VersionPragma |
        ASTType::Modifier |
        ASTType::Homomorphism => Some(ASTType::ASTBase),
        ASTType::BlankLine => Some(ASTType::CommentBase),
        ASTType::BuiltinFunction |
        ASTType::FunctionCallExprBase |
        ASTType::PrimitiveCastExpr |
        ASTType::LiteralExprBase |
        ASTType::TupleOrLocationExprBase |
        ASTType::MeExpr |
        ASTType::AllExpr |
        ASTType::ReclassifyExpr |
        ASTType::ReclassifyExprBase |
        ASTType::RehomExpr |
        ASTType::EncryptionExpression |
        ASTType::DummyAnnotation => Some(ASTType::ExpressionBase),
        ASTType::NewExpr => Some(ASTType::FunctionCallExprBase),
        ASTType::BooleanLiteralExpr |
        ASTType::NumberLiteralExpr |
        ASTType::StringLiteralExpr |
        ASTType::ArrayLiteralExprBase => Some(ASTType::LiteralExprBase),
        ASTType::KeyLiteralExpr => Some(ASTType::ArrayLiteralExprBase),
        ASTType::TupleExpr |
        ASTType::LocationExprBase => Some(ASTType::TupleOrLocationExprBase),
        ASTType::IdentifierExpr |
        ASTType::MemberAccessExpr |
        ASTType::IndexExpr |
        ASTType::SliceExpr => Some(ASTType::LocationExprBase),
        ASTType::HybridArgumentIdf => Some(ASTType::IdentifierBase),
        ASTType::CircuitDirectiveStatementBase |
        ASTType::IfStatement |
        ASTType::WhileStatement |
        ASTType::DoWhileStatement |
        ASTType::ForStatement |
        ASTType::BreakStatement |
        ASTType::ContinueStatement |
        ASTType::ReturnStatement |
        ASTType::SimpleStatementBase |
        ASTType::StatementListBase => Some(ASTType::StatementBase),
        ASTType::CircuitComputationStatement |
        ASTType::EnterPrivateKeyStatement => Some(ASTType::CircuitDirectiveStatementBase),
        ASTType::ExpressionStatement |
        ASTType::RequireStatement |
        ASTType::AssignmentStatementBase |
        ASTType::VariableDeclarationStatement => Some(ASTType::SimpleStatementBase),
        ASTType::CircuitInputStatement => Some(ASTType::AssignmentStatementBase),
        ASTType::Block |
        ASTType::IndentBlock => Some(ASTType::StatementListBase),
        ASTType::ElementaryTypeNameBase |
        ASTType::UserDefinedTypeNameBase |
        ASTType::Mapping |
        ASTType::TupleType |
        ASTType::FunctionTypeName |
        ASTType::Literal |
        ASTType::ArrayBase => Some(ASTType::TypeNameBase),
        ASTType::BoolTypeName |
        ASTType::BooleanLiteralType |
        ASTType::NumberTypeNameBase => Some(ASTType::ElementaryTypeNameBase),
        ASTType::NumberLiteralType |
        ASTType::IntTypeName |
        ASTType::UintTypeName => Some(ASTType::NumberTypeNameBase),
        ASTType::EnumTypeName |
        ASTType::EnumValueTypeName |
        ASTType::StructTypeName |
        ASTType::ContractTypeName |
        ASTType::AddressTypeName |
        ASTType::AddressPayableTypeName => Some(ASTType::UserDefinedTypeNameBase),
        ASTType::CipherText |
        ASTType::Randomness |
        ASTType::Key |
        ASTType::Proof => Some(ASTType::ArrayBase),
        ASTType::VariableDeclaration |
        ASTType::Parameter |
        ASTType::StateVariableDeclaration => Some(ASTType::IdentifierDeclarationBase),
        ASTType::ConstructorOrFunctionDefinition |
        ASTType::EnumDefinition |
        ASTType::StructDefinition |
        ASTType::ContractDefinition |
        ASTType::CircComment |
        ASTType::CircIndentBlock |
        ASTType::CircCall |
        ASTType::CircVarDecl |
        ASTType::CircGuardModification |
        ASTType::CircEncConstraint |
        ASTType::CircSymmEncConstraint |
        ASTType::CircEqConstraint => Some(ASTType::NamespaceDefinitionBase),
        ASTType::ASTBase => None,
    }
}

/// The direct base kind of `child` in the node hierarchy.
pub fn bases(child: &ASTType) -> (r: Option<ASTType>)
    ensures
        r == base_of(*child),
{
    match child {
        ASTType::IdentifierBase |
        ASTType::CommentBase |
        ASTType::ExpressionBase |
        ASTType::StatementBase |
        ASTType::TypeNameBase |
        ASTType::AnnotatedTypeName |
        ASTType::IdentifierDeclarationBase |
        ASTType::NamespaceDefinitionBase |
        ASTType::EnumValue |
        ASTType::SourceUnit |
        ASTType::Pragma |
        ASTType::VersionPragma |
        ASTType::Modifier |
        ASTType::Homomorphism => Some(ASTType::ASTBase),
        ASTType::BlankLine => Some(ASTType::CommentBase),
        ASTType::BuiltinFunction |
        ASTType::FunctionCallExprBase |
        ASTType::PrimitiveCastExpr |
        ASTType::LiteralExprBase |
        ASTType::TupleOrLocationExprBase |
        ASTType::MeExpr |
        ASTType::AllExpr |
        ASTType::ReclassifyExpr |
        ASTType::ReclassifyExprBase |
        ASTType::RehomExpr |
        ASTType::EncryptionExpression |
        ASTType::DummyAnnotation => Some(ASTType::ExpressionBase),
        ASTType::NewExpr => Some(ASTType::FunctionCallExprBase),
        ASTType::BooleanLiteralExpr |
        ASTType::NumberLiteralExpr |
        ASTType::StringLiteralExpr |
        ASTType::ArrayLiteralExprBase => Some(ASTType::LiteralExprBase),
        ASTType::KeyLiteralExpr => Some(ASTType::ArrayLiteralExprBase),
        ASTType::TupleExpr |
        ASTType::LocationExprBase => Some(ASTType::TupleOrLocationExprBase),
        ASTType::IdentifierExpr |
        ASTType::MemberAccessExpr |
        ASTType::IndexExpr |
        ASTType::SliceExpr => Some(ASTType::LocationExprBase),
        ASTType::HybridArgumentIdf => Some(ASTType::IdentifierBase),
        ASTType::CircuitDirectiveStatementBase |
        ASTType::IfStatement |
        ASTType::WhileStatement |
        ASTType::DoWhileStatement |
        ASTType::ForStatement |
        ASTType::BreakStatement |
        ASTType::ContinueStatement |
        ASTType::ReturnStatement |
        ASTType::SimpleStatementBase |
        ASTType::StatementListBase => Some(ASTType::StatementBase),
        ASTType::CircuitComputationStatement |
        ASTType::EnterPrivateKeyStatement => Some(ASTType::CircuitDirectiveStatementBase),
        ASTType::ExpressionStatement |
        ASTType::RequireStatement |
        ASTType::AssignmentStatementBase |
        ASTType::VariableDeclarationStatement => Some(ASTType::SimpleStatementBase),
        ASTType::CircuitInputStatement => Some(ASTType::AssignmentStatementBase),
        ASTType::Block |
        ASTType::IndentBlock => Some(ASTType::StatementListBase),
        ASTType::ElementaryTypeNameBase |
        ASTType::UserDefinedTypeNameBase |
        ASTType::Mapping |
        ASTType::TupleType |
        ASTType::FunctionTypeName |
        ASTType::Literal |
        ASTType::ArrayBase => Some(ASTType::TypeNameBase),
        ASTType::BoolTypeName |
        ASTType::BooleanLiteralType |
        ASTType::NumberTypeNameBase => Some(ASTType::ElementaryTypeNameBase),
        ASTType::NumberLiteralType |
        ASTType::IntTypeName |
        ASTType::UintTypeName => Some(ASTType::NumberTypeNameBase),
        ASTType::EnumTypeName |
        ASTType::EnumValueTypeName |
        ASTType::StructTypeName |
        ASTType::ContractTypeName |
        ASTType::AddressTypeName |
        ASTType::AddressPayableTypeName => Some(ASTType::UserDefinedTypeNameBase),
        ASTType::CipherText |
        ASTType::Randomness |
        ASTType::Key |
        ASTType::Proof => Some(ASTType::ArrayBase),
        ASTType::VariableDeclaration |
        ASTType::Parameter |
        ASTType::StateVariableDeclaration => Some(ASTType::IdentifierDeclarationBase),
        ASTType::ConstructorOrFunctionDefinition |
        ASTType::EnumDefinition |
        ASTType::StructDefinition |
        ASTType::ContractDefinition |
        ASTType::CircComment |
        ASTType::CircIndentBlock |
        ASTType::CircCall |
        ASTType::CircVarDecl |
        ASTType::CircGuardModification |
        ASTType::CircEncConstraint |
        ASTType::CircSymmEncConstraint |
        ASTType::CircEqConstraint => Some(ASTType::NamespaceDefinitionBase),
        ASTType::ASTBase => None,
    }
}

/// One step up the hierarchy; the root stays where it is.
pub open spec fn up(t: ASTType) -> ASTType {
    match base_of(t) {
        Some(p) => p,
        None => t,
    }
}

/// The number of steps from `t` up to the root `ASTBase`.
pub open spec fn depth(t: ASTType) -> nat {
    if t == ASTType::ASTBase {
        0
    } else if up(t) == ASTType::ASTBase {
        1
    } else if up(up(t)) == ASTType::ASTBase {
        2
    } else if up(up(up(t))) == ASTType::ASTBase {
        3
    } else {
        4
    }
}

/// `t` reaches `anc` by following at most `n` base links.
pub open spec fn is_subtype_within(t: ASTType, anc: ASTType, n: nat) -> bool
    decreases n,
{
    t == anc || (n > 0 && match base_of(t) {
        Some(p) => is_subtype_within(p, anc, (n - 1) as nat),
        None => false,
    })
}

/// `t` is `anc` or a (transitive) sub-kind of it.
pub open spec fn is_subtype(t: ASTType, anc: ASTType) -> bool {
    is_subtype_within(t, anc, 4)
}

/// Every kind but the root has a base, and the base is one step closer to the
/// root: the chain of bases from any kind ends at `ASTBase` after at most four steps.
pub proof fn lemma_base_is_closer_to_root(t: ASTType)
    ensures
        (base_of(t) is None) <==> t == ASTType::ASTBase,
        depth(t) <= 4,
        base_of(t) matches Some(p) ==> depth(p) + 1 == depth(t) && up(up(up(up(t)))) == ASTType::ASTBase,
        t != ASTType::ASTBase ==> up(up(up(up(t)))) == ASTType::ASTBase,
{
    match t {
        _ => {},
    }
}

proof fn lemma_within_mono(t: ASTType, anc: ASTType, n: nat, m: nat)
    requires
        is_subtype_within(t, anc, n),
        n <= m,
    ensures
        is_subtype_within(t, anc, m),
    decreases n,
{
    if t != anc {
        let p = base_of(t)->Some_0;
        lemma_within_mono(p, anc, (n - 1) as nat, (m - 1) as nat);
    }
}

proof fn lemma_within_trans(t: ASTType, a: ASTType, b: ASTType, n: nat, m: nat)
    requires
        is_subtype_within(t, a, n),
        is_subtype_within(a, b, m),
    ensures
        is_subtype_within(t, b, n + m),
    decreases n,
{
    if t == a {
        lemma_within_mono(a, b, m, n + m);
    } else {
        let p = base_of(t)->Some_0;
        lemma_within_trans(p, a, b, (n - 1) as nat, m);
    }
}

proof fn lemma_within_depth(t: ASTType, anc: ASTType, n: nat)
    requires
        is_subtype_within(t, anc, n),
    ensures
        is_subtype_within(t, anc, depth(t)),
        depth(anc) <= depth(t),
        depth(anc) == depth(t) ==> anc == t,
    decreases n,
{
    lemma_base_is_closer_to_root(t);
    if t != anc {
        let p = base_of(t)->Some_0;
        lemma_within_depth(p, anc, (n - 1) as nat);
    }
}

proof fn lemma_reaches_root(t: ASTType)
    ensures
        is_subtype_within(t, ASTType::ASTBase, depth(t)),
    decreases depth(t),
{
    lemma_base_is_closer_to_root(t);
    if t != ASTType::ASTBase {
        lemma_reaches_root(base_of(t)->Some_0);
    }
}

/// Every node kind is a sub-kind of the root `ASTBase`.
pub proof fn lemma_root_is_ancestor_of_all(t: ASTType)
    ensures
        is_subtype(t, ASTType::ASTBase),
{
    lemma_reaches_root(t);
    lemma_base_is_closer_to_root(t);
    lemma_within_mono(t, ASTType::ASTBase, depth(t), 4);
}

/// A kind is a sub-kind of itself and of its direct base, and its base differs from it.
pub proof fn lemma_subtype_of_base(t: ASTType)
    ensures
        is_subtype(t, t),
        base_of(t) matches Some(p) ==> is_subtype(t, p) && p != t,
{
    lemma_base_is_closer_to_root(t);
    reveal_with_fuel(is_subtype_within, 2);
}

/// The sub-kind relation is transitive.
pub proof fn lemma_subtype_transitive(t: ASTType, a: ASTType, b: ASTType)
    requires
        is_subtype(t, a),
        is_subtype(a, b),
    ensures
        is_subtype(t, b),
{
    lemma_within_trans(t, a, b, 4, 4);
    lemma_within_depth(t, b, 8);
    lemma_base_is_closer_to_root(t);
    lemma_within_mono(t, b, depth(t), 4);
}

/// The sub-kind relation is antisymmetric: the hierarchy has no cycles.
pub proof fn lemma_subtype_antisymmetric(t: ASTType, a: ASTType)
    requires
        is_subtype(t, a),
        is_subtype(a, t),
    ensures
        t == a,
{
    lemma_within_depth(t, a, 4);
    lemma_within_depth(a, t, 4);
}

} // verus!
