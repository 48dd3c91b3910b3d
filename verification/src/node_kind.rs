//! The shape of a node (the chain of enum variants that wraps it inside the
//! top-level node enum) together with its concrete kind, and the kind tests
//! that are decided from them.
use vstd::prelude::*;

use crate::ast_type::{is_subtype, is_subtype_within, ASTType};

verus! {

/// Which literal expression a `LiteralExpr` wraps.
#[derive(Clone, Copy, Debug, PartialEq, Eq, Structural, PartialOrd, Ord, Hash)]
pub enum LiteralExprKind {
    ArrayLiteralExpr,
    OtherLiteral,
}

/// Which expression a `TupleOrLocationExpr` wraps.
#[derive(Clone, Copy, Debug, PartialEq, Eq, Structural, PartialOrd, Ord, Hash)]
pub enum TupleOrLocationExprKind {
    LocationExpr,
    TupleExpr,
}

/// The variant of the expression enum a node sits in.
#[derive(Clone, Copy, Debug, PartialEq, Eq, Structural, PartialOrd, Ord, Hash)]
pub enum ExpressionKind {
    FunctionCallExpr,
    LiteralExpr(LiteralExprKind),
    TupleOrLocationExpr(TupleOrLocationExprKind),
    ReclassifyExpr,
    OtherExpression,
}

/// The variant of the simple-statement enum a node sits in.
#[derive(Clone, Copy, Debug, PartialEq, Eq, Structural, PartialOrd, Ord, Hash)]
pub enum SimpleStatementKind {
    ExpressionStatement,
    RequireStatement,
    AssignmentStatement,
    VariableDeclarationStatement,
}

/// The variant of the statement enum a node sits in.
#[derive(Clone, Copy, Debug, PartialEq, Eq, Structural, PartialOrd, Ord, Hash)]
pub enum StatementKind {
    CircuitDirectiveStatement,
    IfStatement,
    WhileStatement,
    DoWhileStatement,
    ForStatement,
    BreakStatement,
    ContinueStatement,
    ReturnStatement,
    SimpleStatement(SimpleStatementKind),
    StatementList,
    CircuitStatement,
}

/// Which elementary type name an `ElementaryTypeName` wraps.
#[derive(Clone, Copy, Debug, PartialEq, Eq, Structural, PartialOrd, Ord, Hash)]
pub enum ElementaryTypeNameKind {
    NumberTypeName,
    OtherElementary,
}

/// The variant of the type-name enum a node sits in.
#[derive(Clone, Copy, Debug, PartialEq, Eq, Structural, PartialOrd, Ord, Hash)]
pub enum TypeNameKind {
    ElementaryTypeName(ElementaryTypeNameKind),
    UserDefinedTypeName,
    Array,
    OtherTypeName,
}

/// The variant of the top-level node enum a node sits in.
#[derive(Clone, Copy, Debug, PartialEq, Eq, Structural, PartialOrd, Ord, Hash)]
pub enum AstShape {
    Identifier,
    Comment,
    Expression(ExpressionKind),
    Statement(StatementKind),
    TypeName(TypeNameKind),
    AnnotatedTypeName,
    IdentifierDeclaration,
    NamespaceDefinition,
    EnumValue,
    SourceUnit,
    Pragma,
    VersionPragma,
    Modifier,
    Homomorphism,
}

/// What a kind test reads of a node: where it sits in the node enums and
/// its concrete kind.
#[derive(Clone, Copy, Debug, PartialEq, Eq, Structural, PartialOrd, Ord, Hash)]
pub struct NodeKind {
    pub shape: AstShape,
    pub ast_type: ASTType,
}

/// Whether a node of kind `var` counts as an instance of `ast_type`: the
/// abstract base kinds are recognised by the enum variant the node sits in,
/// every other kind by comparing the concrete kind.
pub open spec fn spec_is_instance(var: NodeKind, ast_type: ASTType) -> bool {
    match ast_type {
        ASTType::IdentifierBase => var.shape is Identifier,
        ASTType::CommentBase => var.shape is Comment,
        ASTType::ExpressionBase => var.shape is Expression,
        ASTType::StatementBase => var.shape is Statement,
        ASTType::TypeNameBase => var.shape is TypeName,
        ASTType::IdentifierDeclarationBase => var.shape is IdentifierDeclaration,
        ASTType::NamespaceDefinitionBase => var.shape is NamespaceDefinition,
        ASTType::FunctionCallExprBase => var.shape == AstShape::Expression(
            ExpressionKind::FunctionCallExpr,
        ),
        ASTType::LiteralExprBase => var.shape matches AstShape::Expression(
            ExpressionKind::LiteralExpr(_),
        ),
        ASTType::TupleOrLocationExprBase => var.shape matches AstShape::Expression(
            ExpressionKind::TupleOrLocationExpr(_),
        ),
        ASTType::ArrayLiteralExprBase => var.shape == AstShape::Expression(
            ExpressionKind::LiteralExpr(LiteralExprKind::ArrayLiteralExpr),
        ),
        ASTType::LocationExprBase => var.shape == AstShape::Expression(
            ExpressionKind::TupleOrLocationExpr(TupleOrLocationExprKind::LocationExpr),
        ),
        ASTType::ReclassifyExprBase => var.shape == AstShape::Expression(
            ExpressionKind::ReclassifyExpr,
        ),
        ASTType::CircuitDirectiveStatementBase => var.shape == AstShape::Statement(
            StatementKind::CircuitDirectiveStatement,
        ),
        ASTType::SimpleStatementBase => var.shape matches AstShape::Statement(
            StatementKind::SimpleStatement(_),
        ),
        ASTType::StatementListBase => var.shape == AstShape::Statement(
            StatementKind::StatementList,
        ),
        ASTType::AssignmentStatementBase => var.shape == AstShape::Statement(
            StatementKind::SimpleStatement(SimpleStatementKind::AssignmentStatement),
        ),
        ASTType::ElementaryTypeNameBase => var.shape matches AstShape::TypeName(
            TypeNameKind::ElementaryTypeName(_),
        ),
        ASTType::UserDefinedTypeNameBase => var.shape == AstShape::TypeName(
            TypeNameKind::UserDefinedTypeName,
        ),
        ASTType::NumberTypeNameBase => var.shape == AstShape::TypeName(
            TypeNameKind::ElementaryTypeName(ElementaryTypeNameKind::NumberTypeName),
        ),
        ASTType::ArrayBase => var.shape == AstShape::TypeName(TypeNameKind::Array),
        _ => var.ast_type == ast_type,
    }
}

/// Where a node of a concrete kind sits in the node enums: the chain of
/// variants that wraps it. None for the abstract base kinds that no node
/// is made of, for the reclassification expressions (which sit beside their
/// base rather than under it) and for the circuit kinds.
pub open spec fn placed_kind(t: ASTType) -> Option<NodeKind> {
    let shape = match t {
        ASTType::CircuitComputationStatement | ASTType::EnterPrivateKeyStatement => Some(
            AstShape::Statement(StatementKind::CircuitDirectiveStatement),
        ),
        ASTType::IfStatement => Some(AstShape::Statement(StatementKind::IfStatement)),
        ASTType::WhileStatement => Some(AstShape::Statement(StatementKind::WhileStatement)),
        ASTType::DoWhileStatement => Some(AstShape::Statement(StatementKind::DoWhileStatement)),
        ASTType::ForStatement => Some(AstShape::Statement(StatementKind::ForStatement)),
        ASTType::BreakStatement => Some(AstShape::Statement(StatementKind::BreakStatement)),
        ASTType::ContinueStatement => Some(AstShape::Statement(StatementKind::ContinueStatement)),
        ASTType::ReturnStatement => Some(AstShape::Statement(StatementKind::ReturnStatement)),
        ASTType::ExpressionStatement => Some(
            AstShape::Statement(StatementKind::SimpleStatement(SimpleStatementKind::ExpressionStatement)),
        ),
        ASTType::RequireStatement => Some(
            AstShape::Statement(StatementKind::SimpleStatement(SimpleStatementKind::RequireStatement)),
        ),
        ASTType::AssignmentStatementBase | ASTType::CircuitInputStatement => Some(
            AstShape::Statement(StatementKind::SimpleStatement(SimpleStatementKind::AssignmentStatement)),
        ),
        ASTType::VariableDeclarationStatement => Some(
            AstShape::Statement(
                StatementKind::SimpleStatement(SimpleStatementKind::VariableDeclarationStatement),
            ),
        ),
        ASTType::StatementListBase | ASTType::Block | ASTType::IndentBlock => Some(
            AstShape::Statement(StatementKind::StatementList),
        ),
        ASTType::ConstructorOrFunctionDefinition | ASTType::EnumDefinition
        | ASTType::StructDefinition | ASTType::ContractDefinition => Some(AstShape::NamespaceDefinition),
        ASTType::SourceUnit => Some(AstShape::SourceUnit),
        ASTType::EnumValue => Some(AstShape::EnumValue),
        ASTType::IdentifierBase | ASTType::HybridArgumentIdf => Some(AstShape::Identifier),
        ASTType::CommentBase | ASTType::BlankLine => Some(AstShape::Comment),
        ASTType::VariableDeclaration | ASTType::Parameter
        | ASTType::StateVariableDeclaration => Some(AstShape::IdentifierDeclaration),
        ASTType::AnnotatedTypeName => Some(AstShape::AnnotatedTypeName),
        ASTType::Pragma => Some(AstShape::Pragma),
        ASTType::VersionPragma => Some(AstShape::VersionPragma),
        ASTType::Modifier => Some(AstShape::Modifier),
        ASTType::Homomorphism => Some(AstShape::Homomorphism),
        ASTType::BuiltinFunction | ASTType::PrimitiveCastExpr | ASTType::MeExpr
        | ASTType::AllExpr | ASTType::DummyAnnotation => Some(
            AstShape::Expression(ExpressionKind::OtherExpression),
        ),
        ASTType::FunctionCallExprBase | ASTType::NewExpr => Some(
            AstShape::Expression(ExpressionKind::FunctionCallExpr),
        ),
        ASTType::BooleanLiteralExpr | ASTType::NumberLiteralExpr
        | ASTType::StringLiteralExpr => Some(
            AstShape::Expression(ExpressionKind::LiteralExpr(LiteralExprKind::OtherLiteral)),
        ),
        ASTType::ArrayLiteralExprBase | ASTType::KeyLiteralExpr => Some(
            AstShape::Expression(ExpressionKind::LiteralExpr(LiteralExprKind::ArrayLiteralExpr)),
        ),
        ASTType::TupleExpr => Some(
            AstShape::Expression(
                ExpressionKind::TupleOrLocationExpr(TupleOrLocationExprKind::TupleExpr),
            ),
        ),
        ASTType::IdentifierExpr | ASTType::MemberAccessExpr | ASTType::IndexExpr
        | ASTType::SliceExpr => Some(
            AstShape::Expression(
                ExpressionKind::TupleOrLocationExpr(TupleOrLocationExprKind::LocationExpr),
            ),
        ),
        ASTType::BoolTypeName | ASTType::BooleanLiteralType => Some(
            AstShape::TypeName(
                TypeNameKind::ElementaryTypeName(ElementaryTypeNameKind::OtherElementary),
            ),
        ),
        ASTType::NumberTypeNameBase | ASTType::NumberLiteralType | ASTType::IntTypeName
        | ASTType::UintTypeName => Some(
            AstShape::TypeName(
                TypeNameKind::ElementaryTypeName(ElementaryTypeNameKind::NumberTypeName),
            ),
        ),
        ASTType::UserDefinedTypeNameBase | ASTType::EnumTypeName | ASTType::EnumValueTypeName
        | ASTType::StructTypeName | ASTType::ContractTypeName | ASTType::AddressTypeName
        | ASTType::AddressPayableTypeName => Some(AstShape::TypeName(TypeNameKind::UserDefinedTypeName)),
        ASTType::ArrayBase | ASTType::CipherText | ASTType::Randomness | ASTType::Key
        | ASTType::Proof => Some(AstShape::TypeName(TypeNameKind::Array)),
        ASTType::Mapping | ASTType::TupleType | ASTType::FunctionTypeName | ASTType::Literal => Some(
            AstShape::TypeName(TypeNameKind::OtherTypeName),
        ),
        _ => None,
    };
    match shape {
        Some(sh) => Some(NodeKind { shape: sh, ast_type: t }),
        None => None,
    }
}

/// Whether a node of kind `k` carries the common base record (position,
/// parent, scope and the like): pragma, version-pragma, modifier and
/// homomorphism entries and circuit statements do not.
pub open spec fn spec_has_ast_base(k: NodeKind) -> bool {
    !(k.shape is Pragma || k.shape is VersionPragma || k.shape is Modifier || k.shape is Homomorphism
        || k.shape == AstShape::Statement(StatementKind::CircuitStatement))
}

/// Whether a node of kind `k` carries the common base record.
pub fn has_ast_base(k: &NodeKind) -> (r: bool)
    ensures
        r == spec_has_ast_base(*k),
{
    !(matches!(k.shape, AstShape::Pragma) || matches!(k.shape, AstShape::VersionPragma) || matches!(
        k.shape,
        AstShape::Modifier
    ) || matches!(k.shape, AstShape::Homomorphism) || matches!(
        k.shape,
        AstShape::Statement(StatementKind::CircuitStatement)
    ))
}

/// Nodes of these kinds list no children: identifiers, comments (blank
/// lines included), tuple types and circuit statements.
pub open spec fn childless_kind(k: NodeKind) -> bool {
    ||| k.shape is Identifier
    ||| k.shape is Comment
    ||| k.shape == AstShape::Statement(StatementKind::CircuitStatement)
    ||| k.ast_type == ASTType::TupleType
    ||| k.ast_type == ASTType::CircComment
    ||| k.ast_type == ASTType::CircIndentBlock
    ||| k.ast_type == ASTType::CircCall
    ||| k.ast_type == ASTType::CircVarDecl
    ||| k.ast_type == ASTType::CircGuardModification
    ||| k.ast_type == ASTType::CircEncConstraint
    ||| k.ast_type == ASTType::CircSymmEncConstraint
    ||| k.ast_type == ASTType::CircEqConstraint
}

/// The shape of `k` is the one its concrete kind sits in: the placed
/// position for statement, definition and source-unit kinds, and for the
/// others the top-level variant that its base kinds call for.
pub open spec fn kind_valid(k: NodeKind) -> bool {
    let t = k.ast_type;
    match placed_kind(t) {
        Some(p) => k.shape == p.shape,
        None => {
            &&& (k.shape is Expression <==> is_subtype(t, ASTType::ExpressionBase))
            &&& (k.shape is TypeName <==> is_subtype(t, ASTType::TypeNameBase))
            &&& (k.shape is Identifier <==> is_subtype(t, ASTType::IdentifierBase))
            &&& (k.shape is Comment <==> is_subtype(t, ASTType::CommentBase))
            &&& (k.shape is IdentifierDeclaration <==> is_subtype(
                t,
                ASTType::IdentifierDeclarationBase,
            ))
            &&& (is_subtype(t, ASTType::StatementBase) ==> k.shape is Statement)
            &&& (k.shape is NamespaceDefinition ==> is_subtype(t, ASTType::NamespaceDefinitionBase))
            &&& (k.shape is AnnotatedTypeName <==> t == ASTType::AnnotatedTypeName)
        },
    }
}

/// For a valid kind, the kind tests against the top-level base kinds agree
/// with the hierarchy, and a statement, definition or source-unit kind is
/// an instance of exactly its own kind and its bases other than the root.
pub proof fn lemma_valid_kind_follows_hierarchy(k: NodeKind, target: ASTType)
    requires
        kind_valid(k),
        target != ASTType::ASTBase,
    ensures
        placed_kind(k.ast_type) is Some ==> (spec_is_instance(k, target) <==> is_subtype(
            k.ast_type,
            target,
        )),
        placed_kind(k.ast_type) is None ==> {
            &&& spec_is_instance(k, ASTType::ExpressionBase) <==> is_subtype(
                k.ast_type,
                ASTType::ExpressionBase,
            )
            &&& spec_is_instance(k, ASTType::TypeNameBase) <==> is_subtype(
                k.ast_type,
                ASTType::TypeNameBase,
            )
            &&& spec_is_instance(k, ASTType::IdentifierBase) <==> is_subtype(
                k.ast_type,
                ASTType::IdentifierBase,
            )
            &&& spec_is_instance(k, ASTType::CommentBase) <==> is_subtype(
                k.ast_type,
                ASTType::CommentBase,
            )
            &&& spec_is_instance(k, ASTType::IdentifierDeclarationBase) <==> is_subtype(
                k.ast_type,
                ASTType::IdentifierDeclarationBase,
            )
        },
{
    if placed_kind(k.ast_type) is Some {
        assert(k == placed_kind(k.ast_type)->Some_0);
        lemma_is_instance_follows_hierarchy(k.ast_type, target);
    }
}

/// The kind tests agree with the kind hierarchy: a node of a concrete kind
/// (identifiers, comments, expressions, statements, type names,
/// declarations, definitions, source units and the rest that `placed_kind`
/// places), sitting where that kind sits in the node enums, is an instance
/// of exactly its own kind and that kind's bases other than the root (no
/// node counts as an instance of the root `ASTBase`).
pub proof fn lemma_is_instance_follows_hierarchy(t: ASTType, target: ASTType)
    requires
        placed_kind(t) is Some,
        target != ASTType::ASTBase,
    ensures
        spec_is_instance(placed_kind(t)->Some_0, target) <==> is_subtype(t, target),
{
    reveal_with_fuel(is_subtype_within, 5);
    match t {
        ASTType::CircuitComputationStatement => {},
        ASTType::EnterPrivateKeyStatement => {},
        ASTType::IfStatement => {},
        ASTType::WhileStatement => {},
        ASTType::DoWhileStatement => {},
        ASTType::ForStatement => {},
        ASTType::BreakStatement => {},
        ASTType::ContinueStatement => {},
        ASTType::ReturnStatement => {},
        ASTType::ExpressionStatement => {},
        ASTType::RequireStatement => {},
        ASTType::AssignmentStatementBase => {},
        ASTType::CircuitInputStatement => {},
        ASTType::VariableDeclarationStatement => {},
        ASTType::StatementListBase => {},
        ASTType::Block => {},
        ASTType::IndentBlock => {},
        ASTType::ConstructorOrFunctionDefinition => {},
        ASTType::EnumDefinition => {},
        ASTType::StructDefinition => {},
        ASTType::ContractDefinition => {},
        ASTType::SourceUnit => {},
        ASTType::EnumValue => {},
        ASTType::IdentifierBase => {},
        ASTType::HybridArgumentIdf => {},
        ASTType::CommentBase => {},
        ASTType::BlankLine => {},
        ASTType::VariableDeclaration => {},
        ASTType::Parameter => {},
        ASTType::StateVariableDeclaration => {},
        ASTType::AnnotatedTypeName => {},
        ASTType::Pragma => {},
        ASTType::VersionPragma => {},
        ASTType::Modifier => {},
        ASTType::Homomorphism => {},
        ASTType::BuiltinFunction => {},
        ASTType::PrimitiveCastExpr => {},
        ASTType::MeExpr => {},
        ASTType::AllExpr => {},
        ASTType::DummyAnnotation => {},
        ASTType::FunctionCallExprBase => {},
        ASTType::NewExpr => {},
        ASTType::BooleanLiteralExpr => {},
        ASTType::NumberLiteralExpr => {},
        ASTType::StringLiteralExpr => {},
        ASTType::ArrayLiteralExprBase => {},
        ASTType::KeyLiteralExpr => {},
        ASTType::TupleExpr => {},
        ASTType::IdentifierExpr => {},
        ASTType::MemberAccessExpr => {},
        ASTType::IndexExpr => {},
        ASTType::SliceExpr => {},
        ASTType::BoolTypeName => {},
        ASTType::BooleanLiteralType => {},
        ASTType::NumberTypeNameBase => {},
        ASTType::NumberLiteralType => {},
        ASTType::IntTypeName => {},
        ASTType::UintTypeName => {},
        ASTType::UserDefinedTypeNameBase => {},
        ASTType::EnumTypeName => {},
        ASTType::EnumValueTypeName => {},
        ASTType::StructTypeName => {},
        ASTType::ContractTypeName => {},
        ASTType::AddressTypeName => {},
        ASTType::AddressPayableTypeName => {},
        ASTType::ArrayBase => {},
        ASTType::CipherText => {},
        ASTType::Randomness => {},
        ASTType::Key => {},
        ASTType::Proof => {},
        ASTType::Mapping => {},
        ASTType::TupleType => {},
        ASTType::FunctionTypeName => {},
        ASTType::Literal => {},
        _ => {},
    }
}

/// The reclassification expressions sit together in the reclassification
/// variant of the expression enum while each of them hangs directly below
/// `ExpressionBase` in the hierarchy: such a node is an instance of exactly
/// its own kind's bases other than the root, and of `ReclassifyExprBase`.
pub proof fn lemma_reclassify_kinds(t: ASTType, target: ASTType)
    requires
        t == ASTType::ReclassifyExprBase || t == ASTType::RehomExpr || t
            == ASTType::EncryptionExpression,
        target != ASTType::ASTBase,
    ensures
        ({
            let k = NodeKind { shape: AstShape::Expression(ExpressionKind::ReclassifyExpr), ast_type: t };
            spec_is_instance(k, target) <==> (is_subtype(t, target) || target
                == ASTType::ReclassifyExprBase)
        }),
{
    reveal_with_fuel(is_subtype_within, 5);
}

/// Whether a node of kind `var` counts as an instance of `ast_type`.
pub fn is_instance(var: &NodeKind, ast_type: ASTType) -> (r: bool)
    ensures
        r == spec_is_instance(*var, ast_type),
{
    match ast_type {
        ASTType::IdentifierBase => matches!(var.shape, AstShape::Identifier),
        ASTType::CommentBase => matches!(var.shape, AstShape::Comment),
        ASTType::ExpressionBase => matches!(var.shape, AstShape::Expression(_)),
        ASTType::StatementBase => matches!(var.shape, AstShape::Statement(_)),
        ASTType::TypeNameBase => matches!(var.shape, AstShape::TypeName(_)),
        ASTType::IdentifierDeclarationBase => matches!(var.shape, AstShape::IdentifierDeclaration),
        ASTType::NamespaceDefinitionBase => matches!(var.shape, AstShape::NamespaceDefinition),
        ASTType::FunctionCallExprBase => matches!(
            var.shape,
            AstShape::Expression(ExpressionKind::FunctionCallExpr)
        ),
        ASTType::LiteralExprBase => matches!(
            var.shape,
            AstShape::Expression(ExpressionKind::LiteralExpr(_))
        ),
        ASTType::TupleOrLocationExprBase => matches!(
            var.shape,
            AstShape::Expression(ExpressionKind::TupleOrLocationExpr(_))
        ),
        ASTType::ArrayLiteralExprBase => matches!(
            var.shape,
            AstShape::Expression(ExpressionKind::LiteralExpr(LiteralExprKind::ArrayLiteralExpr))
        ),
        ASTType::LocationExprBase => matches!(
            var.shape,
            AstShape::Expression(
                ExpressionKind::TupleOrLocationExpr(TupleOrLocationExprKind::LocationExpr)
            )
        ),
        ASTType::ReclassifyExprBase => matches!(
            var.shape,
            AstShape::Expression(ExpressionKind::ReclassifyExpr)
        ),
        ASTType::CircuitDirectiveStatementBase => matches!(
            var.shape,
            AstShape::Statement(StatementKind::CircuitDirectiveStatement)
        ),
        ASTType::SimpleStatementBase => matches!(
            var.shape,
            AstShape::Statement(StatementKind::SimpleStatement(_))
        ),
        ASTType::StatementListBase => matches!(
            var.shape,
            AstShape::Statement(StatementKind::StatementList)
        ),
        ASTType::AssignmentStatementBase => matches!(
            var.shape,
            AstShape::Statement(
                StatementKind::SimpleStatement(SimpleStatementKind::AssignmentStatement)
            )
        ),
        ASTType::ElementaryTypeNameBase => matches!(
            var.shape,
            AstShape::TypeName(TypeNameKind::ElementaryTypeName(_))
        ),
        ASTType::UserDefinedTypeNameBase => matches!(
            var.shape,
            AstShape::TypeName(TypeNameKind::UserDefinedTypeName)
        ),
        ASTType::NumberTypeNameBase => matches!(
            var.shape,
            AstShape::TypeName(TypeNameKind::ElementaryTypeName(ElementaryTypeNameKind::NumberTypeName))
        ),
        ASTType::ArrayBase => matches!(var.shape, AstShape::TypeName(TypeNameKind::Array)),
        _ => var.ast_type == ast_type,
    }
}

/// Whether `var` is an instance of at least one of `ast_types`.
pub fn is_instances(var: &NodeKind, ast_types: Vec<ASTType>) -> (r: bool)
    ensures
        r == exists|i: int| 0 <= i < ast_types.len() && spec_is_instance(*var, #[trigger] ast_types[i]),
{
    let n = ast_types.len();
    let mut i: usize = 0;
    while i < n
        invariant
            n == ast_types.len(),
            i <= n,
            forall|j: int| 0 <= j < i ==> !spec_is_instance(*var, #[trigger] ast_types[j]),
        decreases n - i,
    {
        if is_instance(var, ast_types[i]) {
            return true;
        }
        i = i + 1;
    }
    false
}

/// Access to the concrete kind of a node.
pub trait ASTInstanceOf {
    /// The concrete kind, as contracts see it.
    spec fn spec_ast_type(&self) -> ASTType;

    /// The concrete kind of this node.
    fn get_ast_type(&self) -> (t: ASTType)
        ensures
            t == self.spec_ast_type(),
    ;
}

impl ASTInstanceOf for NodeKind {
    open spec fn spec_ast_type(&self) -> ASTType {
        self.ast_type
    }

    fn get_ast_type(&self) -> (t: ASTType) {
        self.ast_type
    }
}

/// Viewing a node as an expression, which it must be.
pub trait IntoExpression: Sized {
    /// The expression variant the value sits in, if it is an expression.
    spec fn expression_view(&self) -> Option<ExpressionKind>;

    /// The expression variant of a value that is an expression.
    fn into_expr(self) -> (e: ExpressionKind)
        requires
            self.expression_view() is Some,
        ensures
            self.expression_view() == Some(e),
    ;

    /// The expression variant of a value that is an expression, by reference.
    fn to_expr(&self) -> (e: ExpressionKind)
        requires
            self.expression_view() is Some,
        ensures
            self.expression_view() == Some(e),
    ;
}

impl IntoExpression for AstShape {
    open spec fn expression_view(&self) -> Option<ExpressionKind> {
        match *self {
            AstShape::Expression(e) => Some(e),
            _ => None,
        }
    }

    fn into_expr(self) -> (e: ExpressionKind) {
        match self {
            AstShape::Expression(e) => e,
            _ => ExpressionKind::OtherExpression,
        }
    }

    fn to_expr(&self) -> (e: ExpressionKind) {
        match self {
            AstShape::Expression(e) => *e,
            _ => ExpressionKind::OtherExpression,
        }
    }
}

impl IntoExpression for NodeKind {
    open spec fn expression_view(&self) -> Option<ExpressionKind> {
        self.shape.expression_view()
    }

    fn into_expr(self) -> (e: ExpressionKind) {
        self.shape.into_expr()
    }

    fn to_expr(&self) -> (e: ExpressionKind) {
        self.shape.to_expr()
    }
}

/// A node's value is never mutated in place by the passes that read it.
pub trait Immutable {
    fn is_immutable(&self) -> bool;
}

impl Immutable for NodeKind {
    fn is_immutable(&self) -> (r: bool)
        ensures
            r,
    {
        true
    }
}

/// A copy of a value that shares nothing with the value it was made from.
pub trait DeepClone: Sized {
    /// `other` holds the same content as `self`.
    spec fn same_content(&self, other: &Self) -> bool;

    /// A fresh copy with the same content.
    fn clone_inner(&self) -> (r: Self)
        ensures
            self.same_content(&r),
    ;
}

impl DeepClone for NodeKind {
    open spec fn same_content(&self, other: &Self) -> bool {
        *self == *other
    }

    fn clone_inner(&self) -> (r: Self) {
        *self
    }
}

impl<T: DeepClone> DeepClone for Option<T> {
    open spec fn same_content(&self, other: &Self) -> bool {
        match (*self, *other) {
            (Some(a), Some(b)) => a.same_content(&b),
            (None, None) => true,
            _ => false,
        }
    }

    fn clone_inner(&self) -> (r: Self) {
        match self {
            Some(s) => Some(s.clone_inner()),
            None => None,
        }
    }
}

impl<T: DeepClone> DeepClone for Vec<T> {
    open spec fn same_content(&self, other: &Self) -> bool {
        &&& self@.len() == other@.len()
        &&& forall|i: int| 0 <= i < self@.len() ==> (#[trigger] self@[i]).same_content(&other@[i])
    }

    fn clone_inner(&self) -> (r: Self) {
        let mut r: Vec<T> = Vec::new();
        let n = self.len();
        let mut i: usize = 0;
        while i < n
            invariant
                n == self@.len(),
                i <= n,
                r@.len() == i,
                forall|j: int| 0 <= j < i ==> (#[trigger] self@[j]).same_content(&r@[j]),
            decreases n - i,
        {
            r.push(self[i].clone_inner());
            i = i + 1;
        }
        r
    }
}

} // verus!
