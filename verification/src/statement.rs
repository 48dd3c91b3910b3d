//! Statements and the order in which they list their children. Every part
//! of a statement that is itself a node (a condition, a body, an expression)
//! is an index into a node store.
use vstd::prelude::*;

use crate::tree::{add_children, add_optional_child, opt_seq, ASTChildren, ChildListBuilder};

verus! {

/// The text of `o`, or the empty text.
pub open spec fn text_or_empty(o: Option<String>) -> Seq<char> {
    match o {
        Some(s) => s@,
        None => Seq::empty(),
    }
}

fn string_or_empty(o: Option<String>) -> (r: String)
    ensures
        r@ == text_or_empty(o),
{
    match o {
        Some(s) => s,
        None => String::new(),
    }
}

/// `break`.
pub struct BreakStatement {}

impl BreakStatement {
    pub fn new() -> (r: Self) {
        BreakStatement {}
    }
}

/// `continue`.
pub struct ContinueStatement {}

impl ContinueStatement {
    pub fn new() -> (r: Self) {
        ContinueStatement {}
    }
}

/// A marker for where the proof circuit is computed, with an optional name.
pub struct CircuitComputationStatement {
    pub idf: Option<usize>,
}

impl CircuitComputationStatement {
    pub fn new(idf: Option<usize>) -> (r: Self)
        ensures
            r.idf == idf,
    {
        CircuitComputationStatement { idf }
    }
}

/// `if (condition) then_branch else else_branch`.
pub struct IfStatement {
    pub condition: usize,
    pub then_branch: usize,
    pub else_branch: Option<usize>,
}

impl IfStatement {
    pub fn new(condition: usize, then_branch: usize, else_branch: Option<usize>) -> (r: Self)
        ensures
            r.condition == condition,
            r.then_branch == then_branch,
            r.else_branch == else_branch,
    {
        IfStatement { condition, then_branch, else_branch }
    }
}

/// The children of an `if` statement: the condition, then the then branch,
/// then the else branch exactly when there is one.
pub proof fn lemma_if_statement_parts(st: IfStatement)
    ensures
        ({
            let s = st.spec_children();
            &&& s.len() == if st.else_branch is Some { 3int } else { 2int }
            &&& s[0] == st.condition
            &&& s[1] == st.then_branch
            &&& st.else_branch matches Some(e) ==> s[2] == e
        }),
{
}

impl ASTChildren for IfStatement {
    /// The condition, the then branch and the else branch if there is one.
    open spec fn spec_children(&self) -> Seq<usize> {
        seq![self.condition, self.then_branch] + opt_seq(self.else_branch)
    }

    fn process_children(&self, cb: &mut ChildListBuilder) {
        cb.add_child(self.condition);
        cb.add_child(self.then_branch);
        add_optional_child(cb, self.else_branch);
        assert(cb.children@ =~= old(cb).children@ + self.spec_children());
    }
}

/// `while (condition) body`.
pub struct WhileStatement {
    pub condition: usize,
    pub body: usize,
}

impl WhileStatement {
    pub fn new(condition: usize, body: usize) -> (r: Self)
        ensures
            r.condition == condition,
            r.body == body,
    {
        WhileStatement { condition, body }
    }
}

impl ASTChildren for WhileStatement {
    /// The condition, then the body.
    open spec fn spec_children(&self) -> Seq<usize> {
        seq![self.condition, self.body]
    }

    fn process_children(&self, cb: &mut ChildListBuilder) {
        cb.add_child(self.condition);
        cb.add_child(self.body);
        assert(cb.children@ =~= old(cb).children@ + self.spec_children());
    }
}

/// `do body while (condition)`.
pub struct DoWhileStatement {
    pub body: usize,
    pub condition: usize,
}

impl DoWhileStatement {
    pub fn new(body: usize, condition: usize) -> (r: Self)
        ensures
            r.body == body,
            r.condition == condition,
    {
        DoWhileStatement { body, condition }
    }
}

impl ASTChildren for DoWhileStatement {
    /// The body, then the condition.
    open spec fn spec_children(&self) -> Seq<usize> {
        seq![self.body, self.condition]
    }

    fn process_children(&self, cb: &mut ChildListBuilder) {
        cb.add_child(self.body);
        cb.add_child(self.condition);
        assert(cb.children@ =~= old(cb).children@ + self.spec_children());
    }
}

/// `for (init; condition; update) body`.
pub struct ForStatement {
    pub init: Option<usize>,
    pub condition: usize,
    pub update: Option<usize>,
    pub body: usize,
}

/// The parts of a `for` statement in order, the absent ones left out.
pub open spec fn spec_for_statements(f: ForStatement) -> Seq<usize> {
    opt_seq(f.init) + seq![f.condition] + opt_seq(f.update) + seq![f.body]
}

/// The parts of a `for` statement, each present one independently of the
/// others: the initialisation first when there is one, then the condition,
/// then the update when there is one, and the body last; nothing else.
pub proof fn lemma_for_statements_parts(f: ForStatement)
    ensures
        ({
            let s = spec_for_statements(f);
            let i: int = if f.init is Some { 1 } else { 0 };
            let u: int = if f.update is Some { 1 } else { 0 };
            &&& s.len() == 2 + i + u
            &&& f.init matches Some(x) ==> s[0] == x
            &&& s[i] == f.condition
            &&& f.update matches Some(y) ==> s[i + 1] == y
            &&& s[s.len() - 1] == f.body
            &&& f.spec_children() == s
        }),
{
}

impl ForStatement {
    pub fn new(init: Option<usize>, condition: usize, update: Option<usize>, body: usize) -> (r: Self)
        ensures
            r.init == init,
            r.condition == condition,
            r.update == update,
            r.body == body,
    {
        ForStatement { init, condition, update, body }
    }

    /// The initialisation, condition, update and body, in this order, the
    /// absent ones left out.
    pub fn statements(&self) -> (r: Vec<usize>)
        ensures
            r@ == spec_for_statements(*self),
    {
        let mut r: Vec<usize> = Vec::new();
        if let Some(i) = self.init {
            r.push(i);
        }
        r.push(self.condition);
        if let Some(u) = self.update {
            r.push(u);
        }
        r.push(self.body);
        assert(r@ =~= spec_for_statements(*self));
        r
    }
}

impl ASTChildren for ForStatement {
    /// The same parts as `statements`, in the same order.
    open spec fn spec_children(&self) -> Seq<usize> {
        spec_for_statements(*self)
    }

    fn process_children(&self, cb: &mut ChildListBuilder) {
        add_optional_child(cb, self.init);
        cb.add_child(self.condition);
        add_optional_child(cb, self.update);
        cb.add_child(self.body);
        assert(cb.children@ =~= old(cb).children@ + self.spec_children());
    }
}

/// `return expr`, the expression being optional.
pub struct ReturnStatement {
    pub expr: Option<usize>,
}

impl ReturnStatement {
    pub fn new(expr: Option<usize>) -> (r: Self)
        ensures
            r.expr == expr,
    {
        ReturnStatement { expr }
    }
}

impl ASTChildren for ReturnStatement {
    /// The returned expression, if any.
    open spec fn spec_children(&self) -> Seq<usize> {
        opt_seq(self.expr)
    }

    fn process_children(&self, cb: &mut ChildListBuilder) {
        add_optional_child(cb, self.expr);
    }
}

/// An expression evaluated for its effect.
pub struct ExpressionStatement {
    pub expr: usize,
}

impl ExpressionStatement {
    pub fn new(expr: usize) -> (r: Self)
        ensures
            r.expr == expr,
    {
        ExpressionStatement { expr }
    }
}

impl ASTChildren for ExpressionStatement {
    /// The expression.
    open spec fn spec_children(&self) -> Seq<usize> {
        seq![self.expr]
    }

    fn process_children(&self, cb: &mut ChildListBuilder) {
        cb.add_child(self.expr);
        assert(cb.children@ =~= old(cb).children@ + self.spec_children());
    }
}

/// `require(condition)`, with the source text it was written as.
pub struct RequireStatement {
    pub condition: usize,
    pub unmodified_code: String,
}

impl RequireStatement {
    /// The source text defaults to the empty text.
    pub fn new(condition: usize, unmodified_code: Option<String>) -> (r: Self)
        ensures
            r.condition == condition,
            r.unmodified_code@ == text_or_empty(unmodified_code),
    {
        RequireStatement { condition, unmodified_code: string_or_empty(unmodified_code) }
    }
}

impl ASTChildren for RequireStatement {
    /// The condition.
    open spec fn spec_children(&self) -> Seq<usize> {
        seq![self.condition]
    }

    fn process_children(&self, cb: &mut ChildListBuilder) {
        cb.add_child(self.condition);
        assert(cb.children@ =~= old(cb).children@ + self.spec_children());
    }
}

/// `lhs op rhs`, both sides optional.
pub struct AssignmentStatementBase {
    pub lhs: Option<usize>,
    pub rhs: Option<usize>,
    pub op: String,
}

impl AssignmentStatementBase {
    /// The operator defaults to the empty text.
    pub fn new(lhs: Option<usize>, rhs: Option<usize>, op: Option<String>) -> (r: Self)
        ensures
            r.lhs == lhs,
            r.rhs == rhs,
            r.op@ == text_or_empty(op),
    {
        AssignmentStatementBase { lhs, rhs, op: string_or_empty(op) }
    }
}

/// The children of an assignment: the left-hand side first and the
/// right-hand side last, each exactly when it is present.
pub proof fn lemma_assignment_parts(st: AssignmentStatementBase)
    ensures
        ({
            let s = st.spec_children();
            &&& s.len() == (if st.lhs is Some { 1int } else { 0int }) + (if st.rhs is Some {
                1int
            } else {
                0int
            })
            &&& st.lhs matches Some(l) ==> s[0] == l
            &&& st.rhs matches Some(r) ==> s[s.len() - 1] == r
        }),
{
}

impl ASTChildren for AssignmentStatementBase {
    /// The left-hand side, then the right-hand side, each if present.
    open spec fn spec_children(&self) -> Seq<usize> {
        opt_seq(self.lhs) + opt_seq(self.rhs)
    }

    fn process_children(&self, cb: &mut ChildListBuilder) {
        add_optional_child(cb, self.lhs);
        add_optional_child(cb, self.rhs);
        assert(cb.children@ =~= old(cb).children@ + self.spec_children());
    }
}

/// An assignment that feeds a value into the proof circuit.
pub struct CircuitInputStatement {
    pub assignment_statement_base: AssignmentStatementBase,
}

impl CircuitInputStatement {
    pub fn new(lhs: usize, rhs: usize, op: Option<String>) -> (r: Self)
        ensures
            r.assignment_statement_base.lhs == Some(lhs),
            r.assignment_statement_base.rhs == Some(rhs),
            r.assignment_statement_base.op@ == text_or_empty(op),
    {
        CircuitInputStatement {
            assignment_statement_base: AssignmentStatementBase::new(Some(lhs), Some(rhs), op),
        }
    }
}

impl ASTChildren for CircuitInputStatement {
    /// None: its sides are not visited.
    open spec fn spec_children(&self) -> Seq<usize> {
        Seq::empty()
    }

    fn process_children(&self, cb: &mut ChildListBuilder) {
        assert(cb.children@ =~= old(cb).children@ + self.spec_children());
    }
}

/// A list of statements.
pub struct StatementListBase {
    pub statements: Vec<usize>,
    pub excluded_from_simulation: bool,
}

impl StatementListBase {
    pub fn new(statements: Vec<usize>, excluded_from_simulation: bool) -> (r: Self)
        ensures
            r.statements@ == statements@,
            r.excluded_from_simulation == excluded_from_simulation,
    {
        StatementListBase { statements, excluded_from_simulation }
    }
}

impl ASTChildren for StatementListBase {
    /// The statements, in order.
    open spec fn spec_children(&self) -> Seq<usize> {
        self.statements@
    }

    fn process_children(&self, cb: &mut ChildListBuilder) {
        add_children(cb, &self.statements);
    }
}

/// A braced block of statements.
pub struct Block {
    pub statement_list_base: StatementListBase,
    /// The block stands for a single statement written without braces.
    pub was_single_statement: bool,
}

impl Block {
    /// A block is never excluded from simulation.
    pub fn new(statements: Vec<usize>, was_single_statement: bool) -> (r: Self)
        ensures
            r.statement_list_base.statements@ == statements@,
            !r.statement_list_base.excluded_from_simulation,
            r.was_single_statement == was_single_statement,
    {
        Block {
            statement_list_base: StatementListBase::new(statements, false),
            was_single_statement,
        }
    }
}

impl ASTChildren for Block {
    /// The statements, in order.
    open spec fn spec_children(&self) -> Seq<usize> {
        self.statement_list_base.spec_children()
    }

    fn process_children(&self, cb: &mut ChildListBuilder) {
        self.statement_list_base.process_children(cb);
    }
}

/// A block written by indentation only.
pub struct IndentBlock {
    pub statement_list_base: StatementListBase,
}

impl IndentBlock {
    /// An indented block is never excluded from simulation.
    pub fn new(statements: Vec<usize>) -> (r: Self)
        ensures
            r.statement_list_base.statements@ == statements@,
            !r.statement_list_base.excluded_from_simulation,
    {
        IndentBlock { statement_list_base: StatementListBase::new(statements, false) }
    }
}

impl ASTChildren for IndentBlock {
    /// The statements, in order.
    open spec fn spec_children(&self) -> Seq<usize> {
        self.statement_list_base.spec_children()
    }

    fn process_children(&self, cb: &mut ChildListBuilder) {
        self.statement_list_base.process_children(cb);
    }
}

/// The declaration of a local variable, with its initial value if any.
pub struct VariableDeclarationStatement {
    pub variable_declaration: usize,
    pub expr: Option<usize>,
}

impl VariableDeclarationStatement {
    pub fn new(variable_declaration: usize, expr: Option<usize>) -> (r: Self)
        ensures
            r.variable_declaration == variable_declaration,
            r.expr == expr,
    {
        VariableDeclarationStatement { variable_declaration, expr }
    }
}

/// The children of a local variable declaration: the declaration, then the
/// initial value exactly when there is one.
pub proof fn lemma_variable_declaration_statement_parts(st: VariableDeclarationStatement)
    ensures
        ({
            let s = st.spec_children();
            &&& s.len() == if st.expr is Some { 2int } else { 1int }
            &&& s[0] == st.variable_declaration
            &&& st.expr matches Some(e) ==> s[1] == e
        }),
{
}

impl ASTChildren for VariableDeclarationStatement {
    /// The declaration, then the initial value if any.
    open spec fn spec_children(&self) -> Seq<usize> {
        seq![self.variable_declaration] + opt_seq(self.expr)
    }

    fn process_children(&self, cb: &mut ChildListBuilder) {
        cb.add_child(self.variable_declaration);
        add_optional_child(cb, self.expr);
        assert(cb.children@ =~= old(cb).children@ + self.spec_children());
    }
}

} // verus!
