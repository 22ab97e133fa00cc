//! Statements of the syntax tree, and the identifiers that tell its nodes apart.

use vstd::prelude::*;
use crate::ast::expr::{Expression, SpecExpression};
use crate::semantic::error::SemanticError;
use crate::semantic::visitor::{statement_accepted, statement_ready, StatementVisitor};

verus! {

broadcast use vstd::string::group_string_axioms;

/// The unique identifier of a statement or of an expression that names something.
#[derive(Debug, Clone, Copy, PartialEq, Eq, Structural, Hash, PartialOrd)]
pub struct NodeId(pub usize);

impl std::ops::Deref for NodeId {
    type Target = usize;

    fn deref(&self) -> (r: &usize)
        ensures
            *r == self.0,
    {
        &self.0
    }
}

/// The source of node identifiers of one parse: each identifier it issues is one
/// more than the one before, starting from 1.
pub struct NodeIds {
    last: usize,
}

impl NodeIds {
    /// The last identifier issued, 0 before the first.
    pub closed spec fn last(&self) -> usize {
        self.last
    }

    /// A source that has issued no identifier yet.
    pub fn new() -> (r: Self)
        ensures
            r.last() == 0,
    {
        NodeIds { last: 0 }
    }

    /// Issues the next identifier.
    pub fn next_id(&mut self) -> (r: NodeId)
        requires
            old(self).last() < usize::MAX,
        ensures
            final(self).last() == old(self).last() + 1,
            r == NodeId(final(self).last()),
    {
        self.last = self.last + 1;
        NodeId(self.last)
    }
}

/// Represents a structural statement in the toy language's Abstract Syntax Tree (AST).
#[derive(Debug)]
pub enum Statement {
    /// A variable declaration statement (e.g. `var age: int = 30;`).
    VariableDeclaration(VariableDeclaration, NodeId),
    /// A variable assignment statement (e.g. `age = 31;`).
    Assignment(Assignment, NodeId),
    /// An if-else conditional block.
    If(If, NodeId),
    /// A loop iteration block.
    Loop(Loop, NodeId),
    /// A standalone block statement containing a sequence of statements (e.g. `{ var score = 10; }`).
    Block(Block, NodeId),
    /// A function definition statement.
    FunctionDefinition(FunctionDefinition, NodeId),
    /// A standalone expression evaluated as a statement (typically a function call).
    FunctionCall(Expression, NodeId),
    /// A break control flow statement.
    Break(Break, NodeId),
    /// A return statement.
    Return(Return, NodeId),
    /// A print statement.
    Print(Print, NodeId),
}

/// Represents a variable declaration statement with optional type annotation and initialization.
///
/// Example: `var score: int = 100;`
#[derive(Debug, PartialEq)]
pub struct VariableDeclaration {
    pub variable: String,
    pub data_type: Option<String>,
    pub expression: Option<Expression>,
}

/// Represents a variable assignment statement.
///
/// Example: `score = 200;`
#[derive(Debug, PartialEq)]
pub struct Assignment {
    pub variable: String,
    pub expression: Expression,
}

/// Represents an if-else conditional block in the AST.
///
/// Example: `if x == 10 { var y = 1; } else { var y = 2; }`
#[derive(Debug, PartialEq)]
pub struct If {
    pub condition: Expression,
    pub body: Block,
    pub else_body: Option<Block>,
}

/// Represents a loop iteration block in the AST.
///
/// Example: `loop { break; }`
#[derive(Debug, PartialEq)]
pub struct Loop {
    pub body: Block,
}

/// Represents a block statement `{ ... }` in the AST.
///
/// A block contains a sequence of statements executed in a new lexical scope.
#[derive(Debug, PartialEq)]
pub struct Block {
    pub statements: Vec<Statement>,
}

/// Represents a function definition statement in the AST.
///
/// Example: `fn add(a: int, b: int): int { var sum = a + b; }`
#[derive(Debug, PartialEq)]
pub struct FunctionDefinition {
    pub name: String,
    pub parameters: Vec<FunctionParameter>,
    pub return_type: Option<String>,
    pub body: Block,
}

/// Represents a parameter in a function definition signature.
///
/// Example: `first: int`
#[derive(Debug, PartialEq)]
pub struct FunctionParameter {
    pub name: String,
    pub data_type: Option<String>,
}

/// Represents a break control flow statement.
///
/// Example: `break;`
#[derive(Debug, PartialEq)]
pub struct Break;

/// Represents a return control flow statement.
///
/// Example: `return expression;` or `return;`
#[derive(Debug, PartialEq)]
pub struct Return {
    pub expression: Option<Expression>,
}

/// Represents a print statement.
///
/// Example: `print name, age;`
#[derive(Debug, PartialEq)]
pub struct Print {
    pub arguments: Vec<Expression>,
}

/// What a variable declaration declares.
pub struct SpecVariableDeclaration {
    pub variable: Seq<char>,
    pub data_type: Option<Seq<char>>,
    pub expression: Option<SpecExpression>,
}

/// What an assignment assigns.
pub struct SpecAssignment {
    pub variable: Seq<char>,
    pub expression: SpecExpression,
}

/// A conditional: its condition, its body and its optional else branch.
pub struct SpecIf {
    pub condition: SpecExpression,
    pub body: Seq<SpecStatement>,
    pub else_body: Option<Seq<SpecStatement>>,
}

/// A parameter: its name and its optional type annotation.
pub struct SpecFunctionParameter {
    pub name: Seq<char>,
    pub data_type: Option<Seq<char>>,
}

/// A function definition: its name, parameters, optional return type and body.
pub struct SpecFunctionDefinition {
    pub name: Seq<char>,
    pub parameters: Seq<SpecFunctionParameter>,
    pub return_type: Option<Seq<char>>,
    pub body: Seq<SpecStatement>,
}

/// The shape of a statement: what it says, without the identifiers of its nodes.
pub enum SpecStatement {
    VariableDeclaration(SpecVariableDeclaration),
    Assignment(SpecAssignment),
    If(SpecIf),
    Loop(Seq<SpecStatement>),
    Block(Seq<SpecStatement>),
    FunctionDefinition(SpecFunctionDefinition),
    FunctionCall(SpecExpression),
    Break,
    Return(Option<SpecExpression>),
    Print(Seq<SpecExpression>),
}

/// The characters of an optional text.
pub open spec fn opt_text(o: Option<String>) -> Option<Seq<char>> {
    match o {
        Some(s) => Some(s@),
        None => None,
    }
}

/// The view of an optional expression.
pub open spec fn opt_expression(o: Option<Expression>) -> Option<SpecExpression> {
    match o {
        Some(e) => Some(e@),
        None => None,
    }
}

/// The views of a sequence of expressions.
pub open spec fn expressions_view(es: Seq<Expression>) -> Seq<SpecExpression> {
    es.map_values(|e: Expression| e@)
}

/// The views of a sequence of parameters.
pub open spec fn parameters_view(ps: Seq<FunctionParameter>) -> Seq<SpecFunctionParameter> {
    ps.map_values(|p: FunctionParameter| p@)
}

/// The shape of a statement.
pub open spec fn stmt_view(s: Statement) -> SpecStatement
    decreases s,
{
    match s {
        Statement::VariableDeclaration(d, _) => SpecStatement::VariableDeclaration(d@),
        Statement::Assignment(a, _) => SpecStatement::Assignment(a@),
        Statement::If(i, _) => SpecStatement::If(
            SpecIf {
                condition: i.condition@,
                body: stmts_view(i.body.statements@),
                else_body: match i.else_body {
                    Some(b) => Some(stmts_view(b.statements@)),
                    None => None,
                },
            },
        ),
        Statement::Loop(l, _) => SpecStatement::Loop(stmts_view(l.body.statements@)),
        Statement::Block(b, _) => SpecStatement::Block(stmts_view(b.statements@)),
        Statement::FunctionDefinition(f, _) => SpecStatement::FunctionDefinition(
            SpecFunctionDefinition {
                name: f.name@,
                parameters: parameters_view(f.parameters@),
                return_type: opt_text(f.return_type),
                body: stmts_view(f.body.statements@),
            },
        ),
        Statement::FunctionCall(e, _) => SpecStatement::FunctionCall(e@),
        Statement::Break(_, _) => SpecStatement::Break,
        Statement::Return(r, _) => SpecStatement::Return(opt_expression(r.expression)),
        Statement::Print(p, _) => SpecStatement::Print(expressions_view(p.arguments@)),
    }
}

/// The shapes of a sequence of statements.
pub open spec fn stmts_view(ss: Seq<Statement>) -> Seq<SpecStatement>
    decreases ss,
{
    if ss.len() == 0 {
        Seq::empty()
    } else {
        stmts_view(ss.drop_last()).push(stmt_view(ss.last()))
    }
}

/// The shapes of a sequence keep its length and its order.
pub proof fn lemma_stmts_view(ss: Seq<Statement>)
    ensures
        stmts_view(ss).len() == ss.len(),
        forall|i: int| 0 <= i < ss.len() ==> #[trigger] stmts_view(ss)[i] == stmt_view(ss[i]),
    decreases ss.len(),
{
    if ss.len() > 0 {
        lemma_stmts_view(ss.drop_last());
    }
}

/// Appending a statement appends its shape.
pub proof fn lemma_stmts_view_push(ss: Seq<Statement>, s: Statement)
    ensures
        stmts_view(ss.push(s)) == stmts_view(ss).push(stmt_view(s)),
{
    assert(ss.push(s).drop_last() =~= ss);
}

/// The identifier of a statement.
pub open spec fn stmt_id(s: Statement) -> NodeId {
    match s {
        Statement::VariableDeclaration(_, id) => id,
        Statement::Assignment(_, id) => id,
        Statement::If(_, id) => id,
        Statement::Loop(_, id) => id,
        Statement::Block(_, id) => id,
        Statement::FunctionDefinition(_, id) => id,
        Statement::FunctionCall(_, id) => id,
        Statement::Break(_, id) => id,
        Statement::Return(_, id) => id,
        Statement::Print(_, id) => id,
    }
}

impl View for Statement {
    type V = SpecStatement;

    open spec fn view(&self) -> SpecStatement {
        stmt_view(*self)
    }
}

impl View for Block {
    type V = Seq<SpecStatement>;

    open spec fn view(&self) -> Seq<SpecStatement> {
        stmts_view(self.statements@)
    }
}

impl View for VariableDeclaration {
    type V = SpecVariableDeclaration;

    open spec fn view(&self) -> SpecVariableDeclaration {
        SpecVariableDeclaration {
            variable: self.variable@,
            data_type: opt_text(self.data_type),
            expression: opt_expression(self.expression),
        }
    }
}

impl View for Assignment {
    type V = SpecAssignment;

    open spec fn view(&self) -> SpecAssignment {
        SpecAssignment { variable: self.variable@, expression: self.expression@ }
    }
}

impl View for FunctionParameter {
    type V = SpecFunctionParameter;

    open spec fn view(&self) -> SpecFunctionParameter {
        SpecFunctionParameter { name: self.name@, data_type: opt_text(self.data_type) }
    }
}

/// Whether two optional texts are equal.
fn same_opt_text(a: &Option<String>, b: &Option<String>) -> (r: bool)
    ensures
        r == (opt_text(*a) == opt_text(*b)),
{
    match (a, b) {
        (Some(x), Some(y)) => *x == *y,
        (None, None) => true,
        _ => false,
    }
}

/// Whether two optional expressions have the same shape and line.
fn same_opt_expression(a: &Option<Expression>, b: &Option<Expression>) -> (r: bool)
    ensures
        r == (opt_expression(*a) == opt_expression(*b)),
{
    match (a, b) {
        (Some(x), Some(y)) => *x == *y,
        (None, None) => true,
        _ => false,
    }
}

/// Whether two lists of expressions are equal one by one.
fn same_expressions(a: &Vec<Expression>, b: &Vec<Expression>) -> (r: bool)
    ensures
        r == (expressions_view(a@) == expressions_view(b@)),
{
    if a.len() != b.len() {
        assert(expressions_view(a@).len() != expressions_view(b@).len());
        return false;
    }
    let mut i: usize = 0;
    while i < a.len()
        invariant
            a.len() == b.len(),
            i <= a.len(),
            forall|j: int| 0 <= j < i ==> #[trigger] a@[j]@ == b@[j]@,
        decreases a.len() - i,
    {
        if !(a[i] == b[i]) {
            assert(expressions_view(a@)[i as int] != expressions_view(b@)[i as int]);
            return false;
        }
        i = i + 1;
    }
    assert(expressions_view(a@) =~= expressions_view(b@));
    true
}

/// Whether two lists of parameters are equal one by one.
fn same_parameters(a: &Vec<FunctionParameter>, b: &Vec<FunctionParameter>) -> (r: bool)
    ensures
        r == (parameters_view(a@) == parameters_view(b@)),
{
    if a.len() != b.len() {
        assert(parameters_view(a@).len() != parameters_view(b@).len());
        return false;
    }
    let mut i: usize = 0;
    while i < a.len()
        invariant
            a.len() == b.len(),
            i <= a.len(),
            forall|j: int| 0 <= j < i ==> #[trigger] a@[j]@ == b@[j]@,
        decreases a.len() - i,
    {
        if !(a[i].name == b[i].name && same_opt_text(&a[i].data_type, &b[i].data_type)) {
            assert(parameters_view(a@)[i as int] != parameters_view(b@)[i as int]);
            return false;
        }
        i = i + 1;
    }
    assert(parameters_view(a@) =~= parameters_view(b@));
    true
}

/// Whether two blocks hold statements of the same shapes.
fn same_block(a: &Block, b: &Block) -> (r: bool)
    ensures
        r == (a@ == b@),
    decreases a,
{
    same_statements(&a.statements, &b.statements)
}

/// Whether two statements have the same shape.
fn same_statement(a: &Statement, b: &Statement) -> (r: bool)
    ensures
        r == (a@ == b@),
    decreases a,
{
    match (a, b) {
        (Statement::VariableDeclaration(x, _), Statement::VariableDeclaration(y, _)) => {
            x.variable == y.variable && same_opt_text(&x.data_type, &y.data_type)
                && same_opt_expression(&x.expression, &y.expression)
        },
        (Statement::Assignment(x, _), Statement::Assignment(y, _)) => {
            x.variable == y.variable && x.expression == y.expression
        },
        (Statement::If(x, _), Statement::If(y, _)) => {
            let same_else = match (&x.else_body, &y.else_body) {
                (Some(p), Some(q)) => same_block(p, q),
                (None, None) => true,
                _ => false,
            };
            x.condition == y.condition && same_block(&x.body, &y.body) && same_else
        },
        (Statement::Loop(x, _), Statement::Loop(y, _)) => same_block(&x.body, &y.body),
        (Statement::Block(x, _), Statement::Block(y, _)) => same_block(x, y),
        (Statement::FunctionDefinition(x, _), Statement::FunctionDefinition(y, _)) => {
            x.name == y.name && same_parameters(&x.parameters, &y.parameters) && same_opt_text(
                &x.return_type,
                &y.return_type,
            ) && same_block(&x.body, &y.body)
        },
        (Statement::FunctionCall(x, _), Statement::FunctionCall(y, _)) => *x == *y,
        (Statement::Break(_, _), Statement::Break(_, _)) => true,
        (Statement::Return(x, _), Statement::Return(y, _)) => same_opt_expression(
            &x.expression,
            &y.expression,
        ),
        (Statement::Print(x, _), Statement::Print(y, _)) => same_expressions(
            &x.arguments,
            &y.arguments,
        ),
        _ => false,
    }
}

/// Whether two lists of statements have the same shapes, one by one.
fn same_statements(a: &Vec<Statement>, b: &Vec<Statement>) -> (r: bool)
    ensures
        r == (stmts_view(a@) == stmts_view(b@)),
    decreases a,
{
    proof {
        lemma_stmts_view(a@);
        lemma_stmts_view(b@);
    }
    if a.len() != b.len() {
        return false;
    }
    let mut i: usize = 0;
    while i < a.len()
        invariant
            a.len() == b.len(),
            i <= a.len(),
            stmts_view(a@).len() == a.len(),
            stmts_view(b@).len() == b.len(),
            forall|j: int| 0 <= j < a.len() ==> #[trigger] stmts_view(a@)[j] == stmt_view(a@[j]),
            forall|j: int| 0 <= j < b.len() ==> #[trigger] stmts_view(b@)[j] == stmt_view(b@[j]),
            forall|j: int| 0 <= j < i ==> #[trigger] stmts_view(a@)[j] == stmts_view(b@)[j],
        decreases a.len() - i,
    {
        proof {
            assert(decreases_to!(a => a@[i as int]));
        }
        if !same_statement(&a[i], &b[i]) {
            assert(stmts_view(a@)[i as int] != stmts_view(b@)[i as int]);
            return false;
        }
        i = i + 1;
    }
    assert(stmts_view(a@) =~= stmts_view(b@));
    true
}

impl PartialEq for Statement {
    fn eq(&self, other: &Self) -> (r: bool) {
        same_statement(self, other)
    }
}

impl vstd::std_specs::cmp::PartialEqSpecImpl for Statement {
    open spec fn obeys_eq_spec() -> bool {
        true
    }

    open spec fn eq_spec(&self, other: &Self) -> bool {
        self@ == other@
    }
}

impl Statement {
    /// Wraps a [`VariableDeclaration`] into a [`Statement::VariableDeclaration`] with a fresh identifier.
    pub fn variable_declaration(statement: VariableDeclaration, ids: &mut NodeIds) -> (r: Self)
        requires
            old(ids).last() < usize::MAX,
        ensures
            final(ids).last() == old(ids).last() + 1,
            r == Statement::VariableDeclaration(statement, NodeId(final(ids).last())),
    {
        Statement::VariableDeclaration(statement, ids.next_id())
    }

    /// Wraps an [`Assignment`] into a [`Statement::Assignment`] with a fresh identifier.
    pub fn assignment(statement: Assignment, ids: &mut NodeIds) -> (r: Self)
        requires
            old(ids).last() < usize::MAX,
        ensures
            final(ids).last() == old(ids).last() + 1,
            r == Statement::Assignment(statement, NodeId(final(ids).last())),
    {
        Statement::Assignment(statement, ids.next_id())
    }

    /// Wraps an [`If`] into a [`Statement::If`] with a fresh identifier.
    pub fn conditional(statement: If, ids: &mut NodeIds) -> (r: Self)
        requires
            old(ids).last() < usize::MAX,
        ensures
            final(ids).last() == old(ids).last() + 1,
            r == Statement::If(statement, NodeId(final(ids).last())),
    {
        Statement::If(statement, ids.next_id())
    }

    /// Wraps a [`Loop`] into a [`Statement::Loop`] with a fresh identifier.
    pub fn iteration(statement: Loop, ids: &mut NodeIds) -> (r: Self)
        requires
            old(ids).last() < usize::MAX,
        ensures
            final(ids).last() == old(ids).last() + 1,
            r == Statement::Loop(statement, NodeId(final(ids).last())),
    {
        Statement::Loop(statement, ids.next_id())
    }

    /// Wraps a [`Block`] into a [`Statement::Block`] with a fresh identifier.
    pub fn block(block: Block, ids: &mut NodeIds) -> (r: Self)
        requires
            old(ids).last() < usize::MAX,
        ensures
            final(ids).last() == old(ids).last() + 1,
            r == Statement::Block(block, NodeId(final(ids).last())),
    {
        Statement::Block(block, ids.next_id())
    }

    /// Wraps a [`FunctionDefinition`] into a [`Statement::FunctionDefinition`] with a fresh identifier.
    pub fn function_definition(statement: FunctionDefinition, ids: &mut NodeIds) -> (r: Self)
        requires
            old(ids).last() < usize::MAX,
        ensures
            final(ids).last() == old(ids).last() + 1,
            r == Statement::FunctionDefinition(statement, NodeId(final(ids).last())),
    {
        Statement::FunctionDefinition(statement, ids.next_id())
    }

    /// Wraps a function call [`Expression`] into a [`Statement::FunctionCall`] with a fresh identifier.
    pub fn function_call(expression: Expression, ids: &mut NodeIds) -> (r: Self)
        requires
            old(ids).last() < usize::MAX,
        ensures
            final(ids).last() == old(ids).last() + 1,
            r == Statement::FunctionCall(expression, NodeId(final(ids).last())),
    {
        Statement::FunctionCall(expression, ids.next_id())
    }

    /// Wraps a [`Break`] into a [`Statement::Break`] with a fresh identifier.
    pub fn control_flow(statement: Break, ids: &mut NodeIds) -> (r: Self)
        requires
            old(ids).last() < usize::MAX,
        ensures
            final(ids).last() == old(ids).last() + 1,
            r == Statement::Break(statement, NodeId(final(ids).last())),
    {
        Statement::Break(statement, ids.next_id())
    }

    /// Wraps a [`Return`] into a [`Statement::Return`] with a fresh identifier.
    pub fn return_(statement: Return, ids: &mut NodeIds) -> (r: Self)
        requires
            old(ids).last() < usize::MAX,
        ensures
            final(ids).last() == old(ids).last() + 1,
            r == Statement::Return(statement, NodeId(final(ids).last())),
    {
        Statement::Return(statement, ids.next_id())
    }

    /// Wraps a [`Print`] into a [`Statement::Print`] with a fresh identifier.
    pub fn print(statement: Print, ids: &mut NodeIds) -> (r: Self)
        requires
            old(ids).last() < usize::MAX,
        ensures
            final(ids).last() == old(ids).last() + 1,
            r == Statement::Print(statement, NodeId(final(ids).last())),
    {
        Statement::Print(statement, ids.next_id())
    }

    /// Dispatches this statement to the visitor method of its kind.
    pub fn accept<V: StatementVisitor>(&self, visitor: &mut V) -> (r: Result<(), SemanticError>)
        requires
            statement_ready(*self, *old(visitor)),
        ensures
            statement_accepted(*self, *old(visitor), *final(visitor), r),
    {
        match self {
            Statement::VariableDeclaration(declaration, id) => visitor.visit_var_declaration(
                declaration,
                *id,
            ),
            Statement::Assignment(assignment, id) => visitor.visit_assignment(assignment, *id),
            Statement::If(if_statement, _) => visitor.visit_if(if_statement),
            Statement::Loop(loop_statement, _) => visitor.visit_loop(loop_statement),
            Statement::Block(block, _) => visitor.visit_block(block),
            Statement::FunctionDefinition(definition, id) => visitor.visit_function_definition(
                definition,
                *id,
            ),
            Statement::FunctionCall(expression, _) => visitor.visit_function_call(expression),
            Statement::Break(_, _) => visitor.visit_break(),
            Statement::Return(return_statement, _) => visitor.visit_return(return_statement),
            Statement::Print(print_statement, _) => visitor.visit_print(print_statement),
        }
    }

    /// Returns the unique id of the statement.
    pub fn id(&self) -> (r: NodeId)
        ensures
            r == stmt_id(*self),
    {
        match self {
            Statement::VariableDeclaration(_, id) => *id,
            Statement::Assignment(_, id) => *id,
            Statement::If(_, id) => *id,
            Statement::Loop(_, id) => *id,
            Statement::Block(_, id) => *id,
            Statement::FunctionDefinition(_, id) => *id,
            Statement::FunctionCall(_, id) => *id,
            Statement::Break(_, id) => *id,
            Statement::Return(_, id) => *id,
            Statement::Print(_, id) => *id,
        }
    }
}

impl VariableDeclaration {
    /// A declaration of `variable`, with an optional type annotation and initializer.
    pub fn new(variable: String, data_type: Option<String>, expression: Option<Expression>) -> (r:
        Self)
        ensures
            r == (VariableDeclaration { variable, data_type, expression }),
    {
        Self { variable, data_type, expression }
    }

    /// A declaration of `variable` alone.
    pub fn new_with_variable(variable: String) -> (r: Self)
        ensures
            r == (VariableDeclaration { variable, data_type: None, expression: None }),
    {
        Self::new(variable, None, None)
    }

    /// A declaration of `variable` with a type annotation and no initializer.
    pub fn new_with_variable_and_type(variable: String, data_type: String) -> (r: Self)
        ensures
            r == (VariableDeclaration { variable, data_type: Some(data_type), expression: None }),
    {
        Self::new(variable, Some(data_type), None)
    }

    /// Returns the name of the declared variable.
    pub fn variable(&self) -> (r: &str)
        ensures
            r@ == self.variable@,
    {
        self.variable.as_str()
    }

    /// Returns the explicit type annotation of the variable, if provided.
    pub fn data_type(&self) -> (r: Option<&str>)
        ensures
            match self.data_type {
                Some(t) => r matches Some(x) && x@ == t@,
                None => r is None,
            },
    {
        match &self.data_type {
            Some(t) => Some(t.as_str()),
            None => None,
        }
    }

    /// Returns the initialization expression of the variable, if provided.
    pub fn expression(&self) -> (r: Option<&Expression>)
        ensures
            match self.expression {
                Some(e) => r == Some(&e),
                None => r is None,
            },
    {
        match &self.expression {
            Some(e) => Some(e),
            None => None,
        }
    }
}

impl Assignment {
    /// An assignment of `expression` to `variable`.
    pub fn new(variable: String, expression: Expression) -> (r: Self)
        ensures
            r == (Assignment { variable, expression }),
    {
        Self { variable, expression }
    }

    /// Returns the name of the variable being assigned to.
    pub fn variable(&self) -> (r: &str)
        ensures
            r@ == self.variable@,
    {
        self.variable.as_str()
    }

    /// Returns the expression being assigned to the variable.
    pub fn expression(&self) -> (r: &Expression)
        ensures
            *r == self.expression,
    {
        &self.expression
    }
}

impl If {
    /// A conditional with its condition, body and optional else branch.
    pub fn new(condition: Expression, body: Block, else_body: Option<Block>) -> (r: Self)
        ensures
            r == (If { condition, body, else_body }),
    {
        Self { condition, body, else_body }
    }

    /// Returns the condition expression governing the conditional execution.
    pub fn condition(&self) -> (r: &Expression)
        ensures
            *r == self.condition,
    {
        &self.condition
    }

    /// Returns a slice of statements in the `then` branch body.
    pub fn body(&self) -> (r: &[Statement])
        ensures
            r@ == self.body.statements@,
    {
        self.body.statements.as_slice()
    }

    /// Returns a slice of statements in the `else` branch body, if provided.
    pub fn else_body(&self) -> (r: Option<&[Statement]>)
        ensures
            match self.else_body {
                Some(b) => r matches Some(x) && x@ == b.statements@,
                None => r is None,
            },
    {
        match &self.else_body {
            Some(block) => Some(block.statements()),
            None => None,
        }
    }
}

impl Loop {
    /// A loop around `body`.
    pub fn new(body: Block) -> (r: Self)
        ensures
            r == (Loop { body }),
    {
        Self { body }
    }

    /// Returns a slice of statements in the loop body.
    pub fn body(&self) -> (r: &[Statement])
        ensures
            r@ == self.body.statements@,
    {
        self.body.statements.as_slice()
    }
}

impl Block {
    /// Creates a new `Block` enclosing the given statements.
    pub fn new(statements: Vec<Statement>) -> (r: Self)
        ensures
            r == (Block { statements }),
    {
        Self { statements }
    }

    /// Returns a slice of statements in the block.
    pub fn statements(&self) -> (r: &[Statement])
        ensures
            r@ == self.statements@,
    {
        self.statements.as_slice()
    }
}

impl FunctionDefinition {
    /// A function definition with its name, parameters, optional return type and body.
    pub fn new(
        name: String,
        parameters: Vec<FunctionParameter>,
        return_type: Option<String>,
        body: Block,
    ) -> (r: Self)
        ensures
            r == (FunctionDefinition { name, parameters, return_type, body }),
    {
        Self { name, parameters, return_type, body }
    }

    /// Returns the name of the function.
    pub fn name(&self) -> (r: &str)
        ensures
            r@ == self.name@,
    {
        self.name.as_str()
    }

    /// Returns a slice of the function's parameters.
    pub fn parameters(&self) -> (r: &[FunctionParameter])
        ensures
            r@ == self.parameters@,
    {
        self.parameters.as_slice()
    }

    /// Returns the explicit return type annotation, if provided.
    pub fn return_type(&self) -> (r: Option<&str>)
        ensures
            match self.return_type {
                Some(t) => r matches Some(x) && x@ == t@,
                None => r is None,
            },
    {
        match &self.return_type {
            Some(t) => Some(t.as_str()),
            None => None,
        }
    }

    /// Returns a slice of statements in the function's body.
    pub fn body(&self) -> (r: &[Statement])
        ensures
            r@ == self.body.statements@,
    {
        self.body.statements.as_slice()
    }
}

impl FunctionParameter {
    /// A parameter named `name` with an optional type annotation.
    pub fn new(name: String, data_type: Option<String>) -> (r: Self)
        ensures
            r == (FunctionParameter { name, data_type }),
    {
        Self { name, data_type }
    }

    /// Returns the name of the parameter.
    pub fn name(&self) -> (r: &str)
        ensures
            r@ == self.name@,
    {
        self.name.as_str()
    }

    /// Returns the explicit type annotation of the parameter, if provided.
    pub fn data_type(&self) -> (r: Option<&str>)
        ensures
            match self.data_type {
                Some(t) => r matches Some(x) && x@ == t@,
                None => r is None,
            },
    {
        match &self.data_type {
            Some(t) => Some(t.as_str()),
            None => None,
        }
    }
}

impl Break {
    /// A `break` statement.
    pub fn new() -> (r: Self)
        ensures
            r == Break,
    {
        Break
    }
}

impl Return {
    /// A `return` statement with an optional value.
    pub fn new(expression: Option<Expression>) -> (r: Self)
        ensures
            r == (Return { expression }),
    {
        Self { expression }
    }

    /// Returns the expression being returned, if any.
    pub fn expression(&self) -> (r: Option<&Expression>)
        ensures
            match self.expression {
                Some(e) => r == Some(&e),
                None => r is None,
            },
    {
        match &self.expression {
            Some(e) => Some(e),
            None => None,
        }
    }
}

impl Print {
    /// A `print` statement of its arguments.
    pub fn new(arguments: Vec<Expression>) -> (r: Self)
        ensures
            r == (Print { arguments }),
    {
        Self { arguments }
    }

    /// Returns the arguments of the print statement.
    pub fn arguments(&self) -> (r: &[Expression])
        ensures
            r@ == self.arguments@,
    {
        self.arguments.as_slice()
    }
}

} // verus!
