//! Visitor traits for walking the syntax tree.

use vstd::prelude::*;
use crate::ast::expr::{BinaryOperator, Expression, ExpressionKind, UnaryOperator};
use crate::ast::statement::{
    Assignment, Block, FunctionDefinition, If, Loop, NodeId, Print, Return, Statement,
    VariableDeclaration,
};
use crate::semantic::error::SemanticError;

verus! {

/// A visitor trait for walking and processing AST statement nodes.
///
/// Each visit may be made where the implementing type's readiness relation holds,
/// and relates the visitor before it, the visitor after it and the result by the
/// implementing type's visit relation.
pub trait StatementVisitor: Sized {
    /// Whether a variable declaration may be visited from `self`.
    spec fn var_declaration_ready(&self, variable_declaration: VariableDeclaration, node_id: NodeId) -> bool;

    /// Whether visiting a variable declaration may turn `self` into `after` with `result`.
    spec fn var_declaration_visited(&self, variable_declaration: VariableDeclaration, node_id: NodeId, after: Self, result: Result<(), SemanticError>) -> bool;

    /// Whether an assignment may be visited from `self`.
    spec fn assignment_ready(&self, assignment: Assignment, node_id: NodeId) -> bool;

    /// Whether visiting an assignment may turn `self` into `after` with `result`.
    spec fn assignment_visited(&self, assignment: Assignment, node_id: NodeId, after: Self, result: Result<(), SemanticError>) -> bool;

    /// Whether an if-else conditional may be visited from `self`.
    spec fn if_ready(&self, if_statement: If) -> bool;

    /// Whether visiting an if-else conditional may turn `self` into `after` with `result`.
    spec fn if_visited(&self, if_statement: If, after: Self, result: Result<(), SemanticError>) -> bool;

    /// Whether a loop may be visited from `self`.
    spec fn loop_ready(&self, loop_statement: Loop) -> bool;

    /// Whether visiting a loop may turn `self` into `after` with `result`.
    spec fn loop_visited(&self, loop_statement: Loop, after: Self, result: Result<(), SemanticError>) -> bool;

    /// Whether a block of statements may be visited from `self`.
    spec fn block_ready(&self, block: Block) -> bool;

    /// Whether visiting a block of statements may turn `self` into `after` with `result`.
    spec fn block_visited(&self, block: Block, after: Self, result: Result<(), SemanticError>) -> bool;

    /// Whether a function definition may be visited from `self`.
    spec fn function_definition_ready(&self, definition: FunctionDefinition, node_id: NodeId) -> bool;

    /// Whether visiting a function definition may turn `self` into `after` with `result`.
    spec fn function_definition_visited(&self, definition: FunctionDefinition, node_id: NodeId, after: Self, result: Result<(), SemanticError>) -> bool;

    /// Whether a call standing as a statement may be visited from `self`.
    spec fn function_call_ready(&self, call: Expression) -> bool;

    /// Whether visiting a call standing as a statement may turn `self` into `after` with `result`.
    spec fn function_call_visited(&self, call: Expression, after: Self, result: Result<(), SemanticError>) -> bool;

    /// Whether a `break` may be visited from `self`.
    spec fn break_ready(&self) -> bool;

    /// Whether visiting a `break` may turn `self` into `after` with `result`.
    spec fn break_visited(&self, after: Self, result: Result<(), SemanticError>) -> bool;

    /// Whether a `return` may be visited from `self`.
    spec fn return_ready(&self, return_statement: Return) -> bool;

    /// Whether visiting a `return` may turn `self` into `after` with `result`.
    spec fn return_visited(&self, return_statement: Return, after: Self, result: Result<(), SemanticError>) -> bool;

    /// Whether a print statement may be visited from `self`.
    spec fn print_ready(&self, print_statement: Print) -> bool;

    /// Whether visiting a print statement may turn `self` into `after` with `result`.
    spec fn print_visited(&self, print_statement: Print, after: Self, result: Result<(), SemanticError>) -> bool;

    /// Visits a variable declaration.
    fn visit_var_declaration(&mut self, variable_declaration: &VariableDeclaration, node_id: NodeId) -> (r: Result<(), SemanticError>)
        requires
            old(self).var_declaration_ready(*variable_declaration, node_id),
        ensures
            old(self).var_declaration_visited(*variable_declaration, node_id, *final(self), r),
    ;

    /// Visits an assignment.
    fn visit_assignment(&mut self, assignment: &Assignment, node_id: NodeId) -> (r: Result<(), SemanticError>)
        requires
            old(self).assignment_ready(*assignment, node_id),
        ensures
            old(self).assignment_visited(*assignment, node_id, *final(self), r),
    ;

    /// Visits an if-else conditional.
    fn visit_if(&mut self, if_statement: &If) -> (r: Result<(), SemanticError>)
        requires
            old(self).if_ready(*if_statement),
        ensures
            old(self).if_visited(*if_statement, *final(self), r),
    ;

    /// Visits a loop.
    fn visit_loop(&mut self, loop_statement: &Loop) -> (r: Result<(), SemanticError>)
        requires
            old(self).loop_ready(*loop_statement),
        ensures
            old(self).loop_visited(*loop_statement, *final(self), r),
    ;

    /// Visits a block of statements.
    fn visit_block(&mut self, block: &Block) -> (r: Result<(), SemanticError>)
        requires
            old(self).block_ready(*block),
        ensures
            old(self).block_visited(*block, *final(self), r),
    ;

    /// Visits a function definition.
    fn visit_function_definition(&mut self, definition: &FunctionDefinition, node_id: NodeId) -> (r: Result<(), SemanticError>)
        requires
            old(self).function_definition_ready(*definition, node_id),
        ensures
            old(self).function_definition_visited(*definition, node_id, *final(self), r),
    ;

    /// Visits a call standing as a statement.
    fn visit_function_call(&mut self, call: &Expression) -> (r: Result<(), SemanticError>)
        requires
            old(self).function_call_ready(*call),
        ensures
            old(self).function_call_visited(*call, *final(self), r),
    ;

    /// Visits a `break`.
    fn visit_break(&mut self) -> (r: Result<(), SemanticError>)
        requires
            old(self).break_ready(),
        ensures
            old(self).break_visited(*final(self), r),
    ;

    /// Visits a `return`.
    fn visit_return(&mut self, return_statement: &Return) -> (r: Result<(), SemanticError>)
        requires
            old(self).return_ready(*return_statement),
        ensures
            old(self).return_visited(*return_statement, *final(self), r),
    ;

    /// Visits a print statement.
    fn visit_print(&mut self, print_statement: &Print) -> (r: Result<(), SemanticError>)
        requires
            old(self).print_ready(*print_statement),
        ensures
            old(self).print_visited(*print_statement, *final(self), r),
    ;
}

/// A visitor trait for walking and processing AST expression kind nodes.
///
/// Each visit may be made where the implementing type's readiness relation holds,
/// and relates the visitor before it, the visitor after it and the result by the
/// implementing type's visit relation.
pub trait ExpressionVisitor: Sized {
    /// Whether an identifier may be visited from `self`.
    spec fn identifier_ready(&self, name: Seq<char>, node_id: NodeId) -> bool;

    /// Whether visiting an identifier may turn `self` into `after` with `result`.
    spec fn identifier_visited(&self, name: Seq<char>, node_id: NodeId, after: Self, result: Result<(), SemanticError>) -> bool;

    /// Whether a call expression may be visited from `self`.
    spec fn function_call_ready(&self, callee: ExpressionKind, arguments: Seq<ExpressionKind>) -> bool;

    /// Whether visiting a call expression may turn `self` into `after` with `result`.
    spec fn function_call_visited(&self, callee: ExpressionKind, arguments: Seq<ExpressionKind>, after: Self, result: Result<(), SemanticError>) -> bool;

    /// Whether a unary expression may be visited from `self`.
    spec fn unary_ready(&self, operator: UnaryOperator, operand: ExpressionKind) -> bool;

    /// Whether visiting a unary expression may turn `self` into `after` with `result`.
    spec fn unary_visited(&self, operator: UnaryOperator, operand: ExpressionKind, after: Self, result: Result<(), SemanticError>) -> bool;

    /// Whether a binary expression may be visited from `self`.
    spec fn binary_ready(&self, left: ExpressionKind, operator: BinaryOperator, right: ExpressionKind) -> bool;

    /// Whether visiting a binary expression may turn `self` into `after` with `result`.
    spec fn binary_visited(&self, left: ExpressionKind, operator: BinaryOperator, right: ExpressionKind, after: Self, result: Result<(), SemanticError>) -> bool;

    /// Whether a parenthesised expression may be visited from `self`.
    spec fn grouped_ready(&self, inner: ExpressionKind) -> bool;

    /// Whether visiting a parenthesised expression may turn `self` into `after` with `result`.
    spec fn grouped_visited(&self, inner: ExpressionKind, after: Self, result: Result<(), SemanticError>) -> bool;

    /// Visits an identifier.
    fn visit_identifier(&mut self, name: &str, node_id: NodeId) -> (r: Result<(), SemanticError>)
        requires
            old(self).identifier_ready(name@, node_id),
        ensures
            old(self).identifier_visited(name@, node_id, *final(self), r),
    ;

    /// Visits a call expression.
    fn visit_function_call(&mut self, callee: &ExpressionKind, arguments: &[ExpressionKind]) -> (r: Result<(), SemanticError>)
        requires
            old(self).function_call_ready(*callee, arguments@),
        ensures
            old(self).function_call_visited(*callee, arguments@, *final(self), r),
    ;

    /// Visits a unary expression.
    fn visit_unary(&mut self, operator: UnaryOperator, operand: &ExpressionKind) -> (r: Result<(), SemanticError>)
        requires
            old(self).unary_ready(operator, *operand),
        ensures
            old(self).unary_visited(operator, *operand, *final(self), r),
    ;

    /// Visits a binary expression.
    fn visit_binary(&mut self, left: &ExpressionKind, operator: BinaryOperator, right: &ExpressionKind) -> (r: Result<(), SemanticError>)
        requires
            old(self).binary_ready(*left, operator, *right),
        ensures
            old(self).binary_visited(*left, operator, *right, *final(self), r),
    ;

    /// Visits a parenthesised expression.
    fn visit_grouped(&mut self, inner: &ExpressionKind) -> (r: Result<(), SemanticError>)
        requires
            old(self).grouped_ready(*inner),
        ensures
            old(self).grouped_visited(*inner, *final(self), r),
    ;
}

/// Whether a visitor may accept an expression kind: a literal always; any other kind
/// where the visitor is ready for the visit of its kind.
pub open spec fn expression_ready<V: ExpressionVisitor>(kind: ExpressionKind, visitor: V) -> bool {
    match kind {
        ExpressionKind::Identifier(name, id) => visitor.identifier_ready(name@, id),
        ExpressionKind::FunctionCall(callee, arguments, _) => visitor.function_call_ready(*callee, arguments@),
        ExpressionKind::Unary(operand, operator) => visitor.unary_ready(operator, *operand),
        ExpressionKind::Binary(left, operator, right) => visitor.binary_ready(*left, operator, *right),
        ExpressionKind::Grouped(inner) => visitor.grouped_ready(*inner),
        _ => true,
    }
}

/// What accepting a visitor at an expression kind does: the visit of its kind, or,
/// for a literal, nothing, with success.
pub open spec fn expression_accepted<V: ExpressionVisitor>(
    kind: ExpressionKind,
    before: V,
    after: V,
    result: Result<(), SemanticError>,
) -> bool {
    match kind {
        ExpressionKind::Identifier(name, id) => before.identifier_visited(name@, id, after, result),
        ExpressionKind::FunctionCall(callee, arguments, _) => before.function_call_visited(
            *callee,
            arguments@,
            after,
            result,
        ),
        ExpressionKind::Unary(operand, operator) => before.unary_visited(operator, *operand, after, result),
        ExpressionKind::Binary(left, operator, right) => before.binary_visited(
            *left,
            operator,
            *right,
            after,
            result,
        ),
        ExpressionKind::Grouped(inner) => before.grouped_visited(*inner, after, result),
        _ => result is Ok && after == before,
    }
}

/// Whether a visitor is ready for the visit of a statement's kind.
pub open spec fn statement_ready<V: StatementVisitor>(statement: Statement, visitor: V) -> bool {
    match statement {
        Statement::VariableDeclaration(declaration, id) => visitor.var_declaration_ready(declaration, id),
        Statement::Assignment(assignment, id) => visitor.assignment_ready(assignment, id),
        Statement::If(if_statement, _) => visitor.if_ready(if_statement),
        Statement::Loop(loop_statement, _) => visitor.loop_ready(loop_statement),
        Statement::Block(block, _) => visitor.block_ready(block),
        Statement::FunctionDefinition(definition, id) => visitor.function_definition_ready(definition, id),
        Statement::FunctionCall(expression, _) => visitor.function_call_ready(expression),
        Statement::Break(_, _) => visitor.break_ready(),
        Statement::Return(return_statement, _) => visitor.return_ready(return_statement),
        Statement::Print(print_statement, _) => visitor.print_ready(print_statement),
    }
}

/// What accepting a visitor at a statement does: the visit of its kind.
pub open spec fn statement_accepted<V: StatementVisitor>(
    statement: Statement,
    before: V,
    after: V,
    result: Result<(), SemanticError>,
) -> bool {
    match statement {
        Statement::VariableDeclaration(declaration, id) => before.var_declaration_visited(
            declaration,
            id,
            after,
            result,
        ),
        Statement::Assignment(assignment, id) => before.assignment_visited(assignment, id, after, result),
        Statement::If(if_statement, _) => before.if_visited(if_statement, after, result),
        Statement::Loop(loop_statement, _) => before.loop_visited(loop_statement, after, result),
        Statement::Block(block, _) => before.block_visited(block, after, result),
        Statement::FunctionDefinition(definition, id) => before.function_definition_visited(
            definition,
            id,
            after,
            result,
        ),
        Statement::FunctionCall(expression, _) => before.function_call_visited(expression, after, result),
        Statement::Break(_, _) => before.break_visited(after, result),
        Statement::Return(return_statement, _) => before.return_visited(return_statement, after, result),
        Statement::Print(print_statement, _) => before.print_visited(print_statement, after, result),
    }
}

} // verus!
