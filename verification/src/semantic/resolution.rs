//! What symbol resolution computes, stated over the syntax tree.
//!
//! Symbol resolution walks the program in order. Every declaration (of a variable, a
//! function or a parameter) gets a fresh symbol, defined under its name in the
//! innermost scope; every reference, assignment target and callee is mapped, in the
//! resolution table, to the symbol its name stands for in the scopes that enclose
//! it. Calls to functions not declared yet are deferred and checked at the end. The
//! walk also checks that `break` stands in a loop, `return` in a function and agrees
//! with the function's return type, and that nothing follows a `break` or `return`
//! in a block.

use vstd::prelude::*;
use crate::ast::expr::{Expression, ExpressionKind};
use crate::ast::statement::{
    opt_text, Assignment, FunctionDefinition, FunctionParameter, If, Loop, NodeId, Print, Return,
    Statement,
    VariableDeclaration,
};
use crate::semantic::error::{SemanticError, SpecSemanticError};
use crate::semantic::scope::{defines_locally, scopes_define, scopes_lookup, ScopeView};
use crate::semantic::state::{SpecFunctionMetadata, SpecPendingCall, SpecState};
use crate::semantic::{Outcome, SymbolId};

verus! {

/// Everything symbol resolution keeps: the scopes, the state, the resolution table
/// (keyed by the number of a node's identifier) and the last symbol issued.
pub struct Resolver {
    pub scopes: Seq<ScopeView>,
    pub state: SpecState,
    pub table: Map<usize, SymbolId>,
    pub last_symbol: usize,
}

/// The resolver before any statement: one empty global scope, nothing declared.
pub open spec fn initial_resolver() -> Resolver {
    Resolver {
        scopes: seq![Seq::empty()],
        state: SpecState {
            current_function: None,
            global_functions: Map::empty(),
            pending_calls: Seq::empty(),
            loop_depth: 0,
            encountered_break: false,
            encountered_return: false,
        },
        table: Map::empty(),
        last_symbol: 0,
    }
}

/// The stack of scopes without its innermost scope, if it has one.
pub open spec fn scopes_end(scopes: Seq<ScopeView>) -> Seq<ScopeView> {
    if scopes.len() == 0 {
        scopes
    } else {
        scopes.drop_last()
    }
}

/// The error a call of `name` with `count` arguments is refused with, if any: the
/// name must stand for a declared function that takes that many parameters.
pub open spec fn call_error(m: Resolver, name: Seq<char>, count: usize) -> Option<SpecSemanticError> {
    match scopes_lookup(m.scopes, name) {
        None => Some(SpecSemanticError::UndefinedVariable(name)),
        Some(symbol) => if !m.state.global_functions.contains_key(symbol.0) {
            Some(SpecSemanticError::NotAFunction(name))
        } else if m.state.global_functions[symbol.0].parameter_types.len() != count {
            Some(
                SpecSemanticError::ArgumentCountMismatch(
                    name,
                    m.state.global_functions[symbol.0].parameter_types.len() as usize,
                    count,
                ),
            )
        } else {
            None
        },
    }
}

/// Resolves a reference to `name`: the node is mapped to the symbol the name stands for.
pub open spec fn resolve_identifier(m: Resolver, name: Seq<char>, id: NodeId) -> Outcome<Resolver> {
    match scopes_lookup(m.scopes, name) {
        None => Outcome::Failed(SpecSemanticError::UndefinedVariable(name)),
        Some(symbol) => Outcome::Done(Resolver { table: m.table.insert(id.0, symbol), ..m }),
    }
}

/// Resolves a call: the callee must be a name. A function declared already is checked
/// at once and the callee mapped to it; any other name is deferred. Then the
/// arguments are resolved in order.
pub open spec fn resolve_call(m: Resolver, callee: ExpressionKind, arguments: Seq<ExpressionKind>) -> Outcome<
    Resolver,
>
    decreases arguments, 1int,
{
    match callee {
        ExpressionKind::Identifier(name, callee_id) => {
            let after_callee = match scopes_lookup(m.scopes, name@) {
                None => Outcome::Done(
                    Resolver {
                        state: SpecState {
                            pending_calls: m.state.pending_calls.push(
                                SpecPendingCall {
                                    name: name@,
                                    argument_count: arguments.len() as usize,
                                    callee_node_id: callee_id,
                                },
                            ),
                            ..m.state
                        },
                        ..m
                    },
                ),
                Some(symbol) => match call_error(m, name@, arguments.len() as usize) {
                    Some(error) => Outcome::Failed(error),
                    None => Outcome::Done(
                        Resolver { table: m.table.insert(callee_id.0, symbol), ..m },
                    ),
                },
            };
            match after_callee {
                Outcome::Done(m1) => resolve_arguments(m1, arguments),
                other => other,
            }
        },
        _ => Outcome::Failed(SpecSemanticError::NotAFunction(Seq::empty())),
    }
}

/// Resolves the names an expression refers to.
pub open spec fn resolve_expr(m: Resolver, e: ExpressionKind) -> Outcome<Resolver>
    decreases e, 0int,
{
    match e {
        ExpressionKind::Identifier(name, id) => resolve_identifier(m, name@, id),
        ExpressionKind::FunctionCall(callee, arguments, _) => resolve_call(m, *callee, arguments@),
        ExpressionKind::Unary(inner, _) => resolve_expr(m, *inner),
        ExpressionKind::Grouped(inner) => resolve_expr(m, *inner),
        ExpressionKind::Binary(left, _, right) => match resolve_expr(m, *left) {
            Outcome::Done(m1) => resolve_expr(m1, *right),
            other => other,
        },
        _ => Outcome::Done(m),
    }
}

/// Resolves a sequence of expressions in order; the first error stops it.
pub open spec fn resolve_arguments(m: Resolver, es: Seq<ExpressionKind>) -> Outcome<Resolver>
    decreases es, 0int,
{
    if es.len() == 0 {
        Outcome::Done(m)
    } else {
        match resolve_arguments(m, es.drop_last()) {
            Outcome::Done(m1) => resolve_expr(m1, es.last()),
            other => other,
        }
    }
}

/// Resolves the expressions of a sequence of expressions in order.
pub open spec fn resolve_expressions(m: Resolver, es: Seq<Expression>) -> Outcome<Resolver>
    decreases es.len(),
{
    if es.len() == 0 {
        Outcome::Done(m)
    } else {
        match resolve_expressions(m, es.drop_last()) {
            Outcome::Done(m1) => resolve_expr(m1, es.last().kind),
            other => other,
        }
    }
}

/// Resolves an optional expression.
pub open spec fn resolve_opt_expression(m: Resolver, e: Option<Expression>) -> Outcome<Resolver> {
    match e {
        Some(e) => resolve_expr(m, e.kind),
        None => Outcome::Done(m),
    }
}

/// The type annotations of parameters.
pub open spec fn parameter_types(ps: Seq<FunctionParameter>) -> Seq<Option<Seq<char>>> {
    ps.map_values(|p: FunctionParameter| opt_text(p.data_type))
}

/// Declares the parameters of a function in order in the innermost scope, each with a
/// fresh symbol; gives the resolver after and the parameters' symbols.
pub open spec fn resolve_parameters(m: Resolver, ps: Seq<FunctionParameter>) -> Outcome<
    (Resolver, Seq<SymbolId>),
>
    decreases ps.len(),
{
    if ps.len() == 0 {
        Outcome::Done((m, Seq::empty()))
    } else {
        match resolve_parameters(m, ps.drop_last()) {
            Outcome::Done((m1, symbols)) => {
                let name = ps.last().name@;
                if defines_locally(m1.scopes, name) {
                    Outcome::Failed(SpecSemanticError::DuplicateVariable(name))
                } else if m1.last_symbol == usize::MAX {
                    Outcome::Halted
                } else {
                    let symbol = SymbolId((m1.last_symbol + 1) as usize);
                    Outcome::Done(
                        (
                            Resolver {
                                scopes: scopes_define(m1.scopes, name, symbol),
                                last_symbol: symbol.0,
                                ..m1
                            },
                            symbols.push(symbol),
                        ),
                    )
                }
            },
            Outcome::Failed(e) => Outcome::Failed(e),
            Outcome::Halted => Outcome::Halted,
        }
    }
}

/// Whether a `break` or a `return` makes what follows unreachable.
pub open spec fn unreachable(m: Resolver) -> bool {
    m.state.encountered_break || m.state.encountered_return
}

/// Resolves a variable declaration: the name must not be defined in the innermost
/// scope yet; the initializer is resolved before the name is defined, so it cannot
/// refer to the variable itself.
pub open spec fn resolve_var_declaration(m: Resolver, d: VariableDeclaration, id: NodeId) -> Outcome<
    Resolver,
> {
    if defines_locally(m.scopes, d.variable@) {
        Outcome::Failed(SpecSemanticError::DuplicateVariable(d.variable@))
    } else {
        match resolve_opt_expression(m, d.expression) {
            Outcome::Done(m1) => if m1.last_symbol == usize::MAX {
                Outcome::Halted
            } else {
                let symbol = SymbolId((m1.last_symbol + 1) as usize);
                Outcome::Done(
                    Resolver {
                        scopes: scopes_define(m1.scopes, d.variable@, symbol),
                        table: m1.table.insert(id.0, symbol),
                        last_symbol: symbol.0,
                        ..m1
                    },
                )
            },
            other => other,
        }
    }
}

/// Resolves an assignment: the target must be defined; the assignment's node is
/// mapped to its symbol after the value is resolved.
pub open spec fn resolve_assignment(m: Resolver, a: Assignment, id: NodeId) -> Outcome<Resolver> {
    match scopes_lookup(m.scopes, a.variable@) {
        None => Outcome::Failed(SpecSemanticError::UndefinedVariable(a.variable@)),
        Some(symbol) => match resolve_expr(m, a.expression.kind) {
            Outcome::Done(m1) => Outcome::Done(Resolver { table: m1.table.insert(id.0, symbol), ..m1 }),
            other => other,
        },
    }
}

/// Resolves a conditional: the condition, then the body, then the else body.
pub open spec fn resolve_if(m: Resolver, i: If) -> Outcome<Resolver>
    decreases i, 0int,
{
    match resolve_expr(m, i.condition.kind) {
        Outcome::Done(m1) => match resolve_block(m1, i.body.statements@) {
            Outcome::Done(m2) => match i.else_body {
                Some(b) => resolve_block(m2, b.statements@),
                None => Outcome::Done(m2),
            },
            other => other,
        },
        other => other,
    }
}

/// Resolves a loop: its body is a block resolved one loop deeper.
pub open spec fn resolve_loop(m: Resolver, l: Loop) -> Outcome<Resolver>
    decreases l, 0int,
{
    if m.state.loop_depth == usize::MAX {
        Outcome::Halted
    } else {
        let m1 = Resolver {
            state: SpecState { loop_depth: (m.state.loop_depth + 1) as usize, ..m.state },
            ..m
        };
        match resolve_block(m1, l.body.statements@) {
            Outcome::Done(m2) => Outcome::Done(
                Resolver {
                    state: SpecState {
                        loop_depth: if m2.state.loop_depth == 0 {
                            0
                        } else {
                            (m2.state.loop_depth - 1) as usize
                        },
                        ..m2.state
                    },
                    ..m2
                },
            ),
            other => other,
        }
    }
}

/// The signature recorded for a function definition with the given parameter symbols.
pub open spec fn function_metadata(f: FunctionDefinition, symbols: Seq<SymbolId>) -> SpecFunctionMetadata {
    SpecFunctionMetadata {
        name: f.name@,
        parameter_types: parameter_types(f.parameters@),
        return_type: opt_text(f.return_type),
        parameter_symbols: symbols,
    }
}

/// Resolves a function definition: the name must not be defined in the innermost scope
/// yet; it gets a fresh symbol, defined there before the body so that the function can
/// call itself. The parameters are defined in a new scope, the function's signature is
/// recorded and made current, and the body is resolved in that scope.
pub open spec fn resolve_function_definition(m: Resolver, f: FunctionDefinition, id: NodeId) -> Outcome<
    Resolver,
>
    decreases f, 0int,
{
    if defines_locally(m.scopes, f.name@) {
        Outcome::Failed(SpecSemanticError::DuplicateFunctionName(f.name@))
    } else if m.last_symbol == usize::MAX {
        Outcome::Halted
    } else {
        let function_symbol = SymbolId((m.last_symbol + 1) as usize);
        let m1 = Resolver {
            scopes: scopes_define(m.scopes, f.name@, function_symbol).push(Seq::empty()),
            table: m.table.insert(id.0, function_symbol),
            last_symbol: function_symbol.0,
            ..m
        };
        match resolve_parameters(m1, f.parameters@) {
            Outcome::Done((m2, symbols)) => {
                let metadata = function_metadata(f, symbols);
                let m3 = Resolver {
                    state: SpecState {
                        current_function: Some(metadata),
                        global_functions: m2.state.global_functions.insert(function_symbol.0, metadata),
                        ..m2.state
                    },
                    ..m2
                };
                match resolve_stmts(m3, f.body.statements@) {
                    Outcome::Done(m4) => Outcome::Done(
                        Resolver {
                            scopes: scopes_end(m4.scopes),
                            state: SpecState {
                                current_function: None,
                                encountered_return: false,
                                ..m4.state
                            },
                            ..m4
                        },
                    ),
                    other => other,
                }
            },
            Outcome::Failed(e) => Outcome::Failed(e),
            Outcome::Halted => Outcome::Halted,
        }
    }
}

/// Resolves a `break`, which must stand in a loop.
pub open spec fn resolve_break(m: Resolver) -> Outcome<Resolver> {
    if m.state.loop_depth == 0 {
        Outcome::Failed(SpecSemanticError::BreakOutsideLoop)
    } else {
        Outcome::Done(Resolver { state: SpecState { encountered_break: true, ..m.state }, ..m })
    }
}

/// Resolves a `return`: its value first; it must stand in a function, with a value
/// exactly when the function has a return type.
pub open spec fn resolve_return(m: Resolver, r: Return) -> Outcome<Resolver> {
    match resolve_opt_expression(m, r.expression) {
        Outcome::Done(m1) => match m1.state.current_function {
            None => Outcome::Failed(SpecSemanticError::ReturnOutsideFunction),
            Some(metadata) => if r.expression is None && metadata.return_type is Some {
                Outcome::Failed(SpecSemanticError::MissingReturnExpression)
            } else if r.expression is Some && metadata.return_type is None {
                Outcome::Failed(SpecSemanticError::UnexpectedReturnExpression)
            } else {
                Outcome::Done(
                    Resolver { state: SpecState { encountered_return: true, ..m1.state }, ..m1 },
                )
            },
        },
        other => other,
    }
}

/// Resolves a call standing as a statement; an expression of another kind there stops
/// the walk.
pub open spec fn resolve_call_statement(m: Resolver, e: Expression) -> Outcome<Resolver> {
    match e.kind {
        ExpressionKind::FunctionCall(_, _, _) => resolve_expr(m, e.kind),
        _ => Outcome::Halted,
    }
}

/// Resolves the arguments of a print statement in order.
pub open spec fn resolve_print(m: Resolver, p: Print) -> Outcome<Resolver> {
    resolve_expressions(m, p.arguments@)
}

/// Resolves a statement.
pub open spec fn resolve_stmt(m: Resolver, s: Statement) -> Outcome<Resolver>
    decreases s, 0int,
{
    match s {
        Statement::VariableDeclaration(d, id) => resolve_var_declaration(m, d, id),
        Statement::Assignment(a, id) => resolve_assignment(m, a, id),
        Statement::If(i, _) => resolve_if(m, i),
        Statement::Loop(l, _) => resolve_loop(m, l),
        Statement::Block(b, _) => resolve_block(m, b.statements@),
        Statement::FunctionDefinition(f, id) => resolve_function_definition(m, f, id),
        Statement::FunctionCall(e, _) => resolve_call_statement(m, e),
        Statement::Break(_, _) => resolve_break(m),
        Statement::Return(r, _) => resolve_return(m, r),
        Statement::Print(p, _) => resolve_print(m, p),
    }
}

/// Resolves a block: it is unreachable after a `break` or `return`; its statements
/// are resolved in a scope of their own, and what came before it is reachable again
/// after it.
pub open spec fn resolve_block(m: Resolver, ss: Seq<Statement>) -> Outcome<Resolver>
    decreases ss, 1int,
{
    if unreachable(m) {
        Outcome::Failed(SpecSemanticError::UnreachableCode)
    } else {
        match resolve_stmts(Resolver { scopes: m.scopes.push(Seq::empty()), ..m }, ss) {
            Outcome::Done(m1) => Outcome::Done(
                Resolver {
                    scopes: scopes_end(m1.scopes),
                    state: SpecState {
                        encountered_break: false,
                        encountered_return: false,
                        ..m1.state
                    },
                    ..m1
                },
            ),
            other => other,
        }
    }
}

/// Resolves statements in order; a statement after a `break` or `return` is
/// unreachable code.
pub open spec fn resolve_stmts(m: Resolver, ss: Seq<Statement>) -> Outcome<Resolver>
    decreases ss, 0int,
{
    if ss.len() == 0 {
        Outcome::Done(m)
    } else {
        match resolve_stmts(m, ss.drop_last()) {
            Outcome::Done(m1) => if unreachable(m1) {
                Outcome::Failed(SpecSemanticError::UnreachableCode)
            } else {
                resolve_stmt(m1, ss.last())
            },
            other => other,
        }
    }
}

/// Checks the deferred calls in order, each against the scopes as the walk left them,
/// and records the symbol of each callee.
pub open spec fn resolve_pending(m: Resolver, calls: Seq<SpecPendingCall>) -> Outcome<Resolver>
    decreases calls.len(),
{
    if calls.len() == 0 {
        Outcome::Done(m)
    } else {
        match resolve_pending(m, calls.drop_last()) {
            Outcome::Done(m1) => {
                let call = calls.last();
                match scopes_lookup(m1.scopes, call.name) {
                    None => Outcome::Failed(SpecSemanticError::UndefinedVariable(call.name)),
                    Some(symbol) => match call_error(m1, call.name, call.argument_count) {
                        Some(error) => Outcome::Failed(error),
                        None => Outcome::Done(
                            Resolver {
                                table: m1.table.insert(call.callee_node_id.0, symbol),
                                ..m1
                            },
                        ),
                    },
                }
            },
            other => other,
        }
    }
}

/// Whether a pass reported what its outcome says: on `Done` success and the resolver
/// after, on `Failed` that error.
pub open spec fn reports(o: Outcome<Resolver>, r: Result<(), SemanticError>, after: Resolver) -> bool {
    match o {
        Outcome::Done(m) => r is Ok && after == m,
        Outcome::Failed(e) => r is Err && r->Err_0@ == e,
        Outcome::Halted => false,
    }
}

/// Once a prefix of the arguments does not resolve, neither do all of them, alike.
pub proof fn lemma_arguments_stop(m: Resolver, es: Seq<ExpressionKind>, n: int)
    requires
        0 <= n <= es.len(),
        !(resolve_arguments(m, es.take(n)) is Done),
    ensures
        resolve_arguments(m, es) == resolve_arguments(m, es.take(n)),
    decreases es.len(),
{
    if n < es.len() {
        assert(es.drop_last().take(n) =~= es.take(n));
        lemma_arguments_stop(m, es.drop_last(), n);
    } else {
        assert(es.take(n) =~= es);
    }
}

/// Once a prefix of the expressions does not resolve, neither do all of them, alike.
pub proof fn lemma_expressions_stop(m: Resolver, es: Seq<Expression>, n: int)
    requires
        0 <= n <= es.len(),
        !(resolve_expressions(m, es.take(n)) is Done),
    ensures
        resolve_expressions(m, es) == resolve_expressions(m, es.take(n)),
    decreases es.len(),
{
    if n < es.len() {
        assert(es.drop_last().take(n) =~= es.take(n));
        lemma_expressions_stop(m, es.drop_last(), n);
    } else {
        assert(es.take(n) =~= es);
    }
}

/// Once a prefix of the parameters is refused, so are all of them, alike.
pub proof fn lemma_parameters_stop(m: Resolver, ps: Seq<FunctionParameter>, n: int)
    requires
        0 <= n <= ps.len(),
        !(resolve_parameters(m, ps.take(n)) is Done),
    ensures
        resolve_parameters(m, ps) == resolve_parameters(m, ps.take(n)),
    decreases ps.len(),
{
    if n < ps.len() {
        assert(ps.drop_last().take(n) =~= ps.take(n));
        lemma_parameters_stop(m, ps.drop_last(), n);
    } else {
        assert(ps.take(n) =~= ps);
    }
}

/// Once a prefix of the statements does not resolve, neither do all of them, alike.
pub proof fn lemma_stmts_stop(m: Resolver, ss: Seq<Statement>, n: int)
    requires
        0 <= n <= ss.len(),
        !(resolve_stmts(m, ss.take(n)) is Done),
    ensures
        resolve_stmts(m, ss) == resolve_stmts(m, ss.take(n)),
    decreases ss.len(),
{
    if n < ss.len() {
        assert(ss.drop_last().take(n) =~= ss.take(n));
        lemma_stmts_stop(m, ss.drop_last(), n);
    } else {
        assert(ss.take(n) =~= ss);
    }
}

/// Once a prefix of the deferred calls is refused, so are all of them, alike.
pub proof fn lemma_pending_stop(m: Resolver, calls: Seq<SpecPendingCall>, n: int)
    requires
        0 <= n <= calls.len(),
        !(resolve_pending(m, calls.take(n)) is Done),
    ensures
        resolve_pending(m, calls) == resolve_pending(m, calls.take(n)),
    decreases calls.len(),
{
    if n < calls.len() {
        assert(calls.drop_last().take(n) =~= calls.take(n));
        lemma_pending_stop(m, calls.drop_last(), n);
    } else {
        assert(calls.take(n) =~= calls);
    }
}

} // verus!
