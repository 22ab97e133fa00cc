//! What symbol resolution guarantees of every program it accepts.
//!
//! Resolution hands out only symbols it has issued, each new one above all before it,
//! so a declaration's symbol differs from every symbol already in use. When a program
//! resolves, every node that refers to something (a reference, an assignment, a
//! declaration, a function definition, a callee) has an entry in the resolution table.
//! A block's declarations do not outlive it: after a block the scopes are as before.

use vstd::prelude::*;
use crate::ast::expr::{Expression, ExpressionKind};
use crate::ast::statement::{FunctionDefinition, FunctionParameter, If, Loop, NodeId, Statement};
use crate::semantic::analyzer::symbol_analysis;
use crate::semantic::resolution::{
    call_error, function_metadata, resolve_arguments, resolve_assignment, resolve_block, resolve_break, resolve_call,
    resolve_call_statement, resolve_expr, resolve_expressions, resolve_function_definition,
    resolve_identifier, resolve_if, resolve_loop, resolve_opt_expression, resolve_parameters,
    resolve_pending, resolve_print, resolve_return, resolve_stmt, resolve_stmts,
    resolve_var_declaration, scopes_end, Resolver,
};
use crate::semantic::scope::{scope_lookup, scopes_define, scopes_lookup, ScopeView};
use crate::semantic::state::{SpecPendingCall, SpecState};
use crate::semantic::{Outcome, SymbolId};

verus! {

/// The nodes an expression has that refer to something: its names and callees.
pub open spec fn expr_refs(e: ExpressionKind) -> Set<usize>
    decreases e,
{
    match e {
        ExpressionKind::Identifier(_, id) => set![id.0],
        ExpressionKind::FunctionCall(callee, arguments, _) => callee_refs(*callee) + arguments_refs(
            arguments@,
        ),
        ExpressionKind::Unary(inner, _) => expr_refs(*inner),
        ExpressionKind::Grouped(inner) => expr_refs(*inner),
        ExpressionKind::Binary(left, _, right) => expr_refs(*left) + expr_refs(*right),
        _ => Set::empty(),
    }
}

/// The node of a callee that is a name.
pub open spec fn callee_refs(callee: ExpressionKind) -> Set<usize> {
    match callee {
        ExpressionKind::Identifier(_, id) => set![id.0],
        _ => Set::empty(),
    }
}

/// The referring nodes of a sequence of expressions.
pub open spec fn arguments_refs(es: Seq<ExpressionKind>) -> Set<usize>
    decreases es,
{
    if es.len() == 0 {
        Set::empty()
    } else {
        arguments_refs(es.drop_last()) + expr_refs(es.last())
    }
}

/// The referring nodes of the expressions of a sequence.
pub open spec fn expressions_refs(es: Seq<Expression>) -> Set<usize>
    decreases es.len(),
{
    if es.len() == 0 {
        Set::empty()
    } else {
        expressions_refs(es.drop_last()) + expr_refs(es.last().kind)
    }
}

/// The referring nodes of an optional expression.
pub open spec fn opt_refs(e: Option<Expression>) -> Set<usize> {
    match e {
        Some(e) => expr_refs(e.kind),
        None => Set::empty(),
    }
}

/// The nodes a statement has that refer to something, its own node included where
/// it declares or assigns.
pub open spec fn stmt_refs(s: Statement) -> Set<usize>
    decreases s,
{
    match s {
        Statement::VariableDeclaration(d, id) => set![id.0] + opt_refs(d.expression),
        Statement::Assignment(a, id) => set![id.0] + expr_refs(a.expression.kind),
        Statement::If(i, _) => expr_refs(i.condition.kind) + stmts_refs(i.body.statements@) + match i.else_body {
            Some(b) => stmts_refs(b.statements@),
            None => Set::empty(),
        },
        Statement::Loop(l, _) => stmts_refs(l.body.statements@),
        Statement::Block(b, _) => stmts_refs(b.statements@),
        Statement::FunctionDefinition(f, id) => set![id.0] + stmts_refs(f.body.statements@),
        Statement::FunctionCall(e, _) => expr_refs(e.kind),
        Statement::Break(_, _) => Set::empty(),
        Statement::Return(r, _) => opt_refs(r.expression),
        Statement::Print(p, _) => expressions_refs(p.arguments@),
    }
}

/// The referring nodes of a sequence of statements.
pub open spec fn stmts_refs(ss: Seq<Statement>) -> Set<usize>
    decreases ss,
{
    if ss.len() == 0 {
        Set::empty()
    } else {
        stmts_refs(ss.drop_last()) + stmt_refs(ss.last())
    }
}

/// Every symbol a name stands for in a scope, or a node resolves to, was issued: it is
/// at most the last symbol issued.
pub open spec fn issued(m: Resolver) -> bool {
    &&& forall|i: int, j: int|
        0 <= i < m.scopes.len() && 0 <= j < m.scopes[i].len() ==> (#[trigger] m.scopes[i][j]).1.0
            <= m.last_symbol
    &&& forall|k: usize| #[trigger] m.table.contains_key(k) ==> m.table[k].0 <= m.last_symbol
}

/// `m1` keeps every entry of `m`'s table and every call `m` deferred.
pub open spec fn grows(m: Resolver, m1: Resolver) -> bool {
    &&& forall|k: usize| #[trigger] m.table.contains_key(k) ==> m1.table.contains_key(k)
    &&& m.state.pending_calls.len() <= m1.state.pending_calls.len()
    &&& forall|j: int|
        0 <= j < m.state.pending_calls.len() ==> #[trigger] m1.state.pending_calls[j]
            == m.state.pending_calls[j]
}

/// A node is accounted for: resolved already, or the callee of a deferred call.
pub open spec fn covered(m: Resolver, k: usize) -> bool {
    m.table.contains_key(k) || exists|j: int|
        0 <= j < m.state.pending_calls.len() && (#[trigger] m.state.pending_calls[j]).callee_node_id.0
            == k
}

/// What an expression's resolution keeps: the scopes and the symbols issued.
pub open spec fn expr_frame(m: Resolver, m1: Resolver) -> bool {
    &&& m1.scopes == m.scopes
    &&& m1.last_symbol == m.last_symbol
    &&& (issued(m) ==> issued(m1))
    &&& grows(m, m1)
}

/// What a statement's resolution keeps: every scope but the innermost, the number of
/// scopes, and the order of symbols.
pub open spec fn stmt_frame(m: Resolver, m1: Resolver) -> bool {
    &&& m1.scopes.len() == m.scopes.len()
    &&& forall|i: int| 0 <= i < m.scopes.len() - 1 ==> #[trigger] m1.scopes[i] == m.scopes[i]
    &&& m.last_symbol <= m1.last_symbol
    &&& (issued(m) ==> issued(m1))
    &&& grows(m, m1)
}

/// Accounted nodes stay accounted as the resolver grows.
pub proof fn lemma_covered_grows(m: Resolver, m1: Resolver, k: usize)
    requires
        grows(m, m1),
        covered(m, k),
    ensures
        covered(m1, k),
{
    if !m.table.contains_key(k) {
        let j = choose|j: int|
            0 <= j < m.state.pending_calls.len() && (#[trigger] m.state.pending_calls[j]).callee_node_id.0
                == k;
        assert(m1.state.pending_calls[j] == m.state.pending_calls[j]);
    }
}

/// Growing is transitive.
pub proof fn lemma_grows_trans(a: Resolver, b: Resolver, c: Resolver)
    requires
        grows(a, b),
        grows(b, c),
    ensures
        grows(a, c),
{
    assert forall|j: int| 0 <= j < a.state.pending_calls.len() implies #[trigger] c.state.pending_calls[j]
        == a.state.pending_calls[j] by {
        assert(c.state.pending_calls[j] == b.state.pending_calls[j]);
    }
}

/// A name one scope maps to a symbol is defined there with it.
pub proof fn lemma_scope_lookup_found(entries: ScopeView, name: Seq<char>)
    requires
        scope_lookup(entries, name) is Some,
    ensures
        exists|j: int|
            0 <= j < entries.len() && #[trigger] entries[j] == (name, scope_lookup(entries, name)->0),
    decreases entries.len(),
{
    if entries.last().0 == name {
        assert(entries[entries.len() - 1] == (name, scope_lookup(entries, name)->0));
    } else {
        lemma_scope_lookup_found(entries.drop_last(), name);
        let j = choose|j: int|
            0 <= j < entries.drop_last().len() && #[trigger] entries.drop_last()[j] == (
                name,
                scope_lookup(entries.drop_last(), name)->0,
            );
        assert(entries[j] == entries.drop_last()[j]);
    }
}

/// A name the scopes map to a symbol is defined in one of them with it.
pub proof fn lemma_scopes_lookup_found(scopes: Seq<ScopeView>, name: Seq<char>)
    requires
        scopes_lookup(scopes, name) is Some,
    ensures
        exists|i: int, j: int|
            0 <= i < scopes.len() && 0 <= j < scopes[i].len() && #[trigger] scopes[i][j] == (
                name,
                scopes_lookup(scopes, name)->0,
            ),
    decreases scopes.len(),
{
    let last = scopes.len() - 1;
    if scope_lookup(scopes.last(), name) is Some {
        lemma_scope_lookup_found(scopes.last(), name);
        let j = choose|j: int|
            0 <= j < scopes.last().len() && #[trigger] scopes.last()[j] == (
                name,
                scope_lookup(scopes.last(), name)->0,
            );
        assert(scopes[last][j] == (name, scopes_lookup(scopes, name)->0));
    } else {
        lemma_scopes_lookup_found(scopes.drop_last(), name);
        let (i, j) = choose|i: int, j: int|
            0 <= i < scopes.drop_last().len() && 0 <= j < scopes.drop_last()[i].len()
                && #[trigger] scopes.drop_last()[i][j] == (
                name,
                scopes_lookup(scopes.drop_last(), name)->0,
            );
        assert(scopes[i] == scopes.drop_last()[i]);
    }
}

/// A symbol a name stands for was issued.
pub proof fn lemma_lookup_issued(m: Resolver, name: Seq<char>)
    requires
        issued(m),
        scopes_lookup(m.scopes, name) is Some,
    ensures
        (scopes_lookup(m.scopes, name)->0).0 <= m.last_symbol,
{
    lemma_scopes_lookup_found(m.scopes, name);
}

/// Defining a name with an issued symbol keeps every symbol issued.
pub proof fn lemma_issued_define(m: Resolver, name: Seq<char>, symbol: SymbolId)
    requires
        issued(m),
        m.scopes.len() > 0,
        symbol.0 <= m.last_symbol,
    ensures
        issued(Resolver { scopes: scopes_define(m.scopes, name, symbol), ..m }),
{
    let scopes = scopes_define(m.scopes, name, symbol);
    assert forall|i: int, j: int| 0 <= i < scopes.len() && 0 <= j < scopes[i].len() implies (
    #[trigger] scopes[i][j]).1.0 <= m.last_symbol by {
        if i == m.scopes.len() - 1 && j == m.scopes[i].len() {
        } else {
            assert(scopes[i][j] == m.scopes[i][j]);
        }
    }
}

/// Resolving a node to an issued symbol keeps every symbol issued.
pub proof fn lemma_issued_resolve(m: Resolver, k: usize, symbol: SymbolId)
    requires
        issued(m),
        symbol.0 <= m.last_symbol,
    ensures
        issued(Resolver { table: m.table.insert(k, symbol), ..m }),
{
    let table = m.table.insert(k, symbol);
    assert forall|j: usize| #[trigger] table.contains_key(j) implies table[j].0 <= m.last_symbol by {
        if j != k {
            assert(m.table.contains_key(j));
        }
    }
}

/// Entering an empty scope keeps every symbol issued.
pub proof fn lemma_issued_push(m: Resolver)
    requires
        issued(m),
    ensures
        issued(Resolver { scopes: m.scopes.push(Seq::empty()), ..m }),
{
    let scopes = m.scopes.push(Seq::<(Seq<char>, SymbolId)>::empty());
    assert forall|i: int, j: int| 0 <= i < scopes.len() && 0 <= j < scopes[i].len() implies (
    #[trigger] scopes[i][j]).1.0 <= m.last_symbol by {
        assert(i < m.scopes.len());
        assert(scopes[i] == m.scopes[i]);
    }
}

/// Leaving the innermost scope keeps every symbol issued.
pub proof fn lemma_issued_end(m: Resolver)
    requires
        issued(m),
    ensures
        issued(Resolver { scopes: scopes_end(m.scopes), ..m }),
{
    let scopes = scopes_end(m.scopes);
    assert forall|i: int, j: int| 0 <= i < scopes.len() && 0 <= j < scopes[i].len() implies (
    #[trigger] scopes[i][j]).1.0 <= m.last_symbol by {
        assert(scopes[i] == m.scopes[i]);
    }
}

/// Issuing a symbol keeps every symbol issued.
pub proof fn lemma_issued_raise(m: Resolver, last: usize)
    requires
        issued(m),
        m.last_symbol <= last,
    ensures
        issued(Resolver { last_symbol: last, ..m }),
{
}

/// Resolving an expression keeps the scopes and the symbols, and accounts for every
/// node of it that refers to something.
pub proof fn lemma_expr(m: Resolver, e: ExpressionKind)
    requires
        resolve_expr(m, e) is Done,
    ensures
        expr_frame(m, resolve_expr(m, e)->Done_0),
        forall|k: usize| #[trigger] expr_refs(e).contains(k) ==> covered(resolve_expr(m, e)->Done_0, k),
    decreases e, 0int,
{
    let m1 = resolve_expr(m, e)->Done_0;
    match e {
        ExpressionKind::Identifier(name, id) => {
            if issued(m) {
                lemma_lookup_issued(m, name@);
            }
            assert(m1.table.contains_key(id.0));
            assert(expr_refs(e) == set![id.0]);
            assert forall|k: usize| #[trigger] expr_refs(e).contains(k) implies covered(m1, k) by {
                assert(k == id.0);
                assert(m1.table.contains_key(k));
            }
        },
        ExpressionKind::FunctionCall(callee, arguments, _) => {
            lemma_call(m, *callee, arguments@);
            assert forall|k: usize| #[trigger] expr_refs(e).contains(k) implies covered(m1, k) by {
                assert((callee_refs(*callee) + arguments_refs(arguments@)).contains(k));
            }
        },
        ExpressionKind::Unary(inner, _) => {
            lemma_expr(m, *inner);
            assert forall|k: usize| #[trigger] expr_refs(e).contains(k) implies covered(m1, k) by {
                assert(expr_refs(*inner).contains(k));
            }
        },
        ExpressionKind::Grouped(inner) => {
            lemma_expr(m, *inner);
            assert forall|k: usize| #[trigger] expr_refs(e).contains(k) implies covered(m1, k) by {
                assert(expr_refs(*inner).contains(k));
            }
        },
        ExpressionKind::Binary(left, _, right) => {
            lemma_expr(m, *left);
            let ml = resolve_expr(m, *left)->Done_0;
            lemma_expr(ml, *right);
            lemma_grows_trans(m, ml, m1);
            assert forall|k: usize| #[trigger] expr_refs(e).contains(k) implies covered(m1, k) by {
                if expr_refs(*left).contains(k) {
                    lemma_covered_grows(ml, m1, k);
                } else {
                    assert(expr_refs(*right).contains(k));
                }
            }
        },
        _ => {},
    }
}

/// Resolving a call keeps the scopes and the symbols, and accounts for its callee and
/// the referring nodes of its arguments.
pub proof fn lemma_call(m: Resolver, callee: ExpressionKind, arguments: Seq<ExpressionKind>)
    requires
        resolve_call(m, callee, arguments) is Done,
    ensures
        expr_frame(m, resolve_call(m, callee, arguments)->Done_0),
        forall|k: usize|
            #[trigger] (callee_refs(callee) + arguments_refs(arguments)).contains(k) ==> covered(
                resolve_call(m, callee, arguments)->Done_0,
                k,
            ),
    decreases arguments, 1int,
{
    let m2 = resolve_call(m, callee, arguments)->Done_0;
    if let ExpressionKind::Identifier(name, callee_id) = callee {
        let m1 = match scopes_lookup(m.scopes, name@) {
            None => Resolver {
                state: SpecState {
                    pending_calls: m.state.pending_calls.push(
                        SpecPendingCall {
                            name: name@,
                            argument_count: arguments.len() as usize,
                            callee_node_id: callee_id,
                        },
                    ),
                    ..m.state
                },
                ..m
            },
            Some(symbol) => Resolver { table: m.table.insert(callee_id.0, symbol), ..m },
        };
        if scopes_lookup(m.scopes, name@) is Some && issued(m) {
            lemma_lookup_issued(m, name@);
        }
        assert(covered(m1, callee_id.0)) by {
            if scopes_lookup(m.scopes, name@) is None {
                assert(m1.state.pending_calls[m.state.pending_calls.len() as int].callee_node_id
                    == callee_id);
            }
        }
        assert(expr_frame(m, m1));
        lemma_arguments(m1, arguments);
        lemma_grows_trans(m, m1, m2);
        lemma_covered_grows(m1, m2, callee_id.0);
    }
}

/// Resolving expressions in order keeps the scopes and the symbols, and accounts for
/// each of their referring nodes.
pub proof fn lemma_arguments(m: Resolver, es: Seq<ExpressionKind>)
    requires
        resolve_arguments(m, es) is Done,
    ensures
        expr_frame(m, resolve_arguments(m, es)->Done_0),
        forall|k: usize| #[trigger] arguments_refs(es).contains(k) ==> covered(
            resolve_arguments(m, es)->Done_0,
            k,
        ),
    decreases es, 0int,
{
    if es.len() > 0 {
        lemma_arguments(m, es.drop_last());
        let m1 = resolve_arguments(m, es.drop_last())->Done_0;
        lemma_expr(m1, es.last());
        let m2 = resolve_arguments(m, es)->Done_0;
        lemma_grows_trans(m, m1, m2);
        assert forall|k: usize| #[trigger] arguments_refs(es).contains(k) implies covered(m2, k) by {
            if arguments_refs(es.drop_last()).contains(k) {
                lemma_covered_grows(m1, m2, k);
            } else {
                assert(expr_refs(es.last()).contains(k));
            }
        }
    }
}

/// Resolving the expressions of a sequence keeps the scopes and the symbols, and
/// accounts for each of their referring nodes.
pub proof fn lemma_expressions(m: Resolver, es: Seq<Expression>)
    requires
        resolve_expressions(m, es) is Done,
    ensures
        expr_frame(m, resolve_expressions(m, es)->Done_0),
        forall|k: usize| #[trigger] expressions_refs(es).contains(k) ==> covered(
            resolve_expressions(m, es)->Done_0,
            k,
        ),
    decreases es.len(),
{
    if es.len() > 0 {
        lemma_expressions(m, es.drop_last());
        let m1 = resolve_expressions(m, es.drop_last())->Done_0;
        lemma_expr(m1, es.last().kind);
        let m2 = resolve_expressions(m, es)->Done_0;
        lemma_grows_trans(m, m1, m2);
        assert forall|k: usize| #[trigger] expressions_refs(es).contains(k) implies covered(m2, k) by {
            if expressions_refs(es.drop_last()).contains(k) {
                lemma_covered_grows(m1, m2, k);
            } else {
                assert(expr_refs(es.last().kind).contains(k));
            }
        }
    }
}

/// Resolving an optional expression keeps the scopes and the symbols, and accounts for
/// its referring nodes.
pub proof fn lemma_opt_expression(m: Resolver, e: Option<Expression>)
    requires
        resolve_opt_expression(m, e) is Done,
    ensures
        expr_frame(m, resolve_opt_expression(m, e)->Done_0),
        forall|k: usize| #[trigger] opt_refs(e).contains(k) ==> covered(
            resolve_opt_expression(m, e)->Done_0,
            k,
        ),
{
    if let Some(x) = e {
        lemma_expr(m, x.kind);
    }
}

/// A statement frame follows from an expression frame.
pub proof fn lemma_expr_frame_stmt(m: Resolver, m1: Resolver)
    requires
        expr_frame(m, m1),
    ensures
        stmt_frame(m, m1),
{
}

/// Statement frames compose.
pub proof fn lemma_stmt_frame_trans(a: Resolver, b: Resolver, c: Resolver)
    requires
        stmt_frame(a, b),
        stmt_frame(b, c),
    ensures
        stmt_frame(a, c),
{
    lemma_grows_trans(a, b, c);
    assert forall|i: int| 0 <= i < a.scopes.len() - 1 implies #[trigger] c.scopes[i] == a.scopes[i] by {
        assert(c.scopes[i] == b.scopes[i]);
    }
}

/// Declaring parameters changes only the innermost scope and keeps the symbols issued;
/// the parameters' symbols are fresh.
pub proof fn lemma_parameters(m: Resolver, ps: Seq<FunctionParameter>)
    requires
        m.scopes.len() > 0,
        resolve_parameters(m, ps) is Done,
    ensures
        stmt_frame(m, resolve_parameters(m, ps)->Done_0.0),
        resolve_parameters(m, ps)->Done_0.0.table == m.table,
        resolve_parameters(m, ps)->Done_0.0.state == m.state,
    decreases ps.len(),
{
    if ps.len() > 0 {
        lemma_parameters(m, ps.drop_last());
        let m1 = resolve_parameters(m, ps.drop_last())->Done_0.0;
        let m2 = resolve_parameters(m, ps)->Done_0.0;
        let symbol = SymbolId((m1.last_symbol + 1) as usize);
        if issued(m1) {
            lemma_issued_raise(m1, symbol.0);
            lemma_issued_define(Resolver { last_symbol: symbol.0, ..m1 }, ps.last().name@, symbol);
        }
        assert(stmt_frame(m1, m2));
        lemma_stmt_frame_trans(m, m1, m2);
    }
}

/// Declaring a name with the next symbol, and resolving a node to it, changes only the
/// innermost scope and keeps every symbol issued.
pub proof fn lemma_declare(m: Resolver, name: Seq<char>, id: NodeId) -> (r: Resolver)
    requires
        m.scopes.len() > 0,
        m.last_symbol < usize::MAX,
    ensures
        r == (Resolver {
            scopes: scopes_define(m.scopes, name, SymbolId((m.last_symbol + 1) as usize)),
            table: m.table.insert(id.0, SymbolId((m.last_symbol + 1) as usize)),
            last_symbol: (m.last_symbol + 1) as usize,
            ..m
        }),
        stmt_frame(m, r),
        covered(r, id.0),
{
    let symbol = SymbolId((m.last_symbol + 1) as usize);
    let r = Resolver {
        scopes: scopes_define(m.scopes, name, symbol),
        table: m.table.insert(id.0, symbol),
        last_symbol: symbol.0,
        ..m
    };
    if issued(m) {
        lemma_issued_raise(m, symbol.0);
        lemma_issued_define(Resolver { last_symbol: symbol.0, ..m }, name, symbol);
        assert forall|k: usize| #[trigger] r.table.contains_key(k) implies r.table[k].0 <= r.last_symbol by {
            if k != id.0 {
                assert(m.table.contains_key(k));
            }
        }
        assert(issued(r));
    }
    assert forall|i: int| 0 <= i < m.scopes.len() - 1 implies #[trigger] r.scopes[i] == m.scopes[i] by {
    }
    assert(covered(r, id.0));
    r
}

/// Resolving a statement keeps every scope but the innermost and the order of symbols,
/// and accounts for every node of it that refers to something.
pub proof fn lemma_stmt(m: Resolver, s: Statement)
    requires
        m.scopes.len() > 0,
        resolve_stmt(m, s) is Done,
    ensures
        stmt_frame(m, resolve_stmt(m, s)->Done_0),
        forall|k: usize| #[trigger] stmt_refs(s).contains(k) ==> covered(resolve_stmt(m, s)->Done_0, k),
    decreases s, 0int,
{
    let m2 = resolve_stmt(m, s)->Done_0;
    match s {
        Statement::VariableDeclaration(d, id) => {
            lemma_opt_expression(m, d.expression);

            assert(resolve_stmt(m, s) == resolve_var_declaration(m, d, id));
            assert(resolve_opt_expression(m, d.expression) is Done);
            let m1 = resolve_opt_expression(m, d.expression)->Done_0;
            assert(m1.last_symbol < usize::MAX);
            let declared = lemma_declare(m1, d.variable@, id);
            assert(m2 == declared);
            lemma_expr_frame_stmt(m, m1);
            lemma_stmt_frame_trans(m, m1, m2);
            assert forall|k: usize| #[trigger] stmt_refs(s).contains(k) implies covered(m2, k) by {
                if opt_refs(d.expression).contains(k) {
                    lemma_covered_grows(m1, m2, k);
                } else {
                    assert(k == id.0);
                    assert(covered(m2, id.0));
                }
            }
        },
        Statement::Assignment(a, id) => {
            lemma_expr(m, a.expression.kind);
            let m1 = resolve_expr(m, a.expression.kind)->Done_0;
            if issued(m1) {
                lemma_lookup_issued(m1, a.variable@);
                lemma_issued_resolve(m1, id.0, scopes_lookup(m1.scopes, a.variable@)->0);
            }
            assert(stmt_frame(m1, m2));
            lemma_expr_frame_stmt(m, m1);
            lemma_stmt_frame_trans(m, m1, m2);
            assert forall|k: usize| #[trigger] stmt_refs(s).contains(k) implies covered(m2, k) by {
                if expr_refs(a.expression.kind).contains(k) {
                    lemma_covered_grows(m1, m2, k);
                } else {
                    assert(k == id.0);
                }
            }
        },
        Statement::If(i, _) => {
            lemma_if(m, i);
            assert forall|k: usize| #[trigger] stmt_refs(s).contains(k) implies covered(m2, k) by {
                assert(if_refs(i).contains(k));
            }
        },
        Statement::Loop(l, _) => {
            lemma_loop(m, l);
            assert forall|k: usize| #[trigger] stmt_refs(s).contains(k) implies covered(m2, k) by {
                assert(stmts_refs(l.body.statements@).contains(k));
            }
        },
        Statement::Block(b, _) => {
            lemma_block(m, b.statements@);
            assert forall|k: usize| #[trigger] stmt_refs(s).contains(k) implies covered(m2, k) by {
                assert(stmts_refs(b.statements@).contains(k));
            }
        },
        Statement::FunctionDefinition(f, id) => {
            lemma_function_definition(m, f, id);
            assert forall|k: usize| #[trigger] stmt_refs(s).contains(k) implies covered(m2, k) by {
                assert((set![id.0] + stmts_refs(f.body.statements@)).contains(k));
            }
        },
        Statement::FunctionCall(e, _) => {
            lemma_expr(m, e.kind);
            lemma_expr_frame_stmt(m, m2);
            assert forall|k: usize| #[trigger] stmt_refs(s).contains(k) implies covered(m2, k) by {
                assert(expr_refs(e.kind).contains(k));
            }
        },
        Statement::Break(_, _) => {},
        Statement::Return(r, _) => {
            lemma_opt_expression(m, r.expression);
            let m1 = resolve_opt_expression(m, r.expression)->Done_0;
            lemma_expr_frame_stmt(m, m1);
            assert(stmt_frame(m1, m2));
            lemma_stmt_frame_trans(m, m1, m2);
            assert forall|k: usize| #[trigger] stmt_refs(s).contains(k) implies covered(m2, k) by {
                assert(opt_refs(r.expression).contains(k));
                lemma_covered_grows(m1, m2, k);
            }
        },
        Statement::Print(p, _) => {
            lemma_expressions(m, p.arguments@);
            lemma_expr_frame_stmt(m, m2);
            assert forall|k: usize| #[trigger] stmt_refs(s).contains(k) implies covered(m2, k) by {
                assert(expressions_refs(p.arguments@).contains(k));
            }
        },
    }
}

/// The referring nodes of a conditional.
pub open spec fn if_refs(i: If) -> Set<usize> {
    expr_refs(i.condition.kind) + stmts_refs(i.body.statements@) + match i.else_body {
        Some(b) => stmts_refs(b.statements@),
        None => Set::empty(),
    }
}

/// Resolving a conditional keeps the scopes and the order of symbols, and accounts for
/// its referring nodes.
pub proof fn lemma_if(m: Resolver, i: If)
    requires
        m.scopes.len() > 0,
        resolve_if(m, i) is Done,
    ensures
        stmt_frame(m, resolve_if(m, i)->Done_0),
        resolve_if(m, i)->Done_0.scopes == m.scopes,
        forall|k: usize| #[trigger] if_refs(i).contains(k) ==> covered(resolve_if(m, i)->Done_0, k),
    decreases i, 0int,
{
    lemma_expr(m, i.condition.kind);
    let m1 = resolve_expr(m, i.condition.kind)->Done_0;
    lemma_block(m1, i.body.statements@);
    let m2 = resolve_block(m1, i.body.statements@)->Done_0;
    lemma_expr_frame_stmt(m, m1);
    lemma_stmt_frame_trans(m, m1, m2);
    let m3 = resolve_if(m, i)->Done_0;
    match i.else_body {
        Some(b) => {
            lemma_block(m2, b.statements@);
            lemma_stmt_frame_trans(m, m2, m3);
            assert forall|k: usize| #[trigger] if_refs(i).contains(k) implies covered(m3, k) by {
                if expr_refs(i.condition.kind).contains(k) {
                    lemma_covered_grows(m1, m2, k);
                    lemma_covered_grows(m2, m3, k);
                } else if stmts_refs(i.body.statements@).contains(k) {
                    lemma_covered_grows(m2, m3, k);
                } else {
                    assert(stmts_refs(b.statements@).contains(k));
                }
            }
        },
        None => {
            assert forall|k: usize| #[trigger] if_refs(i).contains(k) implies covered(m3, k) by {
                if expr_refs(i.condition.kind).contains(k) {
                    lemma_covered_grows(m1, m2, k);
                } else {
                    assert(stmts_refs(i.body.statements@).contains(k));
                }
            }
        },
    }
}

/// Resolving a loop keeps the scopes and the order of symbols, and accounts for its
/// referring nodes.
pub proof fn lemma_loop(m: Resolver, l: Loop)
    requires
        m.scopes.len() > 0,
        resolve_loop(m, l) is Done,
    ensures
        stmt_frame(m, resolve_loop(m, l)->Done_0),
        resolve_loop(m, l)->Done_0.scopes == m.scopes,
        forall|k: usize| #[trigger] stmts_refs(l.body.statements@).contains(k) ==> covered(
            resolve_loop(m, l)->Done_0,
            k,
        ),
    decreases l, 0int,
{
    let m1 = Resolver {
        state: SpecState { loop_depth: (m.state.loop_depth + 1) as usize, ..m.state },
        ..m
    };
    lemma_block(m1, l.body.statements@);
    let m2 = resolve_block(m1, l.body.statements@)->Done_0;
    let m3 = resolve_loop(m, l)->Done_0;
    assert(stmt_frame(m, m1));
    assert(stmt_frame(m2, m3));
    lemma_stmt_frame_trans(m, m1, m2);
    lemma_stmt_frame_trans(m, m2, m3);
    assert forall|k: usize| #[trigger] stmts_refs(l.body.statements@).contains(k) implies covered(
        m3,
        k,
    ) by {
        lemma_covered_grows(m2, m3, k);
    }
}

/// Resolving a function definition keeps every scope but the innermost and the order
/// of symbols, and accounts for its own node and the referring nodes of its body.
pub proof fn lemma_function_definition(m: Resolver, f: FunctionDefinition, id: NodeId)
    requires
        m.scopes.len() > 0,
        resolve_function_definition(m, f, id) is Done,
    ensures
        stmt_frame(m, resolve_function_definition(m, f, id)->Done_0),
        forall|k: usize| #[trigger] (set![id.0] + stmts_refs(f.body.statements@)).contains(k) ==> covered(
            resolve_function_definition(m, f, id)->Done_0,
            k,
        ),
    decreases f, 0int,
{
    let function_symbol = SymbolId((m.last_symbol + 1) as usize);
    let m1 = Resolver {
        scopes: scopes_define(m.scopes, f.name@, function_symbol).push(Seq::empty()),
        table: m.table.insert(id.0, function_symbol),
        last_symbol: function_symbol.0,
        ..m
    };
    if issued(m) {
        lemma_issued_raise(m, function_symbol.0);
        let raised = Resolver { last_symbol: function_symbol.0, ..m };
        lemma_issued_define(raised, f.name@, function_symbol);
        let defined = Resolver { scopes: scopes_define(m.scopes, f.name@, function_symbol), ..raised };
        lemma_issued_push(defined);
        assert(issued(m1));
    }
    lemma_parameters(m1, f.parameters@);
    let m2 = resolve_parameters(m1, f.parameters@)->Done_0.0;
    let symbols = resolve_parameters(m1, f.parameters@)->Done_0.1;
    let metadata = function_metadata(f, symbols);
    let m3 = Resolver {
        state: SpecState {
            current_function: Some(metadata),
            global_functions: m2.state.global_functions.insert(function_symbol.0, metadata),
            ..m2.state
        },
        ..m2
    };
    lemma_stmts(m3, f.body.statements@);
    let m4 = resolve_stmts(m3, f.body.statements@)->Done_0;
    let m5 = resolve_function_definition(m, f, id)->Done_0;
    assert(stmt_frame(m2, m3));
    lemma_stmt_frame_trans(m1, m2, m3);
    lemma_stmt_frame_trans(m1, m3, m4);
    if issued(m4) {
        lemma_issued_end(m4);
    }
    assert(grows(m4, m5));
    assert(grows(m, m1));
    lemma_grows_trans(m, m1, m4);
    lemma_grows_trans(m, m4, m5);
    assert(m5.scopes.len() == m.scopes.len());
    assert forall|i: int| 0 <= i < m.scopes.len() - 1 implies #[trigger] m5.scopes[i] == m.scopes[i] by {
        assert(m5.scopes[i] == m4.scopes[i]);
        assert(m4.scopes[i] == m1.scopes[i]);
    }
    assert(stmt_frame(m, m5));
    assert forall|k: usize| #[trigger] (set![id.0] + stmts_refs(f.body.statements@)).contains(k) implies covered(
        m5,
        k,
    ) by {
        if k == id.0 {
            assert(covered(m1, k));
            lemma_covered_grows(m1, m5, k);
        } else {
            assert(stmts_refs(f.body.statements@).contains(k));
            lemma_covered_grows(m4, m5, k);
        }
    }
}

/// Resolving a block leaves the scopes exactly as they were: its declarations do not
/// outlive it. It keeps the order of symbols and accounts for its referring nodes.
pub proof fn lemma_block(m: Resolver, ss: Seq<Statement>)
    requires
        m.scopes.len() > 0,
        resolve_block(m, ss) is Done,
    ensures
        stmt_frame(m, resolve_block(m, ss)->Done_0),
        resolve_block(m, ss)->Done_0.scopes == m.scopes,
        forall|k: usize| #[trigger] stmts_refs(ss).contains(k) ==> covered(resolve_block(m, ss)->Done_0, k),
    decreases ss, 1int,
{
    let m1 = Resolver { scopes: m.scopes.push(Seq::empty()), ..m };
    if issued(m) {
        lemma_issued_push(m);
    }
    lemma_stmts(m1, ss);
    let m2 = resolve_stmts(m1, ss)->Done_0;
    let m3 = resolve_block(m, ss)->Done_0;
    if issued(m2) {
        lemma_issued_end(m2);
    }
    assert(m3.scopes =~= m.scopes) by {
        assert forall|i: int| 0 <= i < m.scopes.len() implies m3.scopes[i] == m.scopes[i] by {
            assert(m2.scopes[i] == m1.scopes[i]);
        }
    }
    assert(grows(m, m1));
    assert(grows(m2, m3));
    lemma_grows_trans(m, m1, m2);
    lemma_grows_trans(m, m2, m3);
    assert forall|k: usize| #[trigger] stmts_refs(ss).contains(k) implies covered(m3, k) by {
        lemma_covered_grows(m2, m3, k);
    }
}

/// Resolving statements in order keeps every scope but the innermost and the order of
/// symbols, and accounts for every node of them that refers to something.
pub proof fn lemma_stmts(m: Resolver, ss: Seq<Statement>)
    requires
        m.scopes.len() > 0,
        resolve_stmts(m, ss) is Done,
    ensures
        stmt_frame(m, resolve_stmts(m, ss)->Done_0),
        forall|k: usize| #[trigger] stmts_refs(ss).contains(k) ==> covered(resolve_stmts(m, ss)->Done_0, k),
    decreases ss, 0int,
{
    if ss.len() > 0 {
        lemma_stmts(m, ss.drop_last());
        let m1 = resolve_stmts(m, ss.drop_last())->Done_0;
        lemma_stmt(m1, ss.last());
        let m2 = resolve_stmts(m, ss)->Done_0;
        lemma_stmt_frame_trans(m, m1, m2);
        assert forall|k: usize| #[trigger] stmts_refs(ss).contains(k) implies covered(m2, k) by {
            if stmts_refs(ss.drop_last()).contains(k) {
                lemma_covered_grows(m1, m2, k);
            } else {
                assert(stmt_refs(ss.last()).contains(k));
            }
        }
    }
}

/// Checking deferred calls keeps the scopes, the state and the symbols, and resolves the
/// callee of each call checked.
pub proof fn lemma_pending(m: Resolver, calls: Seq<SpecPendingCall>)
    requires
        resolve_pending(m, calls) is Done,
    ensures
        resolve_pending(m, calls)->Done_0.scopes == m.scopes,
        resolve_pending(m, calls)->Done_0.state == m.state,
        resolve_pending(m, calls)->Done_0.last_symbol == m.last_symbol,
        issued(m) ==> issued(resolve_pending(m, calls)->Done_0),
        grows(m, resolve_pending(m, calls)->Done_0),
        forall|j: int|
            0 <= j < calls.len() ==> resolve_pending(m, calls)->Done_0.table.contains_key(
                (#[trigger] calls[j]).callee_node_id.0,
            ),
    decreases calls.len(),
{
    if calls.len() > 0 {
        lemma_pending(m, calls.drop_last());
        let m1 = resolve_pending(m, calls.drop_last())->Done_0;
        let m2 = resolve_pending(m, calls)->Done_0;
        let call = calls.last();
        if issued(m1) {
            lemma_lookup_issued(m1, call.name);
            lemma_issued_resolve(m1, call.callee_node_id.0, scopes_lookup(m1.scopes, call.name)->0);
        }
        assert(grows(m1, m2));
        lemma_grows_trans(m, m1, m2);
        assert forall|j: int| 0 <= j < calls.len() implies m2.table.contains_key(
            (#[trigger] calls[j]).callee_node_id.0,
        ) by {
            if j < calls.len() - 1 {
                assert(calls[j] == calls.drop_last()[j]);
            }
        }
    }
}

/// Completeness of symbol resolution: when a program resolves, every node of it that
/// refers to something (a reference, an assignment, a declaration, a function
/// definition, a callee, called before or after its definition) has an entry in the
/// resolution table.
pub proof fn lemma_resolution_complete(m: Resolver, ss: Seq<Statement>)
    requires
        m.scopes.len() > 0,
        symbol_analysis(m, ss) is Done,
    ensures
        forall|k: usize| #[trigger] stmts_refs(ss).contains(k) ==> symbol_analysis(
            m,
            ss,
        )->Done_0.table.contains_key(k),
{
    lemma_stmts(m, ss);
    let m1 = resolve_stmts(m, ss)->Done_0;
    lemma_pending(m1, m1.state.pending_calls);
    let m2 = symbol_analysis(m, ss)->Done_0;
    assert forall|k: usize| #[trigger] stmts_refs(ss).contains(k) implies m2.table.contains_key(k) by {
        assert(covered(m1, k));
        if !m1.table.contains_key(k) {
            let j = choose|j: int|
                0 <= j < m1.state.pending_calls.len()
                    && (#[trigger] m1.state.pending_calls[j]).callee_node_id.0 == k;
            assert(m2.table.contains_key(m1.state.pending_calls[j].callee_node_id.0));
        }
    }
}

/// Symbol resolution only ever hands out symbols it has issued, and issues them in
/// increasing order: after resolving a program, every symbol a name stands for or a
/// node resolves to is at most the last one issued, and that never goes down.
pub proof fn lemma_resolution_issued(m: Resolver, ss: Seq<Statement>)
    requires
        m.scopes.len() > 0,
        issued(m),
        symbol_analysis(m, ss) is Done,
    ensures
        issued(symbol_analysis(m, ss)->Done_0),
        m.last_symbol <= symbol_analysis(m, ss)->Done_0.last_symbol,
{
    lemma_stmts(m, ss);
    let m1 = resolve_stmts(m, ss)->Done_0;
    lemma_pending(m1, m1.state.pending_calls);
}

/// Fresh symbols: the next symbol a resolver issues is one no name stands for and no
/// node resolves to yet, so every declaration gets a symbol of its own.
pub proof fn lemma_next_symbol_unused(m: Resolver)
    requires
        issued(m),
        m.last_symbol < usize::MAX,
    ensures
        forall|i: int, j: int|
            0 <= i < m.scopes.len() && 0 <= j < m.scopes[i].len() ==> (#[trigger] m.scopes[i][j]).1
                != SymbolId((m.last_symbol + 1) as usize),
        forall|k: usize| #[trigger] m.table.contains_key(k) ==> m.table[k] != SymbolId(
            (m.last_symbol + 1) as usize,
        ),
{
}

/// Scoping of blocks: after a block resolves, the scopes are exactly as before it, so
/// nothing it declares can be referred to after it.
pub proof fn lemma_block_scoping(m: Resolver, ss: Seq<Statement>)
    requires
        m.scopes.len() > 0,
        resolve_block(m, ss) is Done,
    ensures
        resolve_block(m, ss)->Done_0.scopes == m.scopes,
{
    lemma_block(m, ss);
}

/// A block, a conditional or a loop that resolves leaves neither a `break` nor a
/// `return` behind: whatever such a statement held, what follows it is reachable.
pub proof fn lemma_compound_statements_end_reachable(m: Resolver, s: Statement)
    ensures
        resolve_stmt(m, s) matches Outcome::Done(m1) ==> ((s is Block || s is If || s is Loop) ==> (
        !m1.state.encountered_break && !m1.state.encountered_return)),
{
    match s {
        Statement::If(i, _) => {
            match resolve_expr(m, i.condition.kind) {
                Outcome::Done(m1) => {
                    match resolve_block(m1, i.body.statements@) {
                        Outcome::Done(m2) => {
                            match i.else_body {
                                Some(b) => {
                                    assert(resolve_block(m2, b.statements@) is Done ==> !resolve_block(
                                        m2,
                                        b.statements@,
                                    )->Done_0.state.encountered_break);
                                },
                                None => {},
                            }
                        },
                        _ => {},
                    }
                },
                _ => {},
            }
        },
        _ => {},
    }
}

} // verus!
