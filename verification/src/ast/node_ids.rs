//! The identifiers of the nodes of a syntax tree, in the order they were issued.
//!
//! A node gets its identifier once its children have theirs, so listing a tree's
//! identifiers children first (post-order) lists them in the order they were issued.

use vstd::prelude::*;
use crate::ast::expr::{Expression, ExpressionKind};
use crate::ast::statement::{Block, Statement};

verus! {

/// The identifiers of the nodes of an expression, children first.
pub open spec fn expr_ids(e: ExpressionKind) -> Seq<usize>
    decreases e,
{
    match e {
        ExpressionKind::Identifier(_, id) => seq![id.0],
        ExpressionKind::FunctionCall(callee, arguments, id) => expr_ids(*callee) + arguments_ids(
            arguments@,
        ) + seq![id.0],
        ExpressionKind::Unary(operand, _) => expr_ids(*operand),
        ExpressionKind::Grouped(inner) => expr_ids(*inner),
        ExpressionKind::Binary(left, _, right) => expr_ids(*left) + expr_ids(*right),
        _ => Seq::empty(),
    }
}

/// The identifiers of the nodes of a sequence of expressions, in order.
pub open spec fn arguments_ids(es: Seq<ExpressionKind>) -> Seq<usize>
    decreases es,
{
    if es.len() == 0 {
        Seq::empty()
    } else {
        arguments_ids(es.drop_last()) + expr_ids(es.last())
    }
}

/// Appending an expression appends its identifiers.
pub proof fn lemma_arguments_ids_push(es: Seq<ExpressionKind>, e: ExpressionKind)
    ensures
        arguments_ids(es.push(e)) == arguments_ids(es) + expr_ids(e),
{
    assert(es.push(e).drop_last() =~= es);
}

/// The identifiers of the nodes of the expressions of a sequence, in order.
pub open spec fn expressions_ids(es: Seq<Expression>) -> Seq<usize>
    decreases es.len(),
{
    if es.len() == 0 {
        Seq::empty()
    } else {
        expressions_ids(es.drop_last()) + expr_ids(es.last().kind)
    }
}

/// The identifiers of the nodes of an optional expression.
pub open spec fn opt_expression_ids(e: Option<Expression>) -> Seq<usize> {
    match e {
        Some(e) => expr_ids(e.kind),
        None => Seq::empty(),
    }
}

/// The identifiers of the nodes of a statement, children first.
pub open spec fn stmt_ids(s: Statement) -> Seq<usize>
    decreases s,
{
    match s {
        Statement::VariableDeclaration(d, id) => opt_expression_ids(d.expression) + seq![id.0],
        Statement::Assignment(a, id) => expr_ids(a.expression.kind) + seq![id.0],
        Statement::If(i, id) => expr_ids(i.condition.kind) + stmts_ids(i.body.statements@) + match i.else_body {
            Some(b) => stmts_ids(b.statements@),
            None => Seq::empty(),
        } + seq![id.0],
        Statement::Loop(l, id) => stmts_ids(l.body.statements@) + seq![id.0],
        Statement::Block(b, id) => stmts_ids(b.statements@) + seq![id.0],
        Statement::FunctionDefinition(f, id) => stmts_ids(f.body.statements@) + seq![id.0],
        Statement::FunctionCall(e, id) => expr_ids(e.kind) + seq![id.0],
        Statement::Break(_, id) => seq![id.0],
        Statement::Return(r, id) => opt_expression_ids(r.expression) + seq![id.0],
        Statement::Print(p, id) => expressions_ids(p.arguments@) + seq![id.0],
    }
}

/// The identifiers of the nodes of a sequence of statements, in order.
pub open spec fn stmts_ids(ss: Seq<Statement>) -> Seq<usize>
    decreases ss,
{
    if ss.len() == 0 {
        Seq::empty()
    } else {
        stmts_ids(ss.drop_last()) + stmt_ids(ss.last())
    }
}

/// The identifiers of the nodes of an optional block.
pub open spec fn opt_block_ids(b: Option<Block>) -> Seq<usize> {
    match b {
        Some(b) => stmts_ids(b.statements@),
        None => Seq::empty(),
    }
}

/// The identifiers of the nodes of an optional expression kind.
pub open spec fn opt_kind_ids(o: Option<ExpressionKind>) -> Seq<usize> {
    match o {
        Some(k) => expr_ids(k),
        None => Seq::empty(),
    }
}

/// The identifiers of the nodes of an optional statement.
pub open spec fn opt_stmt_ids(o: Option<Statement>) -> Seq<usize> {
    match o {
        Some(s) => stmt_ids(s),
        None => Seq::empty(),
    }
}

/// Appending a statement appends its identifiers.
pub proof fn lemma_stmts_ids_push(ss: Seq<Statement>, s: Statement)
    ensures
        stmts_ids(ss.push(s)) == stmts_ids(ss) + stmt_ids(s),
{
    assert(ss.push(s).drop_last() =~= ss);
}

/// Identifiers issued before a node's own, then the node's, were issued up to it.
pub proof fn lemma_issued_then(a: Seq<usize>, lo: int, mid: int, id: usize)
    requires
        issued_between(a, lo, mid),
        lo <= mid,
        id == mid + 1,
    ensures
        issued_between(a + seq![id], lo, id as int),
{
    lemma_issued_single(id, mid);
    lemma_issued_concat(a, seq![id], lo, mid, id as int);
}

/// Whether `s` is exactly the identifiers issued, in order, while a counter went from
/// `lo` to `hi`: `lo + 1`, `lo + 2`, ..., `hi`.
pub open spec fn issued_between(s: Seq<usize>, lo: int, hi: int) -> bool {
    &&& s.len() == hi - lo
    &&& forall|i: int| 0 <= i < s.len() ==> #[trigger] s[i] == lo + 1 + i
}

/// Whether no identifier occurs twice in `s`.
pub open spec fn distinct(s: Seq<usize>) -> bool {
    forall|i: int, j: int| 0 <= i < s.len() && 0 <= j < s.len() && i != j ==> s[i] != s[j]
}

/// Identifiers issued one after the other are distinct.
pub proof fn lemma_issued_distinct(s: Seq<usize>, lo: int, hi: int)
    requires
        issued_between(s, lo, hi),
    ensures
        distinct(s),
{
}

/// Identifiers issued while the counter went from `lo` to `mid`, then those issued
/// while it went on to `hi`, were issued while it went from `lo` to `hi`.
pub proof fn lemma_issued_concat(a: Seq<usize>, b: Seq<usize>, lo: int, mid: int, hi: int)
    requires
        issued_between(a, lo, mid),
        issued_between(b, mid, hi),
        lo <= mid <= hi,
    ensures
        issued_between(a + b, lo, hi),
{
    let c = a + b;
    assert forall|i: int| 0 <= i < c.len() implies #[trigger] c[i] == lo + 1 + i by {
        if i < a.len() {
            assert(c[i] == a[i]);
        } else {
            assert(c[i] == b[i - a.len()]);
        }
    }
}

/// The one identifier issued as the counter stepped from `lo` to `lo + 1`.
pub proof fn lemma_issued_single(id: usize, lo: int)
    requires
        id == lo + 1,
    ensures
        issued_between(seq![id], lo, id as int),
{
}

} // verus!
