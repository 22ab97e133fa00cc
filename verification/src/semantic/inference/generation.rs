//! What constraint generation computes, stated over the syntax tree.
//!
//! The second pass of semantic analysis walks a resolved program in order and gives
//! every expression a type: a literal its own type, a name the type recorded for its
//! symbol, an operator its signature's result, a call its function's return type.
//! Where two types must agree, it records a constraint between them; a declaration
//! without an annotation, and a call of a function without a return type, get a fresh
//! placeholder type. The constraints are solved afterwards by unification.

use vstd::prelude::*;
use crate::ast::expr::{is_comparison_operator, BinaryOperator, Expression, ExpressionKind};
use crate::ast::statement::{
    opt_text, Assignment, FunctionDefinition, If, NodeId, Return, Statement, VariableDeclaration,
};
use crate::semantic::error::{SemanticError, SpecSemanticError};
use crate::semantic::inference::constraints::Constraint;
use crate::semantic::inference::{
    annotated_type, binary_signature, lemma_binary_operator_types, unary_signature, Type,
};
use crate::semantic::state::SpecFunctionMetadata;
use crate::semantic::{Outcome, SymbolId};

verus! {

/// What symbol resolution handed on: the symbol of each resolved node (keyed by the
/// number of the node's identifier) and the signature of each function (keyed by the
/// number of its symbol).
pub struct Context {
    pub table: Map<usize, SymbolId>,
    pub functions: Map<usize, SpecFunctionMetadata>,
}

/// Everything constraint generation keeps: the constraints in the order they were
/// made, the type of each symbol (keyed by its number), the return type of the
/// function being walked, and the last placeholder issued.
pub struct Inference {
    pub constraints: Seq<Constraint>,
    pub types: Map<usize, Type>,
    pub return_type: Option<Type>,
    pub last_type: usize,
}

/// Constraint generation before any statement.
pub open spec fn initial_inference() -> Inference {
    Inference { constraints: Seq::empty(), types: Map::empty(), return_type: None, last_type: 0 }
}

/// `i` with the constraint `left == right` added last.
pub open spec fn constrain(i: Inference, left: Type, right: Type) -> Inference {
    Inference { constraints: i.constraints.push(Constraint { left, right }), ..i }
}

/// The type an optional annotation gives: the type it names, or a fresh placeholder
/// where there is none.
pub open spec fn annotation_type(i: Inference, annotation: Option<Seq<char>>) -> Outcome<
    (Inference, Type),
> {
    match annotation {
        None => if i.last_type == usize::MAX {
            Outcome::Halted
        } else {
            Outcome::Done(
                (
                    Inference { last_type: (i.last_type + 1) as usize, ..i },
                    Type::Placeholder((i.last_type + 1) as usize),
                ),
            )
        },
        Some(name) => match annotated_type(name) {
            Some(t) => Outcome::Done((i, t)),
            None => Outcome::Failed(SpecSemanticError::UnsupportedTypeError(name)),
        },
    }
}

/// The type recorded for the symbol a node resolved to; the walk stops where there is
/// none.
pub open spec fn node_type(ctx: Context, i: Inference, id: NodeId) -> Option<Type> {
    if ctx.table.contains_key(id.0) && i.types.contains_key(ctx.table[id.0].0) {
        Some(i.types[ctx.table[id.0].0])
    } else {
        None
    }
}

/// Infers the type of an expression, collecting the constraints it imposes.
pub open spec fn infer_expr(ctx: Context, i: Inference, e: ExpressionKind) -> Outcome<(Inference, Type)>
    decreases e, 0int,
{
    match e {
        ExpressionKind::I32(_) => Outcome::Done((i, Type::Int32)),
        ExpressionKind::String(_) => Outcome::Done((i, Type::String)),
        ExpressionKind::Boolean(_) => Outcome::Done((i, Type::Bool)),
        ExpressionKind::Identifier(_, id) => match node_type(ctx, i, id) {
            Some(t) => Outcome::Done((i, t)),
            None => Outcome::Halted,
        },
        ExpressionKind::FunctionCall(callee, arguments, _) => infer_call(ctx, i, *callee, arguments@),
        ExpressionKind::Unary(operand, operator) => match infer_expr(ctx, i, *operand) {
            Outcome::Done((i1, t)) => Outcome::Done(
                (constrain(i1, t, unary_signature(operator).0), unary_signature(operator).1),
            ),
            Outcome::Failed(err) => Outcome::Failed(err),
            Outcome::Halted => Outcome::Halted,
        },
        ExpressionKind::Binary(left, operator, right) => match infer_expr(ctx, i, *left) {
            Outcome::Done((i1, left_type)) => match infer_expr(ctx, i1, *right) {
                Outcome::Done((i2, right_type)) => {
                    let signature = binary_signature(operator);
                    Outcome::Done(
                        (
                            constrain(
                                constrain(i2, left_type, signature.0),
                                right_type,
                                signature.1,
                            ),
                            signature.2,
                        ),
                    )
                },
                Outcome::Failed(err) => Outcome::Failed(err),
                Outcome::Halted => Outcome::Halted,
            },
            Outcome::Failed(err) => Outcome::Failed(err),
            Outcome::Halted => Outcome::Halted,
        },
        ExpressionKind::Grouped(inner) => infer_expr(ctx, i, *inner),
    }
}

/// Infers a call: each argument's type must equal the type of the corresponding
/// parameter; the call has the function's return type, or a fresh placeholder if it
/// has none.
pub open spec fn infer_call(
    ctx: Context,
    i: Inference,
    callee: ExpressionKind,
    arguments: Seq<ExpressionKind>,
) -> Outcome<(Inference, Type)>
    decreases arguments, 1int,
{
    match callee {
        ExpressionKind::Identifier(name, callee_id) => if !ctx.table.contains_key(callee_id.0) {
            Outcome::Halted
        } else if !ctx.functions.contains_key(ctx.table[callee_id.0].0) {
            Outcome::Failed(SpecSemanticError::NotAFunction(name@))
        } else {
            let metadata = ctx.functions[ctx.table[callee_id.0].0];
            match infer_arguments(ctx, i, metadata.parameter_symbols, arguments) {
                Outcome::Done(i1) => annotation_type(i1, metadata.return_type),
                Outcome::Failed(err) => Outcome::Failed(err),
                Outcome::Halted => Outcome::Halted,
            }
        },
        _ => Outcome::Failed(SpecSemanticError::NotAFunction(Seq::empty())),
    }
}

/// Infers the arguments of a call in order, constraining the type of the k-th to the
/// type of the k-th parameter symbol.
pub open spec fn infer_arguments(
    ctx: Context,
    i: Inference,
    parameters: Seq<SymbolId>,
    arguments: Seq<ExpressionKind>,
) -> Outcome<Inference>
    decreases arguments, 0int,
{
    if arguments.len() == 0 {
        Outcome::Done(i)
    } else {
        match infer_arguments(ctx, i, parameters, arguments.drop_last()) {
            Outcome::Done(i1) => match infer_expr(ctx, i1, arguments.last()) {
                Outcome::Done((i2, t)) => {
                    let k = arguments.len() - 1;
                    if k >= parameters.len() || !i2.types.contains_key(parameters[k].0) {
                        Outcome::Halted
                    } else {
                        Outcome::Done(constrain(i2, t, i2.types[parameters[k].0]))
                    }
                },
                Outcome::Failed(err) => Outcome::Failed(err),
                Outcome::Halted => Outcome::Halted,
            },
            other => other,
        }
    }
}

/// Infers the expressions of a sequence in order, keeping only the constraints.
pub open spec fn infer_expressions(ctx: Context, i: Inference, es: Seq<Expression>) -> Outcome<Inference>
    decreases es.len(),
{
    if es.len() == 0 {
        Outcome::Done(i)
    } else {
        match infer_expressions(ctx, i, es.drop_last()) {
            Outcome::Done(i1) => match infer_expr(ctx, i1, es.last().kind) {
                Outcome::Done((i2, _)) => Outcome::Done(i2),
                Outcome::Failed(err) => Outcome::Failed(err),
                Outcome::Halted => Outcome::Halted,
            },
            other => other,
        }
    }
}

/// Infers a variable declaration: the variable gets its annotated type, or a fresh
/// placeholder; an initializer's type must equal it.
pub open spec fn infer_var_declaration(ctx: Context, i: Inference, d: VariableDeclaration, id: NodeId) -> Outcome<
    Inference,
> {
    if !ctx.table.contains_key(id.0) {
        Outcome::Halted
    } else {
        let symbol = ctx.table[id.0];
        match annotation_type(i, opt_text(d.data_type)) {
            Outcome::Done((i1, declared)) => match d.expression {
                Some(e) => match infer_expr(ctx, i1, e.kind) {
                    Outcome::Done((i2, t)) => Outcome::Done(
                        Inference {
                            types: i2.types.insert(symbol.0, declared),
                            ..constrain(i2, t, declared)
                        },
                    ),
                    Outcome::Failed(err) => Outcome::Failed(err),
                    Outcome::Halted => Outcome::Halted,
                },
                None => Outcome::Done(Inference { types: i1.types.insert(symbol.0, declared), ..i1 }),
            },
            Outcome::Failed(err) => Outcome::Failed(err),
            Outcome::Halted => Outcome::Halted,
        }
    }
}

/// Infers an assignment: the value's type must equal the target's.
pub open spec fn infer_assignment(ctx: Context, i: Inference, a: Assignment, id: NodeId) -> Outcome<
    Inference,
> {
    match node_type(ctx, i, id) {
        None => Outcome::Halted,
        Some(target) => match infer_expr(ctx, i, a.expression.kind) {
            Outcome::Done((i1, t)) => Outcome::Done(constrain(i1, target, t)),
            Outcome::Failed(err) => Outcome::Failed(err),
            Outcome::Halted => Outcome::Halted,
        },
    }
}

/// Infers a conditional: the condition must be a `Bool`.
pub open spec fn infer_if(ctx: Context, i: Inference, x: If) -> Outcome<Inference>
    decreases x, 0int,
{
    match infer_expr(ctx, i, x.condition.kind) {
        Outcome::Done((i1, t)) => match infer_stmts(ctx, constrain(i1, t, Type::Bool), x.body.statements@) {
            Outcome::Done(i2) => match x.else_body {
                Some(b) => infer_stmts(ctx, i2, b.statements@),
                None => Outcome::Done(i2),
            },
            other => other,
        },
        Outcome::Failed(err) => Outcome::Failed(err),
        Outcome::Halted => Outcome::Halted,
    }
}

/// Gives each parameter symbol its annotated type, or a fresh placeholder, in order.
pub open spec fn infer_parameters(
    i: Inference,
    annotations: Seq<Option<Seq<char>>>,
    symbols: Seq<SymbolId>,
) -> Outcome<Inference>
    decreases symbols.len(),
{
    if symbols.len() == 0 {
        Outcome::Done(i)
    } else {
        match infer_parameters(i, annotations, symbols.drop_last()) {
            Outcome::Done(i1) => {
                let k = symbols.len() - 1;
                if k >= annotations.len() {
                    Outcome::Halted
                } else {
                    match annotation_type(i1, annotations[k]) {
                        Outcome::Done((i2, t)) => Outcome::Done(
                            Inference { types: i2.types.insert(symbols.last().0, t), ..i2 },
                        ),
                        Outcome::Failed(err) => Outcome::Failed(err),
                        Outcome::Halted => Outcome::Halted,
                    }
                }
            },
            other => other,
        }
    }
}

/// The return type a function's annotation names, if it has one.
pub open spec fn return_annotation(annotation: Option<Seq<char>>) -> Outcome<Option<Type>> {
    match annotation {
        None => Outcome::Done(None),
        Some(name) => match annotated_type(name) {
            Some(t) => Outcome::Done(Some(t)),
            None => Outcome::Failed(SpecSemanticError::UnsupportedTypeError(name)),
        },
    }
}

/// Infers a function definition: its return type becomes the one `return` values must
/// have, its parameters get their types, and its body is walked.
pub open spec fn infer_function_definition(
    ctx: Context,
    i: Inference,
    f: FunctionDefinition,
    id: NodeId,
) -> Outcome<Inference>
    decreases f, 0int,
{
    if !ctx.table.contains_key(id.0) || !ctx.functions.contains_key(ctx.table[id.0].0) {
        Outcome::Halted
    } else {
        let metadata = ctx.functions[ctx.table[id.0].0];
        match return_annotation(metadata.return_type) {
            Outcome::Done(expected) => match infer_parameters(
                Inference { return_type: expected, ..i },
                metadata.parameter_types,
                metadata.parameter_symbols,
            ) {
                Outcome::Done(i1) => match infer_stmts(ctx, i1, f.body.statements@) {
                    Outcome::Done(i2) => Outcome::Done(Inference { return_type: None, ..i2 }),
                    other => other,
                },
                other => other,
            },
            Outcome::Failed(err) => Outcome::Failed(err),
            Outcome::Halted => Outcome::Halted,
        }
    }
}

/// Infers a `return`: its value's type must equal the function's return type.
pub open spec fn infer_return(ctx: Context, i: Inference, r: Return) -> Outcome<Inference> {
    match r.expression {
        Some(e) => match infer_expr(ctx, i, e.kind) {
            Outcome::Done((i1, t)) => match i1.return_type {
                Some(expected) => Outcome::Done(constrain(i1, t, expected)),
                None => Outcome::Halted,
            },
            Outcome::Failed(err) => Outcome::Failed(err),
            Outcome::Halted => Outcome::Halted,
        },
        None => Outcome::Done(i),
    }
}

/// Infers the expression of a call statement; its type is not used.
pub open spec fn infer_call_statement(ctx: Context, i: Inference, e: Expression) -> Outcome<Inference> {
    match infer_expr(ctx, i, e.kind) {
        Outcome::Done((i1, _)) => Outcome::Done(i1),
        Outcome::Failed(err) => Outcome::Failed(err),
        Outcome::Halted => Outcome::Halted,
    }
}

/// Infers a statement.
pub open spec fn infer_stmt(ctx: Context, i: Inference, s: Statement) -> Outcome<Inference>
    decreases s, 0int,
{
    match s {
        Statement::VariableDeclaration(d, id) => infer_var_declaration(ctx, i, d, id),
        Statement::Assignment(a, id) => infer_assignment(ctx, i, a, id),
        Statement::If(x, _) => infer_if(ctx, i, x),
        Statement::Loop(l, _) => infer_stmts(ctx, i, l.body.statements@),
        Statement::Block(b, _) => infer_stmts(ctx, i, b.statements@),
        Statement::FunctionDefinition(f, id) => infer_function_definition(ctx, i, f, id),
        Statement::FunctionCall(e, _) => infer_call_statement(ctx, i, e),
        Statement::Break(_, _) => Outcome::Done(i),
        Statement::Return(r, _) => infer_return(ctx, i, r),
        Statement::Print(p, _) => infer_expressions(ctx, i, p.arguments@),
    }
}

/// Infers statements in order; the first error stops it.
pub open spec fn infer_stmts(ctx: Context, i: Inference, ss: Seq<Statement>) -> Outcome<Inference>
    decreases ss, 0int,
{
    if ss.len() == 0 {
        Outcome::Done(i)
    } else {
        match infer_stmts(ctx, i, ss.drop_last()) {
            Outcome::Done(i1) => infer_stmt(ctx, i1, ss.last()),
            other => other,
        }
    }
}

/// Whether an inference of a type reported what its outcome says.
pub open spec fn typed(o: Outcome<(Inference, Type)>, r: Result<Type, SemanticError>, after: Inference) -> bool {
    match o {
        Outcome::Done((i, t)) => r == Ok::<Type, SemanticError>(t) && after == i,
        Outcome::Failed(e) => r is Err && r->Err_0@ == e,
        Outcome::Halted => false,
    }
}

/// Whether a pass over statements reported what its outcome says.
pub open spec fn walked(o: Outcome<Inference>, r: Result<(), SemanticError>, after: Inference) -> bool {
    match o {
        Outcome::Done(i) => r is Ok && after == i,
        Outcome::Failed(e) => r is Err && r->Err_0@ == e,
        Outcome::Halted => false,
    }
}

/// Once a prefix of the arguments does not infer, neither do all of them, alike.
pub proof fn lemma_infer_arguments_stop(
    ctx: Context,
    i: Inference,
    parameters: Seq<SymbolId>,
    es: Seq<ExpressionKind>,
    n: int,
)
    requires
        0 <= n <= es.len(),
        !(infer_arguments(ctx, i, parameters, es.take(n)) is Done),
    ensures
        infer_arguments(ctx, i, parameters, es) == infer_arguments(ctx, i, parameters, es.take(n)),
    decreases es.len(),
{
    if n < es.len() {
        assert(es.drop_last().take(n) =~= es.take(n));
        lemma_infer_arguments_stop(ctx, i, parameters, es.drop_last(), n);
    } else {
        assert(es.take(n) =~= es);
    }
}

/// Once a prefix of the expressions does not infer, neither do all of them, alike.
pub proof fn lemma_infer_expressions_stop(ctx: Context, i: Inference, es: Seq<Expression>, n: int)
    requires
        0 <= n <= es.len(),
        !(infer_expressions(ctx, i, es.take(n)) is Done),
    ensures
        infer_expressions(ctx, i, es) == infer_expressions(ctx, i, es.take(n)),
    decreases es.len(),
{
    if n < es.len() {
        assert(es.drop_last().take(n) =~= es.take(n));
        lemma_infer_expressions_stop(ctx, i, es.drop_last(), n);
    } else {
        assert(es.take(n) =~= es);
    }
}

/// Once a prefix of the parameters does not get its type, neither do all of them, alike.
pub proof fn lemma_infer_parameters_stop(
    i: Inference,
    annotations: Seq<Option<Seq<char>>>,
    symbols: Seq<SymbolId>,
    n: int,
)
    requires
        0 <= n <= symbols.len(),
        !(infer_parameters(i, annotations, symbols.take(n)) is Done),
    ensures
        infer_parameters(i, annotations, symbols) == infer_parameters(i, annotations, symbols.take(n)),
    decreases symbols.len(),
{
    if n < symbols.len() {
        assert(symbols.drop_last().take(n) =~= symbols.take(n));
        lemma_infer_parameters_stop(i, annotations, symbols.drop_last(), n);
    } else {
        assert(symbols.take(n) =~= symbols);
    }
}

/// Once a prefix of the statements does not infer, neither do all of them, alike.
pub proof fn lemma_infer_stmts_stop(ctx: Context, i: Inference, ss: Seq<Statement>, n: int)
    requires
        0 <= n <= ss.len(),
        !(infer_stmts(ctx, i, ss.take(n)) is Done),
    ensures
        infer_stmts(ctx, i, ss) == infer_stmts(ctx, i, ss.take(n)),
    decreases ss.len(),
{
    if n < ss.len() {
        assert(ss.drop_last().take(n) =~= ss.take(n));
        lemma_infer_stmts_stop(ctx, i, ss.drop_last(), n);
    } else {
        assert(ss.take(n) =~= ss);
    }
}

/// What inference makes of a binary expression whose operands have types: a
/// comparison has type `Bool` and requires both operands to be integers; `and` and
/// `or` have type `Bool` and require booleans; an arithmetic operator has type
/// `Int32` and requires integers. The two requirements are the last two constraints
/// made, the left operand's first.
pub proof fn lemma_binary_expression_types(
    ctx: Context,
    i: Inference,
    left: ExpressionKind,
    operator: BinaryOperator,
    right: ExpressionKind,
)
    ensures
        infer_expr(ctx, i, ExpressionKind::Binary(Box::new(left), operator, Box::new(right))) matches Outcome::Done((i2, t)) ==> {
            let n = i2.constraints.len();
            &&& n >= 2
            &&& is_comparison_operator(operator) ==> t == Type::Bool && i2.constraints[n - 2].right
                == Type::Int32 && i2.constraints[n - 1].right == Type::Int32
            &&& (operator is And || operator is Or) ==> t == Type::Bool && i2.constraints[n - 2].right
                == Type::Bool && i2.constraints[n - 1].right == Type::Bool
            &&& (operator is Plus || operator is Minus || operator is Multiply || operator is Divide)
                ==> t == Type::Int32 && i2.constraints[n - 2].right == Type::Int32
                && i2.constraints[n - 1].right == Type::Int32
        },
{
    lemma_binary_operator_types(operator);
}

} // verus!
