use std::collections::HashMap;

use infer::ast::expr::{BinaryOperator, Expression, ExpressionKind, UnaryOperator};
use infer::ast::program::Program;
use infer::ast::statement::{
    Assignment, Block, Break, FunctionDefinition, FunctionParameter, If, Loop, NodeId, Print,
    Return, Statement, VariableDeclaration,
};
use infer::semantic::analyzer::Analyzer;
use infer::semantic::error::SemanticError;
use infer::semantic::inference::constraints::Constraint;
use infer::semantic::inference::type_inference::TypeInferenceVisitor;
use infer::semantic::inference::Type;
use infer::semantic::resolution_table::ResolutionTable;
use infer::semantic::state::FunctionMetadata;
use infer::semantic::symbol_resolution::SymbolResolutionVisitor;
use infer::semantic::visitor::{ExpressionVisitor, StatementVisitor};
use infer::semantic::SymbolId;

fn var(name: &str, data_type: Option<&str>, value: Option<ExpressionKind>, id: usize) -> Statement {
    Statement::VariableDeclaration(
        VariableDeclaration::new(
            name.to_string(),
            data_type.map(|t| t.to_string()),
            value.map(|kind| Expression::new(kind, 1)),
        ),
        NodeId(id),
    )
}

fn assign(name: &str, value: ExpressionKind, id: usize) -> Statement {
    Statement::Assignment(
        Assignment::new(name.to_string(), Expression::new(value, 1)),
        NodeId(id),
    )
}

fn ident(name: &str, id: usize) -> ExpressionKind {
    ExpressionKind::Identifier(name.to_string(), NodeId(id))
}

fn call(name: &str, callee_id: usize, arguments: Vec<ExpressionKind>, id: usize) -> ExpressionKind {
    ExpressionKind::FunctionCall(Box::new(ident(name, callee_id)), arguments, NodeId(id))
}

fn call_statement(kind: ExpressionKind, id: usize) -> Statement {
    Statement::FunctionCall(Expression::new(kind, 1), NodeId(id))
}

fn block(statements: Vec<Statement>) -> Block {
    Block::new(statements)
}

fn function(
    name: &str,
    parameters: Vec<(&str, Option<&str>)>,
    return_type: Option<&str>,
    body: Vec<Statement>,
    id: usize,
) -> Statement {
    Statement::FunctionDefinition(
        FunctionDefinition::new(
            name.to_string(),
            parameters
                .into_iter()
                .map(|(n, t)| FunctionParameter::new(n.to_string(), t.map(|t| t.to_string())))
                .collect(),
            return_type.map(|t| t.to_string()),
            block(body),
        ),
        NodeId(id),
    )
}

fn return_statement(value: Option<ExpressionKind>, id: usize) -> Statement {
    Statement::Return(Return::new(value.map(|kind| Expression::new(kind, 1))), NodeId(id))
}

fn analyze(statements: Vec<Statement>) -> Result<(), SemanticError> {
    let mut analyzer = Analyzer::new();
    analyzer.analyze(&Program::new(statements))
}

fn resolve(statements: &[Statement]) -> (SymbolResolutionVisitor, Result<(), SemanticError>) {
    let mut visitor = SymbolResolutionVisitor::new();
    let result = visitor.visit_statements(statements);
    (visitor, result)
}

#[test]
fn analyzer_analyze_valid_variable_declaration() {
    assert!(analyze(vec![var("username", None, None, 1)]).is_ok());
}

#[test]
fn analyzer_analyze_valid_assignment() {
    let result = analyze(vec![
        var("score", None, None, 1),
        assign("score", ExpressionKind::I32(100), 2),
    ]);
    assert!(result.is_ok());
}

#[test]
fn analyzer_analyze_valid_if_statement() {
    let if_statement = Statement::If(
        If::new(Expression::new(ExpressionKind::Boolean(true), 0), block(vec![]), None),
        NodeId(1),
    );
    assert!(analyze(vec![if_statement]).is_ok());
}

#[test]
fn analyzer_analyze_valid_loop() {
    let loop_statement = Statement::Loop(Loop::new(block(vec![])), NodeId(1));
    assert!(analyze(vec![loop_statement]).is_ok());
}

#[test]
fn analyzer_analyze_valid_block() {
    assert!(analyze(vec![Statement::Block(block(vec![]), NodeId(1))]).is_ok());
}

#[test]
fn analyzer_analyze_valid_function_definition() {
    assert!(analyze(vec![function("calculate_total", vec![], None, vec![], 1)]).is_ok());
}

#[test]
fn analyzer_detects_shadowed_deferred_call_on_variable() {
    let result = analyze(vec![
        call_statement(call("calculate_total", 1, vec![], 2), 3),
        var("calculate_total", None, None, 4),
    ]);
    assert_eq!(
        result,
        Err(SemanticError::NotAFunction("calculate_total".to_string()))
    );
}

#[test]
fn analyzer_successfully_resolves_valid_pending_call() {
    let result = analyze(vec![
        call_statement(call("calculate_total", 1, vec![], 2), 3),
        function("calculate_total", vec![], None, vec![], 4),
    ]);
    assert!(result.is_ok());
}

#[test]
fn analyzer_detects_arity_mismatch_on_deferred_call() {
    let result = analyze(vec![
        call_statement(call("calculate_total", 1, vec![ExpressionKind::I32(10)], 2), 3),
        function("calculate_total", vec![], None, vec![], 4),
    ]);
    assert_eq!(
        result,
        Err(SemanticError::ArgumentCountMismatch(
            "calculate_total".to_string(),
            0,
            1
        ))
    );
}

#[test]
fn analyzer_detects_undefined_deferred_call() {
    let result = analyze(vec![call_statement(call("calculate_total", 1, vec![], 2), 3)]);
    assert_eq!(
        result,
        Err(SemanticError::UndefinedVariable("calculate_total".to_string()))
    );
}

#[test]
fn analyzer_analyze_valid_break_inside_loop() {
    let loop_statement = Statement::Loop(
        Loop::new(block(vec![Statement::Break(Break::new(), NodeId(1))])),
        NodeId(2),
    );
    assert!(analyze(vec![loop_statement]).is_ok());
}

#[test]
fn analyzer_analyze_valid_return_inside_function() {
    let definition = function("calculate_total", vec![], None, vec![return_statement(None, 1)], 2);
    assert!(analyze(vec![definition]).is_ok());
}

#[test]
fn analyze_type_mismatch_in_assignment_fails() {
    let result = analyze(vec![
        var("age", Some("i32"), None, 1),
        assign("age", ExpressionKind::String("hello".to_string()), 4),
    ]);
    assert_eq!(result, Err(SemanticError::TypeMismatch(Type::Int32, Type::String)));
}

#[test]
fn analyze_valid_type_inference_flow_succeeds() {
    let result = analyze(vec![
        var("first_value", None, None, 1),
        var("copied_value", None, Some(ident("first_value", 2)), 3),
        assign("first_value", ExpressionKind::I32(10), 6),
    ]);
    assert!(result.is_ok());
}

#[test]
fn analyze_function_call_with_ill_typed_argument_fails() {
    let result = analyze(vec![
        function("print_age", vec![("age", Some("i32"))], None, vec![], 5),
        call_statement(
            call("print_age", 1, vec![ExpressionKind::String("twenty".to_string())], 3),
            4,
        ),
    ]);
    assert_eq!(result, Err(SemanticError::TypeMismatch(Type::String, Type::Int32)));
}

#[test]
fn analyze_reports_unsupported_annotation() {
    let result = analyze(vec![var("age", Some("i64"), None, 1)]);
    assert_eq!(
        result,
        Err(SemanticError::UnsupportedTypeError("i64".to_string()))
    );
}

#[test]
fn analyze_checks_return_values_against_the_return_type() {
    let definition = function(
        "is_adult",
        vec![("age", None)],
        Some("bool"),
        vec![return_statement(
            Some(ExpressionKind::Binary(
                Box::new(ident("age", 1)),
                BinaryOperator::Plus,
                Box::new(ExpressionKind::I32(18)),
            )),
            2,
        )],
        3,
    );
    assert_eq!(
        analyze(vec![definition]),
        Err(SemanticError::TypeMismatch(Type::Int32, Type::Bool))
    );
}

#[test]
fn analyze_accepts_a_well_typed_function_and_call() {
    let definition = function(
        "is_adult",
        vec![("age", None)],
        Some("bool"),
        vec![return_statement(
            Some(ExpressionKind::Binary(
                Box::new(ident("age", 1)),
                BinaryOperator::GreaterThanEquals,
                Box::new(ExpressionKind::I32(18)),
            )),
            2,
        )],
        3,
    );
    let flag = var("flag", None, Some(call("is_adult", 4, vec![ExpressionKind::I32(20)], 5)), 6);
    let negated = assign(
        "flag",
        ExpressionKind::Unary(Box::new(ident("flag", 7)), UnaryOperator::Negation),
        8,
    );
    assert!(analyze(vec![definition, flag, negated]).is_ok());
}

#[test]
fn analyze_rejects_a_condition_that_is_not_boolean() {
    let if_statement = Statement::If(
        If::new(Expression::new(ExpressionKind::I32(1), 0), block(vec![]), None),
        NodeId(1),
    );
    assert_eq!(
        analyze(vec![if_statement]),
        Err(SemanticError::TypeMismatch(Type::Int32, Type::Bool))
    );
}

#[test]
fn accepts_a_valid_variable_declaration() {
    let (visitor, result) = resolve(&[var("username", None, None, 1)]);
    assert!(result.is_ok());
    assert_eq!(visitor.resolution_table().get(&NodeId(1)), Some(SymbolId(1)));
}

#[test]
fn detects_duplicate_variable_declarations_in_the_same_scope() {
    let (_, result) = resolve(&[var("username", None, None, 1), var("username", None, None, 2)]);
    assert_eq!(
        result,
        Err(SemanticError::DuplicateVariable("username".to_string()))
    );
}

#[test]
fn var_declaration_initializer_cannot_self_reference() {
    let (_, result) = resolve(&[var("score", None, Some(ident("score", 1)), 2)]);
    assert_eq!(
        result,
        Err(SemanticError::UndefinedVariable("score".to_string()))
    );
}

#[test]
fn references_resolve_to_their_declarations() {
    let (visitor, result) = resolve(&[
        var("bonus", None, None, 1),
        var("score", None, Some(ident("bonus", 2)), 3),
        assign("score", ident("bonus", 4), 5),
    ]);
    assert!(result.is_ok());
    let table = visitor.resolution_table();
    assert_eq!(table.get(&NodeId(1)), Some(SymbolId(1)));
    assert_eq!(table.get(&NodeId(2)), Some(SymbolId(1)));
    assert_eq!(table.get(&NodeId(3)), Some(SymbolId(2)));
    assert_eq!(table.get(&NodeId(4)), Some(SymbolId(1)));
    assert_eq!(table.get(&NodeId(5)), Some(SymbolId(2)));
}

#[test]
fn assignment_to_an_undefined_variable_fails_with_semantic_error() {
    let (_, result) = resolve(&[assign("score", ExpressionKind::I32(100), 1)]);
    assert_eq!(
        result,
        Err(SemanticError::UndefinedVariable("score".to_string()))
    );
}

#[test]
fn block_creates_a_new_lexical_scope_allowing_shadowing() {
    let (visitor, result) = resolve(&[
        var("x", None, None, 1),
        Statement::Block(block(vec![var("x", None, None, 2), assign("x", ExpressionKind::I32(1), 3)]), NodeId(4)),
        assign("x", ExpressionKind::I32(2), 5),
    ]);
    assert!(result.is_ok());
    let table = visitor.resolution_table();
    assert_eq!(table.get(&NodeId(3)), Some(SymbolId(2)));
    assert_eq!(table.get(&NodeId(5)), Some(SymbolId(1)));
}

#[test]
fn variables_declared_inside_block_are_inaccessible_after_block_exits() {
    let (_, result) = resolve(&[
        Statement::Block(block(vec![var("x", None, None, 1)]), NodeId(2)),
        assign("x", ExpressionKind::I32(2), 3),
    ]);
    assert_eq!(result, Err(SemanticError::UndefinedVariable("x".to_string())));
}

#[test]
fn detects_duplicate_function_names_in_the_same_scope() {
    let (_, result) = resolve(&[
        function("area", vec![], None, vec![], 1),
        function("area", vec![], None, vec![], 2),
    ]);
    assert_eq!(
        result,
        Err(SemanticError::DuplicateFunctionName("area".to_string()))
    );
}

#[test]
fn rejects_function_definitions_with_duplicate_parameter_names() {
    let (_, result) = resolve(&[function("area", vec![("w", None), ("w", None)], None, vec![], 1)]);
    assert_eq!(result, Err(SemanticError::DuplicateVariable("w".to_string())));
}

#[test]
fn registers_global_function_with_parameters_in_state() {
    let (visitor, result) = resolve(&[function(
        "area",
        vec![("w", Some("i32")), ("h", None)],
        Some("i32"),
        vec![],
        1,
    )]);
    assert!(result.is_ok());
    assert_eq!(visitor.resolution_table().get(&NodeId(1)), Some(SymbolId(1)));
    let metadata = visitor.global_functions().get(&1).unwrap();
    assert_eq!(metadata.name, "area");
    assert_eq!(metadata.parameter_count(), 2);
    assert_eq!(metadata.parameter_symbols, vec![SymbolId(2), SymbolId(3)]);
    assert_eq!(metadata.parameter_types, vec![Some("i32".to_string()), None]);
    assert!(metadata.has_return_type());
}

#[test]
fn detects_arity_mismatch_on_function_call() {
    let (_, result) = resolve(&[
        function("area", vec![("w", None)], None, vec![], 1),
        call_statement(call("area", 2, vec![], 3), 4),
    ]);
    assert_eq!(
        result,
        Err(SemanticError::ArgumentCountMismatch("area".to_string(), 1, 0))
    );
}

#[test]
fn detects_non_identifier_callee_as_not_a_function() {
    let (_, result) = resolve(&[call_statement(
        ExpressionKind::FunctionCall(Box::new(ExpressionKind::I32(1)), vec![], NodeId(1)),
        2,
    )]);
    assert_eq!(result, Err(SemanticError::NotAFunction(String::new())));
}

#[test]
fn visitor_resolves_deferred_function_call_in_resolution_table_on_pending_calls_resolve() {
    let (mut visitor, result) = resolve(&[
        call_statement(call("later", 1, vec![], 2), 3),
        function("later", vec![], None, vec![], 4),
    ]);
    assert!(result.is_ok());
    assert_eq!(visitor.resolution_table().get(&NodeId(1)), None);
    assert!(visitor.resolve_pending_calls().is_ok());
    assert_eq!(visitor.resolution_table().get(&NodeId(1)), Some(SymbolId(1)));
}

#[test]
fn break_statement_outside_any_loop_is_invalid() {
    let (_, result) = resolve(&[Statement::Break(Break::new(), NodeId(1))]);
    assert_eq!(result, Err(SemanticError::BreakOutsideLoop));
}

#[test]
fn return_statement_outside_any_function_is_invalid() {
    let (_, result) = resolve(&[return_statement(None, 1)]);
    assert_eq!(result, Err(SemanticError::ReturnOutsideFunction));
}

#[test]
fn empty_return_statement_in_a_function_with_return_type_is_invalid() {
    let (_, result) = resolve(&[function("f", vec![], Some("i32"), vec![return_statement(None, 1)], 2)]);
    assert_eq!(result, Err(SemanticError::MissingReturnExpression));
}

#[test]
fn return_statement_with_value_in_a_function_with_no_return_type_is_invalid() {
    let (_, result) = resolve(&[function(
        "f",
        vec![],
        None,
        vec![return_statement(Some(ExpressionKind::I32(1)), 1)],
        2,
    )]);
    assert_eq!(result, Err(SemanticError::UnexpectedReturnExpression));
}

#[test]
fn unreachable_statement_after_return_in_function_body_returns_error() {
    let (_, result) = resolve(&[function(
        "f",
        vec![],
        None,
        vec![return_statement(None, 1), var("x", None, None, 2)],
        3,
    )]);
    assert_eq!(result, Err(SemanticError::UnreachableCode));
}

#[test]
fn unreachable_statement_after_break_in_loop_body_returns_error() {
    let (_, result) = resolve(&[Statement::Loop(
        Loop::new(block(vec![
            Statement::Break(Break::new(), NodeId(1)),
            var("x", None, None, 2),
        ])),
        NodeId(3),
    )]);
    assert_eq!(result, Err(SemanticError::UnreachableCode));
}

#[test]
fn statement_after_loop_with_break_is_reachable() {
    let (_, result) = resolve(&[
        Statement::Loop(
            Loop::new(block(vec![Statement::Break(Break::new(), NodeId(1))])),
            NodeId(2),
        ),
        var("x", None, None, 3),
    ]);
    assert!(result.is_ok());
}

#[test]
fn print_resolves_identifiers_in_arguments() {
    let (mut visitor, declared) = resolve(&[var("score", None, None, 1)]);
    assert!(declared.is_ok());
    let print_statement = Statement::Print(
        Print::new(vec![Expression::new(ident("score", 2), 0)]),
        NodeId(3),
    );
    let result = print_statement.accept(&mut visitor);
    assert!(result.is_ok());
    assert_eq!(visitor.resolution_table().get(&NodeId(2)), Some(SymbolId(1)));
}

#[test]
fn print_fails_if_argument_has_undefined_variable() {
    let mut visitor = SymbolResolutionVisitor::new();
    let print_statement = Statement::Print(
        Print::new(vec![Expression::new(ident("score", 1), 0)]),
        NodeId(2),
    );
    let result = print_statement.accept(&mut visitor);
    assert_eq!(result, Err(SemanticError::UndefinedVariable("score".to_string())));
}

#[test]
fn failed_declaration_through_accept_declares_nothing() {
    let mut visitor = SymbolResolutionVisitor::new();
    let declaration = var("score", None, Some(ident("score", 1)), 2);
    assert_eq!(
        declaration.accept(&mut visitor),
        Err(SemanticError::UndefinedVariable("score".to_string()))
    );
    assert_eq!(
        assign("score", ExpressionKind::I32(1), 3).accept(&mut visitor),
        Err(SemanticError::UndefinedVariable("score".to_string()))
    );
}

#[test]
fn type_inference_accepts_statements_and_expressions() {
    let (table, functions) = inference_context();
    let mut visitor = TypeInferenceVisitor::new(&table, &functions);
    assert!(var("age", Some("i32"), None, 2).accept(&mut visitor).is_ok());
    let negative = ExpressionKind::Unary(Box::new(ident("age", 2)), UnaryOperator::Minus);
    assert!(negative.accept(&mut visitor).is_ok());
    assert_eq!(
        visitor.into_constraints().entries,
        vec![Constraint::new(Type::Int32, Type::Int32)]
    );
}

fn inference_context() -> (ResolutionTable, HashMap<usize, FunctionMetadata>) {
    let mut table = ResolutionTable::new();
    table.resolve(NodeId(1), SymbolId(10));
    table.resolve(NodeId(2), SymbolId(20));
    table.resolve(NodeId(3), SymbolId(30));
    let mut functions = HashMap::new();
    functions.insert(
        10,
        FunctionMetadata::new("print_age".to_string(), vec![Some("i32".to_string())], None)
            .with_symbols(vec![SymbolId(11)]),
    );
    (table, functions)
}

#[test]
fn infer_i32_literal_returns_i32_type() {
    let table = ResolutionTable::new();
    let functions = HashMap::new();
    let mut visitor = TypeInferenceVisitor::new(&table, &functions);
    assert_eq!(visitor.infer(&ExpressionKind::I32(42)), Ok(Type::Int32));
}

#[test]
fn infer_string_literal_returns_string_type() {
    let table = ResolutionTable::new();
    let functions = HashMap::new();
    let mut visitor = TypeInferenceVisitor::new(&table, &functions);
    assert_eq!(
        visitor.infer(&ExpressionKind::String("hello".to_string())),
        Ok(Type::String)
    );
}

#[test]
fn infer_bool_literal_returns_bool_type() {
    let table = ResolutionTable::new();
    let functions = HashMap::new();
    let mut visitor = TypeInferenceVisitor::new(&table, &functions);
    assert_eq!(visitor.infer(&ExpressionKind::Boolean(true)), Ok(Type::Bool));
}

#[test]
fn infer_binary_with_plus_constrains_both_operands() {
    let (table, functions) = inference_context();
    let mut visitor = TypeInferenceVisitor::new(&table, &functions);
    assert!(visitor.visit(&var("age", None, None, 2)).is_ok());
    let sum = ExpressionKind::Binary(
        Box::new(ident("age", 2)),
        BinaryOperator::Plus,
        Box::new(ExpressionKind::Boolean(true)),
    );
    assert_eq!(visitor.infer(&sum), Ok(Type::Int32));
    let constraints = visitor.into_constraints();
    assert_eq!(
        constraints.entries,
        vec![
            Constraint::new(Type::Placeholder(1), Type::Int32),
            Constraint::new(Type::Bool, Type::Int32),
        ]
    );
}

#[test]
fn infer_unary_negation_constrains_operand_to_bool() {
    let table = ResolutionTable::new();
    let functions = HashMap::new();
    let mut visitor = TypeInferenceVisitor::new(&table, &functions);
    let negation = ExpressionKind::Unary(Box::new(ExpressionKind::I32(1)), UnaryOperator::Negation);
    assert_eq!(visitor.infer(&negation), Ok(Type::Bool));
    assert_eq!(
        visitor.into_constraints().entries,
        vec![Constraint::new(Type::Int32, Type::Bool)]
    );
}

#[test]
fn infer_grouped_returns_inner_expression_type() {
    let table = ResolutionTable::new();
    let functions = HashMap::new();
    let mut visitor = TypeInferenceVisitor::new(&table, &functions);
    let grouped = ExpressionKind::Grouped(Box::new(ExpressionKind::String("x".to_string())));
    assert_eq!(visitor.infer(&grouped), Ok(Type::String));
}

#[test]
fn infer_var_declaration_without_annotation_and_with_initializer_adds_placeholder_and_constrains_to_initializer(
) {
    let (table, functions) = inference_context();
    let mut visitor = TypeInferenceVisitor::new(&table, &functions);
    assert!(visitor
        .visit(&var("age", None, Some(ExpressionKind::I32(3)), 2))
        .is_ok());
    assert_eq!(visitor.infer(&ident("age", 2)), Ok(Type::Placeholder(1)));
    assert_eq!(
        visitor.into_constraints().entries,
        vec![Constraint::new(Type::Int32, Type::Placeholder(1))]
    );
}

#[test]
fn infer_function_call_constrains_arguments_to_parameter_types() {
    let (table, functions) = inference_context();
    let mut visitor = TypeInferenceVisitor::new(&table, &functions);
    assert!(visitor
        .visit(&function("print_age", vec![("age", Some("i32"))], None, vec![], 1))
        .is_ok());
    assert!(visitor.visit(&var("years", None, None, 2)).is_ok());
    let inferred = visitor.infer(&call("print_age", 1, vec![ident("years", 2)], 9));
    assert_eq!(inferred, Ok(Type::Placeholder(2)));
    assert_eq!(
        visitor.into_constraints().entries,
        vec![Constraint::new(Type::Placeholder(1), Type::Int32)]
    );
}

#[test]
fn infer_call_of_a_variable_is_not_a_function() {
    let (table, functions) = inference_context();
    let mut visitor = TypeInferenceVisitor::new(&table, &functions);
    assert_eq!(
        visitor.infer(&call("age", 2, vec![], 9)),
        Err(SemanticError::NotAFunction("age".to_string()))
    );
}
