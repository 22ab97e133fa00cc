use infer::ast::expr::{BinaryOperator, Expression, ExpressionKind, UnaryOperator};
use infer::ast::statement::{
    Assignment, Block, Break, FunctionDefinition, FunctionParameter, If, Loop, NodeId, Print,
    Return, Statement, VariableDeclaration,
};
use infer::semantic::error::SemanticError;
use infer::semantic::symbol_resolution::SymbolResolutionVisitor;
use infer::semantic::SymbolId;

fn var(name: &str, value: Option<ExpressionKind>, id: usize) -> Statement {
    Statement::VariableDeclaration(
        VariableDeclaration::new(name.to_string(), None, value.map(|kind| Expression::new(kind, 0))),
        NodeId(id),
    )
}

fn assign(name: &str, value: ExpressionKind, id: usize) -> Statement {
    Statement::Assignment(
        Assignment::new(name.to_string(), Expression::new(value, 0)),
        NodeId(id),
    )
}

fn ident(name: &str, id: usize) -> ExpressionKind {
    ExpressionKind::Identifier(name.to_string(), NodeId(id))
}

fn call(name: &str, callee_id: usize, arguments: Vec<ExpressionKind>, id: usize) -> ExpressionKind {
    ExpressionKind::FunctionCall(Box::new(ident(name, callee_id)), arguments, NodeId(id))
}

fn call_statement(kind: ExpressionKind, id: usize) -> Statement {
    Statement::FunctionCall(Expression::new(kind, 0), NodeId(id))
}

fn if_statement(condition: ExpressionKind, body: Vec<Statement>, else_body: Option<Vec<Statement>>, id: usize) -> Statement {
    Statement::If(
        If::new(Expression::new(condition, 0), Block::new(body), else_body.map(Block::new)),
        NodeId(id),
    )
}

fn loop_statement(body: Vec<Statement>, id: usize) -> Statement {
    Statement::Loop(Loop::new(Block::new(body)), NodeId(id))
}

fn break_statement(id: usize) -> Statement {
    Statement::Break(Break::new(), NodeId(id))
}

fn function(
    name: &str,
    parameters: Vec<(&str, Option<&str>)>,
    return_type: Option<&str>,
    body: Vec<Statement>,
    id: usize,
) -> Statement {
    Statement::FunctionDefinition(
        FunctionDefinition::new(
            name.to_string(),
            parameters
                .into_iter()
                .map(|(n, t)| FunctionParameter::new(n.to_string(), t.map(|t| t.to_string())))
                .collect(),
            return_type.map(|t| t.to_string()),
            Block::new(body),
        ),
        NodeId(id),
    )
}

fn return_statement(value: Option<ExpressionKind>, id: usize) -> Statement {
    Statement::Return(Return::new(value.map(|kind| Expression::new(kind, 0))), NodeId(id))
}

fn resolve(statements: &[Statement]) -> (SymbolResolutionVisitor, Result<(), SemanticError>) {
    let mut visitor = SymbolResolutionVisitor::new();
    let result = visitor.visit_statements(statements);
    (visitor, result)
}

/// A walk in which the given variables are declared, in order, with symbols 1, 2, ...
fn with_variables(names: &[&str]) -> SymbolResolutionVisitor {
    let declarations: Vec<Statement> = names
        .iter()
        .enumerate()
        .map(|(i, name)| var(name, None, 900 + i))
        .collect();
    let (visitor, result) = resolve(&declarations);
    assert!(result.is_ok());
    visitor
}

#[test]
fn var_declaration_resolves_identifiers_in_initializer() {
    let mut visitor = with_variables(&["bonus"]);
    let result = visitor.visit_statement(&var("score", Some(ident("bonus", 1)), 2));
    assert!(result.is_ok());
    assert_eq!(visitor.resolution_table().get(&NodeId(1)), Some(SymbolId(1)));
    assert_eq!(visitor.resolution_table().get(&NodeId(2)), Some(SymbolId(2)));
}

#[test]
fn var_declaration_fails_if_initializer_has_undefined_variable() {
    let (mut visitor, result) = resolve(&[var("score", Some(ident("bonus", 1)), 2)]);
    assert_eq!(result, Err(SemanticError::UndefinedVariable("bonus".to_string())));
    let later = visitor.visit_statement(&assign("score", ExpressionKind::I32(1), 3));
    assert_eq!(later, Err(SemanticError::UndefinedVariable("score".to_string())));
}

#[test]
fn assignment_to_a_defined_variable_succeeds_and_records_resolution() {
    let mut visitor = with_variables(&["score"]);
    let result = visitor.visit_statement(&assign("score", ExpressionKind::I32(100), 1));
    assert!(result.is_ok());
    assert_eq!(visitor.resolution_table().get(&NodeId(1)), Some(SymbolId(1)));
}

#[test]
fn assignment_resolves_identifiers_in_expression() {
    let mut visitor = with_variables(&["score", "bonus"]);
    let result = visitor.visit_statement(&assign("score", ident("bonus", 1), 2));
    assert!(result.is_ok());
    assert_eq!(visitor.resolution_table().get(&NodeId(2)), Some(SymbolId(1)));
    assert_eq!(visitor.resolution_table().get(&NodeId(1)), Some(SymbolId(2)));
}

#[test]
fn assignment_fails_if_expression_has_undefined_variable() {
    let mut visitor = with_variables(&["score"]);
    let result = visitor.visit_statement(&assign("score", ident("bonus", 1), 2));
    assert_eq!(result, Err(SemanticError::UndefinedVariable("bonus".to_string())));
}

#[test]
fn variables_declared_inside_then_block_are_inaccessible_after_if_statement_exits() {
    let (mut visitor, result) = resolve(&[if_statement(
        ExpressionKind::Boolean(true),
        vec![var("then_var", None, 1)],
        None,
        2,
    )]);
    assert!(result.is_ok());
    let result = visitor.visit_statement(&assign("then_var", ExpressionKind::I32(10), 3));
    assert_eq!(result, Err(SemanticError::UndefinedVariable("then_var".to_string())));
}

#[test]
fn variables_declared_inside_else_block_are_inaccessible_after_if_statement_exits() {
    let (mut visitor, result) = resolve(&[if_statement(
        ExpressionKind::Boolean(false),
        vec![],
        Some(vec![var("else_var", None, 1)]),
        2,
    )]);
    assert!(result.is_ok());
    let result = visitor.visit_statement(&assign("else_var", ExpressionKind::I32(10), 3));
    assert_eq!(result, Err(SemanticError::UndefinedVariable("else_var".to_string())));
}

#[test]
fn variables_declared_inside_then_block_are_not_accessible_within_else_block() {
    let (_, result) = resolve(&[if_statement(
        ExpressionKind::Boolean(true),
        vec![var("first_name", None, 1)],
        Some(vec![assign("first_name", ExpressionKind::I32(10), 2)]),
        3,
    )]);
    assert_eq!(result, Err(SemanticError::UndefinedVariable("first_name".to_string())));
}

#[test]
fn then_and_else_blocks_can_access_variables_declared_in_outer_scope() {
    let mut visitor = with_variables(&["outer_var"]);
    let result = visitor.visit_statement(&if_statement(
        ExpressionKind::Boolean(true),
        vec![assign("outer_var", ExpressionKind::I32(10), 1)],
        Some(vec![assign("outer_var", ExpressionKind::I32(20), 2)]),
        3,
    ));
    assert!(result.is_ok());
    assert_eq!(visitor.resolution_table().get(&NodeId(1)), Some(SymbolId(1)));
    assert_eq!(visitor.resolution_table().get(&NodeId(2)), Some(SymbolId(1)));
}

#[test]
fn if_condition_resolves_identifiers() {
    let mut visitor = with_variables(&["score"]);
    let result = visitor.visit_statement(&if_statement(ident("score", 1), vec![], None, 2));
    assert!(result.is_ok());
    assert_eq!(visitor.resolution_table().get(&NodeId(1)), Some(SymbolId(1)));
}

#[test]
fn if_condition_fails_given_undefined_variable() {
    let (_, result) = resolve(&[if_statement(ident("score", 1), vec![], None, 2)]);
    assert_eq!(result, Err(SemanticError::UndefinedVariable("score".to_string())));
}

#[test]
fn entering_a_loop_updates_the_state_to_be_inside_a_loop() {
    let (mut visitor, result) = resolve(&[loop_statement(vec![break_statement(1)], 2)]);
    assert!(result.is_ok());
    assert_eq!(visitor.visit_statement(&break_statement(3)), Err(SemanticError::BreakOutsideLoop));
}

#[test]
fn nested_loops_track_state_depth_correctly() {
    let inner = loop_statement(vec![break_statement(1)], 2);
    let (mut visitor, result) = resolve(&[loop_statement(vec![inner, break_statement(3)], 4)]);
    assert!(result.is_ok());
    assert_eq!(visitor.visit_statement(&break_statement(5)), Err(SemanticError::BreakOutsideLoop));
}

#[test]
fn variables_declared_inside_loop_are_inaccessible_after_loop_exits() {
    let (mut visitor, result) = resolve(&[loop_statement(vec![var("name", None, 1)], 2)]);
    assert!(result.is_ok());
    let result = visitor.visit_statement(&assign(
        "name",
        ExpressionKind::String("John".to_string()),
        3,
    ));
    assert_eq!(result, Err(SemanticError::UndefinedVariable("name".to_string())));
}

#[test]
fn inner_block_can_access_variables_declared_in_enclosing_scope() {
    let mut visitor = with_variables(&["score"]);
    let result = visitor.visit_statement(&Statement::Block(
        Block::new(vec![assign("score", ExpressionKind::I32(50), 1)]),
        NodeId(2),
    ));
    assert!(result.is_ok());
    assert_eq!(visitor.resolution_table().get(&NodeId(1)), Some(SymbolId(1)));
}

#[test]
fn accepts_a_valid_function_definition() {
    let (mut visitor, result) = resolve(&[function(
        "calculate_total",
        vec![("first_score", Some("i32")), ("second_score", Some("i32"))],
        Some("i32"),
        vec![],
        1,
    )]);
    assert!(result.is_ok());
    assert_eq!(visitor.resolution_table().get(&NodeId(1)), Some(SymbolId(1)));
    assert_eq!(
        visitor.visit_statement(&var("calculate_total", None, 2)),
        Err(SemanticError::DuplicateVariable("calculate_total".to_string()))
    );
}

#[test]
fn parameters_shadow_outer_scope_variables_inside_function_body() {
    let mut visitor = with_variables(&["score"]);
    let result = visitor.visit_statement(&function(
        "calculate_total",
        vec![("score", Some("int"))],
        None,
        vec![assign("score", ExpressionKind::I32(100), 1)],
        2,
    ));
    assert!(result.is_ok());
    let inner = visitor.resolution_table().get(&NodeId(1)).unwrap();
    assert_ne!(inner, SymbolId(1));
    assert_eq!(inner, SymbolId(3));
}

#[test]
fn registers_global_function_with_parameter_count_in_state() {
    let (visitor, result) = resolve(&[function("greeting", vec![("name", Some("String"))], None, vec![], 1)]);
    assert!(result.is_ok());
    let symbol_id = visitor.resolution_table().get(&NodeId(1)).unwrap();
    let metadata = visitor.global_functions().get(&symbol_id.0).unwrap();
    assert_eq!(metadata.name, "greeting");
    assert_eq!(metadata.parameter_count(), 1);
}

#[test]
fn accepts_valid_function_call() {
    let (mut visitor, result) = resolve(&[
        function("calculate_total", vec![], None, vec![], 1),
        call_statement(call("calculate_total", 2, vec![], 3), 4),
    ]);
    assert!(result.is_ok());
    assert_eq!(visitor.resolution_table().get(&NodeId(2)), Some(SymbolId(1)));
    assert!(visitor.resolve_pending_calls().is_ok());
}

#[test]
fn detects_shadowed_function_call_on_variable() {
    let (_, result) = resolve(&[
        var("calculate_total", None, 1),
        call_statement(call("calculate_total", 2, vec![], 3), 4),
    ]);
    assert_eq!(result, Err(SemanticError::NotAFunction("calculate_total".to_string())));
}

#[test]
fn defers_unresolved_function_call_to_pending_calls() {
    let (mut visitor, result) = resolve(&[call_statement(
        call("calculate_total", 1, vec![ExpressionKind::I32(42)], 2),
        3,
    )]);
    assert!(result.is_ok());
    assert_eq!(visitor.resolution_table().get(&NodeId(1)), None);
    assert_eq!(
        visitor.resolve_pending_calls(),
        Err(SemanticError::UndefinedVariable("calculate_total".to_string()))
    );
}

#[test]
fn visitor_resolves_immediate_function_call_in_resolution_table() {
    let (mut visitor, result) = resolve(&[function("calculate_total", vec![], None, vec![], 1)]);
    assert!(result.is_ok());
    let result = visitor.visit_expression(&call("calculate_total", 2, vec![], 3));
    assert!(result.is_ok());
    assert_eq!(visitor.resolution_table().get(&NodeId(2)), Some(SymbolId(1)));
}

#[test]
fn visitor_resolves_identifier_inside_function_call_arguments() {
    let (mut visitor, result) = resolve(&[
        function("calculate_total", vec![("amount", None)], None, vec![], 1),
        var("score", None, 2),
    ]);
    assert!(result.is_ok());
    let result = visitor.visit_expression(&call("calculate_total", 3, vec![ident("score", 4)], 5));
    assert!(result.is_ok());
    assert_eq!(visitor.resolution_table().get(&NodeId(3)), Some(SymbolId(1)));
    assert_eq!(visitor.resolution_table().get(&NodeId(4)), Some(SymbolId(3)));
}

#[test]
fn break_statement_inside_a_loop_is_valid() {
    let (_, result) = resolve(&[loop_statement(vec![break_statement(1)], 2)]);
    assert!(result.is_ok());
}

#[test]
fn empty_return_statement_in_a_function_with_no_return_type_is_valid() {
    let (_, result) = resolve(&[function("log_message", vec![], None, vec![return_statement(None, 1)], 2)]);
    assert!(result.is_ok());
}

#[test]
fn return_statement_with_value_in_a_function_with_return_type_is_valid() {
    let (_, result) = resolve(&[function(
        "calculate",
        vec![],
        Some("i32"),
        vec![return_statement(Some(ExpressionKind::I32(100)), 1)],
        2,
    )]);
    assert!(result.is_ok());
}

#[test]
fn return_resolves_identifiers_in_expression() {
    let mut visitor = with_variables(&["score"]);
    let result = visitor.visit_statement(&function(
        "calculate",
        vec![],
        Some("i32"),
        vec![return_statement(Some(ident("score", 1)), 2)],
        3,
    ));
    assert!(result.is_ok());
    assert_eq!(visitor.resolution_table().get(&NodeId(1)), Some(SymbolId(1)));
}

#[test]
fn return_fails_if_expression_has_undefined_variable() {
    let (_, result) = resolve(&[function(
        "calculate",
        vec![],
        Some("i32"),
        vec![return_statement(Some(ident("score", 1)), 2)],
        3,
    )]);
    assert_eq!(result, Err(SemanticError::UndefinedVariable("score".to_string())));
}

#[test]
fn unreachable_nested_block_after_return_in_function_body_returns_error() {
    let (_, result) = resolve(&[function(
        "calculate",
        vec![],
        None,
        vec![return_statement(None, 1), Statement::Block(Block::new(vec![]), NodeId(2))],
        3,
    )]);
    assert_eq!(result, Err(SemanticError::UnreachableCode));
}

#[test]
fn statement_after_conditional_return_in_if_is_reachable() {
    let (_, result) = resolve(&[function(
        "calculate",
        vec![],
        None,
        vec![
            if_statement(ExpressionKind::Boolean(true), vec![return_statement(None, 1)], None, 2),
            var("score", None, 3),
        ],
        4,
    )]);
    assert!(result.is_ok());
}

#[test]
fn return_in_first_function_does_not_affect_second_function_reachability() {
    let mut visitor = SymbolResolutionVisitor::new();
    let first = function("first", vec![], None, vec![return_statement(None, 1)], 2);
    let second = function("second", vec![], None, vec![var("score", None, 3)], 4);
    assert!(visitor.visit_statement(&first).is_ok());
    assert!(visitor.visit_statement(&second).is_ok());
}

#[test]
fn visitor_resolves_valid_identifier_expression() {
    let mut visitor = with_variables(&["score"]);
    assert!(visitor.visit_expression(&ident("score", 1)).is_ok());
    assert_eq!(visitor.resolution_table().get(&NodeId(1)), Some(SymbolId(1)));
}

#[test]
fn visitor_fails_for_undefined_identifier_expression() {
    let mut visitor = SymbolResolutionVisitor::new();
    assert_eq!(
        visitor.visit_expression(&ident("score", 1)),
        Err(SemanticError::UndefinedVariable("score".to_string()))
    );
}

#[test]
fn visitor_resolves_identifier_inside_unary_expression() {
    let mut visitor = with_variables(&["score"]);
    let unary = ExpressionKind::Unary(Box::new(ident("score", 1)), UnaryOperator::Minus);
    assert!(visitor.visit_expression(&unary).is_ok());
    assert_eq!(visitor.resolution_table().get(&NodeId(1)), Some(SymbolId(1)));
}

#[test]
fn symbol_resolution_visitor_fails_if_operand_has_undefined_variable() {
    let mut visitor = SymbolResolutionVisitor::new();
    let unary = ExpressionKind::Unary(Box::new(ident("score", 1)), UnaryOperator::Minus);
    assert_eq!(
        visitor.visit_expression(&unary),
        Err(SemanticError::UndefinedVariable("score".to_string()))
    );
}

#[test]
fn visitor_fails_if_grouped_operand_has_undefined_variable() {
    let mut visitor = SymbolResolutionVisitor::new();
    let grouped = ExpressionKind::Grouped(Box::new(ident("score", 1)));
    assert_eq!(
        visitor.visit_expression(&grouped),
        Err(SemanticError::UndefinedVariable("score".to_string()))
    );
}

#[test]
fn visitor_resolves_identifiers_inside_binary_expression() {
    let mut visitor = with_variables(&["score", "bonus"]);
    let binary = ExpressionKind::Binary(
        Box::new(ident("score", 1)),
        BinaryOperator::Plus,
        Box::new(ident("bonus", 2)),
    );
    assert!(visitor.visit_expression(&binary).is_ok());
    assert_eq!(visitor.resolution_table().get(&NodeId(1)), Some(SymbolId(1)));
    assert_eq!(visitor.resolution_table().get(&NodeId(2)), Some(SymbolId(2)));
}

#[test]
fn visitor_fails_if_left_operand_has_undefined_variable() {
    let mut visitor = with_variables(&["bonus"]);
    let binary = ExpressionKind::Binary(
        Box::new(ident("score", 1)),
        BinaryOperator::Plus,
        Box::new(ident("bonus", 2)),
    );
    assert_eq!(
        visitor.visit_expression(&binary),
        Err(SemanticError::UndefinedVariable("score".to_string()))
    );
}

#[test]
fn visitor_fails_if_right_operand_has_undefined_variable() {
    let mut visitor = with_variables(&["score"]);
    let binary = ExpressionKind::Binary(
        Box::new(ident("score", 1)),
        BinaryOperator::Plus,
        Box::new(ident("bonus", 2)),
    );
    assert_eq!(
        visitor.visit_expression(&binary),
        Err(SemanticError::UndefinedVariable("bonus".to_string()))
    );
}

#[test]
fn visitor_resolves_identifier_inside_grouped_expression() {
    let mut visitor = with_variables(&["score"]);
    let grouped = ExpressionKind::Grouped(Box::new(ident("score", 1)));
    assert!(visitor.visit_expression(&grouped).is_ok());
    assert_eq!(visitor.resolution_table().get(&NodeId(1)), Some(SymbolId(1)));
}

#[test]
fn print_arguments_are_resolved_in_order() {
    let mut visitor = with_variables(&["score"]);
    let print = Statement::Print(
        Print::new(vec![
            Expression::new(ident("score", 1), 0),
            Expression::new(ident("missing", 2), 0),
        ]),
        NodeId(3),
    );
    assert_eq!(
        visitor.visit_statement(&print),
        Err(SemanticError::UndefinedVariable("missing".to_string()))
    );
    assert_eq!(visitor.resolution_table().get(&NodeId(1)), Some(SymbolId(1)));
}
