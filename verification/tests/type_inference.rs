use std::collections::HashMap;

use infer::ast::expr::{BinaryOperator, Expression, ExpressionKind, UnaryOperator};
use infer::ast::statement::{
    Assignment, Block, Break, FunctionDefinition, FunctionParameter, If, Loop, NodeId, Print,
    Return, Statement, VariableDeclaration,
};
use infer::semantic::inference::constraints::Constraint;
use infer::semantic::inference::type_inference::TypeInferenceVisitor;
use infer::semantic::inference::Type;
use infer::semantic::resolution_table::ResolutionTable;
use infer::semantic::state::FunctionMetadata;
use infer::semantic::SymbolId;

fn table(pairs: &[(usize, usize)]) -> ResolutionTable {
    let mut table = ResolutionTable::new();
    for (node, symbol) in pairs {
        table.resolve(NodeId(*node), SymbolId(*symbol));
    }
    table
}

fn ident(name: &str, id: usize) -> ExpressionKind {
    ExpressionKind::Identifier(name.to_string(), NodeId(id))
}

fn binary(left: ExpressionKind, operator: BinaryOperator, right: ExpressionKind) -> ExpressionKind {
    ExpressionKind::Binary(Box::new(left), operator, Box::new(right))
}

fn var(name: &str, data_type: Option<&str>, id: usize) -> Statement {
    Statement::VariableDeclaration(
        VariableDeclaration::new(name.to_string(), data_type.map(|t| t.to_string()), None),
        NodeId(id),
    )
}

/// Declares, at the node `id`, the symbol that `id` resolves to, with the given annotation.
fn declare(visitor: &mut TypeInferenceVisitor, id: usize, data_type: Option<&str>) {
    assert!(visitor.visit(&var("declared", data_type, id)).is_ok());
}

#[test]
fn visit_identifier_when_symbol_present() {
    let table = table(&[(1, 10), (100, 10)]);
    let functions = HashMap::new();
    let mut visitor = TypeInferenceVisitor::new(&table, &functions);
    declare(&mut visitor, 100, Some("bool"));
    assert!(visitor.infer(&ident("first_name", 1)).is_ok());
}

#[test]
fn visit_identifier_sets_current_type_to_symbol_type() {
    let table = table(&[(1, 10), (100, 10)]);
    let functions = HashMap::new();
    let mut visitor = TypeInferenceVisitor::new(&table, &functions);
    declare(&mut visitor, 100, Some("bool"));
    assert_eq!(visitor.infer(&ident("first_name", 1)), Ok(Type::Bool));
}

#[test]
fn infer_identifier_returns_symbol_type() {
    let table = table(&[(1, 10), (100, 10)]);
    let functions = HashMap::new();
    let mut visitor = TypeInferenceVisitor::new(&table, &functions);
    declare(&mut visitor, 100, Some("i32"));
    assert_eq!(visitor.infer(&ident("first_name", 1)), Ok(Type::Int32));
}

#[test]
fn infer_function_call_with_declared_return_type() {
    let table = table(&[(1, 10)]);
    let mut functions = HashMap::new();
    functions.insert(
        10,
        FunctionMetadata::new("calculate".to_string(), vec![], Some("i32".to_string())),
    );
    let mut visitor = TypeInferenceVisitor::new(&table, &functions);
    let call = ExpressionKind::FunctionCall(Box::new(ident("calculate", 1)), vec![], NodeId(2));
    assert_eq!(visitor.infer(&call), Ok(Type::Int32));
}

#[test]
fn infer_function_call_generates_placeholder_for_absent_parameter_type() {
    let table = table(&[(1, 10), (2, 20), (100, 20), (101, 11)]);
    let mut functions = HashMap::new();
    functions.insert(
        10,
        FunctionMetadata::new("identity".to_string(), vec![None], None)
            .with_symbols(vec![SymbolId(11)]),
    );
    let mut visitor = TypeInferenceVisitor::new(&table, &functions);
    declare(&mut visitor, 100, None);
    declare(&mut visitor, 101, None);
    let call = ExpressionKind::FunctionCall(
        Box::new(ident("identity", 1)),
        vec![ident("value", 2)],
        NodeId(3),
    );
    assert_eq!(visitor.infer(&call), Ok(Type::Placeholder(3)));
    let constraints = visitor.into_constraints();
    assert_eq!(constraints.entries[0].left, Type::Placeholder(1));
    assert_eq!(
        constraints.entries,
        vec![Constraint::new(Type::Placeholder(1), Type::Placeholder(2))]
    );
}

#[test]
fn infer_function_call_generates_placeholder_for_absent_return_type() {
    let table = table(&[(1, 10)]);
    let mut functions = HashMap::new();
    functions.insert(10, FunctionMetadata::new("execute".to_string(), vec![], None));
    let mut visitor = TypeInferenceVisitor::new(&table, &functions);
    let call = ExpressionKind::FunctionCall(Box::new(ident("execute", 1)), vec![], NodeId(2));
    let inferred = visitor.infer(&call).unwrap();
    assert!(matches!(inferred, Type::Placeholder(_)));
    assert_eq!(inferred, Type::Placeholder(1));
}

#[test]
fn infer_binary_with_plus_returns_int32_type() {
    let table = ResolutionTable::new();
    let functions = HashMap::new();
    let mut visitor = TypeInferenceVisitor::new(&table, &functions);
    let sum = binary(ExpressionKind::I32(10), BinaryOperator::Plus, ExpressionKind::I32(20));
    assert_eq!(visitor.infer(&sum), Ok(Type::Int32));
}

#[test]
fn infer_binary_with_plus_constrains_left_operand_to_int32() {
    let table = table(&[(1, 10), (100, 10)]);
    let functions = HashMap::new();
    let mut visitor = TypeInferenceVisitor::new(&table, &functions);
    declare(&mut visitor, 100, None);
    let sum = binary(ident("age", 1), BinaryOperator::Plus, ExpressionKind::I32(20));
    assert!(visitor.infer(&sum).is_ok());
    assert_eq!(
        visitor.into_constraints().entries[0],
        Constraint::new(Type::Placeholder(1), Type::Int32)
    );
}

#[test]
fn infer_binary_with_plus_constrains_right_operand_to_int32() {
    let table = table(&[(1, 10), (100, 10)]);
    let functions = HashMap::new();
    let mut visitor = TypeInferenceVisitor::new(&table, &functions);
    declare(&mut visitor, 100, None);
    let sum = binary(ExpressionKind::I32(10), BinaryOperator::Plus, ident("bonus", 1));
    assert!(visitor.infer(&sum).is_ok());
    assert_eq!(
        visitor.into_constraints().entries[1],
        Constraint::new(Type::Placeholder(1), Type::Int32)
    );
}

#[test]
fn infer_binary_with_greater_than_returns_bool_type() {
    let table = ResolutionTable::new();
    let functions = HashMap::new();
    let mut visitor = TypeInferenceVisitor::new(&table, &functions);
    let comparison = binary(
        ExpressionKind::I32(10),
        BinaryOperator::GreaterThan,
        ExpressionKind::I32(20),
    );
    assert_eq!(visitor.infer(&comparison), Ok(Type::Bool));
}

#[test]
fn infer_binary_with_and_returns_bool_type() {
    let table = ResolutionTable::new();
    let functions = HashMap::new();
    let mut visitor = TypeInferenceVisitor::new(&table, &functions);
    let both = binary(
        ExpressionKind::Boolean(true),
        BinaryOperator::And,
        ExpressionKind::Boolean(false),
    );
    assert_eq!(visitor.infer(&both), Ok(Type::Bool));
}

#[test]
fn infer_binary_with_and_constrains_left_operand_to_bool() {
    let table = table(&[(1, 10), (100, 10)]);
    let functions = HashMap::new();
    let mut visitor = TypeInferenceVisitor::new(&table, &functions);
    declare(&mut visitor, 100, None);
    let both = binary(ident("is_active", 1), BinaryOperator::And, ExpressionKind::Boolean(false));
    assert!(visitor.infer(&both).is_ok());
    assert_eq!(
        visitor.into_constraints().entries[0],
        Constraint::new(Type::Placeholder(1), Type::Bool)
    );
}

#[test]
fn infer_binary_with_and_constrains_right_operand_to_bool() {
    let table = table(&[(1, 10), (100, 10)]);
    let functions = HashMap::new();
    let mut visitor = TypeInferenceVisitor::new(&table, &functions);
    declare(&mut visitor, 100, None);
    let both = binary(ExpressionKind::Boolean(true), BinaryOperator::And, ident("has_permission", 1));
    assert!(visitor.infer(&both).is_ok());
    assert_eq!(
        visitor.into_constraints().entries[1],
        Constraint::new(Type::Placeholder(1), Type::Bool)
    );
}

#[test]
fn infer_unary_minus_returns_int32_type() {
    let table = ResolutionTable::new();
    let functions = HashMap::new();
    let mut visitor = TypeInferenceVisitor::new(&table, &functions);
    let negative = ExpressionKind::Unary(Box::new(ExpressionKind::I32(10)), UnaryOperator::Minus);
    assert_eq!(visitor.infer(&negative), Ok(Type::Int32));
}

#[test]
fn infer_unary_minus_constrains_operand_to_int32() {
    let table = table(&[(1, 10), (100, 10)]);
    let functions = HashMap::new();
    let mut visitor = TypeInferenceVisitor::new(&table, &functions);
    declare(&mut visitor, 100, None);
    let negative = ExpressionKind::Unary(Box::new(ident("age", 1)), UnaryOperator::Minus);
    assert!(visitor.infer(&negative).is_ok());
    assert_eq!(
        visitor.into_constraints().entries[0],
        Constraint::new(Type::Placeholder(1), Type::Int32)
    );
}

#[test]
fn infer_unary_negation_returns_bool_type() {
    let table = ResolutionTable::new();
    let functions = HashMap::new();
    let mut visitor = TypeInferenceVisitor::new(&table, &functions);
    let negation =
        ExpressionKind::Unary(Box::new(ExpressionKind::Boolean(true)), UnaryOperator::Negation);
    assert_eq!(visitor.infer(&negation), Ok(Type::Bool));
}

#[test]
fn infer_grouped_retains_constraints_of_inner_expression() {
    let table = table(&[(1, 10), (100, 10)]);
    let functions = HashMap::new();
    let mut visitor = TypeInferenceVisitor::new(&table, &functions);
    declare(&mut visitor, 100, None);
    let grouped = ExpressionKind::Grouped(Box::new(ExpressionKind::Unary(
        Box::new(ident("age", 1)),
        UnaryOperator::Minus,
    )));
    assert_eq!(visitor.infer(&grouped), Ok(Type::Int32));
    assert_eq!(
        visitor.into_constraints().entries[0],
        Constraint::new(Type::Placeholder(1), Type::Int32)
    );
}

#[test]
fn infer_var_declaration_with_explicit_annotation() {
    let table = table(&[(1, 10)]);
    let functions = HashMap::new();
    let mut visitor = TypeInferenceVisitor::new(&table, &functions);
    let declaration = VariableDeclaration::new("score".to_string(), Some("i32".to_string()), None);
    assert!(visitor.visit_var_declaration(&declaration, NodeId(1)).is_ok());
    assert_eq!(visitor.infer(&ident("score", 1)), Ok(Type::Int32));
}

#[test]
fn infer_var_declaration_without_annotation_generates_placeholder_and_adds_it() {
    let table = table(&[(1, 10)]);
    let functions = HashMap::new();
    let mut visitor = TypeInferenceVisitor::new(&table, &functions);
    let declaration = VariableDeclaration::new("score".to_string(), None, None);
    assert!(visitor.visit_var_declaration(&declaration, NodeId(1)).is_ok());
    let inferred = visitor.infer(&ident("score", 1)).unwrap();
    assert!(matches!(inferred, Type::Placeholder(_)));
    assert!(visitor.into_constraints().entries.is_empty());
}

#[test]
fn infer_var_declaration_with_annotation_and_initializer_adds_annotated_type_and_constrains_initializer(
) {
    let table = table(&[(1, 10)]);
    let functions = HashMap::new();
    let mut visitor = TypeInferenceVisitor::new(&table, &functions);
    let declaration = VariableDeclaration::new(
        "score".to_string(),
        Some("i32".to_string()),
        Some(Expression::new(ExpressionKind::I32(100), 1)),
    );
    assert!(visitor.visit_var_declaration(&declaration, NodeId(1)).is_ok());
    assert_eq!(
        visitor.into_constraints().entries[0],
        Constraint::new(Type::Int32, Type::Int32)
    );
}

#[test]
fn infer_assignment_generates_constraint_equating_target_variable_to_expression_type() {
    let table = table(&[(1, 10), (100, 10)]);
    let functions = HashMap::new();
    let mut visitor = TypeInferenceVisitor::new(&table, &functions);
    declare(&mut visitor, 100, None);
    let assignment = Assignment::new(
        "score".to_string(),
        Expression::new(ExpressionKind::I32(200), 1),
    );
    assert!(visitor.visit_assignment(&assignment, NodeId(1)).is_ok());
    assert_eq!(
        visitor.into_constraints().entries[0],
        Constraint::new(Type::Placeholder(1), Type::Int32)
    );
}

#[test]
fn infer_assignment_between_variables_generates_constraint_equating_placeholders() {
    let table = table(&[(1, 10), (2, 20), (100, 10), (101, 20)]);
    let functions = HashMap::new();
    let mut visitor = TypeInferenceVisitor::new(&table, &functions);
    declare(&mut visitor, 100, None);
    declare(&mut visitor, 101, None);
    let assignment = Assignment::new("score".to_string(), Expression::new(ident("rank", 2), 1));
    assert!(visitor.visit_assignment(&assignment, NodeId(1)).is_ok());
    assert_eq!(
        visitor.into_constraints().entries[0],
        Constraint::new(Type::Placeholder(1), Type::Placeholder(2))
    );
}

#[test]
fn infer_if_constrains_condition_to_boolean_and_visits_branches() {
    let table = table(&[(1, 10), (2, 20), (3, 30), (100, 10)]);
    let functions = HashMap::new();
    let mut visitor = TypeInferenceVisitor::new(&table, &functions);
    declare(&mut visitor, 100, None);
    let if_statement = If::new(
        Expression::new(ident("condition", 1), 1),
        Block::new(vec![var("score", Some("i32"), 2)]),
        Some(Block::new(vec![var("rank", Some("bool"), 3)])),
    );
    assert!(visitor.visit_if(&if_statement).is_ok());
    assert_eq!(visitor.infer(&ident("score", 2)), Ok(Type::Int32));
    assert_eq!(visitor.infer(&ident("rank", 3)), Ok(Type::Bool));
    assert_eq!(
        visitor.into_constraints().entries[0],
        Constraint::new(Type::Placeholder(1), Type::Bool)
    );
}

#[test]
fn infer_loop_statements_in_body() {
    let table = table(&[(1, 10)]);
    let functions = HashMap::new();
    let mut visitor = TypeInferenceVisitor::new(&table, &functions);
    let loop_statement = Loop::new(Block::new(vec![
        var("score", Some("i32"), 1),
        Statement::Break(Break::new(), NodeId(2)),
    ]));
    assert!(visitor.visit_loop(&loop_statement).is_ok());
    assert_eq!(visitor.infer(&ident("score", 1)), Ok(Type::Int32));
}

#[test]
fn infer_block_statements() {
    let table = table(&[(1, 10)]);
    let functions = HashMap::new();
    let mut visitor = TypeInferenceVisitor::new(&table, &functions);
    let block = Block::new(vec![var("score", Some("i32"), 1)]);
    assert!(visitor.visit_block(&block).is_ok());
    assert_eq!(visitor.infer(&ident("score", 1)), Ok(Type::Int32));
}

#[test]
fn infer_print_expressions() {
    let table = table(&[(1, 10), (100, 10)]);
    let functions = HashMap::new();
    let mut visitor = TypeInferenceVisitor::new(&table, &functions);
    declare(&mut visitor, 100, None);
    let print = Print::new(vec![Expression::new(
        binary(ident("score", 1), BinaryOperator::Plus, ExpressionKind::I32(10)),
        1,
    )]);
    assert!(visitor.visit_print(&print).is_ok());
    assert_eq!(
        visitor.into_constraints().entries,
        vec![
            Constraint::new(Type::Placeholder(1), Type::Int32),
            Constraint::new(Type::Int32, Type::Int32),
        ]
    );
}

fn identity_function(body: Vec<Statement>) -> FunctionDefinition {
    FunctionDefinition::new(
        "identity".to_string(),
        vec![FunctionParameter::new("value".to_string(), Some("i32".to_string()))],
        Some("i32".to_string()),
        Block::new(body),
    )
}

fn identity_metadata() -> HashMap<usize, FunctionMetadata> {
    let mut functions = HashMap::new();
    functions.insert(
        10,
        FunctionMetadata::new(
            "identity".to_string(),
            vec![Some("i32".to_string())],
            Some("i32".to_string()),
        )
        .with_symbols(vec![SymbolId(11)]),
    );
    functions
}

#[test]
fn infer_function_definition_registers_parameters_in_type_table() {
    let table = table(&[(1, 10), (100, 11)]);
    let functions = identity_metadata();
    let mut visitor = TypeInferenceVisitor::new(&table, &functions);
    assert!(visitor
        .visit_function_definition(&identity_function(vec![]), NodeId(1))
        .is_ok());
    assert_eq!(visitor.infer(&ident("value", 100)), Ok(Type::Int32));
}

#[test]
fn infer_function_definition_constrains_return_type_to_expected_type() {
    let table = table(&[(1, 10), (2, 11)]);
    let functions = identity_metadata();
    let mut visitor = TypeInferenceVisitor::new(&table, &functions);
    let body = vec![Statement::Return(
        Return::new(Some(Expression::new(ident("value", 2), 1))),
        NodeId(3),
    )];
    assert!(visitor
        .visit_function_definition(&identity_function(body), NodeId(1))
        .is_ok());
    assert_eq!(
        visitor.into_constraints().entries[0],
        Constraint::new(Type::Int32, Type::Int32)
    );
}
