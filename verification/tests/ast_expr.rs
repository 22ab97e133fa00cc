use infer::ast::expr::{BinaryOperator, ExpressionError, ExpressionKind, UnaryOperator};
use infer::ast::statement::{NodeId, NodeIds};
use infer::lexer::token::{Token, TokenType};
use infer::semantic::error::SemanticError;
use infer::semantic::visitor::ExpressionVisitor;

#[test]
fn try_from_plus_token_to_plus_operator() {
    let token = Token::new(TokenType::Plus, 0..1, 1, "+");
    let operator = BinaryOperator::try_from(&token).unwrap();
    assert_eq!(operator, BinaryOperator::Plus);
}

#[test]
fn try_from_minus_token_to_minus_operator() {
    let token = Token::new(TokenType::Minus, 0..1, 1, "-");
    let operator = BinaryOperator::try_from(&token).unwrap();
    assert_eq!(operator, BinaryOperator::Minus);
}

#[test]
fn expr_try_from_minus_token_to_minus_operator() {
    let token = Token::new(TokenType::Minus, 0..1, 1, "-");
    let operator = UnaryOperator::try_from(&token).unwrap();
    assert_eq!(operator, UnaryOperator::Minus);
}

#[test]
fn try_from_star_token_to_multiply_operator() {
    let token = Token::new(TokenType::Star, 0..1, 1, "*");
    let operator = BinaryOperator::try_from(&token).unwrap();
    assert_eq!(operator, BinaryOperator::Multiply);
}

#[test]
fn try_from_slash_token_to_divide_operator() {
    let token = Token::new(TokenType::Slash, 0..1, 1, "/");
    let operator = BinaryOperator::try_from(&token).unwrap();
    assert_eq!(operator, BinaryOperator::Divide);
}

#[test]
fn try_from_invalid_token_type_to_unsupported_operator_error() {
    let token = Token::new(TokenType::Identifier, 0..4, 2, "name");
    let result = BinaryOperator::try_from(&token);
    assert_eq!(
        result.err().unwrap(),
        ExpressionError::UnsupportedOperator(TokenType::Identifier, 2)
    );
}

#[test]
fn expr_try_from_invalid_token_type_to_unsupported_operator_error() {
    let token = Token::new(TokenType::Identifier, 0..4, 2, "name");
    let result = UnaryOperator::try_from(&token);
    assert_eq!(
        result.err().unwrap(),
        ExpressionError::UnsupportedOperator(TokenType::Identifier, 2)
    );
}

#[test]
fn try_from_greater_than_token_to_greater_than_operator() {
    let token = Token::new(TokenType::GreaterThan, 0..1, 1, ">");
    let operator = BinaryOperator::try_from(&token).unwrap();
    assert_eq!(operator, BinaryOperator::GreaterThan);
}

#[test]
fn try_from_less_than_token_to_less_than_operator() {
    let token = Token::new(TokenType::LessThan, 0..1, 1, "<");
    let operator = BinaryOperator::try_from(&token).unwrap();
    assert_eq!(operator, BinaryOperator::LessThan);
}

#[test]
fn try_from_greater_than_equals_token_to_greater_than_equals_operator() {
    let token = Token::new(TokenType::GreaterThanEquals, 0..2, 1, ">=");
    let operator = BinaryOperator::try_from(&token).unwrap();
    assert_eq!(operator, BinaryOperator::GreaterThanEquals);
}

#[test]
fn try_from_less_than_equals_token_to_less_than_equals_operator() {
    let token = Token::new(TokenType::LessThanEquals, 0..2, 1, "<=");
    let operator = BinaryOperator::try_from(&token).unwrap();
    assert_eq!(operator, BinaryOperator::LessThanEquals);
}

#[test]
fn try_from_equals_equals_token_to_equals_equals_operator() {
    let token = Token::new(TokenType::EqualsEquals, 0..2, 1, "==");
    let operator = BinaryOperator::try_from(&token).unwrap();
    assert_eq!(operator, BinaryOperator::EqualsEquals);
}

#[test]
fn try_from_bang_equals_token_to_not_equals_operator() {
    let token = Token::new(TokenType::BangEquals, 0..2, 1, "!=");
    let operator = BinaryOperator::try_from(&token).unwrap();
    assert_eq!(operator, BinaryOperator::NotEquals);
}

#[test]
fn try_from_and_token_to_and_operator() {
    let token = Token::new(TokenType::And, 0..3, 1, "and");
    let operator = BinaryOperator::try_from(&token).unwrap();
    assert_eq!(operator, BinaryOperator::And);
}

#[test]
fn try_from_or_token_to_or_operator() {
    let token = Token::new(TokenType::Or, 0..2, 1, "or");
    let operator = BinaryOperator::try_from(&token).unwrap();
    assert_eq!(operator, BinaryOperator::Or);
}

#[test]
fn greater_than_is_comparison() {
    assert!(BinaryOperator::GreaterThan.is_comparison());
}

#[test]
fn greater_than_equals_is_comparison() {
    assert!(BinaryOperator::GreaterThanEquals.is_comparison());
}

#[test]
fn less_than_is_comparison() {
    assert!(BinaryOperator::LessThan.is_comparison());
}

#[test]
fn less_than_equals_is_comparison() {
    assert!(BinaryOperator::LessThanEquals.is_comparison());
}

#[test]
fn equals_equals_is_comparison() {
    assert!(BinaryOperator::EqualsEquals.is_comparison());
}

#[test]
fn not_equals_is_comparison() {
    assert!(BinaryOperator::NotEquals.is_comparison());
}

#[test]
fn plus_is_not_comparison() {
    assert!(!BinaryOperator::Plus.is_comparison());
}

#[test]
fn logical_operators_are_not_comparisons() {
    assert!(!BinaryOperator::And.is_comparison());
    assert!(!BinaryOperator::Or.is_comparison());
    assert!(!BinaryOperator::Multiply.is_comparison());
}

#[test]
fn try_from_bang_token_to_negation_operator() {
    let token = Token::new(TokenType::Bang, 0..1, 1, "!");
    let operator = UnaryOperator::try_from(&token).unwrap();
    assert_eq!(operator, UnaryOperator::Negation);
}

#[test]
fn try_from_plus_token_is_no_unary_operator() {
    let token = Token::new(TokenType::Plus, 0..1, 7, "+");
    let result = UnaryOperator::try_from(&token);
    assert_eq!(
        result.err().unwrap(),
        ExpressionError::UnsupportedOperator(TokenType::Plus, 7)
    );
}

#[test]
fn unwrap_grouped_returns_inner_expression() {
    let inner_expression_kind = ExpressionKind::I32(42);
    let grouped_expression_kind = ExpressionKind::Grouped(Box::new(inner_expression_kind));
    assert_eq!(
        grouped_expression_kind.unwrap_grouped(),
        &ExpressionKind::I32(42)
    );
}

#[test]
fn unwrap_grouped_returns_self_for_non_grouped() {
    let expression_kind = ExpressionKind::I32(42);
    assert_eq!(expression_kind.unwrap_grouped(), &ExpressionKind::I32(42));
}

#[test]
fn unwrap_grouped_unwraps_multiple_levels() {
    let inner_expression_kind = ExpressionKind::I32(42);
    let nested_expression_kind = ExpressionKind::Grouped(Box::new(ExpressionKind::Grouped(
        Box::new(inner_expression_kind),
    )));
    assert_eq!(
        nested_expression_kind.unwrap_grouped(),
        &ExpressionKind::I32(42)
    );
}

#[test]
fn unwrap_grouped_stops_at_first_non_grouped_kind() {
    let inner = ExpressionKind::Unary(
        Box::new(ExpressionKind::Grouped(Box::new(ExpressionKind::I32(1)))),
        UnaryOperator::Minus,
    );
    let grouped = ExpressionKind::Grouped(Box::new(inner));
    assert_eq!(
        grouped.unwrap_grouped(),
        &ExpressionKind::Unary(
            Box::new(ExpressionKind::Grouped(Box::new(ExpressionKind::I32(1)))),
            UnaryOperator::Minus
        )
    );
}

struct TestExpressionVisitor {
    visited_identifier: Option<(String, NodeId)>,
    visited_function_call: bool,
    visited_unary: bool,
    visited_grouped: bool,
    visited_binary: bool,
}

impl TestExpressionVisitor {
    fn fresh() -> Self {
        TestExpressionVisitor {
            visited_identifier: None,
            visited_function_call: false,
            visited_unary: false,
            visited_grouped: false,
            visited_binary: false,
        }
    }
}

type Visit = Result<(), SemanticError>;

// The readiness and visit relations are what a verified visitor states of itself;
// this recording visitor is ready for every visit and relates any outcome.
impl ExpressionVisitor for TestExpressionVisitor {
    fn identifier_ready(&self, _: vstd::seq::Seq<char>, _: NodeId) -> bool {
        true
    }
    fn identifier_visited(&self, _: vstd::seq::Seq<char>, _: NodeId, _: Self, _: Visit) -> bool {
        true
    }
    fn function_call_ready(&self, _: ExpressionKind, _: vstd::seq::Seq<ExpressionKind>) -> bool {
        true
    }
    fn function_call_visited(
        &self,
        _: ExpressionKind,
        _: vstd::seq::Seq<ExpressionKind>,
        _: Self,
        _: Visit,
    ) -> bool {
        true
    }
    fn unary_ready(&self, _: UnaryOperator, _: ExpressionKind) -> bool {
        true
    }
    fn unary_visited(&self, _: UnaryOperator, _: ExpressionKind, _: Self, _: Visit) -> bool {
        true
    }
    fn binary_ready(&self, _: ExpressionKind, _: BinaryOperator, _: ExpressionKind) -> bool {
        true
    }
    fn binary_visited(&self, _: ExpressionKind, _: BinaryOperator, _: ExpressionKind, _: Self, _: Visit) -> bool {
        true
    }
    fn grouped_ready(&self, _: ExpressionKind) -> bool {
        true
    }
    fn grouped_visited(&self, _: ExpressionKind, _: Self, _: Visit) -> bool {
        true
    }

    fn visit_identifier(&mut self, name: &str, node_id: NodeId) -> Visit {
        self.visited_identifier = Some((name.to_string(), node_id));
        Ok(())
    }

    fn visit_function_call(&mut self, _callee: &ExpressionKind, _arguments: &[ExpressionKind]) -> Visit {
        self.visited_function_call = true;
        Ok(())
    }

    fn visit_unary(&mut self, _operator: UnaryOperator, _operand: &ExpressionKind) -> Visit {
        self.visited_unary = true;
        Ok(())
    }

    fn visit_binary(&mut self, _left: &ExpressionKind, _operator: BinaryOperator, _right: &ExpressionKind) -> Visit {
        self.visited_binary = true;
        Ok(())
    }

    fn visit_grouped(&mut self, _inner: &ExpressionKind) -> Visit {
        self.visited_grouped = true;
        Ok(())
    }
}

#[test]
fn accept_dispatches_identifier_to_visitor() {
    let mut ids = NodeIds::new();
    let identifier_expression_kind = ExpressionKind::identifier("score".to_string(), &mut ids);
    let expected_node_id = identifier_expression_kind.node_id().unwrap();

    let mut visitor = TestExpressionVisitor::fresh();

    let result = identifier_expression_kind.accept(&mut visitor);
    assert!(result.is_ok());
    assert_eq!(
        visitor.visited_identifier,
        Some(("score".to_string(), expected_node_id))
    );
}

#[test]
fn accept_dispatches_function_call_to_visitor() {
    let mut ids = NodeIds::new();
    let callee_expression_kind = ExpressionKind::identifier("calculate_total".to_string(), &mut ids);
    let call_expression_kind = ExpressionKind::function_call(callee_expression_kind, vec![], &mut ids);

    let mut visitor = TestExpressionVisitor::fresh();

    let result = call_expression_kind.accept(&mut visitor);
    assert!(result.is_ok());
    assert!(visitor.visited_function_call);
}

#[test]
fn accept_dispatches_unary_to_visitor() {
    let operand_expression_kind = ExpressionKind::I32(10);
    let unary_expression_kind =
        ExpressionKind::Unary(Box::new(operand_expression_kind), UnaryOperator::Minus);

    let mut visitor = TestExpressionVisitor::fresh();

    let result = unary_expression_kind.accept(&mut visitor);
    assert!(result.is_ok());
    assert!(visitor.visited_unary);
}

#[test]
fn accept_dispatches_grouped_to_visitor() {
    let operand_expression_kind = ExpressionKind::I32(10);
    let grouped_expression_kind = ExpressionKind::Grouped(Box::new(operand_expression_kind));

    let mut visitor = TestExpressionVisitor::fresh();

    let result = grouped_expression_kind.accept(&mut visitor);
    assert!(result.is_ok());
    assert!(visitor.visited_grouped);
}

#[test]
fn accept_dispatches_binary_to_visitor() {
    let left_expression_kind = ExpressionKind::I32(10);
    let right_expression_kind = ExpressionKind::I32(20);
    let binary_expression_kind = ExpressionKind::Binary(
        Box::new(left_expression_kind),
        BinaryOperator::Plus,
        Box::new(right_expression_kind),
    );

    let mut visitor = TestExpressionVisitor::fresh();

    let result = binary_expression_kind.accept(&mut visitor);
    assert!(result.is_ok());
    assert!(visitor.visited_binary);
}

#[test]
fn accept_of_a_literal_visits_nothing() {
    let mut visitor = TestExpressionVisitor::fresh();
    assert!(ExpressionKind::Boolean(true).accept(&mut visitor).is_ok());
    assert!(ExpressionKind::String("text".to_string()).accept(&mut visitor).is_ok());
    assert!(visitor.visited_identifier.is_none());
    assert!(!visitor.visited_binary);
}

#[test]
fn gets_node_id_from_identifier() {
    let mut ids = NodeIds::new();
    let expression_kind = ExpressionKind::identifier("first_name".to_string(), &mut ids);
    let expected_id = match &expression_kind {
        ExpressionKind::Identifier(_, id) => *id,
        _ => panic!("Expected ExpressionKind::Identifier"),
    };

    assert_eq!(expression_kind.node_id(), Some(expected_id));
    assert!(expected_id > NodeId(0));
}

#[test]
fn gets_node_id_from_function_call() {
    let mut ids = NodeIds::new();
    let callee_expression_kind = ExpressionKind::identifier("greeting".to_string(), &mut ids);
    let expression_kind = ExpressionKind::function_call(callee_expression_kind, vec![], &mut ids);
    let expected_id = match &expression_kind {
        ExpressionKind::FunctionCall(_, _, id) => *id,
        _ => panic!("Expected ExpressionKind::FunctionCall"),
    };

    assert_eq!(expression_kind.node_id(), Some(expected_id));
    assert!(expected_id > NodeId(0));
}

#[test]
fn returns_none_for_expressions_without_node_id() {
    assert_eq!(ExpressionKind::I32(42).node_id(), None);
    assert_eq!(ExpressionKind::String("hello".to_string()).node_id(), None);
    assert_eq!(ExpressionKind::Boolean(true).node_id(), None);
}

#[test]
fn generates_unique_node_ids_for_multiple_identifiers() {
    let mut ids = NodeIds::new();
    let first_name_expression_kind = ExpressionKind::identifier("first_name".to_string(), &mut ids);
    let second_name_expression_kind = ExpressionKind::identifier("first_name".to_string(), &mut ids);
    assert_ne!(
        first_name_expression_kind.node_id(),
        second_name_expression_kind.node_id()
    );
}

#[test]
fn generates_unique_node_ids_for_multiple_function_calls() {
    let mut ids = NodeIds::new();
    let callee_one_expression_kind = ExpressionKind::identifier("greeting".to_string(), &mut ids);
    let call_one_expression_kind =
        ExpressionKind::function_call(callee_one_expression_kind, vec![], &mut ids);

    let callee_two_expression_kind = ExpressionKind::identifier("greeting".to_string(), &mut ids);
    let call_two_expression_kind =
        ExpressionKind::function_call(callee_two_expression_kind, vec![], &mut ids);

    assert_ne!(
        call_one_expression_kind.node_id(),
        call_two_expression_kind.node_id()
    );
}

#[test]
fn node_ids_count_up_from_one() {
    let mut ids = NodeIds::new();
    let first = ExpressionKind::identifier("a".to_string(), &mut ids);
    let second = ExpressionKind::function_call(first, vec![], &mut ids);
    assert_eq!(second.node_id(), Some(NodeId(2)));
    assert_eq!(*NodeId(2), 2);
}

#[test]
fn equality_of_expression_kinds_ignores_node_ids() {
    let mut ids = NodeIds::new();
    let one = ExpressionKind::identifier("total".to_string(), &mut ids);
    let two = ExpressionKind::identifier("total".to_string(), &mut ids);
    assert_ne!(one.node_id(), two.node_id());
    assert_eq!(one, two);
    let three = ExpressionKind::identifier("other".to_string(), &mut ids);
    assert_ne!(one, three);
}

#[test]
fn display_parse_int_error() {
    let err = ExpressionError::ParseIntError("99999999999".to_string(), 3);
    assert_eq!(err.to_string(), "failed to parse integer '99999999999' on line 3");
}

#[test]
fn display_unsupported_operator() {
    let err = ExpressionError::UnsupportedOperator(TokenType::Identifier, 2);
    assert_eq!(err.to_string(), "unsupported operator 'Identifier' on line 2");
}
