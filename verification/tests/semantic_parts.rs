use infer::ast::statement::NodeId;
use infer::ast::expr::{BinaryOperator, UnaryOperator};
use infer::semantic::error::SemanticError;
use infer::semantic::inference::constraints::{Constraint, Constraints};
use infer::semantic::inference::type_table::TypeTable;
use infer::semantic::inference::unifier::Unifier;
use infer::semantic::inference::{BinaryOperatorSignature, Type, TypeIds, UnaryOperatorSignature};
use infer::semantic::resolution_table::ResolutionTable;
use infer::semantic::scope::{Scope, Scopes};
use infer::semantic::state::{FunctionMetadata, State};
use infer::semantic::{SymbolId, SymbolIds};

#[test]
fn format_duplicate_variable_error() {
    assert_eq!(
        SemanticError::DuplicateVariable("score".to_string()).to_string(),
        "duplicate variable declaration: score"
    );
}

#[test]
fn format_duplicate_function_name_error() {
    assert_eq!(
        SemanticError::DuplicateFunctionName("calculate".to_string()).to_string(),
        "duplicate function name: calculate"
    );
}

#[test]
fn format_undefined_variable_error() {
    assert_eq!(
        SemanticError::UndefinedVariable("score".to_string()).to_string(),
        "undefined variable: score"
    );
}

#[test]
fn format_return_outside_function_error() {
    assert_eq!(
        SemanticError::ReturnOutsideFunction.to_string(),
        "return statement outside of any function"
    );
}

#[test]
fn format_missing_return_expression_error() {
    assert_eq!(
        SemanticError::MissingReturnExpression.to_string(),
        "empty return statement in a function with a return type"
    );
}

#[test]
fn format_unexpected_return_expression_error() {
    assert_eq!(
        SemanticError::UnexpectedReturnExpression.to_string(),
        "return statement with a value in a function with no return type"
    );
}

#[test]
fn format_break_outside_loop_error() {
    assert_eq!(
        SemanticError::BreakOutsideLoop.to_string(),
        "break statement outside of any loop"
    );
}

#[test]
fn format_unreachable_code_error() {
    assert_eq!(SemanticError::UnreachableCode.to_string(), "unreachable code");
}

#[test]
fn format_not_a_function_error() {
    assert_eq!(
        SemanticError::NotAFunction("calculate".to_string()).to_string(),
        "not a function: calculate"
    );
}

#[test]
fn format_argument_count_mismatch_error() {
    assert_eq!(
        SemanticError::ArgumentCountMismatch("calculate".to_string(), 2, 1).to_string(),
        "arity mismatch for function calculate: expected 2, got 1"
    );
}

#[test]
fn format_unsupported_type_error() {
    assert_eq!(
        SemanticError::UnsupportedTypeError("i64".to_string()).to_string(),
        "unsupported type: i64"
    );
}

#[test]
fn format_type_mismatch_error() {
    assert_eq!(
        SemanticError::TypeMismatch(Type::Int32, Type::Placeholder(12)).to_string(),
        "type mismatch: Int32 and Placeholder(12)"
    );
}

#[test]
fn create_empty_constraints() {
    let constraints = Constraints::new();
    assert_eq!(constraints.entries.len(), 0);
}

#[test]
fn add_constraint() {
    let mut constraints = Constraints::new();
    constraints.add(Constraint::new(Type::Int32, Type::Int32));

    assert_eq!(constraints.entries.len(), 1);
}

#[test]
fn added_constraint_retains_left_type() {
    let mut constraints = Constraints::new();
    constraints.add(Constraint::new(Type::Int32, Type::Bool));

    assert_eq!(constraints.entries[0].left, Type::Int32);
}

#[test]
fn added_constraint_retains_right_type() {
    let mut constraints = Constraints::new();
    constraints.add(Constraint::new(Type::Int32, Type::Bool));

    assert_eq!(constraints.entries[0].right, Type::Bool);
}

#[test]
fn placeholder_type_id_extracts_id_from_placeholder() {
    let placeholder = Type::Placeholder(42);
    assert_eq!(placeholder.placeholder_type_id(), 42);
}

#[test]
fn next_type_id_generates_consecutive_ids() {
    let mut ids = TypeIds::new();
    let first = ids.next_type();
    let second = ids.next_type();

    let id1 = first.placeholder_type_id();
    let id2 = second.placeholder_type_id();

    assert_eq!(id2, id1 + 1);
}

#[test]
fn type_ids_start_at_one() {
    let mut ids = TypeIds::new();
    assert_eq!(ids.next_type(), Type::Placeholder(1));
    assert_eq!(ids.next_type(), Type::Placeholder(2));
}

#[test]
fn symbol_ids_start_at_one() {
    let mut ids = SymbolIds::new();
    assert_eq!(ids.next_id(), SymbolId(1));
    assert_eq!(ids.next_id(), SymbolId(2));
}

#[test]
fn parse_i32_type() {
    let parsed = Type::try_from("i32");
    assert_eq!(parsed, Ok(Type::Int32));
}

#[test]
fn parse_bool_type() {
    let parsed = Type::try_from("bool");
    assert_eq!(parsed, Ok(Type::Bool));
}

#[test]
fn parse_string_type() {
    let parsed = Type::try_from("string");
    assert_eq!(parsed, Ok(Type::String));
}

#[test]
fn parse_invalid_type_returns_unsupported_error() {
    let parsed = Type::try_from("i64");
    assert_eq!(
        parsed,
        Err(SemanticError::UnsupportedTypeError("i64".to_string()))
    );
}

#[test]
fn type_text_matches_debug_formatting() {
    for t in [Type::Int32, Type::Bool, Type::String, Type::Placeholder(7)] {
        assert_eq!(t.to_text(), format!("{:?}", t));
    }
}

#[test]
fn plus_operator_returns_int32_left_operand_type() {
    let signature = BinaryOperatorSignature::of(&BinaryOperator::Plus);
    assert_eq!(signature.left, Type::Int32);
}

#[test]
fn plus_operator_returns_int32_right_operand_type() {
    let signature = BinaryOperatorSignature::of(&BinaryOperator::Plus);
    assert_eq!(signature.right, Type::Int32);
}

#[test]
fn plus_operator_returns_int32_result_type() {
    let signature = BinaryOperatorSignature::of(&BinaryOperator::Plus);
    assert_eq!(signature.result, Type::Int32);
}

#[test]
fn greater_than_operator_returns_int32_left_operand_type() {
    let signature = BinaryOperatorSignature::of(&BinaryOperator::GreaterThan);
    assert_eq!(signature.left, Type::Int32);
}

#[test]
fn greater_than_operator_returns_int32_right_operand_type() {
    let signature = BinaryOperatorSignature::of(&BinaryOperator::GreaterThan);
    assert_eq!(signature.right, Type::Int32);
}

#[test]
fn greater_than_operator_returns_bool_result_type() {
    let signature = BinaryOperatorSignature::of(&BinaryOperator::GreaterThan);
    assert_eq!(signature.result, Type::Bool);
}

#[test]
fn and_operator_returns_bool_left_operand_type() {
    let signature = BinaryOperatorSignature::of(&BinaryOperator::And);
    assert_eq!(signature.left, Type::Bool);
}

#[test]
fn and_operator_returns_bool_right_operand_type() {
    let signature = BinaryOperatorSignature::of(&BinaryOperator::And);
    assert_eq!(signature.right, Type::Bool);
}

#[test]
fn and_operator_returns_bool_result_type() {
    let signature = BinaryOperatorSignature::of(&BinaryOperator::And);
    assert_eq!(signature.result, Type::Bool);
}

#[test]
fn minus_operator_returns_int32_operand_type() {
    let signature = UnaryOperatorSignature::of(&UnaryOperator::Minus);
    assert_eq!(signature.operand, Type::Int32);
}

#[test]
fn minus_operator_returns_int32_result_type() {
    let signature = UnaryOperatorSignature::of(&UnaryOperator::Minus);
    assert_eq!(signature.result, Type::Int32);
}

#[test]
fn negation_operator_returns_bool_operand_type() {
    let signature = UnaryOperatorSignature::of(&UnaryOperator::Negation);
    assert_eq!(signature.operand, Type::Bool);
}

#[test]
fn negation_operator_returns_bool_result_type() {
    let signature = UnaryOperatorSignature::of(&UnaryOperator::Negation);
    assert_eq!(signature.result, Type::Bool);
}

#[test]
fn equality_operators_compare_integers() {
    for operator in [BinaryOperator::EqualsEquals, BinaryOperator::NotEquals] {
        let signature = BinaryOperatorSignature::of(&operator);
        assert_eq!(
            (signature.left, signature.right, signature.result),
            (Type::Int32, Type::Int32, Type::Bool)
        );
    }
}

#[test]
fn add_symbol_inserts_type_successfully() {
    let mut table = TypeTable::new();
    table.add(1, Type::Int32);

    assert_eq!(table.get_or_panic(1), Type::Int32);
}

#[test]
fn add_symbol_retains_different_inserted_types() {
    let mut table = TypeTable::new();
    table.add(1, Type::Int32);
    table.add(2, Type::Bool);

    assert_eq!(table.get_or_panic(2), Type::Bool);
}

#[test]
fn get_or_panic_returns_type_when_present() {
    let mut table = TypeTable::new();
    table.add(1, Type::Int32);
    assert_eq!(table.get_or_panic(1), Type::Int32);
}

#[test]
fn adding_a_symbol_again_replaces_its_type() {
    let mut table = TypeTable::new();
    table.add(1, Type::Int32);
    table.add(1, Type::String);
    assert_eq!(table.get_or_panic(1), Type::String);
}

#[test]
fn unify_concrete_types() {
    let mut unifier = Unifier::new();
    let mut constraints = Constraints::new();
    constraints.add(Constraint::new(Type::Int32, Type::Int32));

    let result = unifier.solve(constraints);
    assert!(result.is_ok());
    assert!(result.unwrap().is_empty());
}

#[test]
fn unify_concrete_types_mismatch() {
    let mut unifier = Unifier::new();
    let mut constraints = Constraints::new();
    constraints.add(Constraint::new(Type::Int32, Type::Bool));

    let result = unifier.solve(constraints);
    assert_eq!(
        result,
        Err(SemanticError::TypeMismatch(Type::Int32, Type::Bool))
    );
}

#[test]
fn unify_placeholder_to_concrete_type() {
    let mut unifier = Unifier::new();
    let mut constraints = Constraints::new();
    constraints.add(Constraint::new(Type::Placeholder(1), Type::Int32));

    let result = unifier.solve(constraints);
    assert!(result.is_ok());
    assert_eq!(unifier.resolve(Type::Placeholder(1)), Type::Int32);
}

#[test]
fn unify_placeholders_transitive() {
    let mut unifier = Unifier::new();
    let mut constraints = Constraints::new();
    constraints.add(Constraint::new(Type::Placeholder(1), Type::Placeholder(2)));
    constraints.add(Constraint::new(Type::Placeholder(2), Type::Int32));

    let result = unifier.solve(constraints);
    assert!(result.is_ok());

    let substitutions = result.unwrap();
    assert_eq!(*substitutions.get(&1).unwrap(), Type::Int32);
    assert_eq!(*substitutions.get(&2).unwrap(), Type::Int32);
}

#[test]
fn unify_conflicting_placeholder_bindings_fails() {
    let mut unifier = Unifier::new();
    let mut constraints = Constraints::new();
    constraints.add(Constraint::new(Type::Placeholder(1), Type::Int32));
    constraints.add(Constraint::new(Type::Placeholder(1), Type::Bool));

    let result = unifier.solve(constraints);
    assert_eq!(
        result,
        Err(SemanticError::TypeMismatch(Type::Int32, Type::Bool))
    );
}

#[test]
fn unifier_solves_the_documented_flow() {
    // var x; var y = x; x = 10;  gives  P2 == P1, then P1 == Int32.
    let mut unifier = Unifier::new();
    let mut constraints = Constraints::new();
    constraints.add(Constraint::new(Type::Placeholder(2), Type::Placeholder(1)));
    constraints.add(Constraint::new(Type::Placeholder(1), Type::Int32));

    let substitutions = unifier.solve(constraints).unwrap();
    assert_eq!(substitutions.len(), 2);
    assert_eq!(substitutions.get(&1), Some(&Type::Int32));
    assert_eq!(substitutions.get(&2), Some(&Type::Int32));
}

#[test]
fn unifier_leaves_unconstrained_placeholders_unbound() {
    let mut unifier = Unifier::new();
    let mut constraints = Constraints::new();
    constraints.add(Constraint::new(Type::Placeholder(3), Type::Placeholder(4)));

    let substitutions = unifier.solve(constraints).unwrap();
    assert_eq!(substitutions.len(), 1);
    assert_eq!(substitutions.get(&3), Some(&Type::Placeholder(4)));
    assert_eq!(unifier.resolve(Type::Placeholder(4)), Type::Placeholder(4));
    assert_eq!(unifier.resolve(Type::Bool), Type::Bool);
}

#[test]
fn unifier_reports_resolved_types_of_the_failing_constraint() {
    let mut unifier = Unifier::new();
    let mut constraints = Constraints::new();
    constraints.add(Constraint::new(Type::Placeholder(1), Type::String));
    constraints.add(Constraint::new(Type::Placeholder(2), Type::Placeholder(1)));
    constraints.add(Constraint::new(Type::Bool, Type::Placeholder(2)));

    let result = unifier.solve(constraints);
    assert_eq!(
        result,
        Err(SemanticError::TypeMismatch(Type::Bool, Type::String))
    );
}

#[test]
fn resolution_table_resolution_table_resolves_and_retrieves_symbol_by_node_id() {
    let mut table = ResolutionTable::new();
    let node_id = NodeId(42);
    let symbol_id = SymbolId(10);

    table.resolve(node_id, symbol_id);

    assert_eq!(table.get(&node_id), Some(symbol_id));
}

#[test]
fn resolution_table_resolution_table_returns_none_for_an_unresolved_node_id() {
    let table = ResolutionTable::new();
    assert_eq!(table.get(&NodeId(42)), None);
}

#[test]
fn resolution_table_keeps_the_latest_symbol_of_a_node() {
    let mut table = ResolutionTable::new();
    table.resolve(NodeId(1), SymbolId(10));
    table.resolve(NodeId(1), SymbolId(11));
    table.resolve(NodeId(2), SymbolId(12));
    assert_eq!(table.get(&NodeId(1)), Some(SymbolId(11)));
    assert_eq!(table.get(&NodeId(2)), Some(SymbolId(12)));
}

#[test]
fn scope_defines_a_symbol() {
    let mut scope = Scope::new();
    scope.define("username".to_string(), SymbolId(1));

    assert!(scope.contains("username"));
}

#[test]
fn scope_does_not_contain_a_symbol() {
    let scope = Scope::new();

    assert!(!scope.contains("username"));
}

#[test]
fn scope_get_a_defined_symbol() {
    let mut scope = Scope::new();
    scope.define("username".to_string(), SymbolId(1));

    assert_eq!(scope.get("username"), Some(SymbolId(1)));
}

#[test]
fn scope_returns_none_for_an_undefined_symbol() {
    let scope = Scope::new();

    assert_eq!(scope.get("username"), None);
}

#[test]
fn scope_redefinition_replaces_the_symbol() {
    let mut scope = Scope::new();
    scope.define("username".to_string(), SymbolId(1));
    scope.define("age".to_string(), SymbolId(2));
    scope.define("username".to_string(), SymbolId(3));

    assert_eq!(scope.get("username"), Some(SymbolId(3)));
    assert_eq!(scope.get("age"), Some(SymbolId(2)));
}

#[test]
fn scope_contains_a_defined_symbol() {
    let mut scopes = Scopes::new();
    scopes.define("username".to_string(), SymbolId(1));

    assert!(scopes.contains("username"));
}

#[test]
fn scope_contains_symbols_from_enclosing_scopes() {
    let mut scopes = Scopes::new();
    scopes.define("username".to_string(), SymbolId(1));

    scopes.begin_scope();
    scopes.define("user_age".to_string(), SymbolId(2));

    assert!(scopes.contains("username"));
    assert!(scopes.contains("user_age"));

    scopes.end_scope();
    assert!(scopes.contains("username"));
    assert!(!scopes.contains("user_age"));
}

#[test]
fn innermost_scope_shadows_symbols_in_outer_scopes() {
    let mut scopes = Scopes::new();
    scopes.define("username".to_string(), SymbolId(1));

    scopes.begin_scope();
    scopes.define("username".to_string(), SymbolId(2));
    assert!(scopes.contains("username"));

    scopes.end_scope();
    assert!(scopes.contains("username"));
}

#[test]
fn scopes_contains_locally() {
    let mut scopes = Scopes::new();
    scopes.define("username".to_string(), SymbolId(1));

    assert!(scopes.contains_locally("username"));
}

#[test]
fn scopes_contains_locally_only_checks_innermost_scope() {
    let mut scopes = Scopes::new();
    scopes.define("username".to_string(), SymbolId(1));

    assert!(scopes.contains_locally("username"));

    scopes.begin_scope();
    assert!(!scopes.contains_locally("username"));

    scopes.define("user_age".to_string(), SymbolId(2));
    assert!(scopes.contains_locally("user_age"));

    scopes.end_scope();
}

#[test]
fn scopes_gets_the_defined_symbol() {
    let mut scopes = Scopes::new();
    scopes.define("username".to_string(), SymbolId(1));

    assert_eq!(scopes.get("username"), Some(SymbolId(1)));
}

#[test]
fn scopes_get_symbol_by_scanning_innermost_to_outermost() {
    let mut scopes = Scopes::new();
    scopes.define("username".to_string(), SymbolId(1));

    scopes.begin_scope();

    scopes.define("username".to_string(), SymbolId(2));
    assert_eq!(scopes.get("username"), Some(SymbolId(2)));

    scopes.end_scope();
    assert_eq!(scopes.get("username"), Some(SymbolId(1)));
}

#[test]
fn scopes_returns_none_for_undefined_symbol() {
    let scopes = Scopes::new();
    assert_eq!(scopes.get("username"), None);
}

#[test]
fn ending_every_scope_leaves_nothing_defined() {
    let mut scopes = Scopes::new();
    scopes.define("username".to_string(), SymbolId(1));
    scopes.end_scope();
    scopes.end_scope();
    assert!(!scopes.contains("username"));
}

#[test]
fn state_state_starts_with_no_current_function() {
    let state = State::new();
    assert!(state.current_function().is_none());
}

#[test]
fn state_state_records_the_global_function_metadata() {
    let mut state = State::new();
    state.add_global_function(
        SymbolId(0),
        FunctionMetadata::new("calculate".to_string(), vec![], Some("i32".to_string())),
    );

    let current = state.get_global_function(&SymbolId(0)).unwrap();
    assert_eq!(current.name, "calculate");
}

#[test]
fn state_state_records_the_current_function_metadata() {
    let mut state = State::new();
    state.add_global_function(
        SymbolId(0),
        FunctionMetadata::new("calculate".to_string(), vec![], Some("i32".to_string())),
    );

    let function_metadata = state.global_functions().get(&0).unwrap();
    assert_eq!(function_metadata.name, "calculate");
    assert_eq!(state.current_function().unwrap().name, "calculate");
}

#[test]
fn state_state_exits_the_function() {
    let mut state = State::new();
    state.add_global_function(
        SymbolId(0),
        FunctionMetadata::new("calculate".to_string(), vec![], Some("i32".to_string())),
    );
    state.exited_function();

    assert!(state.current_function().is_none());
    assert!(state.get_global_function(&SymbolId(0)).is_some());
}

#[test]
fn state_state_starts_with_loop_depth_zero() {
    let state = State::new();
    assert!(!state.is_in_loop());
}

#[test]
fn state_state_tracks_loop_entry_exist() {
    let mut state = State::new();

    state.entered_loop();
    state.exited_loop();
    assert!(!state.is_in_loop());
}

#[test]
fn state_state_tracks_loop_nesting() {
    let mut state = State::new();

    state.entered_loop();
    assert!(state.is_in_loop());

    state.entered_loop();
    assert!(state.is_in_loop());

    state.exited_loop();
    assert!(state.is_in_loop());

    state.exited_loop();
    assert!(!state.is_in_loop());
}

#[test]
fn exiting_a_loop_outside_any_loop_keeps_depth_at_zero() {
    let mut state = State::new();
    state.exited_loop();
    state.entered_loop();
    assert!(state.is_in_loop());
}

#[test]
fn state_state_starts_with_no_unreachable_flags() {
    let state = State::new();
    assert!(!state.is_unreachable());
}

#[test]
fn state_state_tracks_when_break_is_encountered() {
    let mut state = State::new();
    state.encountered_break();
    assert!(state.is_unreachable());
}

#[test]
fn state_state_tracks_when_return_is_encountered() {
    let mut state = State::new();
    state.encountered_return();
    assert!(state.is_unreachable());
}

#[test]
fn state_state_resets_break_flag_correctly() {
    let mut state = State::new();
    state.encountered_break();
    state.reset_break();
    assert!(!state.is_unreachable());
}

#[test]
fn state_state_resets_return_flag_correctly() {
    let mut state = State::new();
    state.encountered_return();
    state.reset_return();
    assert!(!state.is_unreachable());
}

#[test]
fn state_defers_pending_calls_in_order() {
    let mut state = State::new();
    state.add_pending_call("first".to_string(), 0, NodeId(3));
    state.add_pending_call("second".to_string(), 2, NodeId(7));
    let calls = state.pending_calls();
    assert_eq!(calls.len(), 2);
    assert_eq!(calls[0].name, "first");
    assert_eq!(calls[1].argument_count, 2);
    assert_eq!(calls[1].callee_node_id, NodeId(7));
}

#[test]
fn parameter_count() {
    let metadata =
        FunctionMetadata::new("calculate".to_string(), vec![Some("i32".to_string())], None);
    assert_eq!(metadata.parameter_count(), 1);
}

#[test]
fn has_return_type() {
    let metadata = FunctionMetadata::new("calculate".to_string(), vec![], Some("bool".to_string()));
    assert!(metadata.has_return_type());
}

#[test]
fn does_not_have_return_type() {
    let metadata = FunctionMetadata::new("calculate".to_string(), vec![], None);
    assert!(!metadata.has_return_type());
}

#[test]
fn metadata_with_symbols_and_duplicate_keep_every_part() {
    let metadata = FunctionMetadata::new(
        "area".to_string(),
        vec![Some("i32".to_string()), None],
        Some("i32".to_string()),
    )
    .with_symbols(vec![SymbolId(4), SymbolId(5)]);
    let copy = metadata.duplicate();
    assert_eq!(copy.name, "area");
    assert_eq!(copy.parameter_types, vec![Some("i32".to_string()), None]);
    assert_eq!(copy.return_type, Some("i32".to_string()));
    assert_eq!(copy.parameter_symbols, vec![SymbolId(4), SymbolId(5)]);
}
