use infer::ast::expr::{Expression, ExpressionKind};
use infer::ast::statement::Statement;
use infer::{Infer, InferenceError};

#[test]
fn infer_empty_source() {
    let infer = Infer::new();
    let program = infer.infer("").unwrap();
    assert_eq!(program.statements().len(), 0);
}

#[test]
fn infer_valid_variable_declaration() {
    let infer = Infer::new();
    let program = infer.infer("var greeting = \"hello\";").unwrap();
    let statements = program.statements();

    assert_eq!(statements.len(), 1);
    match &statements[0] {
        Statement::VariableDeclaration(declaration, _) => {
            assert_eq!(declaration.variable(), "greeting");
            assert_eq!(declaration.data_type(), None);
            assert_eq!(
                declaration.expression(),
                Some(&Expression::new(ExpressionKind::String("hello".to_string()), 1))
            );
        }
        other => panic!("expected a variable declaration, found {:?}", other),
    }
}

#[test]
fn infer_valid_function_definition() {
    let infer = Infer::new();
    let program = infer.infer("fn calculate() {}").unwrap();
    let statements = program.statements();

    assert_eq!(statements.len(), 1);
    match &statements[0] {
        Statement::FunctionDefinition(func, _) => {
            assert_eq!(func.name(), "calculate");
            assert!(func.parameters().is_empty());
            assert_eq!(func.return_type(), None::<&str>);
            assert_eq!(func.body().len(), 0);
        }
        other => panic!("expected a function definition, found {:?}", other),
    }
}

#[test]
fn infer_invalid_top_level_statement() {
    let infer = Infer::new();
    let result = infer.infer("x = 10;");
    assert!(result.is_err());
    assert_eq!(
        result.err().unwrap(),
        InferenceError::ParseError(
            "unsupported token 'Identifier' at top-level on line 1".to_string()
        )
    );
}

#[test]
fn infer_lex_error() {
    let infer = Infer::new();
    let result = infer.infer("var x = 100; ?");
    assert!(result.is_err());
    assert_eq!(
        result.err().unwrap(),
        InferenceError::ParseError("unrecognized character '?' on line 1".to_string())
    );
}

#[test]
fn infer_reports_syntax_errors_by_message() {
    let infer = Infer::default();
    let result = infer.infer("var x = 10\nvar y = 2;");
    assert_eq!(
        result.err().unwrap(),
        InferenceError::ParseError(
            "expected token 'Semicolon', but found 'Var' on line 2".to_string()
        )
    );
}

#[test]
fn infer_error_message_is_its_text() {
    let error = InferenceError::FileError("failed to read file: missing".to_string());
    assert_eq!(error.to_string(), "failed to read file: missing");
}

#[test]
fn infer_program_with_nested_blocks_and_ids() {
    let infer = Infer::new();
    let program = infer
        .infer("fn f(a: i32, b) : i32 { var x = a + b; if x > 1 { x = 1; } else if x < 0 { x = 0; } }")
        .unwrap();
    assert_eq!(program.statements().len(), 1);
    let mut seen = Vec::new();
    collect(program.statements(), &mut seen);
    let mut sorted = seen.clone();
    sorted.sort();
    sorted.dedup();
    assert_eq!(sorted.len(), seen.len());
}

fn collect(statements: &[Statement], seen: &mut Vec<usize>) {
    for statement in statements {
        seen.push(*statement.id());
        match statement {
            Statement::If(conditional, _) => {
                collect(conditional.body(), seen);
                if let Some(else_body) = conditional.else_body() {
                    collect(else_body, seen);
                }
            }
            Statement::FunctionDefinition(definition, _) => collect(definition.body(), seen),
            _ => {}
        }
    }
}

#[test]
fn only_the_toy_extension_marks_a_source_file() {
    assert!(infer::infer::is_source_extension(Some("toy")));
    assert!(!infer::infer::is_source_extension(Some("txt")));
    assert!(!infer::infer::is_source_extension(Some("TOY")));
    assert!(!infer::infer::is_source_extension(None));
}

#[test]
fn file_errors_carry_their_messages() {
    assert_eq!(
        infer::infer::invalid_extension_error("program.txt"),
        infer::InferenceError::FileError(
            "invalid file extension, expected '.toy' for file: program.txt".to_string()
        )
    );
    assert_eq!(
        infer::infer::read_error("No such file or directory (os error 2)").to_string(),
        "failed to read file: No such file or directory (os error 2)"
    );
}

fn expression_ids(kind: &ExpressionKind, ids: &mut Vec<usize>) {
    match kind {
        ExpressionKind::Identifier(_, id) => ids.push(id.0),
        ExpressionKind::FunctionCall(callee, arguments, id) => {
            expression_ids(callee, ids);
            for argument in arguments {
                expression_ids(argument, ids);
            }
            ids.push(id.0);
        }
        ExpressionKind::Unary(operand, _) => expression_ids(operand, ids),
        ExpressionKind::Grouped(inner) => expression_ids(inner, ids),
        ExpressionKind::Binary(left, _, right) => {
            expression_ids(left, ids);
            expression_ids(right, ids);
        }
        _ => {}
    }
}

fn statement_ids(statement: &Statement, ids: &mut Vec<usize>) {
    match statement {
        Statement::VariableDeclaration(declaration, id) => {
            if let Some(expression) = declaration.expression() {
                expression_ids(&expression.kind, ids);
            }
            ids.push(id.0);
        }
        Statement::Assignment(assignment, id) => {
            expression_ids(&assignment.expression().kind, ids);
            ids.push(id.0);
        }
        Statement::If(conditional, id) => {
            expression_ids(&conditional.condition().kind, ids);
            for inner in conditional.body() {
                statement_ids(inner, ids);
            }
            if let Some(else_body) = conditional.else_body() {
                for inner in else_body {
                    statement_ids(inner, ids);
                }
            }
            ids.push(id.0);
        }
        Statement::Loop(iteration, id) => {
            for inner in iteration.body() {
                statement_ids(inner, ids);
            }
            ids.push(id.0);
        }
        Statement::Block(block, id) => {
            for inner in block.statements() {
                statement_ids(inner, ids);
            }
            ids.push(id.0);
        }
        Statement::FunctionDefinition(definition, id) => {
            for inner in definition.body() {
                statement_ids(inner, ids);
            }
            ids.push(id.0);
        }
        Statement::FunctionCall(_, id) | Statement::Break(_, id) | Statement::Return(_, id) | Statement::Print(_, id) => {
            ids.push(id.0)
        }
    }
}

#[test]
fn every_node_of_a_parsed_program_has_its_own_identifier() {
    let source = "
        var limit: i32 = 10;
        fn tally(start: i32, step) {
            var total = start;
            loop {
                if total > limit {
                    total = tally(total, step) - (step * 2);
                } else if !ready {
                    { var inner = total; }
                } else {
                    total = total + step;
                }
            }
        }
    ";
    let program = Infer::new().infer(source).unwrap();
    let mut ids = Vec::new();
    for statement in program.statements() {
        statement_ids(statement, &mut ids);
    }
    assert!(ids.len() > 15);
    for window in ids.windows(2) {
        assert!(window[0] < window[1]);
    }
}

#[test]
fn supports_tells_unimplemented_statement_forms_apart() {
    let infer = Infer::new();
    assert!(infer.supports("var x = 1;"));
    assert!(infer.supports("fn f() { var x = 1; x = 2; }"));
    assert!(infer.supports("loop"));
    assert!(!infer.supports("fn f() { 123; }"));
    assert!(!infer.supports("fn f() { g(); }"));
    assert!(!infer.supports("fn f() { x }"));
}

#[test]
fn compiling_twice_gives_the_same_program() {
    let infer = Infer::new();
    let first = infer.infer("var x = 1; fn f(a: i32) : i32 { var y = a; }").unwrap();
    let second = Infer::default().infer("var x = 1; fn f(a: i32) : i32 { var y = a; }").unwrap();
    assert_eq!(first, second);
}

#[test]
fn nodes_are_numbered_in_the_order_they_are_made() {
    let program = Infer::new().infer("var a = 1; var b = a;").unwrap();
    let statements = program.statements();
    assert_eq!(statements[0].id(), infer::ast::statement::NodeId(1));
    match &statements[1] {
        Statement::VariableDeclaration(declaration, id) => {
            let initializer = declaration.expression.as_ref().unwrap();
            assert_eq!(initializer.kind.node_id(), Some(infer::ast::statement::NodeId(2)));
            assert_eq!(*id, infer::ast::statement::NodeId(3));
        }
        _ => panic!("expected a declaration"),
    }
}
