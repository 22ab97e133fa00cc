use infer::ast::program::ProgramBuilder;
use infer::ast::statement::{NodeIds, Statement, VariableDeclaration};

#[test]
fn create_a_program_with_no_statements() {
    let program = ProgramBuilder::new().build();
    assert_eq!(program.statements.len(), 0);
}

#[test]
fn create_a_program_with_a_single_variable_declaration_statement() {
    let mut ids = NodeIds::new();
    let statement = Statement::variable_declaration(
        VariableDeclaration::new_with_variable("id".to_string()),
        &mut ids,
    );
    let program = ProgramBuilder::new().add(statement).build();
    assert_eq!(program.statements.len(), 1);

    let actual_statement = program.statements.first().unwrap();
    let expected_statement = Statement::variable_declaration(
        VariableDeclaration::new_with_variable("id".to_string()),
        &mut ids,
    );
    assert_eq!(actual_statement, &expected_statement);
}

#[test]
fn create_a_program_with_a_single_variable_declaration_statement_with_name_and_type() {
    let mut ids = NodeIds::new();
    let statement = Statement::variable_declaration(
        VariableDeclaration::new_with_variable_and_type("id".to_string(), "i32".to_string()),
        &mut ids,
    );
    let program = ProgramBuilder::new().add(statement).build();
    assert_eq!(program.statements.len(), 1);

    let actual_statement = program.statements.first().unwrap();
    let expected_statement = Statement::variable_declaration(
        VariableDeclaration::new_with_variable_and_type("id".to_string(), "i32".to_string()),
        &mut ids,
    );
    assert_eq!(actual_statement, &expected_statement);
}
