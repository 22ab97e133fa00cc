use infer::ast::expr::{Expression, ExpressionKind};
use infer::ast::statement::{
    Assignment, Block, Break, FunctionDefinition, FunctionParameter, If, Loop, NodeId, NodeIds,
    Print, Return, Statement, VariableDeclaration,
};
use infer::semantic::error::SemanticError;
use infer::semantic::visitor::StatementVisitor;

fn i32_expression(value: i32) -> Expression {
    Expression::new(ExpressionKind::I32(value), 1)
}

#[test]
fn variable_declaration_id() {
    let mut ids = NodeIds::new();
    let statement = Statement::variable_declaration(
        VariableDeclaration::new("user_score".to_string(), None, None),
        &mut ids,
    );

    assert!(*statement.id() > 0);
}

#[test]
fn assignment_id() {
    let mut ids = NodeIds::new();
    let statement = Statement::assignment(
        Assignment::new("user_score".to_string(), i32_expression(100)),
        &mut ids,
    );

    assert!(*statement.id() > 0);
}

#[test]
fn if_id() {
    let mut ids = NodeIds::new();
    let statement = Statement::conditional(
        If::new(
            Expression::new(ExpressionKind::Boolean(true), 1),
            Block::new(vec![]),
            None,
        ),
        &mut ids,
    );
    assert!(*statement.id() > 0);
}

#[test]
fn loop_id() {
    let mut ids = NodeIds::new();
    let statement = Statement::iteration(Loop::new(Block::new(vec![])), &mut ids);
    assert!(*statement.id() > 0);
}

#[test]
fn block_id() {
    let mut ids = NodeIds::new();
    let statement = Statement::block(Block::new(vec![]), &mut ids);
    assert!(*statement.id() > 0);
}

#[test]
fn function_definition_id() {
    let mut ids = NodeIds::new();
    let statement = Statement::function_definition(
        FunctionDefinition::new("calculate_total".to_string(), vec![], None, Block::new(vec![])),
        &mut ids,
    );
    assert!(*statement.id() > 0);
}

#[test]
fn function_call_id() {
    let mut ids = NodeIds::new();
    let statement = Statement::function_call(i32_expression(42), &mut ids);
    assert!(*statement.id() > 0);
}

#[test]
fn break_id() {
    let mut ids = NodeIds::new();
    let statement = Statement::control_flow(Break::new(), &mut ids);
    assert!(*statement.id() > 0);
}

#[test]
fn return_id() {
    let mut ids = NodeIds::new();
    let statement = Statement::return_(Return::new(Some(i32_expression(1))), &mut ids);
    assert!(*statement.id() > 0);
}

#[test]
fn print_id() {
    let mut ids = NodeIds::new();
    let statement = Statement::print(Print::new(vec![i32_expression(1)]), &mut ids);
    assert!(*statement.id() > 0);
}

#[test]
fn variable_declaration_id_for_two_statements() {
    let mut ids = NodeIds::new();
    let first = Statement::variable_declaration(
        VariableDeclaration::new("user_score".to_string(), None, None),
        &mut ids,
    );
    let second = Statement::variable_declaration(
        VariableDeclaration::new("user_score".to_string(), None, None),
        &mut ids,
    );

    assert_eq!(first.id(), NodeId(1));
    assert_eq!(second.id(), NodeId(2));
}

#[test]
fn statements_equal_regardless_of_their_ids() {
    let mut ids = NodeIds::new();
    let first = Statement::control_flow(Break::new(), &mut ids);
    let second = Statement::control_flow(Break::new(), &mut ids);
    assert_ne!(first.id(), second.id());
    assert_eq!(first, second);
    let third = Statement::iteration(Loop::new(Block::new(vec![])), &mut ids);
    assert_ne!(first, third);
}

#[test]
fn getters_return_the_parts_of_a_statement() {
    let declaration = VariableDeclaration::new(
        "score".to_string(),
        Some("i32".to_string()),
        Some(i32_expression(7)),
    );
    assert_eq!(declaration.variable(), "score");
    assert_eq!(declaration.data_type(), Some("i32"));
    assert_eq!(declaration.expression(), Some(&i32_expression(7)));

    let definition = FunctionDefinition::new(
        "add".to_string(),
        vec![FunctionParameter::new("a".to_string(), None)],
        Some("i32".to_string()),
        Block::new(vec![]),
    );
    assert_eq!(definition.name(), "add");
    assert_eq!(definition.parameters().len(), 1);
    assert_eq!(definition.parameters()[0].name(), "a");
    assert_eq!(definition.parameters()[0].data_type(), None);
    assert_eq!(definition.return_type(), Some("i32"));
    assert!(definition.body().is_empty());

    let conditional = If::new(
        Expression::new(ExpressionKind::Boolean(true), 3),
        Block::new(vec![]),
        Some(Block::new(vec![])),
    );
    assert_eq!(conditional.condition().line, 3);
    assert!(conditional.body().is_empty());
    assert_eq!(conditional.else_body().map(|b| b.len()), Some(0));

    let returned = Return::new(None);
    assert!(returned.expression().is_none());
    let printed = Print::new(vec![i32_expression(1), i32_expression(2)]);
    assert_eq!(printed.arguments().len(), 2);
}

struct TestVisitor {
    visited_var_declaration: bool,
    visited_assignment: bool,
    visited_if: bool,
    visited_loop: bool,
    visited_block: bool,
    visited_function_definition: bool,
    visited_function_call: bool,
    visited_break: bool,
    visited_return: bool,
    visited_print: bool,
}

impl TestVisitor {
    fn fresh() -> Self {
        TestVisitor {
            visited_var_declaration: false,
            visited_assignment: false,
            visited_if: false,
            visited_loop: false,
            visited_block: false,
            visited_function_definition: false,
            visited_function_call: false,
            visited_break: false,
            visited_return: false,
            visited_print: false,
        }
    }
}

type Visit = Result<(), SemanticError>;

// The readiness and visit relations are what a verified visitor states of itself;
// this recording visitor is ready for every visit and relates any outcome.
impl StatementVisitor for TestVisitor {
    fn var_declaration_ready(&self, _: VariableDeclaration, _: NodeId) -> bool {
        true
    }
    fn var_declaration_visited(&self, _: VariableDeclaration, _: NodeId, _: Self, _: Visit) -> bool {
        true
    }
    fn assignment_ready(&self, _: Assignment, _: NodeId) -> bool {
        true
    }
    fn assignment_visited(&self, _: Assignment, _: NodeId, _: Self, _: Visit) -> bool {
        true
    }
    fn if_ready(&self, _: If) -> bool {
        true
    }
    fn if_visited(&self, _: If, _: Self, _: Visit) -> bool {
        true
    }
    fn loop_ready(&self, _: Loop) -> bool {
        true
    }
    fn loop_visited(&self, _: Loop, _: Self, _: Visit) -> bool {
        true
    }
    fn block_ready(&self, _: Block) -> bool {
        true
    }
    fn block_visited(&self, _: Block, _: Self, _: Visit) -> bool {
        true
    }
    fn function_definition_ready(&self, _: FunctionDefinition, _: NodeId) -> bool {
        true
    }
    fn function_definition_visited(&self, _: FunctionDefinition, _: NodeId, _: Self, _: Visit) -> bool {
        true
    }
    fn function_call_ready(&self, _: Expression) -> bool {
        true
    }
    fn function_call_visited(&self, _: Expression, _: Self, _: Visit) -> bool {
        true
    }
    fn break_ready(&self) -> bool {
        true
    }
    fn break_visited(&self, _: Self, _: Visit) -> bool {
        true
    }
    fn return_ready(&self, _: Return) -> bool {
        true
    }
    fn return_visited(&self, _: Return, _: Self, _: Visit) -> bool {
        true
    }
    fn print_ready(&self, _: Print) -> bool {
        true
    }
    fn print_visited(&self, _: Print, _: Self, _: Visit) -> bool {
        true
    }

    fn visit_var_declaration(&mut self, _variable_declaration: &VariableDeclaration, _node_id: NodeId) -> Visit {
        self.visited_var_declaration = true;
        Ok(())
    }

    fn visit_assignment(&mut self, _assignment: &Assignment, _node_id: NodeId) -> Visit {
        self.visited_assignment = true;
        Ok(())
    }

    fn visit_if(&mut self, _if_statement: &If) -> Visit {
        self.visited_if = true;
        Ok(())
    }

    fn visit_loop(&mut self, _loop_statement: &Loop) -> Visit {
        self.visited_loop = true;
        Ok(())
    }

    fn visit_block(&mut self, _block: &Block) -> Visit {
        self.visited_block = true;
        Ok(())
    }

    fn visit_function_definition(&mut self, _definition: &FunctionDefinition, _node_id: NodeId) -> Visit {
        self.visited_function_definition = true;
        Ok(())
    }

    fn visit_function_call(&mut self, _call: &Expression) -> Visit {
        self.visited_function_call = true;
        Ok(())
    }

    fn visit_break(&mut self) -> Visit {
        self.visited_break = true;
        Ok(())
    }

    fn visit_return(&mut self, _return_statement: &Return) -> Visit {
        self.visited_return = true;
        Ok(())
    }

    fn visit_print(&mut self, _print_statement: &Print) -> Visit {
        self.visited_print = true;
        Ok(())
    }
}

#[test]
fn statement_accept_dispatches_print_to_visitor() {
    let mut ids = NodeIds::new();
    let statement = Statement::print(Print::new(vec![i32_expression(1)]), &mut ids);
    let mut visitor = TestVisitor::fresh();
    assert!(statement.accept(&mut visitor).is_ok());
    assert!(visitor.visited_print);
    assert!(!visitor.visited_function_call);
}

#[test]
fn statement_accept_dispatches_variable_declaration_to_visitor() {
    let mut ids = NodeIds::new();
    let statement = Statement::variable_declaration(
        VariableDeclaration::new("username".to_string(), None, None),
        &mut ids,
    );
    let mut visitor = TestVisitor::fresh();
    let result = statement.accept(&mut visitor);

    assert!(result.is_ok());
    assert!(visitor.visited_var_declaration);
}

#[test]
fn statement_accept_dispatches_assignment_to_visitor() {
    let mut ids = NodeIds::new();
    let statement = Statement::assignment(
        Assignment::new("score".to_string(), i32_expression(10)),
        &mut ids,
    );
    let mut visitor = TestVisitor::fresh();
    let result = statement.accept(&mut visitor);

    assert!(result.is_ok());
    assert!(visitor.visited_assignment);
}

#[test]
fn statement_accept_dispatches_if_to_visitor() {
    let mut ids = NodeIds::new();
    let statement = Statement::conditional(
        If::new(
            Expression::new(ExpressionKind::Boolean(true), 1),
            Block::new(vec![]),
            None,
        ),
        &mut ids,
    );
    let mut visitor = TestVisitor::fresh();
    let result = statement.accept(&mut visitor);

    assert!(result.is_ok());
    assert!(visitor.visited_if);
}

#[test]
fn statement_accept_dispatches_loop_to_visitor() {
    let mut ids = NodeIds::new();
    let statement = Statement::iteration(Loop::new(Block::new(vec![])), &mut ids);
    let mut visitor = TestVisitor::fresh();
    let result = statement.accept(&mut visitor);

    assert!(result.is_ok());
    assert!(visitor.visited_loop);
}

#[test]
fn statement_accept_dispatches_block_to_visitor() {
    let mut ids = NodeIds::new();
    let statement = Statement::block(Block::new(vec![]), &mut ids);
    let mut visitor = TestVisitor::fresh();
    let result = statement.accept(&mut visitor);

    assert!(result.is_ok());
    assert!(visitor.visited_block);
}

#[test]
fn statement_accept_dispatches_function_definition_to_visitor() {
    let mut ids = NodeIds::new();
    let statement = Statement::function_definition(
        FunctionDefinition::new("calculate".to_string(), vec![], None, Block::new(vec![])),
        &mut ids,
    );
    let mut visitor = TestVisitor::fresh();
    let result = statement.accept(&mut visitor);

    assert!(result.is_ok());
    assert!(visitor.visited_function_definition);
}

#[test]
fn statement_accept_dispatches_break_to_visitor() {
    let mut ids = NodeIds::new();
    let statement = Statement::control_flow(Break::new(), &mut ids);
    let mut visitor = TestVisitor::fresh();
    let result = statement.accept(&mut visitor);

    assert!(result.is_ok());
    assert!(visitor.visited_break);
}

#[test]
fn statement_accept_dispatches_return_to_visitor() {
    let mut ids = NodeIds::new();
    let statement = Statement::return_(Return::new(None), &mut ids);
    let mut visitor = TestVisitor::fresh();
    let result = statement.accept(&mut visitor);

    assert!(result.is_ok());
    assert!(visitor.visited_return);
}
