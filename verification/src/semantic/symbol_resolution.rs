//! Symbol resolution (the first pass of semantic analysis): the walk that
//! [`crate::semantic::resolution`] describes.

use vstd::prelude::*;
use std::collections::HashMap;
use crate::ast::expr::{BinaryOperator, Expression, ExpressionKind, UnaryOperator};
use crate::ast::statement::{
    opt_text as opt_text_of, Assignment, Block, FunctionDefinition, If, Loop, NodeId, Print, Return, Statement,
    VariableDeclaration,
};
use crate::semantic::error::SemanticError;
use crate::semantic::resolution::{
    call_error, initial_resolver, lemma_arguments_stop, lemma_expressions_stop,
    lemma_parameters_stop, lemma_pending_stop, lemma_stmts_stop, parameter_types, reports,
    resolve_arguments, resolve_assignment, resolve_block, resolve_break, resolve_call,
    resolve_call_statement, resolve_expr, resolve_expressions, resolve_function_definition,
    resolve_identifier, resolve_if, resolve_loop, resolve_opt_expression, resolve_parameters,
    resolve_pending, resolve_print, resolve_return, resolve_stmt, resolve_stmts,
    resolve_var_declaration, Resolver,
};
use crate::semantic::resolution_table::ResolutionTable;
use crate::semantic::scope::Scopes;
use crate::semantic::state::{
    copy_opt_text, functions_view, opt_texts, FunctionMetadata, SpecPendingCall, State,
};
use crate::semantic::visitor::{ExpressionVisitor, StatementVisitor};
use crate::semantic::{Outcome, SymbolId, SymbolIds};

verus! {

broadcast use vstd::string::group_string_axioms;

/// The walk that resolves every name of a program to the symbol it stands for.
pub struct SymbolResolutionVisitor {
    scopes: Scopes,
    state: State,
    resolution_table: ResolutionTable,
    symbols: SymbolIds,
}

impl SymbolResolutionVisitor {
    /// Everything the walk keeps, as a value.
    pub closed spec fn model(&self) -> Resolver {
        Resolver {
            scopes: self.scopes@,
            state: self.state@,
            table: self.resolution_table.entries(),
            last_symbol: self.symbols.last(),
        }
    }

    /// A walk at the start of a program: one empty global scope, nothing declared.
    pub fn new() -> (r: Self)
        ensures
            r.model() == initial_resolver(),
    {
        Self {
            scopes: Scopes::new(),
            state: State::new(),
            resolution_table: ResolutionTable::new(),
            symbols: SymbolIds::new(),
        }
    }

    /// The resolution table built so far.
    pub fn resolution_table(&self) -> (r: &ResolutionTable)
        ensures
            r.entries() == self.model().table,
    {
        &self.resolution_table
    }

    /// The functions declared so far, by the number of their symbol.
    pub fn global_functions(&self) -> (r: &HashMap<usize, FunctionMetadata>)
        ensures
            functions_view(*r) == self.model().state.global_functions,
    {
        self.state.global_functions()
    }

    /// Checks a call of `name` with `argument_count` arguments: the name must stand for
    /// a declared function that takes that many parameters.
    pub fn validate_function_call(&self, name: &str, argument_count: usize) -> (r: Result<
        (),
        SemanticError,
    >)
        ensures
            match call_error(self.model(), name@, argument_count) {
                Some(e) => r is Err && r->Err_0@ == e,
                None => r is Ok,
            },
    {
        let symbol_id = match self.scopes.get(name) {
            None => return Err(SemanticError::UndefinedVariable(name.to_owned())),
            Some(symbol_id) => symbol_id,
        };
        let metadata = match self.state.get_global_function(&symbol_id) {
            None => return Err(SemanticError::NotAFunction(name.to_owned())),
            Some(metadata) => metadata,
        };
        if metadata.parameter_count() != argument_count {
            return Err(
                SemanticError::ArgumentCountMismatch(
                    name.to_owned(),
                    metadata.parameter_count(),
                    argument_count,
                ),
            );
        }
        Ok(())
    }

    /// Resolves a reference to `name`.
    pub fn visit_identifier(&mut self, name: &str, node_id: NodeId) -> (r: Result<(), SemanticError>)
        ensures
            reports(resolve_identifier(old(self).model(), name@, node_id), r, final(self).model()),
            final(self).model().scopes == old(self).model().scopes,
    {
        match self.scopes.get(name) {
            None => Err(SemanticError::UndefinedVariable(name.to_owned())),
            Some(symbol_id) => {
                self.resolution_table.resolve(node_id, symbol_id);
                Ok(())
            },
        }
    }

    /// Resolves a call expression: its callee, then its arguments.
    pub fn visit_call_expression(&mut self, callee: &ExpressionKind, arguments: &[ExpressionKind]) -> (r:
        Result<(), SemanticError>)
        ensures
            reports(resolve_call(old(self).model(), *callee, arguments@), r, final(self).model()),
            final(self).model().scopes == old(self).model().scopes,
        decreases arguments@, 1int,
    {
        let (name, callee_node_id) = match callee {
            ExpressionKind::Identifier(name, callee_node_id) => (name, *callee_node_id),
            _ => return Err(SemanticError::NotAFunction(String::new())),
        };
        match self.scopes.get(name.as_str()) {
            None => self.state.add_pending_call(name.clone(), arguments.len(), callee_node_id),
            Some(symbol_id) => {
                match self.validate_function_call(name.as_str(), arguments.len()) {
                    Ok(()) => {},
                    Err(e) => return Err(e),
                }
                self.resolution_table.resolve(callee_node_id, symbol_id);
            },
        }
        self.visit_arguments(arguments)
    }

    /// Resolves expressions in order; the first error stops it.
    fn visit_arguments(&mut self, arguments: &[ExpressionKind]) -> (r: Result<(), SemanticError>)
        ensures
            reports(resolve_arguments(old(self).model(), arguments@), r, final(self).model()),
            final(self).model().scopes == old(self).model().scopes,
        decreases arguments@, 0int,
    {
        let ghost m0 = self.model();
        let mut i: usize = 0;
        proof {
            assert(arguments@.take(0) =~= Seq::<ExpressionKind>::empty());
        }
        while i < arguments.len()
            invariant
                i <= arguments@.len(),
                m0 == old(self).model(),
                resolve_arguments(m0, arguments@.take(i as int)) == Outcome::Done(self.model()),
                self.model().scopes == m0.scopes,
            decreases arguments@.len() - i,
        {
            proof {
                let next = arguments@.take(i + 1);
                assert(next.drop_last() =~= arguments@.take(i as int));
                assert(next.last() == arguments@[i as int]);
            }
            let ghost before = self.model();
            match self.visit_expression(&arguments[i]) {
                Ok(()) => {},
                Err(e) => {
                    proof {
                        assert(resolve_arguments(m0, arguments@.take(i + 1)) == resolve_expr(
                            before,
                            arguments@[i as int],
                        ));
                        lemma_arguments_stop(m0, arguments@, i + 1);
                    }
                    return Err(e);
                },
            }
            i = i + 1;
        }
        proof {
            assert(arguments@.take(i as int) =~= arguments@);
        }
        Ok(())
    }

    /// Resolves the names an expression refers to.
    pub fn visit_expression(&mut self, expression_kind: &ExpressionKind) -> (r: Result<
        (),
        SemanticError,
    >)
        ensures
            reports(resolve_expr(old(self).model(), *expression_kind), r, final(self).model()),
            final(self).model().scopes == old(self).model().scopes,
        decreases expression_kind, 0int,
    {
        match expression_kind {
            ExpressionKind::Identifier(name, node_id) => self.visit_identifier(name.as_str(), *node_id),
            ExpressionKind::FunctionCall(callee, arguments, _) => self.visit_call_expression(
                callee,
                arguments.as_slice(),
            ),
            ExpressionKind::Unary(inner, _) => self.visit_expression(inner),
            ExpressionKind::Grouped(inner) => self.visit_expression(inner),
            ExpressionKind::Binary(left, _, right) => {
                match self.visit_expression(left) {
                    Ok(()) => {},
                    Err(e) => return Err(e),
                }
                self.visit_expression(right)
            },
            _ => Ok(()),
        }
    }

    /// Resolves a variable declaration.
    pub fn visit_var_declaration(&mut self, variable_declaration: &VariableDeclaration, node_id: NodeId) -> (r:
        Result<(), SemanticError>)
        requires
            old(self).model().scopes.len() > 0,
            !(resolve_var_declaration(old(self).model(), *variable_declaration, node_id) is Halted),
        ensures
            reports(
                resolve_var_declaration(old(self).model(), *variable_declaration, node_id),
                r,
                final(self).model(),
            ),
            r is Err ==> final(self).model().scopes == old(self).model().scopes,
            r is Ok ==> final(self).model().scopes.len() == old(self).model().scopes.len(),
            final(self).model().scopes.len() >= old(self).model().scopes.len(),
    {
        if self.scopes.contains_locally(variable_declaration.variable.as_str()) {
            return Err(SemanticError::DuplicateVariable(variable_declaration.variable.clone()));
        }
        match &variable_declaration.expression {
            Some(expression) => match self.visit_expression(&expression.kind) {
                Ok(()) => {},
                Err(e) => return Err(e),
            },
            None => {},
        }
        let symbol_id = self.symbols.next_id();
        self.scopes.define(variable_declaration.variable.clone(), symbol_id);
        self.resolution_table.resolve(node_id, symbol_id);
        Ok(())
    }

    /// Resolves an assignment.
    pub fn visit_assignment(&mut self, assignment: &Assignment, node_id: NodeId) -> (r: Result<
        (),
        SemanticError,
    >)
        ensures
            reports(resolve_assignment(old(self).model(), *assignment, node_id), r, final(self).model()),
            final(self).model().scopes == old(self).model().scopes,
    {
        let symbol_id = match self.scopes.get(assignment.variable.as_str()) {
            None => return Err(SemanticError::UndefinedVariable(assignment.variable.clone())),
            Some(symbol_id) => symbol_id,
        };
        match self.visit_expression(&assignment.expression.kind) {
            Ok(()) => {},
            Err(e) => return Err(e),
        }
        self.resolution_table.resolve(node_id, symbol_id);
        Ok(())
    }

    /// Resolves a conditional.
    pub fn visit_if(&mut self, if_statement: &If) -> (r: Result<(), SemanticError>)
        requires
            old(self).model().scopes.len() > 0,
            !(resolve_if(old(self).model(), *if_statement) is Halted),
        ensures
            reports(resolve_if(old(self).model(), *if_statement), r, final(self).model()),
            r is Ok ==> final(self).model().scopes.len() == old(self).model().scopes.len(),
            final(self).model().scopes.len() >= old(self).model().scopes.len(),
        decreases if_statement, 0int,
    {
        match self.visit_expression(&if_statement.condition.kind) {
            Ok(()) => {},
            Err(e) => return Err(e),
        }
        match self.visit_block(&if_statement.body) {
            Ok(()) => {},
            Err(e) => return Err(e),
        }
        match &if_statement.else_body {
            Some(body) => self.visit_block(body),
            None => Ok(()),
        }
    }

    /// Resolves a loop.
    pub fn visit_loop(&mut self, loop_statement: &Loop) -> (r: Result<(), SemanticError>)
        requires
            old(self).model().scopes.len() > 0,
            !(resolve_loop(old(self).model(), *loop_statement) is Halted),
        ensures
            reports(resolve_loop(old(self).model(), *loop_statement), r, final(self).model()),
            r is Ok ==> final(self).model().scopes.len() == old(self).model().scopes.len(),
            final(self).model().scopes.len() >= old(self).model().scopes.len(),
        decreases loop_statement, 0int,
    {
        self.state.entered_loop();
        match self.visit_block(&loop_statement.body) {
            Ok(()) => {},
            Err(e) => return Err(e),
        }
        self.state.exited_loop();
        Ok(())
    }

    /// Resolves a block in a scope of its own.
    pub fn visit_block(&mut self, block: &Block) -> (r: Result<(), SemanticError>)
        requires
            old(self).model().scopes.len() > 0,
            !(resolve_block(old(self).model(), block.statements@) is Halted),
        ensures
            reports(resolve_block(old(self).model(), block.statements@), r, final(self).model()),
            r is Ok ==> final(self).model().scopes.len() == old(self).model().scopes.len(),
            final(self).model().scopes.len() >= old(self).model().scopes.len(),
        decreases block, 1int,
    {
        if self.state.is_unreachable() {
            return Err(SemanticError::UnreachableCode);
        }
        self.scopes.begin_scope();
        match self.visit_statements(block.statements.as_slice()) {
            Ok(()) => {},
            Err(e) => return Err(e),
        }
        self.scopes.end_scope();
        self.state.reset_break();
        self.state.reset_return();
        Ok(())
    }

    /// Resolves a function definition.
    pub fn visit_function_definition(&mut self, definition: &FunctionDefinition, node_id: NodeId) -> (r:
        Result<(), SemanticError>)
        requires
            old(self).model().scopes.len() > 0,
            !(resolve_function_definition(old(self).model(), *definition, node_id) is Halted),
        ensures
            reports(
                resolve_function_definition(old(self).model(), *definition, node_id),
                r,
                final(self).model(),
            ),
            r is Ok ==> final(self).model().scopes.len() == old(self).model().scopes.len(),
            final(self).model().scopes.len() >= old(self).model().scopes.len(),
        decreases definition, 0int,
    {
        if self.scopes.contains_locally(definition.name.as_str()) {
            return Err(SemanticError::DuplicateFunctionName(definition.name.clone()));
        }
        let function_symbol_id = self.symbols.next_id();
        self.scopes.define(definition.name.clone(), function_symbol_id);
        self.resolution_table.resolve(node_id, function_symbol_id);
        self.scopes.begin_scope();
        let ghost m1 = self.model();
        let ghost parameters = definition.parameters@;
        let mut parameter_symbols: Vec<SymbolId> = Vec::new();
        let mut types: Vec<Option<String>> = Vec::new();
        let mut i: usize = 0;
        proof {
            assert(parameters.take(0) =~= Seq::empty());
            assert(opt_texts(types@) =~= parameter_types(parameters.take(0)));
        }
        while i < definition.parameters.len()
            invariant
                i <= parameters.len(),
                parameters == definition.parameters@,
                m1.scopes.len() > 1,
                m1.scopes.len() == old(self).model().scopes.len() + 1,
                resolve_parameters(m1, parameters.take(i as int)) == Outcome::Done(
                    (self.model(), parameter_symbols@),
                ),
                opt_texts(types@) == parameter_types(parameters.take(i as int)),
                self.model().scopes.len() == m1.scopes.len(),
                !(resolve_parameters(m1, parameters) is Halted),
                resolve_parameters(m1, parameters) is Failed ==> resolve_function_definition(
                    old(self).model(),
                    *definition,
                    node_id,
                ) == Outcome::<Resolver>::Failed(resolve_parameters(m1, parameters)->Failed_0),
            decreases parameters.len() - i,
        {
            let parameter = &definition.parameters[i];
            proof {
                let next = parameters.take(i + 1);
                assert(next.drop_last() =~= parameters.take(i as int));
                assert(next.last() == parameters[i as int]);
            }
            if self.scopes.contains_locally(parameter.name.as_str()) {
                proof {
                    lemma_parameters_stop(m1, parameters, i + 1);
                }
                return Err(SemanticError::DuplicateVariable(parameter.name.clone()));
            }
            proof {
                if !(resolve_parameters(m1, parameters.take(i + 1)) is Done) {
                    lemma_parameters_stop(m1, parameters, i + 1);
                }
            }
            let symbol_id = self.symbols.next_id();
            self.scopes.define(parameter.name.clone(), symbol_id);
            parameter_symbols.push(symbol_id);
            let ghost before = types@;
            let data_type = copy_opt_text(&parameter.data_type);
            types.push(data_type);
            proof {
                let next = parameters.take(i + 1);
                assert(parameter_types(next) =~= parameter_types(parameters.take(i as int)).push(
                    opt_text_of(parameter.data_type),
                ));
                assert(opt_texts(types@) =~= opt_texts(before).push(opt_text_of(data_type)));
            }
            i = i + 1;
        }
        proof {
            assert(parameters.take(i as int) =~= parameters);
        }
        let metadata = FunctionMetadata::new(
            definition.name.clone(),
            types,
            copy_opt_text(&definition.return_type),
        ).with_symbols(parameter_symbols);
        self.state.add_global_function(function_symbol_id, metadata);
        match self.visit_statements(definition.body.statements.as_slice()) {
            Ok(()) => {},
            Err(e) => return Err(e),
        }
        self.scopes.end_scope();
        self.state.exited_function();
        self.state.reset_return();
        Ok(())
    }

    /// Resolves a call standing as a statement; the expression must be a call.
    pub fn visit_function_call(&mut self, call: &Expression) -> (r: Result<(), SemanticError>)
        requires
            !(resolve_call_statement(old(self).model(), *call) is Halted),
        ensures
            reports(resolve_call_statement(old(self).model(), *call), r, final(self).model()),
            final(self).model().scopes == old(self).model().scopes,
    {
        match &call.kind {
            ExpressionKind::FunctionCall(..) => self.visit_expression(&call.kind),
            _ => Ok(()),
        }
    }

    /// Resolves a `break`.
    pub fn visit_break(&mut self) -> (r: Result<(), SemanticError>)
        ensures
            reports(resolve_break(old(self).model()), r, final(self).model()),
            final(self).model().scopes == old(self).model().scopes,
    {
        if !self.state.is_in_loop() {
            return Err(SemanticError::BreakOutsideLoop);
        }
        self.state.encountered_break();
        Ok(())
    }

    /// Resolves a `return`.
    pub fn visit_return(&mut self, return_statement: &Return) -> (r: Result<(), SemanticError>)
        ensures
            reports(resolve_return(old(self).model(), *return_statement), r, final(self).model()),
            final(self).model().scopes == old(self).model().scopes,
    {
        match &return_statement.expression {
            Some(expression) => match self.visit_expression(&expression.kind) {
                Ok(()) => {},
                Err(e) => return Err(e),
            },
            None => {},
        }
        let has_return_type = match self.state.current_function() {
            None => return Err(SemanticError::ReturnOutsideFunction),
            Some(function_metadata) => function_metadata.has_return_type(),
        };
        if return_statement.expression.is_none() && has_return_type {
            return Err(SemanticError::MissingReturnExpression);
        }
        if return_statement.expression.is_some() && !has_return_type {
            return Err(SemanticError::UnexpectedReturnExpression);
        }
        self.state.encountered_return();
        Ok(())
    }

    /// Resolves the arguments of a print statement.
    pub fn visit_print(&mut self, print_statement: &Print) -> (r: Result<(), SemanticError>)
        ensures
            reports(resolve_print(old(self).model(), *print_statement), r, final(self).model()),
            final(self).model().scopes == old(self).model().scopes,
    {
        let ghost m0 = self.model();
        let arguments = &print_statement.arguments;
        let mut i: usize = 0;
        proof {
            assert(arguments@.take(0) =~= Seq::<Expression>::empty());
        }
        while i < arguments.len()
            invariant
                i <= arguments@.len(),
                m0 == old(self).model(),
                arguments@ == print_statement.arguments@,
                resolve_expressions(m0, arguments@.take(i as int)) == Outcome::Done(self.model()),
                self.model().scopes == m0.scopes,
            decreases arguments@.len() - i,
        {
            proof {
                let next = arguments@.take(i + 1);
                assert(next.drop_last() =~= arguments@.take(i as int));
                assert(next.last() == arguments@[i as int]);
            }
            let ghost before = self.model();
            match self.visit_expression(&arguments[i].kind) {
                Ok(()) => {},
                Err(e) => {
                    proof {
                        assert(resolve_expressions(m0, arguments@.take(i + 1)) == resolve_expr(
                            before,
                            arguments@[i as int].kind,
                        ));
                        lemma_expressions_stop(m0, arguments@, i + 1);
                    }
                    return Err(e);
                },
            }
            i = i + 1;
        }
        proof {
            assert(arguments@.take(i as int) =~= arguments@);
        }
        Ok(())
    }

    /// Resolves a statement.
    pub fn visit_statement(&mut self, statement: &Statement) -> (r: Result<(), SemanticError>)
        requires
            old(self).model().scopes.len() > 0,
            !(resolve_stmt(old(self).model(), *statement) is Halted),
        ensures
            reports(resolve_stmt(old(self).model(), *statement), r, final(self).model()),
            r is Ok ==> final(self).model().scopes.len() == old(self).model().scopes.len(),
            final(self).model().scopes.len() >= old(self).model().scopes.len(),
        decreases statement, 0int,
    {
        match statement {
            Statement::VariableDeclaration(declaration, node_id) => self.visit_var_declaration(
                declaration,
                *node_id,
            ),
            Statement::Assignment(assignment, node_id) => self.visit_assignment(assignment, *node_id),
            Statement::If(if_statement, _) => self.visit_if(if_statement),
            Statement::Loop(loop_statement, _) => self.visit_loop(loop_statement),
            Statement::Block(block, _) => self.visit_block(block),
            Statement::FunctionDefinition(definition, node_id) => self.visit_function_definition(
                definition,
                *node_id,
            ),
            Statement::FunctionCall(call, _) => self.visit_function_call(call),
            Statement::Break(_, _) => self.visit_break(),
            Statement::Return(return_statement, _) => self.visit_return(return_statement),
            Statement::Print(print_statement, _) => self.visit_print(print_statement),
        }
    }

    /// Resolves statements in order; a statement after a `break` or `return` is
    /// unreachable code.
    pub fn visit_statements(&mut self, statements: &[Statement]) -> (r: Result<(), SemanticError>)
        requires
            old(self).model().scopes.len() > 0,
            !(resolve_stmts(old(self).model(), statements@) is Halted),
        ensures
            reports(resolve_stmts(old(self).model(), statements@), r, final(self).model()),
            r is Ok ==> final(self).model().scopes.len() == old(self).model().scopes.len(),
            final(self).model().scopes.len() >= old(self).model().scopes.len(),
        decreases statements@, 0int,
    {
        let ghost m0 = self.model();
        let mut i: usize = 0;
        proof {
            assert(statements@.take(0) =~= Seq::<Statement>::empty());
        }
        while i < statements.len()
            invariant
                i <= statements@.len(),
                m0 == old(self).model(),
                m0.scopes.len() > 0,
                !(resolve_stmts(m0, statements@) is Halted),
                resolve_stmts(m0, statements@.take(i as int)) == Outcome::Done(self.model()),
                self.model().scopes.len() == m0.scopes.len(),
            decreases statements@.len() - i,
        {
            proof {
                let next = statements@.take(i + 1);
                assert(next.drop_last() =~= statements@.take(i as int));
                assert(next.last() == statements@[i as int]);
            }
            if self.state.is_unreachable() {
                proof {
                    lemma_stmts_stop(m0, statements@, i + 1);
                }
                return Err(SemanticError::UnreachableCode);
            }
            proof {
                if !(resolve_stmts(m0, statements@.take(i + 1)) is Done) {
                    lemma_stmts_stop(m0, statements@, i + 1);
                }
            }
            let ghost before = self.model();
            match self.visit_statement(&statements[i]) {
                Ok(()) => {},
                Err(e) => {
                    proof {
                        assert(resolve_stmts(m0, statements@.take(i + 1)) == resolve_stmt(
                            before,
                            statements@[i as int],
                        ));
                        lemma_stmts_stop(m0, statements@, i + 1);
                    }
                    return Err(e);
                },
            }
            i = i + 1;
        }
        proof {
            assert(statements@.take(i as int) =~= statements@);
        }
        Ok(())
    }

    /// Checks the calls deferred during the walk, in the order they were met, and
    /// records the symbol of each callee.
    pub fn resolve_pending_calls(&mut self) -> (r: Result<(), SemanticError>)
        ensures
            reports(
                resolve_pending(old(self).model(), old(self).model().state.pending_calls),
                r,
                final(self).model(),
            ),
            final(self).model().scopes == old(self).model().scopes,
    {
        let ghost m0 = self.model();
        let ghost calls = m0.state.pending_calls;
        let count = self.state.pending_calls().len();
        let mut i: usize = 0;
        proof {
            assert(calls.take(0) =~= Seq::<SpecPendingCall>::empty());
        }
        while i < count
            invariant
                i <= count,
                m0 == old(self).model(),
                calls == m0.state.pending_calls,
                count == calls.len(),
                self.model().state == m0.state,
                self.model().scopes == m0.scopes,
                resolve_pending(m0, calls.take(i as int)) == Outcome::Done(self.model()),
            decreases count - i,
        {
            proof {
                let next = calls.take(i + 1);
                assert(next.drop_last() =~= calls.take(i as int));
                assert(next.last() == calls[i as int]);
            }
            let pending = self.state.pending_calls();
            let name = pending[i].name.clone();
            let argument_count = pending[i].argument_count;
            let callee_node_id = pending[i].callee_node_id;
            proof {
                assert(pending@[i as int]@ == calls[i as int]);
            }
            let symbol_id = match self.scopes.get(name.as_str()) {
                None => {
                    proof {
                        lemma_pending_stop(m0, calls, i + 1);
                    }
                    return Err(SemanticError::UndefinedVariable(name));
                },
                Some(symbol_id) => symbol_id,
            };
            match self.validate_function_call(name.as_str(), argument_count) {
                Ok(()) => {},
                Err(e) => {
                    proof {
                        lemma_pending_stop(m0, calls, i + 1);
                    }
                    return Err(e);
                },
            }
            self.resolution_table.resolve(callee_node_id, symbol_id);
            i = i + 1;
        }
        proof {
            assert(calls.take(i as int) =~= calls);
        }
        Ok(())
    }
}

impl StatementVisitor for SymbolResolutionVisitor {
    open spec fn var_declaration_ready(&self, variable_declaration: VariableDeclaration, node_id: NodeId) -> bool {
        &&& self.model().scopes.len() > 0
        &&& !(resolve_var_declaration(self.model(), variable_declaration, node_id) is Halted)
    }

    open spec fn var_declaration_visited(
        &self,
        variable_declaration: VariableDeclaration,
        node_id: NodeId,
        after: Self,
        result: Result<(), SemanticError>,
    ) -> bool {
        &&& reports(resolve_var_declaration(self.model(), variable_declaration, node_id), result, after.model())
        &&& result is Err ==> after.model().scopes == self.model().scopes
    }

    open spec fn assignment_ready(&self, assignment: Assignment, node_id: NodeId) -> bool {
        true
    }

    open spec fn assignment_visited(
        &self,
        assignment: Assignment,
        node_id: NodeId,
        after: Self,
        result: Result<(), SemanticError>,
    ) -> bool {
        reports(resolve_assignment(self.model(), assignment, node_id), result, after.model())
    }

    open spec fn if_ready(&self, if_statement: If) -> bool {
        &&& self.model().scopes.len() > 0
        &&& !(resolve_if(self.model(), if_statement) is Halted)
    }

    open spec fn if_visited(&self, if_statement: If, after: Self, result: Result<(), SemanticError>) -> bool {
        reports(resolve_if(self.model(), if_statement), result, after.model())
    }

    open spec fn loop_ready(&self, loop_statement: Loop) -> bool {
        &&& self.model().scopes.len() > 0
        &&& !(resolve_loop(self.model(), loop_statement) is Halted)
    }

    open spec fn loop_visited(&self, loop_statement: Loop, after: Self, result: Result<(), SemanticError>) -> bool {
        reports(resolve_loop(self.model(), loop_statement), result, after.model())
    }

    open spec fn block_ready(&self, block: Block) -> bool {
        &&& self.model().scopes.len() > 0
        &&& !(resolve_block(self.model(), block.statements@) is Halted)
    }

    open spec fn block_visited(&self, block: Block, after: Self, result: Result<(), SemanticError>) -> bool {
        reports(resolve_block(self.model(), block.statements@), result, after.model())
    }

    open spec fn function_definition_ready(&self, definition: FunctionDefinition, node_id: NodeId) -> bool {
        &&& self.model().scopes.len() > 0
        &&& !(resolve_function_definition(self.model(), definition, node_id) is Halted)
    }

    open spec fn function_definition_visited(
        &self,
        definition: FunctionDefinition,
        node_id: NodeId,
        after: Self,
        result: Result<(), SemanticError>,
    ) -> bool {
        reports(resolve_function_definition(self.model(), definition, node_id), result, after.model())
    }

    open spec fn function_call_ready(&self, call: Expression) -> bool {
        !(resolve_call_statement(self.model(), call) is Halted)
    }

    open spec fn function_call_visited(&self, call: Expression, after: Self, result: Result<(), SemanticError>) -> bool {
        reports(resolve_call_statement(self.model(), call), result, after.model())
    }

    open spec fn break_ready(&self) -> bool {
        true
    }

    open spec fn break_visited(&self, after: Self, result: Result<(), SemanticError>) -> bool {
        reports(resolve_break(self.model()), result, after.model())
    }

    open spec fn return_ready(&self, return_statement: Return) -> bool {
        true
    }

    open spec fn return_visited(&self, return_statement: Return, after: Self, result: Result<(), SemanticError>) -> bool {
        reports(resolve_return(self.model(), return_statement), result, after.model())
    }

    open spec fn print_ready(&self, print_statement: Print) -> bool {
        true
    }

    open spec fn print_visited(&self, print_statement: Print, after: Self, result: Result<(), SemanticError>) -> bool {
        reports(resolve_print(self.model(), print_statement), result, after.model())
    }

    fn visit_var_declaration(&mut self, variable_declaration: &VariableDeclaration, node_id: NodeId) -> (r:
        Result<(), SemanticError>)
    {
        SymbolResolutionVisitor::visit_var_declaration(self, variable_declaration, node_id)
    }

    fn visit_assignment(&mut self, assignment: &Assignment, node_id: NodeId) -> (r: Result<(), SemanticError>) {
        SymbolResolutionVisitor::visit_assignment(self, assignment, node_id)
    }

    fn visit_if(&mut self, if_statement: &If) -> (r: Result<(), SemanticError>) {
        SymbolResolutionVisitor::visit_if(self, if_statement)
    }

    fn visit_loop(&mut self, loop_statement: &Loop) -> (r: Result<(), SemanticError>) {
        SymbolResolutionVisitor::visit_loop(self, loop_statement)
    }

    fn visit_block(&mut self, block: &Block) -> (r: Result<(), SemanticError>) {
        SymbolResolutionVisitor::visit_block(self, block)
    }

    fn visit_function_definition(&mut self, definition: &FunctionDefinition, node_id: NodeId) -> (r:
        Result<(), SemanticError>)
    {
        SymbolResolutionVisitor::visit_function_definition(self, definition, node_id)
    }

    fn visit_function_call(&mut self, call: &Expression) -> (r: Result<(), SemanticError>) {
        SymbolResolutionVisitor::visit_function_call(self, call)
    }

    fn visit_break(&mut self) -> (r: Result<(), SemanticError>) {
        SymbolResolutionVisitor::visit_break(self)
    }

    fn visit_return(&mut self, return_statement: &Return) -> (r: Result<(), SemanticError>) {
        SymbolResolutionVisitor::visit_return(self, return_statement)
    }

    fn visit_print(&mut self, print_statement: &Print) -> (r: Result<(), SemanticError>) {
        SymbolResolutionVisitor::visit_print(self, print_statement)
    }
}

impl ExpressionVisitor for SymbolResolutionVisitor {
    open spec fn identifier_ready(&self, name: Seq<char>, node_id: NodeId) -> bool {
        true
    }

    open spec fn identifier_visited(
        &self,
        name: Seq<char>,
        node_id: NodeId,
        after: Self,
        result: Result<(), SemanticError>,
    ) -> bool {
        reports(resolve_identifier(self.model(), name, node_id), result, after.model())
    }

    open spec fn function_call_ready(&self, callee: ExpressionKind, arguments: Seq<ExpressionKind>) -> bool {
        true
    }

    open spec fn function_call_visited(
        &self,
        callee: ExpressionKind,
        arguments: Seq<ExpressionKind>,
        after: Self,
        result: Result<(), SemanticError>,
    ) -> bool {
        reports(resolve_call(self.model(), callee, arguments), result, after.model())
    }

    open spec fn unary_ready(&self, operator: UnaryOperator, operand: ExpressionKind) -> bool {
        true
    }

    open spec fn unary_visited(
        &self,
        operator: UnaryOperator,
        operand: ExpressionKind,
        after: Self,
        result: Result<(), SemanticError>,
    ) -> bool {
        reports(resolve_expr(self.model(), ExpressionKind::Unary(Box::new(operand), operator)), result, after.model())
    }

    open spec fn binary_ready(&self, left: ExpressionKind, operator: BinaryOperator, right: ExpressionKind) -> bool {
        true
    }

    open spec fn binary_visited(
        &self,
        left: ExpressionKind,
        operator: BinaryOperator,
        right: ExpressionKind,
        after: Self,
        result: Result<(), SemanticError>,
    ) -> bool {
        reports(
            resolve_expr(self.model(), ExpressionKind::Binary(Box::new(left), operator, Box::new(right))),
            result,
            after.model(),
        )
    }

    open spec fn grouped_ready(&self, inner: ExpressionKind) -> bool {
        true
    }

    open spec fn grouped_visited(&self, inner: ExpressionKind, after: Self, result: Result<(), SemanticError>) -> bool {
        reports(resolve_expr(self.model(), ExpressionKind::Grouped(Box::new(inner))), result, after.model())
    }

    fn visit_identifier(&mut self, name: &str, node_id: NodeId) -> (r: Result<(), SemanticError>) {
        SymbolResolutionVisitor::visit_identifier(self, name, node_id)
    }

    fn visit_function_call(&mut self, callee: &ExpressionKind, arguments: &[ExpressionKind]) -> (r: Result<
        (),
        SemanticError,
    >) {
        self.visit_call_expression(callee, arguments)
    }

    fn visit_unary(&mut self, operator: UnaryOperator, operand: &ExpressionKind) -> (r: Result<(), SemanticError>) {
        self.visit_expression(operand)
    }

    fn visit_binary(&mut self, left: &ExpressionKind, operator: BinaryOperator, right: &ExpressionKind) -> (r:
        Result<(), SemanticError>)
    {
        match self.visit_expression(left) {
            Ok(()) => {},
            Err(e) => return Err(e),
        }
        self.visit_expression(right)
    }

    fn visit_grouped(&mut self, inner: &ExpressionKind) -> (r: Result<(), SemanticError>) {
        self.visit_expression(inner)
    }
}

} // verus!
