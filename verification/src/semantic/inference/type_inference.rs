//! Constraint generation (the second pass of semantic analysis): the walk that
//! [`crate::semantic::inference::generation`] describes.

use vstd::prelude::*;
use std::collections::HashMap;
use crate::ast::expr::{BinaryOperator, Expression, ExpressionKind, UnaryOperator};
use crate::ast::statement::{
    opt_text, Assignment, Block, FunctionDefinition, If, Loop, NodeId, Print, Return, Statement,
    VariableDeclaration,
};
use crate::semantic::error::SemanticError;
use crate::semantic::inference::constraints::{Constraint, Constraints};
use crate::semantic::inference::generation::{
    annotation_type, constrain, infer_arguments, infer_assignment, infer_call, infer_call_statement,
    infer_expr, infer_expressions, infer_function_definition, infer_if, infer_parameters,
    infer_return, infer_stmt, infer_stmts, infer_var_declaration, initial_inference,
    lemma_infer_arguments_stop, lemma_infer_expressions_stop, lemma_infer_parameters_stop,
    lemma_infer_stmts_stop, node_type, return_annotation, typed, walked, Context, Inference,
};
use crate::semantic::inference::type_table::TypeTable;
use crate::semantic::inference::{BinaryOperatorSignature, Type, TypeIds, UnaryOperatorSignature};
use crate::semantic::resolution_table::ResolutionTable;
use crate::semantic::state::{functions_view, FunctionMetadata};
use crate::semantic::visitor::{ExpressionVisitor, StatementVisitor};
use crate::semantic::{Outcome, SymbolId};

verus! {

broadcast use {vstd::std_specs::hash::group_hash_axioms, vstd::string::group_string_axioms};

/// The walk that gives every expression of a resolved program a type and collects the
/// constraints between types.
pub struct TypeInferenceVisitor<'symbols> {
    constraints: Constraints,
    types: TypeTable,
    symbols: &'symbols ResolutionTable,
    functions: &'symbols HashMap<usize, FunctionMetadata>,
    current_function_return_type: Option<Type>,
    type_ids: TypeIds,
}

impl<'symbols> TypeInferenceVisitor<'symbols> {
    /// What symbol resolution handed on.
    pub closed spec fn context(&self) -> Context {
        Context { table: self.symbols.entries(), functions: functions_view(*self.functions) }
    }

    /// Everything the walk keeps, as a value.
    pub closed spec fn model(&self) -> Inference {
        Inference {
            constraints: self.constraints.entries@,
            types: self.types.types(),
            return_type: self.current_function_return_type,
            last_type: self.type_ids.last(),
        }
    }

    /// A walk over a program resolved into `symbols`, with the functions `functions`.
    pub fn new(
        symbols: &'symbols ResolutionTable,
        functions: &'symbols HashMap<usize, FunctionMetadata>,
    ) -> (r: Self)
        ensures
            r.context() == (Context {
                table: symbols.entries(),
                functions: functions_view(*functions),
            }),
            r.model() == initial_inference(),
    {
        Self {
            constraints: Constraints::new(),
            types: TypeTable::new(),
            symbols,
            functions,
            current_function_return_type: None,
            type_ids: TypeIds::new(),
        }
    }

    /// The constraints collected, in the order they were made.
    pub fn into_constraints(self) -> (r: Constraints)
        ensures
            r.entries@ == self.model().constraints,
    {
        self.constraints
    }

    /// The symbol a node resolved to, which must be recorded.
    fn symbol_id(&self, node_id: &NodeId) -> (r: SymbolId)
        requires
            self.context().table.contains_key(node_id.0),
        ensures
            r == self.context().table[node_id.0],
    {
        match self.symbols.get(node_id) {
            Some(symbol_id) => symbol_id,
            None => SymbolId(0),
        }
    }

    /// The type an optional annotation gives: the type it names, or a fresh placeholder.
    fn annotation_type(&mut self, annotation: &Option<String>) -> (r: Result<Type, SemanticError>)
        requires
            !(annotation_type(old(self).model(), opt_text(*annotation)) is Halted),
        ensures
            typed(annotation_type(old(self).model(), opt_text(*annotation)), r, final(self).model()),
            final(self).context() == old(self).context(),
    {
        match annotation {
            None => Ok(self.type_ids.next_type()),
            Some(name) => Type::try_from(name.as_str()),
        }
    }

    /// Infers the type of an expression, collecting the constraints it imposes.
    pub fn infer(&mut self, expr: &ExpressionKind) -> (r: Result<Type, SemanticError>)
        requires
            !(infer_expr(old(self).context(), old(self).model(), *expr) is Halted),
        ensures
            typed(infer_expr(old(self).context(), old(self).model(), *expr), r, final(self).model()),
            final(self).context() == old(self).context(),
        decreases expr, 0int,
    {
        match expr {
            ExpressionKind::I32(_) => Ok(Type::Int32),
            ExpressionKind::String(_) => Ok(Type::String),
            ExpressionKind::Boolean(_) => Ok(Type::Bool),
            ExpressionKind::Identifier(_, node_id) => {
                let symbol_id = self.symbol_id(node_id);
                Ok(self.types.get_or_panic(symbol_id.0))
            },
            ExpressionKind::FunctionCall(callee, arguments, _) => self.visit_function_call(
                callee,
                arguments.as_slice(),
            ),
            ExpressionKind::Unary(operand, operator) => {
                let operand_type = match self.infer(operand) {
                    Ok(t) => t,
                    Err(e) => return Err(e),
                };
                let signature = UnaryOperatorSignature::of(operator);
                self.constraints.add(Constraint::new(operand_type, signature.operand));
                Ok(signature.result)
            },
            ExpressionKind::Binary(left, operator, right) => {
                let left_type = match self.infer(left) {
                    Ok(t) => t,
                    Err(e) => return Err(e),
                };
                let right_type = match self.infer(right) {
                    Ok(t) => t,
                    Err(e) => return Err(e),
                };
                let signature = BinaryOperatorSignature::of(operator);
                self.constraints.add(Constraint::new(left_type, signature.left));
                self.constraints.add(Constraint::new(right_type, signature.right));
                Ok(signature.result)
            },
            ExpressionKind::Grouped(inner) => self.infer(inner),
        }
    }

    /// Infers a call: each argument's type must equal its parameter's type; the call
    /// has the function's return type, or a fresh placeholder if it has none.
    pub fn visit_function_call(&mut self, callee: &ExpressionKind, arguments: &[ExpressionKind]) -> (r:
        Result<Type, SemanticError>)
        requires
            !(infer_call(old(self).context(), old(self).model(), *callee, arguments@) is Halted),
        ensures
            typed(
                infer_call(old(self).context(), old(self).model(), *callee, arguments@),
                r,
                final(self).model(),
            ),
            final(self).context() == old(self).context(),
        decreases arguments@, 1int,
    {
        let (name, callee_node_id) = match callee {
            ExpressionKind::Identifier(name, callee_node_id) => (name, callee_node_id),
            _ => return Err(SemanticError::NotAFunction(String::new())),
        };
        let callee_symbol_id = self.symbol_id(callee_node_id);
        let functions: &'symbols HashMap<usize, FunctionMetadata> = self.functions;
        let metadata = match functions.get(&callee_symbol_id.0) {
            None => return Err(SemanticError::NotAFunction(name.clone())),
            Some(metadata) => metadata,
        };
        match self.infer_arguments(metadata, arguments) {
            Ok(()) => {},
            Err(e) => return Err(e),
        }
        self.annotation_type(&metadata.return_type)
    }

    /// Infers the arguments of a call in order against the parameters of `metadata`.
    fn infer_arguments(&mut self, metadata: &FunctionMetadata, arguments: &[ExpressionKind]) -> (r:
        Result<(), SemanticError>)
        requires
            !(infer_arguments(
                old(self).context(),
                old(self).model(),
                metadata@.parameter_symbols,
                arguments@,
            ) is Halted),
        ensures
            walked(
                infer_arguments(
                    old(self).context(),
                    old(self).model(),
                    metadata@.parameter_symbols,
                    arguments@,
                ),
                r,
                final(self).model(),
            ),
            final(self).context() == old(self).context(),
        decreases arguments@, 0int,
    {
        let ghost ctx = self.context();
        let ghost i0 = self.model();
        let ghost parameters = metadata@.parameter_symbols;
        let mut index: usize = 0;
        proof {
            assert(arguments@.take(0) =~= Seq::<ExpressionKind>::empty());
        }
        while index < arguments.len()
            invariant
                index <= arguments@.len(),
                ctx == old(self).context(),
                i0 == old(self).model(),
                self.context() == ctx,
                parameters == metadata@.parameter_symbols,
                !(infer_arguments(ctx, i0, parameters, arguments@) is Halted),
                infer_arguments(ctx, i0, parameters, arguments@.take(index as int)) == Outcome::Done(
                    self.model(),
                ),
            decreases arguments@.len() - index,
        {
            proof {
                let next = arguments@.take(index + 1);
                assert(next.drop_last() =~= arguments@.take(index as int));
                assert(next.last() == arguments@[index as int]);
                if !(infer_arguments(ctx, i0, parameters, next) is Done) {
                    lemma_infer_arguments_stop(ctx, i0, parameters, arguments@, index + 1);
                }
            }
            let ghost before = self.model();
            let inferred_argument_type = match self.infer(&arguments[index]) {
                Ok(t) => t,
                Err(e) => {
                    proof {
                        lemma_infer_arguments_stop(ctx, i0, parameters, arguments@, index + 1);
                    }
                    return Err(e);
                },
            };
            let parameter_symbol_id = metadata.parameter_symbols[index];
            let expected_type = self.types.get_or_panic(parameter_symbol_id.0);
            self.constraints.add(Constraint::new(inferred_argument_type, expected_type));
            index = index + 1;
        }
        proof {
            assert(arguments@.take(index as int) =~= arguments@);
        }
        Ok(())
    }

    /// Infers a variable declaration.
    pub fn visit_var_declaration(&mut self, variable_declaration: &VariableDeclaration, node_id: NodeId) -> (r:
        Result<(), SemanticError>)
        requires
            !(infer_var_declaration(
                old(self).context(),
                old(self).model(),
                *variable_declaration,
                node_id,
            ) is Halted),
        ensures
            walked(
                infer_var_declaration(
                    old(self).context(),
                    old(self).model(),
                    *variable_declaration,
                    node_id,
                ),
                r,
                final(self).model(),
            ),
            final(self).context() == old(self).context(),
    {
        let symbol_id = self.symbol_id(&node_id);
        let data_type = match self.annotation_type(&variable_declaration.data_type) {
            Ok(t) => t,
            Err(e) => return Err(e),
        };
        match &variable_declaration.expression {
            Some(expression) => {
                let initialized_data_type = match self.infer(&expression.kind) {
                    Ok(t) => t,
                    Err(e) => return Err(e),
                };
                self.constraints.add(Constraint::new(initialized_data_type, data_type));
            },
            None => {},
        }
        self.types.add(symbol_id.0, data_type);
        Ok(())
    }

    /// Infers an assignment.
    pub fn visit_assignment(&mut self, assignment: &Assignment, node_id: NodeId) -> (r: Result<
        (),
        SemanticError,
    >)
        requires
            !(infer_assignment(old(self).context(), old(self).model(), *assignment, node_id) is Halted),
        ensures
            walked(
                infer_assignment(old(self).context(), old(self).model(), *assignment, node_id),
                r,
                final(self).model(),
            ),
            final(self).context() == old(self).context(),
    {
        let symbol_id = self.symbol_id(&node_id);
        let variable_data_type = self.types.get_or_panic(symbol_id.0);
        let inferred_data_type = match self.infer(&assignment.expression.kind) {
            Ok(t) => t,
            Err(e) => return Err(e),
        };
        self.constraints.add(Constraint::new(variable_data_type, inferred_data_type));
        Ok(())
    }

    /// Infers a conditional.
    pub fn visit_if(&mut self, if_statement: &If) -> (r: Result<(), SemanticError>)
        requires
            !(infer_if(old(self).context(), old(self).model(), *if_statement) is Halted),
        ensures
            walked(infer_if(old(self).context(), old(self).model(), *if_statement), r, final(self).model()),
            final(self).context() == old(self).context(),
        decreases if_statement, 0int,
    {
        let condition_data_type = match self.infer(&if_statement.condition.kind) {
            Ok(t) => t,
            Err(e) => return Err(e),
        };
        self.constraints.add(Constraint::new(condition_data_type, Type::Bool));
        match self.visit_statements(if_statement.body.statements.as_slice()) {
            Ok(()) => {},
            Err(e) => return Err(e),
        }
        match &if_statement.else_body {
            Some(else_body) => self.visit_statements(else_body.statements.as_slice()),
            None => Ok(()),
        }
    }

    /// Infers the statements of a loop's body.
    pub fn visit_loop(&mut self, loop_statement: &Loop) -> (r: Result<(), SemanticError>)
        requires
            !(infer_stmts(old(self).context(), old(self).model(), loop_statement.body.statements@)
                is Halted),
        ensures
            walked(
                infer_stmts(old(self).context(), old(self).model(), loop_statement.body.statements@),
                r,
                final(self).model(),
            ),
            final(self).context() == old(self).context(),
        decreases loop_statement, 0int,
    {
        self.visit_statements(loop_statement.body.statements.as_slice())
    }

    /// Infers the statements of a block.
    pub fn visit_block(&mut self, block: &Block) -> (r: Result<(), SemanticError>)
        requires
            !(infer_stmts(old(self).context(), old(self).model(), block.statements@) is Halted),
        ensures
            walked(
                infer_stmts(old(self).context(), old(self).model(), block.statements@),
                r,
                final(self).model(),
            ),
            final(self).context() == old(self).context(),
        decreases block, 0int,
    {
        self.visit_statements(block.statements.as_slice())
    }

    /// Gives each parameter of `metadata` its annotated type, or a fresh placeholder.
    fn visit_parameters(&mut self, metadata: &FunctionMetadata) -> (r: Result<(), SemanticError>)
        requires
            !(infer_parameters(
                old(self).model(),
                metadata@.parameter_types,
                metadata@.parameter_symbols,
            ) is Halted),
        ensures
            walked(
                infer_parameters(
                    old(self).model(),
                    metadata@.parameter_types,
                    metadata@.parameter_symbols,
                ),
                r,
                final(self).model(),
            ),
            final(self).context() == old(self).context(),
    {
        let ghost i0 = self.model();
        let ghost annotations = metadata@.parameter_types;
        let ghost symbols = metadata@.parameter_symbols;
        let mut index: usize = 0;
        proof {
            assert(symbols.take(0) =~= Seq::<SymbolId>::empty());
        }
        while index < metadata.parameter_symbols.len()
            invariant
                index <= symbols.len(),
                i0 == old(self).model(),
                self.context() == old(self).context(),
                annotations == metadata@.parameter_types,
                symbols == metadata@.parameter_symbols,
                !(infer_parameters(i0, annotations, symbols) is Halted),
                infer_parameters(i0, annotations, symbols.take(index as int)) == Outcome::Done(
                    self.model(),
                ),
            decreases symbols.len() - index,
        {
            proof {
                let next = symbols.take(index + 1);
                assert(next.drop_last() =~= symbols.take(index as int));
                assert(next.last() == symbols[index as int]);
                if !(infer_parameters(i0, annotations, next) is Done) {
                    lemma_infer_parameters_stop(i0, annotations, symbols, index + 1);
                }
                assert(metadata.parameter_types@.len() == annotations.len());
            }
            let parameter_symbol_id = metadata.parameter_symbols[index];
            proof {
                assert(annotations[index as int] == opt_text(metadata.parameter_types@[index as int]));
            }
            let parameter_type = match self.annotation_type(&metadata.parameter_types[index]) {
                Ok(t) => t,
                Err(e) => {
                    proof {
                        lemma_infer_parameters_stop(i0, annotations, symbols, index + 1);
                    }
                    return Err(e);
                },
            };
            self.types.add(parameter_symbol_id.0, parameter_type);
            index = index + 1;
        }
        proof {
            assert(symbols.take(index as int) =~= symbols);
        }
        Ok(())
    }

    /// Infers a function definition.
    pub fn visit_function_definition(&mut self, definition: &FunctionDefinition, node_id: NodeId) -> (r:
        Result<(), SemanticError>)
        requires
            !(infer_function_definition(old(self).context(), old(self).model(), *definition, node_id)
                is Halted),
        ensures
            walked(
                infer_function_definition(old(self).context(), old(self).model(), *definition, node_id),
                r,
                final(self).model(),
            ),
            final(self).context() == old(self).context(),
        decreases definition, 0int,
    {
        let function_symbol_id = self.symbol_id(&node_id);
        let functions: &'symbols HashMap<usize, FunctionMetadata> = self.functions;
        let metadata = match functions.get(&function_symbol_id.0) {
            Some(metadata) => metadata,
            None => return Ok(()),
        };
        let expected_return_type = match &metadata.return_type {
            Some(annotation_text) => match Type::try_from(annotation_text.as_str()) {
                Ok(t) => Some(t),
                Err(e) => return Err(e),
            },
            None => None,
        };
        self.current_function_return_type = expected_return_type;
        match self.visit_parameters(metadata) {
            Ok(()) => {},
            Err(e) => return Err(e),
        }
        match self.visit_statements(definition.body.statements.as_slice()) {
            Ok(()) => {},
            Err(e) => return Err(e),
        }
        self.current_function_return_type = None;
        Ok(())
    }

    /// Infers a call standing as a statement.
    pub fn visit_call_statement(&mut self, call: &Expression) -> (r: Result<(), SemanticError>)
        requires
            !(infer_call_statement(old(self).context(), old(self).model(), *call) is Halted),
        ensures
            walked(
                infer_call_statement(old(self).context(), old(self).model(), *call),
                r,
                final(self).model(),
            ),
            final(self).context() == old(self).context(),
    {
        match self.infer(&call.kind) {
            Ok(_) => Ok(()),
            Err(e) => Err(e),
        }
    }

    /// Infers a `return`.
    pub fn visit_return(&mut self, return_statement: &Return) -> (r: Result<(), SemanticError>)
        requires
            !(infer_return(old(self).context(), old(self).model(), *return_statement) is Halted),
        ensures
            walked(
                infer_return(old(self).context(), old(self).model(), *return_statement),
                r,
                final(self).model(),
            ),
            final(self).context() == old(self).context(),
    {
        match &return_statement.expression {
            Some(expression) => {
                let returned_type = match self.infer(&expression.kind) {
                    Ok(t) => t,
                    Err(e) => return Err(e),
                };
                let expected_type = match self.current_function_return_type {
                    Some(t) => t,
                    None => Type::Int32,
                };
                self.constraints.add(Constraint::new(returned_type, expected_type));
                Ok(())
            },
            None => Ok(()),
        }
    }

    /// Infers the arguments of a print statement.
    pub fn visit_print(&mut self, print_statement: &Print) -> (r: Result<(), SemanticError>)
        requires
            !(infer_expressions(old(self).context(), old(self).model(), print_statement.arguments@)
                is Halted),
        ensures
            walked(
                infer_expressions(old(self).context(), old(self).model(), print_statement.arguments@),
                r,
                final(self).model(),
            ),
            final(self).context() == old(self).context(),
    {
        let ghost ctx = self.context();
        let ghost i0 = self.model();
        let arguments = &print_statement.arguments;
        let mut index: usize = 0;
        proof {
            assert(arguments@.take(0) =~= Seq::<Expression>::empty());
        }
        while index < arguments.len()
            invariant
                index <= arguments@.len(),
                ctx == old(self).context(),
                i0 == old(self).model(),
                self.context() == ctx,
                arguments@ == print_statement.arguments@,
                !(infer_expressions(ctx, i0, arguments@) is Halted),
                infer_expressions(ctx, i0, arguments@.take(index as int)) == Outcome::Done(self.model()),
            decreases arguments@.len() - index,
        {
            proof {
                let next = arguments@.take(index + 1);
                assert(next.drop_last() =~= arguments@.take(index as int));
                assert(next.last() == arguments@[index as int]);
                if !(infer_expressions(ctx, i0, next) is Done) {
                    lemma_infer_expressions_stop(ctx, i0, arguments@, index + 1);
                }
            }
            match self.infer(&arguments[index].kind) {
                Ok(_) => {},
                Err(e) => {
                    proof {
                        lemma_infer_expressions_stop(ctx, i0, arguments@, index + 1);
                    }
                    return Err(e);
                },
            }
            index = index + 1;
        }
        proof {
            assert(arguments@.take(index as int) =~= arguments@);
        }
        Ok(())
    }

    /// Infers a statement, collecting the constraints it imposes.
    pub fn visit(&mut self, statement: &Statement) -> (r: Result<(), SemanticError>)
        requires
            !(infer_stmt(old(self).context(), old(self).model(), *statement) is Halted),
        ensures
            walked(infer_stmt(old(self).context(), old(self).model(), *statement), r, final(self).model()),
            final(self).context() == old(self).context(),
        decreases statement, 0int,
    {
        match statement {
            Statement::VariableDeclaration(declaration, node_id) => self.visit_var_declaration(
                declaration,
                *node_id,
            ),
            Statement::Assignment(assignment, node_id) => self.visit_assignment(assignment, *node_id),
            Statement::If(if_statement, _) => self.visit_if(if_statement),
            Statement::Loop(loop_statement, _) => self.visit_loop(loop_statement),
            Statement::Block(block, _) => self.visit_block(block),
            Statement::FunctionDefinition(definition, node_id) => self.visit_function_definition(
                definition,
                *node_id,
            ),
            Statement::FunctionCall(call, _) => self.visit_call_statement(call),
            Statement::Break(_, _) => Ok(()),
            Statement::Return(return_statement, _) => self.visit_return(return_statement),
            Statement::Print(print_statement, _) => self.visit_print(print_statement),
        }
    }

    /// Infers statements in order; the first error stops it.
    pub fn visit_statements(&mut self, statements: &[Statement]) -> (r: Result<(), SemanticError>)
        requires
            !(infer_stmts(old(self).context(), old(self).model(), statements@) is Halted),
        ensures
            walked(infer_stmts(old(self).context(), old(self).model(), statements@), r, final(self).model()),
            final(self).context() == old(self).context(),
        decreases statements@, 0int,
    {
        let ghost ctx = self.context();
        let ghost i0 = self.model();
        let mut index: usize = 0;
        proof {
            assert(statements@.take(0) =~= Seq::<Statement>::empty());
        }
        while index < statements.len()
            invariant
                index <= statements@.len(),
                ctx == old(self).context(),
                i0 == old(self).model(),
                self.context() == ctx,
                !(infer_stmts(ctx, i0, statements@) is Halted),
                infer_stmts(ctx, i0, statements@.take(index as int)) == Outcome::Done(self.model()),
            decreases statements@.len() - index,
        {
            proof {
                let next = statements@.take(index + 1);
                assert(next.drop_last() =~= statements@.take(index as int));
                assert(next.last() == statements@[index as int]);
                if !(infer_stmts(ctx, i0, next) is Done) {
                    lemma_infer_stmts_stop(ctx, i0, statements@, index + 1);
                }
            }
            match self.visit(&statements[index]) {
                Ok(()) => {},
                Err(e) => {
                    proof {
                        lemma_infer_stmts_stop(ctx, i0, statements@, index + 1);
                    }
                    return Err(e);
                },
            }
            index = index + 1;
        }
        proof {
            assert(statements@.take(index as int) =~= statements@);
        }
        Ok(())
    }
}

/// Whether the inference of a type reported what its outcome says, the type left aside.
pub open spec fn inferred(o: Outcome<(Inference, Type)>, r: Result<(), SemanticError>, after: Inference) -> bool {
    match o {
        Outcome::Done((i, _)) => r is Ok && after == i,
        Outcome::Failed(e) => r is Err && r->Err_0@ == e,
        Outcome::Halted => false,
    }
}

impl<'symbols> StatementVisitor for TypeInferenceVisitor<'symbols> {
    open spec fn var_declaration_ready(&self, variable_declaration: VariableDeclaration, node_id: NodeId) -> bool {
        !(infer_var_declaration(self.context(), self.model(), variable_declaration, node_id) is Halted)
    }

    open spec fn var_declaration_visited(&self, variable_declaration: VariableDeclaration, node_id: NodeId, after: Self, result: Result<(), SemanticError>) -> bool {
        walked(infer_var_declaration(self.context(), self.model(), variable_declaration, node_id), result, after.model()) && after.context() == self.context()
    }

    open spec fn assignment_ready(&self, assignment: Assignment, node_id: NodeId) -> bool {
        !(infer_assignment(self.context(), self.model(), assignment, node_id) is Halted)
    }

    open spec fn assignment_visited(&self, assignment: Assignment, node_id: NodeId, after: Self, result: Result<(), SemanticError>) -> bool {
        walked(infer_assignment(self.context(), self.model(), assignment, node_id), result, after.model()) && after.context() == self.context()
    }

    open spec fn if_ready(&self, if_statement: If) -> bool {
        !(infer_if(self.context(), self.model(), if_statement) is Halted)
    }

    open spec fn if_visited(&self, if_statement: If, after: Self, result: Result<(), SemanticError>) -> bool {
        walked(infer_if(self.context(), self.model(), if_statement), result, after.model()) && after.context() == self.context()
    }

    open spec fn loop_ready(&self, loop_statement: Loop) -> bool {
        !(infer_stmts(self.context(), self.model(), loop_statement.body.statements@) is Halted)
    }

    open spec fn loop_visited(&self, loop_statement: Loop, after: Self, result: Result<(), SemanticError>) -> bool {
        walked(infer_stmts(self.context(), self.model(), loop_statement.body.statements@), result, after.model()) && after.context() == self.context()
    }

    open spec fn block_ready(&self, block: Block) -> bool {
        !(infer_stmts(self.context(), self.model(), block.statements@) is Halted)
    }

    open spec fn block_visited(&self, block: Block, after: Self, result: Result<(), SemanticError>) -> bool {
        walked(infer_stmts(self.context(), self.model(), block.statements@), result, after.model()) && after.context() == self.context()
    }

    open spec fn function_definition_ready(&self, definition: FunctionDefinition, node_id: NodeId) -> bool {
        !(infer_function_definition(self.context(), self.model(), definition, node_id) is Halted)
    }

    open spec fn function_definition_visited(&self, definition: FunctionDefinition, node_id: NodeId, after: Self, result: Result<(), SemanticError>) -> bool {
        walked(infer_function_definition(self.context(), self.model(), definition, node_id), result, after.model()) && after.context() == self.context()
    }

    open spec fn function_call_ready(&self, call: Expression) -> bool {
        !(infer_call_statement(self.context(), self.model(), call) is Halted)
    }

    open spec fn function_call_visited(&self, call: Expression, after: Self, result: Result<(), SemanticError>) -> bool {
        walked(infer_call_statement(self.context(), self.model(), call), result, after.model()) && after.context() == self.context()
    }

    open spec fn return_ready(&self, return_statement: Return) -> bool {
        !(infer_return(self.context(), self.model(), return_statement) is Halted)
    }

    open spec fn return_visited(&self, return_statement: Return, after: Self, result: Result<(), SemanticError>) -> bool {
        walked(infer_return(self.context(), self.model(), return_statement), result, after.model()) && after.context() == self.context()
    }

    open spec fn print_ready(&self, print_statement: Print) -> bool {
        !(infer_expressions(self.context(), self.model(), print_statement.arguments@) is Halted)
    }

    open spec fn print_visited(&self, print_statement: Print, after: Self, result: Result<(), SemanticError>) -> bool {
        walked(infer_expressions(self.context(), self.model(), print_statement.arguments@), result, after.model()) && after.context() == self.context()
    }

    open spec fn break_ready(&self) -> bool {
        true
    }

    open spec fn break_visited(&self, after: Self, result: Result<(), SemanticError>) -> bool {
        result is Ok && after.model() == self.model() && after.context() == self.context()
    }

    fn visit_var_declaration(&mut self, variable_declaration: &VariableDeclaration, node_id: NodeId) -> (r:
        Result<(), SemanticError>)
    {
        TypeInferenceVisitor::visit_var_declaration(self, variable_declaration, node_id)
    }

    fn visit_assignment(&mut self, assignment: &Assignment, node_id: NodeId) -> (r: Result<(), SemanticError>) {
        TypeInferenceVisitor::visit_assignment(self, assignment, node_id)
    }

    fn visit_if(&mut self, if_statement: &If) -> (r: Result<(), SemanticError>) {
        TypeInferenceVisitor::visit_if(self, if_statement)
    }

    fn visit_loop(&mut self, loop_statement: &Loop) -> (r: Result<(), SemanticError>) {
        TypeInferenceVisitor::visit_loop(self, loop_statement)
    }

    fn visit_block(&mut self, block: &Block) -> (r: Result<(), SemanticError>) {
        TypeInferenceVisitor::visit_block(self, block)
    }

    fn visit_function_definition(&mut self, definition: &FunctionDefinition, node_id: NodeId) -> (r:
        Result<(), SemanticError>)
    {
        TypeInferenceVisitor::visit_function_definition(self, definition, node_id)
    }

    fn visit_function_call(&mut self, call: &Expression) -> (r: Result<(), SemanticError>) {
        self.visit_call_statement(call)
    }

    fn visit_break(&mut self) -> (r: Result<(), SemanticError>) {
        Ok(())
    }

    fn visit_return(&mut self, return_statement: &Return) -> (r: Result<(), SemanticError>) {
        TypeInferenceVisitor::visit_return(self, return_statement)
    }

    fn visit_print(&mut self, print_statement: &Print) -> (r: Result<(), SemanticError>) {
        TypeInferenceVisitor::visit_print(self, print_statement)
    }
}

impl<'symbols> ExpressionVisitor for TypeInferenceVisitor<'symbols> {
    open spec fn identifier_ready(&self, name: Seq<char>, node_id: NodeId) -> bool {
        node_type(self.context(), self.model(), node_id) is Some
    }

    open spec fn identifier_visited(&self, name: Seq<char>, node_id: NodeId, after: Self, result: Result<(), SemanticError>) -> bool {
        result is Ok && after.model() == self.model() && after.context() == self.context()
    }

    open spec fn function_call_ready(&self, callee: ExpressionKind, arguments: Seq<ExpressionKind>) -> bool {
        !(infer_call(self.context(), self.model(), callee, arguments) is Halted)
    }

    open spec fn function_call_visited(&self, callee: ExpressionKind, arguments: Seq<ExpressionKind>, after: Self, result: Result<(), SemanticError>) -> bool {
        inferred(infer_call(self.context(), self.model(), callee, arguments), result, after.model()) && after.context() == self.context()
    }

    open spec fn unary_ready(&self, operator: UnaryOperator, operand: ExpressionKind) -> bool {
        !(infer_expr(self.context(), self.model(), ExpressionKind::Unary(Box::new(operand), operator)) is Halted)
    }

    open spec fn unary_visited(&self, operator: UnaryOperator, operand: ExpressionKind, after: Self, result: Result<(), SemanticError>) -> bool {
        inferred(infer_expr(self.context(), self.model(), ExpressionKind::Unary(Box::new(operand), operator)), result, after.model()) && after.context() == self.context()
    }

    open spec fn binary_ready(&self, left: ExpressionKind, operator: BinaryOperator, right: ExpressionKind) -> bool {
        !(infer_expr(self.context(), self.model(), ExpressionKind::Binary(Box::new(left), operator, Box::new(right))) is Halted)
    }

    open spec fn binary_visited(&self, left: ExpressionKind, operator: BinaryOperator, right: ExpressionKind, after: Self, result: Result<(), SemanticError>) -> bool {
        inferred(infer_expr(self.context(), self.model(), ExpressionKind::Binary(Box::new(left), operator, Box::new(right))), result, after.model()) && after.context() == self.context()
    }

    open spec fn grouped_ready(&self, inner: ExpressionKind) -> bool {
        !(infer_expr(self.context(), self.model(), ExpressionKind::Grouped(Box::new(inner))) is Halted)
    }

    open spec fn grouped_visited(&self, inner: ExpressionKind, after: Self, result: Result<(), SemanticError>) -> bool {
        inferred(infer_expr(self.context(), self.model(), ExpressionKind::Grouped(Box::new(inner))), result, after.model()) && after.context() == self.context()
    }

    fn visit_identifier(&mut self, name: &str, node_id: NodeId) -> (r: Result<(), SemanticError>) {
        match self.infer(&ExpressionKind::Identifier(name.to_owned(), node_id)) {
            Ok(_) => Ok(()),
            Err(e) => Err(e),
        }
    }

    fn visit_function_call(&mut self, callee: &ExpressionKind, arguments: &[ExpressionKind]) -> (r: Result<(), SemanticError>) {
        match TypeInferenceVisitor::visit_function_call(self, callee, arguments) {
            Ok(_) => Ok(()),
            Err(e) => Err(e),
        }
    }

    fn visit_unary(&mut self, operator: UnaryOperator, operand: &ExpressionKind) -> (r: Result<(), SemanticError>) {
        let operand_type = match self.infer(operand) {
            Ok(t) => t,
            Err(e) => return Err(e),
        };
        let signature = UnaryOperatorSignature::of(&operator);
        self.constraints.add(Constraint::new(operand_type, signature.operand));
        Ok(())
    }

    fn visit_binary(&mut self, left: &ExpressionKind, operator: BinaryOperator, right: &ExpressionKind) -> (r:
        Result<(), SemanticError>)
    {
        let left_type = match self.infer(left) {
            Ok(t) => t,
            Err(e) => return Err(e),
        };
        let right_type = match self.infer(right) {
            Ok(t) => t,
            Err(e) => return Err(e),
        };
        let signature = BinaryOperatorSignature::of(&operator);
        self.constraints.add(Constraint::new(left_type, signature.left));
        self.constraints.add(Constraint::new(right_type, signature.right));
        Ok(())
    }

    fn visit_grouped(&mut self, inner: &ExpressionKind) -> (r: Result<(), SemanticError>) {
        match self.infer(inner) {
            Ok(_) => Ok(()),
            Err(e) => Err(e),
        }
    }
}

} // verus!
