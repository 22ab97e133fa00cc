//! The driver of semantic analysis: symbol resolution, then type inference.

use vstd::prelude::*;
use crate::ast::program::Program;
use crate::ast::statement::Statement;
use crate::semantic::error::{SemanticError, SpecSemanticError};
use crate::semantic::inference::generation::{infer_stmts, initial_inference, Context};
use crate::semantic::inference::type_inference::TypeInferenceVisitor;
use crate::semantic::inference::unifier::{lemma_solution_unifies, solution, substitute, Unifier};
use crate::semantic::inference::Type;
use crate::semantic::resolution::{initial_resolver, reports, resolve_pending, resolve_stmts, Resolver};
use crate::semantic::symbol_resolution::SymbolResolutionVisitor;
use crate::semantic::Outcome;

verus! {

/// The first pass over a program: resolve its statements, then the calls deferred.
pub open spec fn symbol_analysis(m: Resolver, ss: Seq<Statement>) -> Outcome<Resolver> {
    match resolve_stmts(m, ss) {
        Outcome::Done(m1) => resolve_pending(m1, m1.state.pending_calls),
        other => other,
    }
}

/// What symbol resolution hands on to type inference.
pub open spec fn context_of(m: Resolver) -> Context {
    Context { table: m.table, functions: m.state.global_functions }
}

/// The second pass over a resolved program: collect its constraints, then solve them;
/// gives the type each placeholder stands for.
pub open spec fn type_analysis(m: Resolver, ss: Seq<Statement>) -> Outcome<Map<usize, Type>> {
    match infer_stmts(context_of(m), initial_inference(), ss) {
        Outcome::Done(i) => match solution(i.constraints) {
            Ok(substitution) => Outcome::Done(substitution),
            Err((left, right)) => Outcome::Failed(SpecSemanticError::TypeMismatch(left, right)),
        },
        Outcome::Failed(e) => Outcome::Failed(e),
        Outcome::Halted => Outcome::Halted,
    }
}

/// Semantic analysis of a program: both passes, the first error stopping it.
pub open spec fn analysis(m: Resolver, ss: Seq<Statement>) -> Outcome<Resolver> {
    match symbol_analysis(m, ss) {
        Outcome::Done(m1) => match type_analysis(m1, ss) {
            Outcome::Done(_) => Outcome::Done(m1),
            Outcome::Failed(e) => Outcome::Failed(e),
            Outcome::Halted => Outcome::Halted,
        },
        other => other,
    }
}

/// Soundness of the analysis: when a program passes it, its constraints were
/// collected, and the substitution the unifier found makes both sides of every one of
/// them the same type.
pub proof fn lemma_accepted_program_is_typed(m: Resolver, ss: Seq<Statement>)
    requires
        analysis(m, ss) is Done,
    ensures
        ({
            let resolved = symbol_analysis(m, ss)->Done_0;
            let collected = infer_stmts(context_of(resolved), initial_inference(), ss);
            &&& collected is Done
            &&& solution(collected->Done_0.constraints) is Ok
            &&& forall|i: int|
                0 <= i < collected->Done_0.constraints.len() ==> substitute(
                    solution(collected->Done_0.constraints)->Ok_0,
                    #[trigger] collected->Done_0.constraints[i].left,
                ) == substitute(
                    solution(collected->Done_0.constraints)->Ok_0,
                    collected->Done_0.constraints[i].right,
                )
        }),
{
    let resolved = symbol_analysis(m, ss)->Done_0;
    let collected = infer_stmts(context_of(resolved), initial_inference(), ss);
    lemma_solution_unifies(collected->Done_0.constraints);
}

/// The compiler driver for running semantic analysis passes.
///
/// It orchestrates identifier lookup checks, scoping, loop control validation,
/// unreachable code analysis, forward-referenced function calls, type inference and
/// the solving of type constraints.
pub struct Analyzer {
    symbol_resolution: SymbolResolutionVisitor,
}

impl Analyzer {
    /// What symbol resolution has kept so far.
    pub closed spec fn model(&self) -> Resolver {
        self.symbol_resolution.model()
    }

    /// Creates a new `Analyzer`.
    pub fn new() -> (r: Self)
        ensures
            r.model() == initial_resolver(),
    {
        Analyzer { symbol_resolution: SymbolResolutionVisitor::new() }
    }

    /// Performs semantic analysis of a program: resolves its names, then infers and
    /// checks its types.
    ///
    /// Returns the first `SemanticError` met: a scoping rule, a declaration, a control
    /// flow rule or a type constraint that the program breaks.
    pub fn analyze(&mut self, program: &Program) -> (r: Result<(), SemanticError>)
        requires
            old(self).model().scopes.len() > 0,
            !(analysis(old(self).model(), program.statements@) is Halted),
        ensures
            reports(analysis(old(self).model(), program.statements@), r, final(self).model()),
            final(self).model().scopes.len() >= old(self).model().scopes.len(),
    {
        match self.resolve_symbols(program) {
            Ok(()) => {},
            Err(e) => return Err(e),
        }
        self.infer_types(program)
    }

    /// The first pass: resolves every name, then the calls deferred.
    fn resolve_symbols(&mut self, program: &Program) -> (r: Result<(), SemanticError>)
        requires
            old(self).model().scopes.len() > 0,
            !(symbol_analysis(old(self).model(), program.statements@) is Halted),
        ensures
            reports(symbol_analysis(old(self).model(), program.statements@), r, final(self).model()),
            final(self).model().scopes.len() >= old(self).model().scopes.len(),
    {
        match self.symbol_resolution.visit_statements(program.statements()) {
            Ok(()) => {},
            Err(e) => return Err(e),
        }
        self.symbol_resolution.resolve_pending_calls()
    }

    /// The second pass: collects the type constraints of the resolved program and solves
    /// them.
    fn infer_types(&mut self, program: &Program) -> (r: Result<(), SemanticError>)
        requires
            !(type_analysis(old(self).model(), program.statements@) is Halted),
        ensures
            final(self).model() == old(self).model(),
            match type_analysis(old(self).model(), program.statements@) {
                Outcome::Done(_) => r is Ok,
                Outcome::Failed(e) => r is Err && r->Err_0@ == e,
                Outcome::Halted => false,
            },
    {
        let mut type_inference_visitor = TypeInferenceVisitor::new(
            self.symbol_resolution.resolution_table(),
            self.symbol_resolution.global_functions(),
        );
        match type_inference_visitor.visit_statements(program.statements()) {
            Ok(()) => {},
            Err(e) => return Err(e),
        }
        let constraints = type_inference_visitor.into_constraints();
        let mut unifier = Unifier::new();
        match unifier.solve(constraints) {
            Ok(_) => Ok(()),
            Err(e) => Err(e),
        }
    }
}

} // verus!
