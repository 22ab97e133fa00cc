//! What symbol resolution keeps track of besides scopes: the functions declared, the
//! function and the loops it is inside, and the calls it has yet to check.

use vstd::prelude::*;
use std::collections::HashMap;
use crate::ast::statement::{opt_text, NodeId};
use crate::semantic::SymbolId;

verus! {

broadcast use {vstd::std_specs::hash::group_hash_axioms, vstd::string::group_string_axioms};

/// A call to a function not declared yet where the call stands; it is checked once
/// the whole program has been walked, since functions may be called before they are
/// defined.
pub struct PendingCall {
    pub name: String,
    pub argument_count: usize,
    pub callee_node_id: NodeId,
}

/// The mathematical value of a [`PendingCall`].
pub struct SpecPendingCall {
    pub name: Seq<char>,
    pub argument_count: usize,
    pub callee_node_id: NodeId,
}

impl View for PendingCall {
    type V = SpecPendingCall;

    open spec fn view(&self) -> SpecPendingCall {
        SpecPendingCall {
            name: self.name@,
            argument_count: self.argument_count,
            callee_node_id: self.callee_node_id,
        }
    }
}

/// The signature of a declared function: its name, the annotations of its parameters,
/// its return type annotation and the symbols of its parameters.
pub struct FunctionMetadata {
    pub name: String,
    pub parameter_types: Vec<Option<String>>,
    pub return_type: Option<String>,
    pub parameter_symbols: Vec<SymbolId>,
}

/// The mathematical value of a [`FunctionMetadata`].
pub struct SpecFunctionMetadata {
    pub name: Seq<char>,
    pub parameter_types: Seq<Option<Seq<char>>>,
    pub return_type: Option<Seq<char>>,
    pub parameter_symbols: Seq<SymbolId>,
}

/// The characters of each optional text.
pub open spec fn opt_texts(v: Seq<Option<String>>) -> Seq<Option<Seq<char>>> {
    v.map_values(|o: Option<String>| opt_text(o))
}

impl View for FunctionMetadata {
    type V = SpecFunctionMetadata;

    open spec fn view(&self) -> SpecFunctionMetadata {
        SpecFunctionMetadata {
            name: self.name@,
            parameter_types: opt_texts(self.parameter_types@),
            return_type: opt_text(self.return_type),
            parameter_symbols: self.parameter_symbols@,
        }
    }
}

/// A copy of an optional text.
pub fn copy_opt_text(o: &Option<String>) -> (r: Option<String>)
    ensures
        opt_text(r) == opt_text(*o),
{
    match o {
        Some(s) => Some(s.clone()),
        None => None,
    }
}

impl FunctionMetadata {
    /// Creates the signature of a function whose parameter symbols are not known yet.
    pub fn new(name: String, parameter_types: Vec<Option<String>>, return_type: Option<String>) -> (r:
        Self)
        ensures
            r@ == (SpecFunctionMetadata {
                name: name@,
                parameter_types: opt_texts(parameter_types@),
                return_type: opt_text(return_type),
                parameter_symbols: Seq::empty(),
            }),
    {
        Self { name, parameter_types, return_type, parameter_symbols: Vec::new() }
    }

    /// The same signature with the given parameter symbols.
    pub fn with_symbols(self, parameter_symbols: Vec<SymbolId>) -> (r: Self)
        ensures
            r@ == (SpecFunctionMetadata { parameter_symbols: parameter_symbols@, ..self@ }),
    {
        let mut r = self;
        r.parameter_symbols = parameter_symbols;
        r
    }

    /// The number of parameters the function accepts.
    pub fn parameter_count(&self) -> (r: usize)
        ensures
            r == self@.parameter_types.len(),
    {
        self.parameter_types.len()
    }

    /// Whether the function has a return type annotation.
    pub fn has_return_type(&self) -> (r: bool)
        ensures
            r == self@.return_type is Some,
    {
        self.return_type.is_some()
    }

    /// A copy of this signature.
    pub fn duplicate(&self) -> (r: Self)
        ensures
            r@ == self@,
    {
        let mut parameter_types: Vec<Option<String>> = Vec::new();
        let mut i: usize = 0;
        while i < self.parameter_types.len()
            invariant
                i <= self.parameter_types@.len(),
                opt_texts(parameter_types@) =~= opt_texts(self.parameter_types@.take(i as int)),
            decreases self.parameter_types@.len() - i,
        {
            let copy = copy_opt_text(&self.parameter_types[i]);
            let ghost before = parameter_types@;
            parameter_types.push(copy);
            proof {
                let whole = self.parameter_types@;
                assert(whole.take(i + 1) =~= whole.take(i as int).push(whole[i as int]));
                assert(opt_texts(whole.take(i + 1)) =~= opt_texts(whole.take(i as int)).push(
                    opt_text(whole[i as int]),
                ));
                assert(opt_texts(parameter_types@) =~= opt_texts(before).push(opt_text(copy)));
            }
            i = i + 1;
        }
        let mut parameter_symbols: Vec<SymbolId> = Vec::new();
        let mut j: usize = 0;
        while j < self.parameter_symbols.len()
            invariant
                j <= self.parameter_symbols@.len(),
                parameter_symbols@ =~= self.parameter_symbols@.take(j as int),
            decreases self.parameter_symbols@.len() - j,
        {
            parameter_symbols.push(self.parameter_symbols[j]);
            j = j + 1;
        }
        proof {
            assert(self.parameter_types@.take(i as int) =~= self.parameter_types@);
            assert(self.parameter_symbols@.take(j as int) =~= self.parameter_symbols@);
        }
        Self {
            name: self.name.clone(),
            parameter_types,
            return_type: copy_opt_text(&self.return_type),
            parameter_symbols,
        }
    }
}

/// The signatures of declared functions, keyed by the number of their symbol.
pub open spec fn functions_view(m: HashMap<usize, FunctionMetadata>) -> Map<
    usize,
    SpecFunctionMetadata,
> {
    m@.map_values(|f: FunctionMetadata| f@)
}

/// The optional signature of the function being resolved.
pub open spec fn opt_metadata(o: Option<FunctionMetadata>) -> Option<SpecFunctionMetadata> {
    match o {
        Some(f) => Some(f@),
        None => None,
    }
}

/// The mathematical value of a [`State`].
pub struct SpecState {
    pub current_function: Option<SpecFunctionMetadata>,
    pub global_functions: Map<usize, SpecFunctionMetadata>,
    pub pending_calls: Seq<SpecPendingCall>,
    pub loop_depth: usize,
    pub encountered_break: bool,
    pub encountered_return: bool,
}

/// The semantic state tracked during the symbol resolution walk.
pub struct State {
    current_function: Option<FunctionMetadata>,
    global_functions: HashMap<usize, FunctionMetadata>,
    pending_calls: Vec<PendingCall>,
    loop_depth: usize,
    encountered_break: bool,
    encountered_return: bool,
}

impl View for State {
    type V = SpecState;

    closed spec fn view(&self) -> SpecState {
        SpecState {
            current_function: opt_metadata(self.current_function),
            global_functions: functions_view(self.global_functions),
            pending_calls: self.pending_calls@.map_values(|p: PendingCall| p@),
            loop_depth: self.loop_depth,
            encountered_break: self.encountered_break,
            encountered_return: self.encountered_return,
        }
    }
}

impl State {
    /// Creates a new, empty state.
    pub fn new() -> (r: Self)
        ensures
            r@ == (SpecState {
                current_function: None,
                global_functions: Map::empty(),
                pending_calls: Seq::empty(),
                loop_depth: 0,
                encountered_break: false,
                encountered_return: false,
            }),
    {
        let r = Self {
            current_function: None,
            global_functions: HashMap::new(),
            pending_calls: Vec::new(),
            loop_depth: 0,
            encountered_break: false,
            encountered_return: false,
        };
        assert(r@.global_functions =~= Map::<usize, SpecFunctionMetadata>::empty());
        assert(r@.pending_calls =~= Seq::<SpecPendingCall>::empty());
        r
    }

    /// Defers a function call for later arity and declaration validation.
    pub fn add_pending_call(&mut self, name: String, argument_count: usize, callee_node_id: NodeId)
        ensures
            final(self)@ == (SpecState {
                pending_calls: old(self)@.pending_calls.push(
                    SpecPendingCall { name: name@, argument_count, callee_node_id },
                ),
                ..old(self)@
            }),
    {
        self.pending_calls.push(PendingCall { name, argument_count, callee_node_id });
        assert(self@.pending_calls =~= old(self)@.pending_calls.push(
            SpecPendingCall { name: name@, argument_count, callee_node_id },
        ));
    }

    /// The calls deferred so far, in the order they were met.
    pub fn pending_calls(&self) -> (r: &Vec<PendingCall>)
        ensures
            r@.map_values(|p: PendingCall| p@) == self@.pending_calls,
    {
        &self.pending_calls
    }

    /// Registers a global function declaration and makes it the current function.
    pub fn add_global_function(&mut self, symbol_id: SymbolId, function: FunctionMetadata)
        ensures
            final(self)@ == (SpecState {
                current_function: Some(function@),
                global_functions: old(self)@.global_functions.insert(symbol_id.0, function@),
                ..old(self)@
            }),
    {
        self.global_functions.insert(symbol_id.0, function.duplicate());
        self.current_function = Some(function);
        assert(self@.global_functions =~= old(self)@.global_functions.insert(symbol_id.0, function@));
    }

    /// The signature of a declared global function.
    pub fn get_global_function(&self, symbol_id: &SymbolId) -> (r: Option<&FunctionMetadata>)
        ensures
            match r {
                Some(f) => self@.global_functions.contains_key(symbol_id.0)
                    && f@ == self@.global_functions[symbol_id.0],
                None => !self@.global_functions.contains_key(symbol_id.0),
            },
    {
        self.global_functions.get(&symbol_id.0)
    }

    /// Leaves the current function's body.
    pub fn exited_function(&mut self)
        ensures
            final(self)@ == (SpecState { current_function: None, ..old(self)@ }),
    {
        self.current_function = None;
    }

    /// The signature of the function being resolved, if any.
    pub fn current_function(&self) -> (r: Option<&FunctionMetadata>)
        ensures
            match r {
                Some(f) => self@.current_function == Some(f@),
                None => self@.current_function is None,
            },
    {
        self.current_function.as_ref()
    }

    /// Enters a loop.
    pub fn entered_loop(&mut self)
        requires
            old(self)@.loop_depth < usize::MAX,
        ensures
            final(self)@ == (SpecState { loop_depth: (old(self)@.loop_depth + 1) as usize, ..old(self)@ }),
    {
        self.loop_depth = self.loop_depth + 1;
    }

    /// Leaves a loop; the depth does not go below zero.
    pub fn exited_loop(&mut self)
        ensures
            final(self)@ == (SpecState {
                loop_depth: if old(self)@.loop_depth == 0 {
                    0
                } else {
                    (old(self)@.loop_depth - 1) as usize
                },
                ..old(self)@
            }),
    {
        if self.loop_depth > 0 {
            self.loop_depth = self.loop_depth - 1;
        }
    }

    /// Whether the walk is inside one or more loops.
    pub fn is_in_loop(&self) -> (r: bool)
        ensures
            r == (self@.loop_depth != 0),
    {
        self.loop_depth != 0
    }

    /// Records that a `break` was met.
    pub fn encountered_break(&mut self)
        ensures
            final(self)@ == (SpecState { encountered_break: true, ..old(self)@ }),
    {
        self.encountered_break = true;
    }

    /// Records that a `return` was met.
    pub fn encountered_return(&mut self)
        ensures
            final(self)@ == (SpecState { encountered_return: true, ..old(self)@ }),
    {
        self.encountered_return = true;
    }

    /// Forgets a `break` met before.
    pub fn reset_break(&mut self)
        ensures
            final(self)@ == (SpecState { encountered_break: false, ..old(self)@ }),
    {
        self.encountered_break = false;
    }

    /// Forgets a `return` met before.
    pub fn reset_return(&mut self)
        ensures
            final(self)@ == (SpecState { encountered_return: false, ..old(self)@ }),
    {
        self.encountered_return = false;
    }

    /// Whether the statements that follow are unreachable: a `break` or a `return`
    /// came before them.
    pub fn is_unreachable(&self) -> (r: bool)
        ensures
            r == (self@.encountered_break || self@.encountered_return),
    {
        self.encountered_break || self.encountered_return
    }

    /// The declared global functions and their signatures.
    pub fn global_functions(&self) -> (r: &HashMap<usize, FunctionMetadata>)
        ensures
            functions_view(*r) == self@.global_functions,
    {
        &self.global_functions
    }
}

} // verus!
