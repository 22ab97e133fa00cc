//! Semantic analysis: symbol resolution, type inference and the errors they report.

pub mod analyzer;
pub mod error;
pub mod inference;
pub mod resolution;
pub mod resolution_laws;
pub mod resolution_table;
pub mod scope;
pub mod state;
pub mod symbol_resolution;
pub mod visitor;

use vstd::prelude::*;
use crate::semantic::error::SpecSemanticError;

verus! {

/// Represents a unique identifier for a resolved symbol (variable, parameter, or function).
#[derive(Debug, Clone, Copy, PartialEq, Eq, Structural, Hash)]
pub struct SymbolId(pub usize);

/// The source of symbol identifiers of one resolution: each identifier it issues is
/// one more than the one before, starting from 1.
pub struct SymbolIds {
    last: usize,
}

impl SymbolIds {
    /// The last identifier issued, 0 before the first.
    pub closed spec fn last(&self) -> usize {
        self.last
    }

    /// A source that has issued no identifier yet.
    pub fn new() -> (r: Self)
        ensures
            r.last() == 0,
    {
        SymbolIds { last: 0 }
    }

    /// Issues the next identifier.
    pub fn next_id(&mut self) -> (r: SymbolId)
        requires
            old(self).last() < usize::MAX,
        ensures
            final(self).last() == old(self).last() + 1,
            r == SymbolId(final(self).last()),
    {
        self.last = self.last + 1;
        SymbolId(self.last)
    }
}

/// How a pass over the syntax tree ends: with a result, with a semantic error, or
/// not at all, where the walk stops on an input it cannot handle.
pub enum Outcome<T> {
    Done(T),
    Failed(SpecSemanticError),
    Halted,
}

} // verus!
