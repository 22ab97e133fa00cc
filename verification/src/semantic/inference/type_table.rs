//! The types of the symbols of a program.

use vstd::prelude::*;
use std::collections::HashMap;
use crate::semantic::inference::Type;

verus! {

broadcast use vstd::std_specs::hash::group_hash_axioms;

/// The type recorded for each symbol, keyed by the symbol's identifier.
#[derive(Debug)]
pub struct TypeTable {
    entries: HashMap<usize, Type>,
}

impl TypeTable {
    /// The type of each symbol in the table.
    pub closed spec fn types(&self) -> Map<usize, Type> {
        self.entries@
    }

    /// An empty table.
    pub fn new() -> (r: Self)
        ensures
            r.types() == Map::<usize, Type>::empty(),
    {
        Self { entries: HashMap::new() }
    }

    /// Records the type of a symbol, replacing the one recorded before.
    pub fn add(&mut self, symbol: usize, ty: Type)
        ensures
            final(self).types() == old(self).types().insert(symbol, ty),
    {
        self.entries.insert(symbol, ty);
    }

    /// The type recorded for a symbol, which must be in the table.
    pub fn get_or_panic(&self, symbol: usize) -> (r: Type)
        requires
            self.types().contains_key(symbol),
        ensures
            r == self.types()[symbol],
    {
        match self.entries.get(&symbol) {
            Some(t) => *t,
            None => Type::Int32,
        }
    }
}

} // verus!
