//! The symbol each resolved node of the syntax tree refers to.

use vstd::prelude::*;
use std::collections::HashMap;
use crate::ast::statement::NodeId;
use crate::semantic::SymbolId;

verus! {

broadcast use vstd::std_specs::hash::group_hash_axioms;

/// A lookup table from the identifiers of syntax tree nodes (declarations, references,
/// assignments, function definitions and callees) to the symbols they resolve to.
///
/// Names alone are ambiguous once scopes shadow one another; the table lets the
/// passes after symbol resolution tell apart two variables of the same name.
pub struct ResolutionTable {
    symbol_id_by_node_id: HashMap<usize, SymbolId>,
}

impl ResolutionTable {
    /// The symbol of each resolved node, keyed by the number of the node's identifier.
    pub closed spec fn entries(&self) -> Map<usize, SymbolId> {
        self.symbol_id_by_node_id@
    }

    /// Creates a new, empty table.
    pub fn new() -> (r: Self)
        ensures
            r.entries() == Map::<usize, SymbolId>::empty(),
    {
        Self { symbol_id_by_node_id: HashMap::new() }
    }

    /// Records the symbol a node resolves to, replacing what was recorded for it.
    pub fn resolve(&mut self, node_id: NodeId, symbol_id: SymbolId)
        ensures
            final(self).entries() == old(self).entries().insert(node_id.0, symbol_id),
    {
        self.symbol_id_by_node_id.insert(node_id.0, symbol_id);
    }

    /// The symbol a node resolves to, if it was recorded.
    pub fn get(&self, node_id: &NodeId) -> (r: Option<SymbolId>)
        ensures
            r == self.entries().get(node_id.0),
    {
        match self.symbol_id_by_node_id.get(&node_id.0) {
            Some(symbol_id) => Some(*symbol_id),
            None => None,
        }
    }
}

} // verus!
