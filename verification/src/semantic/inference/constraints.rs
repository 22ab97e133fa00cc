//! Type equations collected during type inference.

use vstd::prelude::*;
use crate::semantic::inference::Type;

verus! {

/// Represents a single type constraint asserting that two types must be equal (left == right).
#[derive(Debug, Clone, Copy, PartialEq, Eq, Structural)]
pub struct Constraint {
    pub left: Type,
    pub right: Type,
}

impl Constraint {
    /// Creates a new type equality constraint (left == right).
    pub fn new(left: Type, right: Type) -> (r: Self)
        ensures
            r == (Constraint { left, right }),
    {
        Self { left, right }
    }
}

/// A collection of type equations (constraints) collected during type inference, in
/// the order they were added.
#[derive(Debug, PartialEq)]
pub struct Constraints {
    pub entries: Vec<Constraint>,
}

impl Constraints {
    /// Creates a new, empty set of constraints.
    pub fn new() -> (r: Self)
        ensures
            r.entries@ == Seq::<Constraint>::empty(),
    {
        Self { entries: Vec::new() }
    }

    /// Adds a type constraint after the ones already collected.
    pub fn add(&mut self, constraint: Constraint)
        ensures
            final(self).entries@ == old(self).entries@.push(constraint),
    {
        self.entries.push(constraint);
    }
}

} // verus!
