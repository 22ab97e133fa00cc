//! Unification: solving type equations.
//!
//! The unifier keeps a substitution from placeholder identifiers to types. A
//! placeholder that the substitution binds stands for what its binding resolves to;
//! resolving follows bindings until a concrete type or an unbound placeholder.
//! Unifying two types binds the placeholder one of them resolves to to what the
//! other resolves to, or fails when both resolve to different concrete types.
//! Solving unifies the constraints in order, then flattens the substitution so that
//! every bound placeholder maps directly to what it resolves to.
//!
//! Each binding gets a rank, the time it was made. A placeholder is bound only
//! while it resolves to itself, so a binding always points to a placeholder bound
//! later (or to none): ranks increase along every chain of bindings, which is why
//! resolution ends.

use vstd::prelude::*;
use std::collections::HashMap;
use crate::semantic::error::{SemanticError, SpecSemanticError};
use crate::semantic::inference::constraints::{Constraint, Constraints};
use crate::semantic::inference::Type;

verus! {

broadcast use vstd::std_specs::hash::group_hash_axioms;

/// Whether `t` is a placeholder that `m` binds.
pub open spec fn is_bound(m: Map<usize, Type>, t: Type) -> bool {
    t matches Type::Placeholder(i) && m.contains_key(i)
}

/// Every binding has a rank below `top`, and a binding to a bound placeholder points
/// to one of higher rank.
pub open spec fn ranked(m: Map<usize, Type>, rank: Map<usize, nat>, top: nat) -> bool {
    &&& forall|k: usize| #[trigger] m.contains_key(k) ==> rank.contains_key(k) && rank[k] < top
    &&& forall|k: usize|
        #[trigger] m.contains_key(k) && is_bound(m, m[k]) ==> rank[k] < rank[m[k]->Placeholder_0]
}

/// How far `t` is from the end of its chain of bindings, at most.
pub open spec fn chain_measure(m: Map<usize, Type>, rank: Map<usize, nat>, top: nat, t: Type) -> int {
    match t {
        Type::Placeholder(i) => if m.contains_key(i) && rank.contains_key(i) && rank[i] < top {
            top - rank[i]
        } else {
            0
        },
        _ => 0,
    }
}

/// What `t` stands for under the bindings `m`: the end of its chain of bindings.
pub open spec fn resolve_in(m: Map<usize, Type>, rank: Map<usize, nat>, top: nat, t: Type) -> Type
    decreases chain_measure(m, rank, top, t),
    when ranked(m, rank, top)
{
    match t {
        Type::Placeholder(i) => if m.contains_key(i) {
            resolve_in(m, rank, top, m[i])
        } else {
            t
        },
        _ => t,
    }
}

/// The state of a unification: the bindings, their ranks, and the next rank.
pub struct UnifyState {
    pub m: Map<usize, Type>,
    pub rank: Map<usize, nat>,
    pub top: nat,
}

/// A state whose chains of bindings all end.
pub open spec fn state_ok(s: UnifyState) -> bool {
    ranked(s.m, s.rank, s.top)
}

/// What `t` stands for in the state `s`.
pub open spec fn resolved(s: UnifyState, t: Type) -> Type {
    resolve_in(s.m, s.rank, s.top, t)
}

/// The state before any constraint is unified.
pub open spec fn empty_state() -> UnifyState {
    UnifyState { m: Map::empty(), rank: Map::empty(), top: 0 }
}

/// `s` with the placeholder `p` bound to `t`.
pub open spec fn bind(s: UnifyState, p: usize, t: Type) -> UnifyState {
    UnifyState { m: s.m.insert(p, t), rank: s.rank.insert(p, s.top), top: s.top + 1 }
}

/// Unifies `l` and `r` in `s`: nothing to do when they resolve to the same type; else
/// the placeholder that `l` (or else `r`) resolves to is bound to what the other side
/// resolves to; two different concrete types do not unify.
pub open spec fn unify_step(s: UnifyState, l: Type, r: Type) -> Result<UnifyState, (Type, Type)> {
    let a = resolved(s, l);
    let b = resolved(s, r);
    if a == b {
        Ok(s)
    } else if a is Placeholder {
        Ok(bind(s, a->Placeholder_0, b))
    } else if b is Placeholder {
        Ok(bind(s, b->Placeholder_0, a))
    } else {
        Err((a, b))
    }
}

/// Unifies the constraints `cs` in order, starting from `s`; the first mismatch stops it.
pub open spec fn unify_all(s: UnifyState, cs: Seq<Constraint>) -> Result<UnifyState, (Type, Type)>
    decreases cs.len(),
{
    if cs.len() == 0 {
        Ok(s)
    } else {
        match unify_all(s, cs.drop_last()) {
            Ok(s1) => unify_step(s1, cs.last().left, cs.last().right),
            Err(e) => Err(e),
        }
    }
}

/// Every bound placeholder mapped directly to what it resolves to.
pub open spec fn flattened(s: UnifyState) -> Map<usize, Type> {
    Map::new(|k: usize| s.m.contains_key(k), |k: usize| resolved(s, Type::Placeholder(k)))
}

/// The solution of the constraints `cs`: the flattened bindings that unify them, or
/// the first pair of different concrete types met.
pub open spec fn solution(cs: Seq<Constraint>) -> Result<Map<usize, Type>, (Type, Type)> {
    match unify_all(empty_state(), cs) {
        Ok(s) => Ok(flattened(s)),
        Err(e) => Err(e),
    }
}

/// `t` with a substitution applied once.
pub open spec fn substitute(m: Map<usize, Type>, t: Type) -> Type {
    match t {
        Type::Placeholder(i) => if m.contains_key(i) {
            m[i]
        } else {
            t
        },
        _ => t,
    }
}

/// Resolution ends at a type that is not bound; an unbound type resolves to itself.
pub proof fn lemma_resolved_root(s: UnifyState, t: Type)
    requires
        state_ok(s),
    ensures
        !is_bound(s.m, resolved(s, t)),
        !is_bound(s.m, t) ==> resolved(s, t) == t,
    decreases chain_measure(s.m, s.rank, s.top, t),
{
    if let Type::Placeholder(i) = t {
        if s.m.contains_key(i) {
            lemma_resolved_root(s, s.m[i]);
        }
    }
}

/// Resolving is idempotent: what a type resolves to resolves to itself. It is a
/// concrete type or a placeholder that nothing binds, and a concrete type resolves to
/// itself.
pub proof fn lemma_resolve_idempotent(s: UnifyState, t: Type)
    requires
        state_ok(s),
    ensures
        resolved(s, resolved(s, t)) == resolved(s, t),
        resolved(s, t) matches Type::Placeholder(k) ==> !s.m.contains_key(k),
        !(t is Placeholder) ==> resolved(s, t) == t,
{
    lemma_resolved_root(s, t);
    lemma_resolved_root(s, resolved(s, t));
}

/// Binding an unbound placeholder `p` to a type `t` that is not bound changes what a
/// type resolves to only where it resolved to `p`: there it now resolves to `t`.
pub proof fn lemma_bind(s: UnifyState, p: usize, t: Type, x: Type)
    requires
        state_ok(s),
        !s.m.contains_key(p),
        !is_bound(s.m, t),
        t != Type::Placeholder(p),
    ensures
        state_ok(bind(s, p, t)),
        resolved(bind(s, p, t), x) == if resolved(s, x) == Type::Placeholder(p) {
            t
        } else {
            resolved(s, x)
        },
    decreases chain_measure(s.m, s.rank, s.top, x),
{
    let s2 = bind(s, p, t);
    assert(state_ok(s2)) by {
        assert forall|k: usize| #[trigger] s2.m.contains_key(k) && is_bound(s2.m, s2.m[k]) implies s2.rank[k]
            < s2.rank[s2.m[k]->Placeholder_0] by {
            if k != p {
                let j = s2.m[k]->Placeholder_0;
                if j == p {
                    assert(s2.rank[p] == s.top);
                } else {
                    assert(s.m.contains_key(j));
                }
            }
        }
    }
    assert(resolved(s2, t) == t) by {
        assert(!is_bound(s2.m, t));
    }
    match x {
        Type::Placeholder(i) => {
            if i == p {
                assert(resolved(s, x) == x);
            } else if s.m.contains_key(i) {
                lemma_bind(s, p, t, s.m[i]);
            }
        },
        _ => {},
    }
}

/// Rebinding a bound placeholder directly to what it resolves to changes nothing
/// that any type resolves to.
pub proof fn lemma_flatten_step(s: UnifyState, k: usize, x: Type)
    requires
        state_ok(s),
        s.m.contains_key(k),
    ensures
        state_ok(UnifyState { m: s.m.insert(k, resolved(s, Type::Placeholder(k))), ..s }),
        resolved(UnifyState { m: s.m.insert(k, resolved(s, Type::Placeholder(k))), ..s }, x)
            == resolved(s, x),
    decreases chain_measure(s.m, s.rank, s.top, x),
{
    let root = resolved(s, Type::Placeholder(k));
    let s2 = UnifyState { m: s.m.insert(k, root), ..s };
    lemma_resolved_root(s, Type::Placeholder(k));
    assert(s2.m.dom() =~= s.m.dom());
    assert(!is_bound(s2.m, root));
    assert(state_ok(s2)) by {
        assert forall|j: usize| #[trigger] s2.m.contains_key(j) && is_bound(s2.m, s2.m[j]) implies s2.rank[j]
            < s2.rank[s2.m[j]->Placeholder_0] by {
            if j != k {
                assert(s.m[j] == s2.m[j]);
            }
        }
    }
    assert(resolved(s2, root) == root);
    match x {
        Type::Placeholder(i) => {
            if i != k && s.m.contains_key(i) {
                lemma_flatten_step(s, k, s.m[i]);
            }
        },
        _ => {},
    }
}

/// A successful step makes its two sides resolve alike, and keeps alike what
/// resolved alike before.
pub proof fn lemma_unify_step(s: UnifyState, l: Type, r: Type, x: Type, y: Type)
    requires
        state_ok(s),
        unify_step(s, l, r) is Ok,
    ensures
        state_ok(unify_step(s, l, r)->Ok_0),
        resolved(unify_step(s, l, r)->Ok_0, l) == resolved(unify_step(s, l, r)->Ok_0, r),
        resolved(s, x) == resolved(s, y) ==> resolved(unify_step(s, l, r)->Ok_0, x) == resolved(
            unify_step(s, l, r)->Ok_0,
            y,
        ),
{
    let a = resolved(s, l);
    let b = resolved(s, r);
    lemma_resolved_root(s, l);
    lemma_resolved_root(s, r);
    if a != b {
        if let Type::Placeholder(p) = a {
            lemma_bind(s, p, b, l);
            lemma_bind(s, p, b, r);
            lemma_bind(s, p, b, x);
            lemma_bind(s, p, b, y);
        } else if let Type::Placeholder(p) = b {
            lemma_bind(s, p, a, l);
            lemma_bind(s, p, a, r);
            lemma_bind(s, p, a, x);
            lemma_bind(s, p, a, y);
        }
    }
}

/// Unifying the constraints in order keeps the state sound and, when it succeeds,
/// makes the two sides of every constraint resolve alike.
pub proof fn lemma_unify_all(s: UnifyState, cs: Seq<Constraint>)
    requires
        state_ok(s),
    ensures
        unify_all(s, cs) is Ok ==> state_ok(unify_all(s, cs)->Ok_0) && forall|i: int|
            0 <= i < cs.len() ==> resolved(unify_all(s, cs)->Ok_0, #[trigger] cs[i].left)
                == resolved(unify_all(s, cs)->Ok_0, cs[i].right),
    decreases cs.len(),
{
    if cs.len() > 0 && unify_all(s, cs) is Ok {
        let prefix = cs.drop_last();
        lemma_unify_all(s, prefix);
        let s1 = unify_all(s, prefix)->Ok_0;
        let c = cs.last();
        let s2 = unify_all(s, cs)->Ok_0;
        lemma_unify_step(s1, c.left, c.right, c.left, c.right);
        assert forall|i: int| 0 <= i < cs.len() implies resolved(s2, #[trigger] cs[i].left)
            == resolved(s2, cs[i].right) by {
            if i < cs.len() - 1 {
                assert(cs[i] == prefix[i]);
                lemma_unify_step(s1, c.left, c.right, cs[i].left, cs[i].right);
            }
        }
    }
}

/// Once a prefix of the constraints fails, so do all of them, with the same mismatch.
pub proof fn lemma_unify_all_failed(s: UnifyState, cs: Seq<Constraint>, n: int)
    requires
        0 <= n <= cs.len(),
        unify_all(s, cs.take(n)) is Err,
    ensures
        unify_all(s, cs) == unify_all(s, cs.take(n)),
    decreases cs.len(),
{
    if n < cs.len() {
        assert(cs.drop_last().take(n) =~= cs.take(n));
        lemma_unify_all_failed(s, cs.drop_last(), n);
    } else {
        assert(cs.take(n) =~= cs);
    }
}

/// Applying the flattened bindings once gives what a type resolves to.
pub proof fn lemma_flattened(s: UnifyState, x: Type)
    requires
        state_ok(s),
    ensures
        substitute(flattened(s), x) == resolved(s, x),
{
    lemma_resolved_root(s, x);
}

/// The solution of a set of constraints satisfies each of them: after substitution
/// both sides of every constraint are the same type.
pub proof fn lemma_solution_unifies(cs: Seq<Constraint>)
    requires
        solution(cs) is Ok,
    ensures
        forall|i: int|
            0 <= i < cs.len() ==> substitute(solution(cs)->Ok_0, #[trigger] cs[i].left) == substitute(
                solution(cs)->Ok_0,
                cs[i].right,
            ),
{
    lemma_unify_all(empty_state(), cs);
    let s = unify_all(empty_state(), cs)->Ok_0;
    assert forall|i: int| 0 <= i < cs.len() implies substitute(
        solution(cs)->Ok_0,
        #[trigger] cs[i].left,
    ) == substitute(solution(cs)->Ok_0, cs[i].right) by {
        lemma_flattened(s, cs[i].left);
        lemma_flattened(s, cs[i].right);
    }
}

/// The solution is idempotent: substituting twice is substituting once.
pub proof fn lemma_solution_idempotent(cs: Seq<Constraint>, t: Type)
    requires
        solution(cs) is Ok,
    ensures
        substitute(solution(cs)->Ok_0, substitute(solution(cs)->Ok_0, t)) == substitute(
            solution(cs)->Ok_0,
            t,
        ),
{
    lemma_unify_all(empty_state(), cs);
    let s = unify_all(empty_state(), cs)->Ok_0;
    lemma_flattened(s, t);
    lemma_resolved_root(s, t);
    lemma_flattened(s, resolved(s, t));
    lemma_resolved_root(s, resolved(s, t));
}

/// A unification constraint solver that resolves type placeholders to concrete types.
pub struct Unifier {
    substitutions: HashMap<usize, Type>,
    bound: Vec<usize>,
    rank: Ghost<Map<usize, nat>>,
    top: Ghost<nat>,
}

impl Unifier {
    /// The bindings made so far, with their ranks.
    pub closed spec fn state(&self) -> UnifyState {
        UnifyState { m: self.substitutions@, rank: self.rank@, top: self.top@ }
    }

    /// How many bindings, at most, lie between `t` and the type it resolves to.
    pub closed spec fn chain_length(&self, t: Type) -> int {
        chain_measure(self.substitutions@, self.rank@, self.top@, t)
    }

    /// The state is sound, and `bound` lists every bound placeholder.
    pub closed spec fn wf(&self) -> bool {
        &&& state_ok(self.state())
        &&& forall|k: usize| self.substitutions@.contains_key(k) <==> self.bound@.contains(k)
    }

    /// Creates a new, empty unification solver.
    pub fn new() -> (r: Self)
        ensures
            r.wf(),
            r.state() == empty_state(),
    {
        Unifier {
            substitutions: HashMap::new(),
            bound: Vec::new(),
            rank: Ghost(Map::empty()),
            top: Ghost(0),
        }
    }

    /// Follows the bindings from `type_node` to the type it stands for.
    pub fn resolve(&self, type_node: Type) -> (r: Type)
        requires
            self.wf(),
        ensures
            r == resolved(self.state(), type_node),
            resolved(self.state(), r) == r,
            r matches Type::Placeholder(k) ==> !self.state().m.contains_key(k),
            !(type_node is Placeholder) ==> r == type_node,
        decreases self.chain_length(type_node),
    {
        proof {
            lemma_resolve_idempotent(self.state(), type_node);
        }
        match type_node {
            Type::Placeholder(placeholder_id) => match self.substitutions.get(&placeholder_id) {
                Some(next_type) => self.resolve(*next_type),
                None => type_node,
            },
            _ => type_node,
        }
    }

    /// Binds the unbound placeholder `id` to `t`, which is not bound.
    fn bind(&mut self, id: usize, t: Type)
        requires
            old(self).wf(),
            !old(self).state().m.contains_key(id),
            !is_bound(old(self).state().m, t),
            t != Type::Placeholder(id),
        ensures
            final(self).wf(),
            final(self).state() == bind(old(self).state(), id, t),
    {
        proof {
            lemma_bind(self.state(), id, t, t);
        }
        self.substitutions.insert(id, t);
        self.bound.push(id);
        self.rank = Ghost(self.rank@.insert(id, self.top@));
        self.top = Ghost(self.top@ + 1);
        proof {
            assert forall|k: usize| self.substitutions@.contains_key(k) <==> self.bound@.contains(k) by {
                if k == id {
                    assert(self.bound@[self.bound@.len() - 1] == id);
                }
                if self.bound@.contains(k) && k != id {
                    let j = choose|j: int| 0 <= j < self.bound@.len() && self.bound@[j] == k;
                    assert(old(self).bound@[j] == k);
                }
                if old(self).bound@.contains(k) {
                    let j = choose|j: int| 0 <= j < old(self).bound@.len() && old(self).bound@[j] == k;
                    assert(self.bound@[j] == k);
                }
            }
        }
    }

    /// Unifies two types, updating the substitutions or returning a mismatch error.
    fn unify(&mut self, left_type: Type, right_type: Type) -> (r: Result<(), SemanticError>)
        requires
            old(self).wf(),
        ensures
            final(self).wf(),
            match unify_step(old(self).state(), left_type, right_type) {
                Ok(s) => r is Ok && final(self).state() == s,
                Err((a, b)) => r matches Err(e) && e@ == SpecSemanticError::TypeMismatch(a, b),
            },
    {
        proof {
            lemma_resolved_root(self.state(), left_type);
            lemma_resolved_root(self.state(), right_type);
        }
        let left_type = self.resolve(left_type);
        let right_type = self.resolve(right_type);
        if left_type == right_type {
            return Ok(());
        }
        if let Type::Placeholder(placeholder_id) = left_type {
            self.bind(placeholder_id, right_type);
            return Ok(());
        }
        if let Type::Placeholder(placeholder_id) = right_type {
            self.bind(placeholder_id, left_type);
            return Ok(());
        }
        Err(SemanticError::TypeMismatch(left_type, right_type))
    }

    /// Solves all type constraints in order, then flattens the substitutions so that
    /// every placeholder maps directly to the type it resolves to.
    ///
    /// Returns the flattened substitutions, or `TypeMismatch` with the resolved types
    /// of the first constraint that cannot be unified.
    pub fn solve(&mut self, constraints: Constraints) -> (r: Result<HashMap<usize, Type>, SemanticError>)
        requires
            old(self).wf(),
        ensures
            final(self).wf(),
            match unify_all(old(self).state(), constraints.entries@) {
                Ok(s) => r matches Ok(m) && m@ == flattened(s),
                Err((a, b)) => r matches Err(e) && e@ == SpecSemanticError::TypeMismatch(a, b),
            },
    {
        let ghost s0 = self.state();
        let entries = constraints.entries;
        let mut i: usize = 0;
        proof {
            assert(entries@.take(0) =~= Seq::<Constraint>::empty());
        }
        while i < entries.len()
            invariant
                self.wf(),
                s0 == old(self).state(),
                entries@ == constraints.entries@,
                i <= entries.len(),
                unify_all(s0, entries@.take(i as int)) == Ok::<UnifyState, (Type, Type)>(self.state()),
            decreases entries.len() - i,
        {
            let constraint = entries[i];
            let ghost before = self.state();
            proof {
                assert(entries@.take(i + 1).drop_last() =~= entries@.take(i as int));
                assert(entries@.take(i + 1).last() == constraint);
            }
            match self.unify(constraint.left, constraint.right) {
                Ok(()) => {},
                Err(e) => {
                    proof {
                        lemma_unify_all_failed(s0, entries@, i + 1);
                    }
                    return Err(e);
                },
            }
            i = i + 1;
        }
        proof {
            assert(entries@.take(i as int) =~= entries@);
        }
        self.flatten();
        Ok(self.substitutions.clone())
    }

    /// Maps every bound placeholder directly to the type it resolves to.
    fn flatten(&mut self)
        requires
            old(self).wf(),
        ensures
            final(self).wf(),
            final(self).state().rank == old(self).state().rank,
            final(self).state().top == old(self).state().top,
            final(self).state().m == flattened(old(self).state()),
    {
        let ghost s0 = self.state();
        let mut i: usize = 0;
        while i < self.bound.len()
            invariant
                self.wf(),
                s0 == old(self).state(),
                self.bound@ == old(self).bound@,
                self.rank@ == s0.rank,
                self.top@ == s0.top,
                self.substitutions@.dom() == s0.m.dom(),
                i <= self.bound@.len(),
                forall|x: Type| #[trigger] resolved(self.state(), x) == resolved(s0, x),
                forall|j: int|
                    0 <= j < i ==> self.substitutions@[#[trigger] self.bound@[j]] == resolved(
                        s0,
                        Type::Placeholder(self.bound@[j]),
                    ),
            decreases self.bound@.len() - i,
        {
            let placeholder_id = self.bound[i];
            assert(self.bound@.contains(placeholder_id));
            let concrete_type = self.resolve(Type::Placeholder(placeholder_id));
            let ghost before = self.state();
            proof {
                assert forall|x: Type| #[trigger] resolved(
                    UnifyState {
                        m: before.m.insert(placeholder_id, concrete_type),
                        ..before
                    },
                    x,
                ) == resolved(before, x) by {
                    lemma_flatten_step(before, placeholder_id, x);
                }
                lemma_flatten_step(before, placeholder_id, concrete_type);
            }
            self.substitutions.insert(placeholder_id, concrete_type);
            proof {
                assert(self.state() == UnifyState {
                    m: before.m.insert(placeholder_id, concrete_type),
                    ..before
                });
                assert(self.substitutions@.dom() =~= s0.m.dom());
                assert forall|j: int| 0 <= j < i + 1 implies self.substitutions@[#[trigger] self.bound@[j]]
                    == resolved(s0, Type::Placeholder(self.bound@[j])) by {
                    if self.bound@[j] != placeholder_id {
                        assert(self.substitutions@[self.bound@[j]] == before.m[self.bound@[j]]);
                    }
                }
            }
            i = i + 1;
        }
        proof {
            assert forall|k: usize| #[trigger] self.substitutions@.contains_key(k) implies self.substitutions@[k]
                == resolved(s0, Type::Placeholder(k)) by {
                assert(self.bound@.contains(k));
                let j = choose|j: int| 0 <= j < self.bound@.len() && self.bound@[j] == k;
                assert(self.substitutions@[self.bound@[j]] == resolved(s0, Type::Placeholder(self.bound@[j])));
            }
            assert(self.substitutions@ =~= flattened(s0));
        }
    }
}

} // verus!
