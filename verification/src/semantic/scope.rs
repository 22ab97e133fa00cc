//! Lexical scopes: the names each block defines, innermost last.

use vstd::prelude::*;
use crate::semantic::SymbolId;

verus! {

broadcast use vstd::string::group_string_axioms;

/// The definitions of one scope, in the order they were made, each a name and the
/// symbol it stands for.
pub type ScopeView = Seq<(Seq<char>, SymbolId)>;

/// The symbol `name` stands for in one scope: the latest definition of it there.
pub open spec fn scope_lookup(entries: ScopeView, name: Seq<char>) -> Option<SymbolId>
    decreases entries.len(),
{
    if entries.len() == 0 {
        None
    } else if entries.last().0 == name {
        Some(entries.last().1)
    } else {
        scope_lookup(entries.drop_last(), name)
    }
}

/// The symbol `name` stands for in a stack of scopes: its definition in the innermost
/// scope that defines it.
pub open spec fn scopes_lookup(scopes: Seq<ScopeView>, name: Seq<char>) -> Option<SymbolId>
    decreases scopes.len(),
{
    if scopes.len() == 0 {
        None
    } else {
        match scope_lookup(scopes.last(), name) {
            Some(id) => Some(id),
            None => scopes_lookup(scopes.drop_last(), name),
        }
    }
}

/// Whether the innermost scope defines `name`.
pub open spec fn defines_locally(scopes: Seq<ScopeView>, name: Seq<char>) -> bool {
    scopes.len() > 0 && scope_lookup(scopes.last(), name) is Some
}

/// The stack of scopes with `name` defined as `id` in the innermost one.
pub open spec fn scopes_define(scopes: Seq<ScopeView>, name: Seq<char>, id: SymbolId) -> Seq<
    ScopeView,
> {
    scopes.update(scopes.len() - 1, scopes.last().push((name, id)))
}

/// A name just defined in the innermost scope stands for the symbol it was defined
/// with, whatever the outer scopes define.
pub proof fn lemma_define_then_lookup(scopes: Seq<ScopeView>, name: Seq<char>, id: SymbolId)
    requires
        scopes.len() > 0,
    ensures
        scopes_lookup(scopes_define(scopes, name, id), name) == Some(id),
        defines_locally(scopes_define(scopes, name, id), name),
{
    let defined = scopes_define(scopes, name, id);
    assert(defined.last() == scopes.last().push((name, id)));
}

/// Defining a name leaves what every other name stands for unchanged.
pub proof fn lemma_define_keeps_others(
    scopes: Seq<ScopeView>,
    name: Seq<char>,
    other: Seq<char>,
    id: SymbolId,
)
    requires
        scopes.len() > 0,
        other != name,
    ensures
        scopes_lookup(scopes_define(scopes, name, id), other) == scopes_lookup(scopes, other),
{
    let defined = scopes_define(scopes, name, id);
    assert(defined.last().drop_last() =~= scopes.last());
    assert(defined.drop_last() =~= scopes.drop_last());
}

/// A name defined in a scope, with the symbol it stands for.
struct Definition {
    name: String,
    symbol: SymbolId,
}

/// One lexical scope.
pub struct Scope {
    symbols: Vec<Definition>,
}

impl View for Scope {
    type V = ScopeView;

    closed spec fn view(&self) -> ScopeView {
        self.symbols@.map_values(|d: Definition| (d.name@, d.symbol))
    }
}

impl Scope {
    /// An empty scope.
    pub fn new() -> (r: Self)
        ensures
            r@ == Seq::<(Seq<char>, SymbolId)>::empty(),
    {
        let r = Self { symbols: Vec::new() };
        assert(r@ =~= Seq::<(Seq<char>, SymbolId)>::empty());
        r
    }

    /// Defines `name` as `id` in this scope, over any earlier definition of it.
    pub fn define(&mut self, name: String, id: SymbolId)
        ensures
            final(self)@ == old(self)@.push((name@, id)),
    {
        let ghost n = name@;
        self.symbols.push(Definition { name, symbol: id });
        assert(self@ =~= old(self)@.push((n, id)));
    }

    /// Whether this scope defines `name`.
    pub fn contains(&self, name: &str) -> (r: bool)
        ensures
            r == scope_lookup(self@, name@) is Some,
    {
        self.get(name).is_some()
    }

    /// The symbol `name` stands for in this scope.
    pub fn get(&self, name: &str) -> (r: Option<SymbolId>)
        ensures
            r == scope_lookup(self@, name@),
    {
        let wanted = name.to_owned();
        let mut i: usize = self.symbols.len();
        proof {
            assert(self@.take(i as int) =~= self@);
        }
        while i > 0
            invariant
                i <= self.symbols@.len(),
                wanted@ == name@,
                self@.len() == self.symbols@.len(),
                scope_lookup(self@.take(i as int), name@) == scope_lookup(self@, name@),
            decreases i,
        {
            let ghost prefix = self@.take(i as int);
            assert(prefix.last() == self@[i - 1]);
            assert(prefix.drop_last() =~= self@.take(i - 1));
            if self.symbols[i - 1].name == wanted {
                return Some(self.symbols[i - 1].symbol);
            }
            i = i - 1;
        }
        None
    }
}

/// A stack of lexical scopes; the last one is the innermost.
pub struct Scopes {
    entries: Vec<Scope>,
}

impl View for Scopes {
    type V = Seq<ScopeView>;

    closed spec fn view(&self) -> Seq<ScopeView> {
        self.entries@.map_values(|s: Scope| s@)
    }
}

impl Scopes {
    /// A stack holding one empty scope, the global one.
    pub fn new() -> (r: Self)
        ensures
            r@ == seq![Seq::<(Seq<char>, SymbolId)>::empty()],
    {
        let mut entries: Vec<Scope> = Vec::new();
        entries.push(Scope::new());
        let r = Self { entries };
        assert(r@ =~= seq![Seq::<(Seq<char>, SymbolId)>::empty()]);
        r
    }

    /// Enters a new, innermost scope.
    pub fn begin_scope(&mut self)
        ensures
            final(self)@ == old(self)@.push(Seq::<(Seq<char>, SymbolId)>::empty()),
    {
        self.entries.push(Scope::new());
        assert(self@ =~= old(self)@.push(Seq::<(Seq<char>, SymbolId)>::empty()));
    }

    /// Leaves the innermost scope, if there is one.
    pub fn end_scope(&mut self)
        ensures
            final(self)@ == if old(self)@.len() == 0 {
                old(self)@
            } else {
                old(self)@.drop_last()
            },
    {
        self.entries.pop();
        assert(self@ =~= if old(self)@.len() == 0 {
            old(self)@
        } else {
            old(self)@.drop_last()
        });
    }

    /// Defines `name` as `id` in the innermost scope, which must exist.
    pub fn define(&mut self, name: String, id: SymbolId)
        requires
            old(self)@.len() > 0,
        ensures
            final(self)@ == scopes_define(old(self)@, name@, id),
    {
        let last = self.entries.len() - 1;
        let mut scope = self.entries.remove(last);
        scope.define(name, id);
        self.entries.push(scope);
        assert(self@ =~= scopes_define(old(self)@, name@, id));
    }

    /// Whether any scope defines `name`.
    pub fn contains(&self, name: &str) -> (r: bool)
        ensures
            r == scopes_lookup(self@, name@) is Some,
    {
        self.get(name).is_some()
    }

    /// Whether the innermost scope, which must exist, defines `name`.
    pub fn contains_locally(&self, name: &str) -> (r: bool)
        requires
            self@.len() > 0,
        ensures
            r == defines_locally(self@, name@),
    {
        let last = self.entries.len() - 1;
        self.entries[last].contains(name)
    }

    /// The symbol `name` stands for: its definition in the innermost scope that has one.
    pub fn get(&self, name: &str) -> (r: Option<SymbolId>)
        ensures
            r == scopes_lookup(self@, name@),
    {
        let mut i: usize = self.entries.len();
        proof {
            assert(self@.take(i as int) =~= self@);
        }
        while i > 0
            invariant
                i <= self.entries@.len(),
                self@.len() == self.entries@.len(),
                scopes_lookup(self@.take(i as int), name@) == scopes_lookup(self@, name@),
            decreases i,
        {
            let ghost prefix = self@.take(i as int);
            assert(prefix.last() == self@[i - 1]);
            assert(prefix.drop_last() =~= self@.take(i - 1));
            let found = self.entries[i - 1].get(name);
            if found.is_some() {
                return found;
            }
            i = i - 1;
        }
        None
    }
}

} // verus!
