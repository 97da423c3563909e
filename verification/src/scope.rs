//! One lexical scope: a mapping from identifier to value with
//! last-write-wins semantics, modelled as a ghost `Map`.

use vstd::prelude::*;

use crate::ast::Identifier;
use crate::semantics::{ScopeSpec, StackSpec};
use crate::ubc::{value_view, Value};

verus! {

/// A single scope. Entries are kept in insertion order; a later entry
/// for the same name shadows an earlier one.
#[derive(Debug)]
pub struct Scope {
    entries: Vec<(Identifier, Value)>,
}

/// The mapping an entry sequence denotes: later entries win.
pub open spec fn scope_map(es: Seq<(Identifier, Value)>) -> ScopeSpec
    decreases es,
{
    if es.len() == 0 {
        Map::empty()
    } else {
        scope_map(es.drop_last()).insert(es.last().0@, value_view(es.last().1))
    }
}

impl View for Scope {
    type V = ScopeSpec;

    closed spec fn view(&self) -> ScopeSpec {
        scope_map(self.entries@)
    }
}

impl Scope {
    /// A fresh, empty scope.
    pub fn new() -> (s: Scope)
        ensures
            s@ == ScopeSpec::empty(),
    {
        Scope { entries: Vec::new() }
    }

    /// Bind `name` to `value`, shadowing any earlier binding.
    pub fn insert(&mut self, name: Identifier, value: Value)
        ensures
            final(self)@ == old(self)@.insert(name@, value@),
    {
        let ghost old_es = self.entries@;
        let ghost n = name@;
        let ghost v = value@;
        self.entries.push((name, value));
        proof {
            assert(self.entries@.drop_last() =~= old_es);
            assert(self.entries@.last().0@ == n);
            assert(value_view(self.entries@.last().1) == v);
        }
    }

    /// Look `name` up in this scope alone.
    #[verifier::loop_isolation(false)]
    pub fn get(&self, name: &Identifier) -> (r: Option<&Value>)
        ensures
            match r {
                Option::Some(v) => self@.contains_key(name@) && v@ == self@[name@],
                Option::None => !self@.contains_key(name@),
            },
    {
        let mut i: usize = self.entries.len();
        proof {
            assert(self.entries@.take(i as int) =~= self.entries@);
        }
        while i > 0
            invariant
                i <= self.entries@.len(),
                scope_map(self.entries@.take(i as int)).contains_key(name@) == self@.contains_key(
                    name@,
                ),
                scope_map(self.entries@.take(i as int)).contains_key(name@) ==> scope_map(
                    self.entries@.take(i as int),
                )[name@] == self@[name@],
            decreases i,
        {
            i = i - 1;
            proof {
                assert(self.entries@.take(i + 1).drop_last() =~= self.entries@.take(i as int));
                assert(self.entries@.take(i + 1).last() == self.entries@[i as int]);
            }
            if self.entries[i].0 == *name {
                return Option::Some(&self.entries[i].1);
            }
        }
        proof {
            assert(self.entries@.take(0) =~= Seq::<(Identifier, Value)>::empty());
        }
        Option::None
    }
}

/// Ghost model of a stack of scopes, innermost last.
pub open spec fn stack_view(ss: Seq<Scope>) -> StackSpec
    decreases ss,
{
    if ss.len() == 0 {
        Seq::empty()
    } else {
        stack_view(ss.drop_last()).push(ss.last()@)
    }
}

/// The model of a scope stack is elementwise.
pub broadcast proof fn lemma_stack_view(ss: Seq<Scope>)
    ensures
        (#[trigger] stack_view(ss)).len() == ss.len(),
        forall|i: int| 0 <= i < ss.len() ==> stack_view(ss)[i] == ss[i]@,
    decreases ss.len(),
{
    if ss.len() > 0 {
        lemma_stack_view(ss.drop_last());
    }
}

} // verus!
