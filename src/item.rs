//! Accessors of scope-local items.
use vstd::prelude::*;

use crate::registry::Item;
use crate::scope::{ActiveScope, Scope};

verus! {

/// Handle on one scope-local item, addressing its value in any scope built
/// from the registry the item was registered in.
#[derive(Clone, Copy, Debug, PartialEq, Eq)]
pub struct LocalItem {
    index: usize,
}

/// The value of an item within a specific scope.
///
/// Created by [`LocalItem::scope`].
pub struct ScopeItem<'a, V> {
    value: &'a V,
}

/// The value of an item within a specific scope, for writing.
///
/// Created by [`LocalItem::scope_mut`].
pub struct ScopeItemMut<'a, V> {
    /// The item's place in the scope.
    pub value: &'a mut V,
}

impl<'a, V> ScopeItem<'a, V> {
    pub closed spec fn value(&self) -> V {
        *self.value
    }

    /// The value.
    pub fn get(&self) -> (r: &'a V)
        ensures
            *r == self.value(),
    {
        self.value
    }
}

impl LocalItem {
    pub closed spec fn index_spec(&self) -> usize {
        self.index
    }

    /// The handle on `item`.
    pub fn new<V>(item: &Item<V>) -> (r: LocalItem)
        ensures
            r.index() == item.index(),
    {
        LocalItem { index: item.index() }
    }

    /// Index of the item, and of its value in a scope.
    #[verifier::when_used_as_spec(index_spec)]
    pub fn index(&self) -> (r: usize)
        ensures
            r == self.index_spec(),
    {
        self.index
    }

    /// The item's value in the scope that `active` resolves to.
    pub fn current<'a, V>(&self, active: &ActiveScope<'a, V>) -> (r: &'a V)
        requires
            self.index() < active.resolved()@.len(),
        ensures
            *r == active.resolved()@[self.index() as int],
    {
        active.get(self.index)
    }

    /// The item within `scope`.
    pub fn scope<'a, V>(&self, scope: &'a Scope<V>) -> (r: ScopeItem<'a, V>)
        requires
            self.index() < scope@.len(),
        ensures
            r.value() == scope@[self.index() as int],
    {
        ScopeItem { value: scope.get(self.index) }
    }

    /// The item within `scope`, for writing: once the access ends, `scope`
    /// holds its final value in the item's place and is otherwise unchanged.
    pub fn scope_mut<'a, V>(&self, scope: &'a mut Scope<V>) -> (r: ScopeItemMut<'a, V>)
        requires
            self.index() < old(scope)@.len(),
        ensures
            *r.value == old(scope)@[self.index() as int],
            final(scope)@ == old(scope)@.update(self.index() as int, *final(r.value)),
    {
        ScopeItemMut { value: scope.get_mut(self.index) }
    }
}

} // verus!
