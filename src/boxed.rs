//! Uniquely owned cells: one value with the index of the item it belongs to.
use vstd::prelude::*;

use crate::registry::Item;

verus! {

/// A cell owned by exactly one scope; its value is dropped with it.
pub(crate) struct ItemBox<V> {
    item: usize,
    value: V,
}

impl<V> ItemBox<V> {
    pub(crate) closed spec fn item_spec(&self) -> usize {
        self.item
    }

    pub(crate) closed spec fn value(&self) -> V {
        self.value
    }

    /// A cell for `item`, its value a clone of the item's default.
    pub(crate) fn new(item: &Item<V>) -> (r: ItemBox<V>)
        where
            V: Clone,
        ensures
            r.item_spec() == item.index(),
            cloned(item.default_spec(), r.value()),
    {
        ItemBox { item: item.index(), value: item.default_value().clone() }
    }

    pub(crate) fn as_ref(&self) -> (r: &V)
        ensures
            *r == self.value(),
    {
        &self.value
    }

    pub(crate) fn as_mut(&mut self) -> (r: &mut V)
        ensures
            *r == old(self).value(),
            final(self).item_spec() == old(self).item_spec(),
            final(self).value() == *final(r),
    {
        &mut self.value
    }
}

} // verus!
