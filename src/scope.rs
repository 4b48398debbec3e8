//! Scopes: one uniquely owned cell per registered item, and the choice of the
//! active scope.
use vstd::prelude::*;

use crate::boxed::ItemBox;
use crate::registry::Registry;

verus! {

/// A collection of items, one value per registered item, addressed by the
/// item's index. Dropping a scope drops every value it holds.
pub struct Scope<V> {
    boxes: Vec<ItemBox<V>>,
}

impl<V> View for Scope<V> {
    type V = Seq<V>;

    /// The values, by item index.
    closed spec fn view(&self) -> Seq<V> {
        self.boxes@.map_values(|b: ItemBox<V>| b.value())
    }
}

impl<V> Scope<V> {
    /// A scope with one value per item of `reg`, in registry order, each a
    /// clone of its item's default.
    pub fn new(reg: &Registry<V>) -> (r: Scope<V>)
        where
            V: Clone,
        requires
            reg.wf(),
        ensures
            r@.len() == reg@.len(),
            forall|i: int|
                #![trigger r@[i]]
                0 <= i < r@.len() ==> cloned(reg@[i].default_spec(), r@[i]),
    {
        let n = reg.len();
        let mut boxes: Vec<ItemBox<V>> = Vec::new();
        let mut i: usize = 0;
        while i < n
            invariant
                n == reg@.len(),
                reg.wf(),
                i <= n,
                boxes@.len() == i,
                forall|k: int|
                    0 <= k < i ==> {
                        &&& (#[trigger] boxes@[k]).item_spec() == k
                        &&& cloned(reg@[k].default_spec(), boxes@[k].value())
                    },
            decreases n - i,
        {
            let item = reg.get(i);
            assert(reg@[i as int].index() == i);
            boxes.push(ItemBox::new(item));
            i = i + 1;
        }
        Scope { boxes }
    }

    /// Number of items.
    pub fn len(&self) -> (r: usize)
        ensures
            r == self@.len(),
    {
        self.boxes.len()
    }

    /// The value of the item at `index`.
    pub fn get(&self, index: usize) -> (r: &V)
        requires
            index < self@.len(),
        ensures
            *r == self@[index as int],
    {
        self.boxes[index].as_ref()
    }

    /// The value of the item at `index`, for writing.
    pub fn get_mut(&mut self, index: usize) -> (r: &mut V)
        requires
            index < old(self)@.len(),
        ensures
            *r == old(self)@[index as int],
            final(self)@ == old(self)@.update(index as int, *final(r)),
    {
        let b = &mut self.boxes[index];
        b.as_mut()
    }
}

/// Which scope item accesses read: a global scope, unless another scope has
/// been set active.
pub struct ActiveScope<'a, V> {
    global: &'a Scope<V>,
    active: Option<&'a Scope<V>>,
}

impl<'a, V> ActiveScope<'a, V> {
    pub closed spec fn global(&self) -> Scope<V> {
        *self.global
    }

    pub closed spec fn active(&self) -> Option<Scope<V>> {
        match self.active {
            Some(s) => Some(*s),
            None => None,
        }
    }

    /// The scope that item accesses read.
    pub open spec fn resolved(&self) -> Scope<V> {
        match self.active() {
            Some(s) => s,
            None => self.global(),
        }
    }

    /// Item accesses read `global`.
    pub fn new(global: &'a Scope<V>) -> (r: ActiveScope<'a, V>)
        ensures
            r.global() == *global,
            r.active() == None::<Scope<V>>,
    {
        ActiveScope { global, active: None }
    }

    /// Item accesses read `scope` from now on.
    pub fn set(&mut self, scope: &'a Scope<V>)
        ensures
            final(self).global() == old(self).global(),
            final(self).active() == Some(*scope),
    {
        self.active = Some(scope);
    }

    /// Item accesses read the global scope again.
    pub fn set_global(&mut self)
        ensures
            final(self).global() == old(self).global(),
            final(self).active() == None::<Scope<V>>,
    {
        self.active = None;
    }

    /// Whether item accesses read the global scope.
    pub fn is_global(&self) -> (r: bool)
        ensures
            r == (self.active() == None::<Scope<V>>),
    {
        self.active.is_none()
    }

    /// The value of the item at `index` in the scope that accesses read.
    pub fn get(&self, index: usize) -> (r: &'a V)
        requires
            index < self.resolved()@.len(),
        ensures
            *r == self.resolved()@[index as int],
    {
        let scope: &'a Scope<V> = match self.active {
            Some(s) => s,
            None => self.global,
        };
        scope.get(index)
    }
}

} // verus!
