//! The registry: an append-only, ordered table of resource descriptors.
use vstd::prelude::*;

use crate::layout::{cell_fits, cell_layout, Layout};

verus! {

/// Words in the header of a shared cell: the descriptor and the strong count.
pub const SHARED_HEADER_WORDS: usize = 2;

/// Words in the header of a uniquely owned cell: the descriptor.
pub const UNIQUE_HEADER_WORDS: usize = 1;

/// Describes one resource: the layout of its value, its position in the
/// registry, and the default value that each new container starts from.
pub struct Resource<V> {
    layout: Layout,
    index: usize,
    default: V,
}

/// Scope-local items are described exactly as namespace resources are.
pub type Item<V> = Resource<V>;

/// A descriptor with this layout can be registered: its value is not empty,
/// and both kinds of cell that hold it can be allocated.
pub open spec fn registrable(layout: Layout) -> bool {
    &&& layout.wf()
    &&& layout.size() > 0
    &&& cell_fits(SHARED_HEADER_WORDS as nat, layout)
    &&& cell_fits(UNIQUE_HEADER_WORDS as nat, layout)
}

impl<V> Resource<V> {
    pub closed spec fn index_spec(&self) -> usize {
        self.index
    }

    pub closed spec fn layout_spec(&self) -> Layout {
        self.layout
    }

    pub closed spec fn default_spec(&self) -> V {
        self.default
    }

    /// Position of this descriptor in its registry; the key of its slot in
    /// every container.
    #[verifier::when_used_as_spec(index_spec)]
    pub fn index(&self) -> (r: usize)
        ensures
            r == self.index_spec(),
    {
        self.index
    }

    /// Layout of the resource's value.
    #[verifier::when_used_as_spec(layout_spec)]
    pub fn layout(&self) -> (r: Layout)
        ensures
            r == self.layout_spec(),
    {
        self.layout
    }

    /// The value each new container's slot is initialised from.
    pub fn default_value(&self) -> (r: &V)
        ensures
            *r == self.default_spec(),
    {
        &self.default
    }
}

/// The ordered list of every registered resource.
pub struct Registry<V> {
    entries: Vec<Resource<V>>,
}

impl<V> View for Registry<V> {
    type V = Seq<Resource<V>>;

    closed spec fn view(&self) -> Seq<Resource<V>> {
        self.entries@
    }
}

impl<V> Registry<V> {
    /// Each descriptor sits at its own index, and each can be registered.
    pub open spec fn wf(&self) -> bool {
        forall|i: int|
            #![trigger self@[i]]
            0 <= i < self@.len() ==> self@[i].index() == i && registrable(self@[i].layout())
    }

    /// An empty registry.
    pub fn new() -> (r: Registry<V>)
        ensures
            r@.len() == 0,
            r.wf(),
    {
        Registry { entries: Vec::new() }
    }

    /// Number of registered resources.
    pub fn len(&self) -> (r: usize)
        ensures
            r == self@.len(),
    {
        self.entries.len()
    }

    /// The descriptor at `index`.
    pub fn get(&self, index: usize) -> (r: &Resource<V>)
        requires
            index < self@.len(),
        ensures
            *r == self@[index as int],
    {
        &self.entries[index]
    }

    /// Appends a descriptor for a value of layout `layout` starting from
    /// `default`, and returns its index. Refuses (with `None`, leaving the
    /// registry as it was) a layout that is not registrable, or a registry
    /// whose indices are used up.
    pub fn register(&mut self, layout: Layout, default: V) -> (r: Option<usize>)
        requires
            old(self).wf(),
            layout.wf(),
        ensures
            final(self).wf(),
            r.is_some() <==> registrable(layout) && old(self)@.len() < usize::MAX,
            r.is_none() ==> final(self)@ == old(self)@,
            r matches Some(i) ==> {
                &&& i == old(self)@.len()
                &&& final(self)@.len() == old(self)@.len() + 1
                &&& final(self)@.take(i as int) == old(self)@
                &&& final(self)@[i as int].index() == i
                &&& final(self)@[i as int].layout() == layout
                &&& final(self)@[i as int].default_spec() == default
            },
    {
        let index = self.entries.len();
        if index == usize::MAX || layout.size() == 0 {
            return None;
        }
        if cell_layout(SHARED_HEADER_WORDS, &layout).is_none() {
            return None;
        }
        if cell_layout(UNIQUE_HEADER_WORDS, &layout).is_none() {
            return None;
        }
        self.entries.push(Resource { layout, index, default });
        assert(self@.take(index as int) =~= old(self)@);
        Some(index)
    }

    /// Index bijection: indices `0..len` address distinct descriptors, each at
    /// the position its index names, so no two descriptors share a slot.
    pub proof fn lemma_index_bijection(&self, i: int, j: int)
        requires
            self.wf(),
            0 <= i < self@.len(),
            0 <= j < self@.len(),
        ensures
            self@[i].index() == i,
            self@[i].index() < self@.len(),
            self@[i].index() == self@[j].index() <==> i == j,
    {
    }
}

} // verus!
