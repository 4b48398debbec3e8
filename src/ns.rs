//! Namespaces: one shared cell per registered resource.
use vstd::prelude::*;

use crate::arc::{after_release, CellMap, Cells, ResArc};
use crate::registry::Registry;

verus! {

/// The store after releasing one owner of each cell in `ids`, first to last.
pub open spec fn release_all<V>(m: CellMap<V>, ids: Seq<int>) -> CellMap<V>
    decreases ids.len(),
{
    if ids.len() == 0 {
        m
    } else {
        after_release(release_all(m, ids.drop_last()), ids.last())
    }
}

/// A container of shared cells, one per registered resource, addressed by
/// the resource's index. Its cells live in a [`Cells`] store; a namespace
/// owns one count of each. A namespace is taken apart with
/// [`Namespace::release`], which gives those counts back.
pub struct Namespace {
    slots: Vec<ResArc>,
}

impl View for Namespace {
    type V = Seq<int>;

    /// The ids of the cells, by resource index.
    closed spec fn view(&self) -> Seq<int> {
        self.slots@.map_values(|h: ResArc| h.id())
    }
}

impl Namespace {
    /// Every slot's cell is live in `m` and holds the resource of that slot's
    /// index.
    pub open spec fn valid_in<V>(&self, m: CellMap<V>) -> bool {
        forall|i: int|
            #![trigger self@[i]]
            0 <= i < self@.len() ==> m.contains_key(self@[i]) && m[self@[i]].res == i
    }

    /// A namespace with a fresh cell for each resource of `reg`, in registry
    /// order, each cell's value a clone of its resource's default and each
    /// cell with this namespace as its only owner.
    pub fn new<V: Clone>(reg: &Registry<V>, cells: &mut Cells<V>) -> (r: Namespace)
        requires
            reg.wf(),
            old(cells).wf(),
        ensures
            final(cells).wf(),
            r@.len() == reg@.len(),
            r.valid_in(final(cells)@),
            forall|i: int|
                #![trigger r@[i]]
                0 <= i < r@.len() ==> {
                    &&& !old(cells)@.contains_key(r@[i])
                    &&& final(cells)@[r@[i]].strong == 1
                    &&& cloned(reg@[i].default_spec(), final(cells)@[r@[i]].value)
                },
            forall|i: int, j: int| 0 <= i < j < r@.len() ==> r@[i] != r@[j],
            forall|id: int|
                #![trigger final(cells)@.contains_key(id)]
                old(cells)@.contains_key(id) ==> final(cells)@.contains_key(id)
                    && final(cells)@[id] == old(cells)@[id],
            forall|id: int|
                #![trigger final(cells)@.contains_key(id)]
                final(cells)@.contains_key(id) ==> old(cells)@.contains_key(id) || r@.contains(id),
    {
        let n = reg.len();
        let mut slots: Vec<ResArc> = Vec::new();
        let mut i: usize = 0;
        while i < n
            invariant
                n == reg@.len(),
                reg.wf(),
                i <= n,
                cells.wf(),
                slots@.len() == i,
                forall|k: int|
                    0 <= k < i ==> {
                        let id = #[trigger] slots@[k].id();
                        &&& !old(cells)@.contains_key(id)
                        &&& cells@.contains_key(id)
                        &&& cells@[id].res == k
                        &&& cells@[id].strong == 1
                        &&& cloned(reg@[k].default_spec(), cells@[id].value)
                    },
                forall|k: int, j: int|
                    0 <= k < j < i ==> #[trigger] slots@[k].id() != #[trigger] slots@[j].id(),
                forall|id: int|
                    #![trigger cells@.contains_key(id)]
                    old(cells)@.contains_key(id) ==> cells@.contains_key(id) && cells@[id]
                        == old(cells)@[id],
                forall|id: int|
                    #![trigger cells@.contains_key(id)]
                    cells@.contains_key(id) ==> old(cells)@.contains_key(id) || exists|k: int|
                        0 <= k < i && #[trigger] slots@[k].id() == id,
            decreases n - i,
        {
            let res = reg.get(i);
            assert(reg@[i as int].index() == i);
            let h = ResArc::new(res, cells);
            let ghost prev = slots@;
            slots.push(h);
            assert forall|id: int| #[trigger] cells@.contains_key(id) implies old(
                cells,
            )@.contains_key(id) || exists|k: int|
                0 <= k < i + 1 && #[trigger] slots@[k].id() == id by {
                if !old(cells)@.contains_key(id) && id != slots@[i as int].id() {
                    let k = choose|k: int| 0 <= k < i && #[trigger] prev[k].id() == id;
                    assert(slots@[k] == prev[k]);
                }
            }
            i = i + 1;
        }
        let r = Namespace { slots };
        assert forall|id: int| #[trigger] cells@.contains_key(id) implies old(cells)@.contains_key(
            id,
        ) || r@.contains(id) by {
            if !old(cells)@.contains_key(id) {
                let k = choose|k: int| 0 <= k < i && #[trigger] slots@[k].id() == id;
                assert(r@[k] == id);
            }
        }
        r
    }

    /// Number of slots.
    pub fn len(&self) -> (r: usize)
        ensures
            r == self@.len(),
    {
        self.slots.len()
    }

    /// The handle in slot `index`.
    pub fn get(&self, index: usize) -> (r: &ResArc)
        requires
            index < self@.len(),
        ensures
            r.id() == self@[index as int],
    {
        &self.slots[index]
    }

    /// Puts `h` into slot `index` and returns the handle that was there.
    pub(crate) fn replace(&mut self, index: usize, h: ResArc) -> (r: ResArc)
        requires
            index < old(self)@.len(),
        ensures
            r.id() == old(self)@[index as int],
            final(self)@ == old(self)@.update(index as int, h.id()),
    {
        let mut h = h;
        let ghost hid = h.id();
        let ghost old_slots = self.slots@;
        self.slots.set_and_swap(index, &mut h);
        assert(self@ =~= old(self)@.update(index as int, hid));
        h
    }

    /// Gives back this namespace's count of each of its cells, from the
    /// first slot to the last; a cell whose last owner this was is dropped.
    pub fn release<V>(self, cells: &mut Cells<V>)
        requires
            old(cells).wf(),
            self.valid_in(old(cells)@),
        ensures
            final(cells).wf(),
            final(cells)@ == release_all(old(cells)@, self@),
    {
        let ghost ids = self@;
        let mut slots = self.slots;
        let mut rest: Vec<ResArc> = Vec::new();
        // Take the handles out in reverse, so that the first slot is released first.
        while slots.len() > 0
            invariant
                rest@.len() + slots@.len() == ids.len(),
                forall|k: int|
                    0 <= k < slots@.len() ==> #[trigger] slots@[k].id() == ids[k],
                forall|k: int|
                    0 <= k < rest@.len() ==> #[trigger] rest@[k].id() == ids[ids.len() - 1 - k],
            decreases slots@.len(),
        {
            let h = slots.pop().unwrap();
            rest.push(h);
        }
        let ghost n = ids.len();
        let total: usize = rest.len();
        assert(n == total);
        let mut done: usize = 0;
        while rest.len() > 0
            invariant
                n <= usize::MAX,
                cells.wf(),
                done + rest@.len() == n,
                n == ids.len(),
                self.valid_in(old(cells)@),
                ids == self@,
                forall|k: int|
                    0 <= k < rest@.len() ==> #[trigger] rest@[k].id() == ids[n - 1 - k],
                cells@ == release_all(old(cells)@, ids.take(done as int)),
                forall|k: int|
                    #![trigger ids[k]]
                    done <= k < n ==> cells@.contains_key(ids[k]) && cells@[ids[k]]
                        == old(cells)@[ids[k]],
            decreases rest@.len(),
        {
            let h = rest.pop().unwrap();
            let ghost id = h.id();
            assert(id == ids[done as int]);
            assert(ids.take(done as int + 1).drop_last() =~= ids.take(done as int));
            h.release(cells);
            assert forall|k: int| #![trigger ids[k]] done + 1 <= k < n implies cells@.contains_key(
                ids[k],
            ) && cells@[ids[k]] == old(cells)@[ids[k]] by {
                assert(old(cells)@[ids[k]].res == k);
                assert(old(cells)@[ids[done as int]].res == done);
            }
            done = done + 1;
        }
        assert(ids.take(n as int) =~= ids);
    }
}

} // verus!
