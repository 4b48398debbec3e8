//! Shared cells: values that one or more namespaces own together, each with
//! a strong count of its owners.
//!
//! All shared cells live in a [`Cells`] store and are addressed by handles
//! ([`ResArc`]). A handle stands for one counted owner: cloning it counts one
//! more, releasing it one fewer, and releasing the last one destroys the value.
//! Every change of a count goes through `&mut Cells`, so counts change one
//! at a time.
use vstd::prelude::*;

use crate::registry::Resource;

verus! {

/// The most owners a shared cell can have.
pub const MAX_REFCOUNT: usize = isize::MAX as usize;

/// What a store holds for one live shared cell.
pub struct CellState<V> {
    /// Index of the resource whose value the cell holds.
    pub res: nat,
    /// Number of owners.
    pub strong: nat,
    /// The value.
    pub value: V,
}

/// The contents of a store: live cells by handle id.
pub type CellMap<V> = Map<int, CellState<V>>;

/// The store after one more owner of cell `id` was counted.
pub open spec fn after_clone<V>(m: CellMap<V>, id: int) -> CellMap<V> {
    m.insert(id, CellState { res: m[id].res, strong: m[id].strong + 1, value: m[id].value })
}

/// Whether releasing one owner of cell `id` destroys it.
pub open spec fn release_destroys<V>(m: CellMap<V>, id: int) -> bool {
    m[id].strong == 1
}

/// The store after one owner of cell `id` was released: the cell is gone when
/// that was its last owner.
pub open spec fn after_release<V>(m: CellMap<V>, id: int) -> CellMap<V> {
    if release_destroys(m, id) {
        m.remove(id)
    } else {
        m.insert(id, CellState { res: m[id].res, strong: (m[id].strong - 1) as nat, value: m[id].value })
    }
}

/// Whether cell `id` may be written through: it has exactly one owner.
pub open spec fn unique<V>(m: CellMap<V>, id: int) -> bool {
    m[id].strong == 1
}

/// The store after a run of `ops` on cell `id`; `true` clones, `false`
/// releases.
pub open spec fn run<V>(m: CellMap<V>, id: int, ops: Seq<bool>) -> CellMap<V>
    decreases ops.len(),
{
    if ops.len() == 0 {
        m
    } else {
        let before = run(m, id, ops.drop_last());
        if ops.last() {
            after_clone(before, id)
        } else {
            after_release(before, id)
        }
    }
}

/// The run `ops` never acts on cell `id` once it is gone.
pub open spec fn live_run<V>(m: CellMap<V>, id: int, ops: Seq<bool>) -> bool
    decreases ops.len(),
{
    if ops.len() == 0 {
        m.contains_key(id)
    } else {
        live_run(m, id, ops.drop_last()) && run(m, id, ops.drop_last()).contains_key(id)
    }
}

/// How many steps of `ops` destroy cell `id`.
pub open spec fn destructions<V>(m: CellMap<V>, id: int, ops: Seq<bool>) -> nat
    decreases ops.len(),
{
    if ops.len() == 0 {
        0
    } else {
        let before = run(m, id, ops.drop_last());
        destructions(m, id, ops.drop_last()) + if !ops.last() && release_destroys(before, id) {
            1nat
        } else {
            0nat
        }
    }
}

/// Owners of a cell that started with `start` owners, after `ops`.
pub open spec fn owners(start: int, ops: Seq<bool>) -> int
    decreases ops.len(),
{
    if ops.len() == 0 {
        start
    } else {
        owners(start, ops.drop_last()) + if ops.last() {
            1int
        } else {
            -1int
        }
    }
}

struct ResInner<V> {
    res: usize,
    strong: usize,
    value: V,
}

/// The store of shared cells. The slot of a destroyed cell is kept on a free
/// list and taken again by the next new cell.
pub struct Cells<V> {
    slots: Vec<Option<ResInner<V>>>,
    free: Vec<usize>,
}

/// A counted owner of one shared cell.
pub struct ResArc {
    id: usize,
}

impl ResArc {
    pub closed spec fn id(&self) -> int {
        self.id as int
    }
}

impl<V> View for Cells<V> {
    type V = CellMap<V>;

    closed spec fn view(&self) -> CellMap<V> {
        Map::new(
            |id: int| 0 <= id < self.slots@.len() && self.slots@[id] is Some,
            |id: int|
                CellState {
                    res: self.slots@[id]->Some_0.res as nat,
                    strong: self.slots@[id]->Some_0.strong as nat,
                    value: self.slots@[id]->Some_0.value,
                },
        )
    }
}

impl<V> Cells<V> {
    /// Every live cell has between one and `MAX_REFCOUNT` owners, and the
    /// free list names empty slots, each once.
    pub closed spec fn wf(&self) -> bool {
        &&& forall|id: int|
            0 <= id < self.slots@.len() && #[trigger] self.slots@[id] is Some ==> {
                let c = self.slots@[id]->Some_0;
                1 <= c.strong <= MAX_REFCOUNT
            }
        &&& forall|k: int|
            0 <= k < self.free@.len() ==> #[trigger] self.free@[k] < self.slots@.len()
                && self.slots@[self.free@[k] as int] is None
        &&& self.free@.no_duplicates()
    }

    /// A live cell's count lies between one and `MAX_REFCOUNT`.
    pub proof fn lemma_counts(&self, id: int)
        requires
            self.wf(),
            self@.contains_key(id),
        ensures
            1 <= self@[id].strong <= MAX_REFCOUNT,
    {
        assert(self.slots@[id] is Some);
    }

    /// An empty store.
    pub fn new() -> (r: Cells<V>)
        ensures
            r.wf(),
            r@ == Map::<int, CellState<V>>::empty(),
    {
        let r = Cells { slots: Vec::new(), free: Vec::new() };
        assert(r@ =~= Map::<int, CellState<V>>::empty());
        r
    }
}

impl ResArc {
    /// Creates a cell for `res` with one owner, its value a clone of the
    /// resource's default.
    pub fn new<V: Clone>(res: &Resource<V>, cells: &mut Cells<V>) -> (r: ResArc)
        requires
            old(cells).wf(),
        ensures
            final(cells).wf(),
            !old(cells)@.contains_key(r.id()),
            final(cells)@.contains_key(r.id()),
            final(cells)@ == old(cells)@.insert(r.id(), final(cells)@[r.id()]),
            final(cells)@[r.id()].res == res.index(),
            final(cells)@[r.id()].strong == 1,
            cloned(res.default_spec(), final(cells)@[r.id()].value),
    {
        let value = res.default_value().clone();
        let inner = ResInner { res: res.index(), strong: 1, value };
        let id = match cells.free.pop() {
            Some(id) => {
                proof {
                    assert(old(cells).free@[old(cells).free@.len() - 1] == id);
                    assert forall|k: int| 0 <= k < cells.free@.len() implies #[trigger] cells.free@[k]
                        != id by {
                        assert(cells.free@[k] == old(cells).free@[k]);
                    }
                }
                cells.slots.set(id, Some(inner));
                id
            },
            None => {
                let id = cells.slots.len();
                cells.slots.push(Some(inner));
                id
            },
        };
        let ghost st = CellState { res: res.index() as nat, strong: 1nat, value };
        assert(cells@ =~= old(cells)@.insert(id as int, st));
        ResArc { id }
    }

    /// Counts one more owner of this handle's cell and returns a handle for it.
    pub fn clone<V>(&self, cells: &mut Cells<V>) -> (r: ResArc)
        requires
            old(cells).wf(),
            old(cells)@.contains_key(self.id()),
            old(cells)@[self.id()].strong < MAX_REFCOUNT,
        ensures
            final(cells).wf(),
            r.id() == self.id(),
            final(cells)@ == after_clone(old(cells)@, self.id()),
    {
        let slot = &mut cells.slots[self.id];
        match slot {
            Some(inner) => {
                inner.strong = inner.strong + 1;
            },
            None => {},
        }
        assert(cells@ =~= after_clone(old(cells)@, self.id()));
        ResArc { id: self.id }
    }

    /// Releases this owner. When it was the last one, the cell's value is
    /// dropped and the cell is gone; returns whether that happened.
    pub fn release<V>(self, cells: &mut Cells<V>) -> (destroyed: bool)
        requires
            old(cells).wf(),
            old(cells)@.contains_key(self.id()),
        ensures
            final(cells).wf(),
            destroyed == release_destroys(old(cells)@, self.id()),
            final(cells)@ == after_release(old(cells)@, self.id()),
    {
        let id = self.id;
        let last = match &cells.slots[id] {
            Some(inner) => inner.strong == 1,
            None => false,
        };
        if last {
            cells.slots.set(id, None);
            cells.free.push(id);
            proof {
                assert forall|k: int| 0 <= k < old(cells).free@.len() implies #[trigger] old(
                    cells,
                ).free@[k] != id by {}
            }
            assert(cells@ =~= after_release(old(cells)@, id as int));
        } else {
            let slot = &mut cells.slots[id];
            match slot {
                Some(inner) => {
                    inner.strong = inner.strong - 1;
                },
                None => {},
            }
            assert(cells@ =~= after_release(old(cells)@, id as int));
        }
        last
    }

    /// The value of this handle's cell.
    pub fn as_ref<'a, V>(&self, cells: &'a Cells<V>) -> (r: &'a V)
        requires
            cells@.contains_key(self.id()),
        ensures
            *r == cells@[self.id()].value,
    {
        let inner = cells.slots[self.id].as_ref().unwrap();
        &inner.value
    }

    /// The value of this handle's cell, for writing, where this handle is its
    /// only owner; `None` where the cell has other owners.
    pub fn get_mut<'a, V>(&self, cells: &'a mut Cells<V>) -> (r: Option<&'a mut V>)
        requires
            old(cells).wf(),
            old(cells)@.contains_key(self.id()),
        ensures
            r.is_some() <==> unique(old(cells)@, self.id()),
            r.is_none() ==> *final(cells) == *old(cells),
            r matches Some(v) ==> {
                &&& *v == old(cells)@[self.id()].value
                &&& final(cells).wf()
                &&& final(cells)@ == old(cells)@.insert(
                    self.id(),
                    CellState { res: old(cells)@[self.id()].res, strong: 1, value: *final(v) },
                )
            },
    {
        let count = match &cells.slots[self.id] {
            Some(inner) => inner.strong,
            None => 0,
        };
        if count != 1 {
            return None;
        }
        let slot = &mut cells.slots[self.id];
        match slot {
            Some(inner) => Some(&mut inner.value),
            None => None,
        }
    }
}

/// Balanced counting: along any run of clones and releases on a live cell
/// that never acts on it once it is gone, the value is destroyed at most
/// once; it is destroyed exactly when the run has released every owner it
/// started with or added, and while owners remain, their number is the
/// cell's strong count.
pub proof fn lemma_balanced_counting<V>(m: CellMap<V>, id: int, ops: Seq<bool>)
    requires
        m.contains_key(id),
        m[id].strong >= 1,
        live_run(m, id, ops),
    ensures
        destructions(m, id, ops) <= 1,
        destructions(m, id, ops) == 1 <==> owners(m[id].strong as int, ops) == 0,
        destructions(m, id, ops) == 1 <==> !run(m, id, ops).contains_key(id),
        run(m, id, ops).contains_key(id) ==> run(m, id, ops)[id].strong == owners(
            m[id].strong as int,
            ops,
        ) && owners(m[id].strong as int, ops) >= 1,
    decreases ops.len(),
{
    if ops.len() > 0 {
        let prev = ops.drop_last();
        lemma_balanced_counting(m, id, prev);
    }
}

} // verus!
