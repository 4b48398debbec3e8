//! Accessors of namespace resources, and the choice of the current namespace.
use vstd::prelude::*;

use crate::arc::{after_clone, after_release, unique, CellMap, CellState, Cells, ResArc, MAX_REFCOUNT};
use crate::ns::Namespace;
use crate::registry::{Registry, Resource};

verus! {

/// The store after `share_from`: the source cell `src` gains an owner, then
/// the destination's previous cell `dst` loses one.
pub open spec fn after_share<V>(m: CellMap<V>, dst: int, src: int) -> CellMap<V> {
    after_release(after_clone(m, src), dst)
}

/// Handle on one resource, addressing its slot in any namespace built from
/// the registry the resource was registered in.
#[derive(Clone, Copy, Debug, PartialEq, Eq)]
pub struct ResWrapper {
    index: usize,
}

/// The value of a resource in the current namespace.
pub struct ResCurrent<'a, V> {
    value: &'a V,
}

impl<'a, V> ResCurrent<'a, V> {
    pub closed spec fn value(&self) -> V {
        *self.value
    }

    /// The value.
    pub fn get(&self) -> (r: &'a V)
        ensures
            *r == self.value(),
    {
        self.value
    }
}

/// Which namespace "current" accesses read: a global namespace, unless
/// another one has been entered.
pub struct CurrentNs<'a> {
    global: &'a Namespace,
    active: Option<&'a Namespace>,
}

impl<'a> CurrentNs<'a> {
    pub closed spec fn global(&self) -> Namespace {
        *self.global
    }

    pub closed spec fn active(&self) -> Option<Namespace> {
        match self.active {
            Some(ns) => Some(*ns),
            None => None,
        }
    }

    /// The namespace that "current" accesses read.
    pub open spec fn resolved(&self) -> Namespace {
        match self.active() {
            Some(ns) => ns,
            None => self.global(),
        }
    }

    /// Current accesses read `global`.
    pub fn new(global: &'a Namespace) -> (r: CurrentNs<'a>)
        ensures
            r.global() == *global,
            r.active() == None::<Namespace>,
    {
        CurrentNs { global, active: None }
    }

    /// Current accesses read `ns` from now on.
    pub fn enter(&mut self, ns: &'a Namespace)
        ensures
            final(self).global() == old(self).global(),
            final(self).active() == Some(*ns),
    {
        self.active = Some(ns);
    }

    /// Current accesses read the global namespace again.
    pub fn leave(&mut self)
        ensures
            final(self).global() == old(self).global(),
            final(self).active() == None::<Namespace>,
    {
        self.active = None;
    }

    /// Whether current accesses read the global namespace.
    pub fn is_global(&self) -> (r: bool)
        ensures
            r == (self.active() == None::<Namespace>),
    {
        self.active.is_none()
    }

    /// The namespace that current accesses read.
    pub fn get(&self) -> (r: &'a Namespace)
        ensures
            *r == self.resolved(),
    {
        match self.active {
            Some(ns) => ns,
            None => self.global,
        }
    }
}

impl ResWrapper {
    pub closed spec fn index_spec(&self) -> usize {
        self.index
    }

    /// The handle on `res`.
    pub fn new<V>(res: &Resource<V>) -> (r: ResWrapper)
        ensures
            r.index() == res.index(),
    {
        ResWrapper { index: res.index() }
    }

    /// Index of the resource, and of its slot.
    #[verifier::when_used_as_spec(index_spec)]
    pub fn index(&self) -> (r: usize)
        ensures
            r == self.index_spec(),
    {
        self.index
    }

    /// The resource's value in the namespace that `current` resolves to.
    pub fn current<'a, V>(&self, current: &CurrentNs<'a>, cells: &'a Cells<V>) -> (r: ResCurrent<
        'a,
        V,
    >)
        requires
            self.index() < current.resolved()@.len(),
            current.resolved().valid_in(cells@),
        ensures
            r.value() == cells@[current.resolved()@[self.index() as int]].value,
    {
        let ns = current.get();
        ResCurrent { value: self.get(ns, cells) }
    }

    /// The resource's value in `ns`.
    pub fn get<'a, V>(&self, ns: &Namespace, cells: &'a Cells<V>) -> (r: &'a V)
        requires
            self.index() < ns@.len(),
            ns.valid_in(cells@),
        ensures
            *r == cells@[ns@[self.index() as int]].value,
    {
        ns.get(self.index).as_ref(cells)
    }

    /// The resource's value in `ns`, for writing; `None` where the slot's
    /// cell is shared with another namespace.
    pub fn get_mut<'a, V>(&self, ns: &Namespace, cells: &'a mut Cells<V>) -> (r: Option<&'a mut V>)
        requires
            self.index() < ns@.len(),
            ns.valid_in(old(cells)@),
            old(cells).wf(),
        ensures
            ({
                let id = ns@[self.index() as int];
                &&& r.is_some() <==> unique(old(cells)@, id)
                &&& r.is_none() ==> *final(cells) == *old(cells)
                &&& r matches Some(v) ==> {
                    &&& *v == old(cells)@[id].value
                    &&& final(cells).wf()
                    &&& final(cells)@ == old(cells)@.insert(
                        id,
                        CellState { res: old(cells)@[id].res, strong: 1, value: *final(v) },
                    )
                }
            }),
    {
        ns.get(self.index).get_mut(cells)
    }

    /// Makes `dst` share `src`'s cell of this resource: the cell gains an
    /// owner, and the cell `dst` held before loses one (and is dropped when
    /// that was its last owner).
    pub fn share_from<V>(&self, dst: &mut Namespace, src: &Namespace, cells: &mut Cells<V>)
        requires
            self.index() < old(dst)@.len(),
            self.index() < src@.len(),
            old(cells).wf(),
            old(dst).valid_in(old(cells)@),
            src.valid_in(old(cells)@),
            old(cells)@[src@[self.index() as int]].strong < MAX_REFCOUNT,
        ensures
            final(cells).wf(),
            final(dst)@ == old(dst)@.update(self.index() as int, src@[self.index() as int]),
            final(cells)@ == after_share(
                old(cells)@,
                old(dst)@[self.index() as int],
                src@[self.index() as int],
            ),
            final(dst).valid_in(final(cells)@),
            src.valid_in(final(cells)@),
    {
        let ghost m = cells@;
        let ghost i = self.index as int;
        let ghost sid = src@[i];
        let ghost did = old(dst)@[i];
        proof {
            cells.lemma_counts(sid);
            cells.lemma_counts(did);
            assert(m[did].res == i);
            assert(m[sid].res == i);
        }
        let h = src.get(self.index).clone(cells);
        let prev = dst.replace(self.index, h);
        prev.release(cells);
        assert forall|k: int| #![trigger dst@[k]] 0 <= k < dst@.len() implies cells@.contains_key(
            dst@[k],
        ) && cells@[dst@[k]].res == k by {
            if k != i {
                assert(old(dst)@[k] == dst@[k]);
                assert(m.contains_key(dst@[k]) && m[dst@[k]].res == k);
                assert(dst@[k] != did);
            } else {
                assert(dst@[k] == sid);
            }
        }
        assert forall|k: int| #![trigger src@[k]] 0 <= k < src@.len() implies cells@.contains_key(
            src@[k],
        ) && cells@[src@[k]].res == k by {
            assert(m.contains_key(src@[k]) && m[src@[k]].res == k);
            if k != i {
                assert(src@[k] != did);
            }
        }
    }

    /// Puts a fresh cell, its value a clone of the resource's default, into
    /// the slot of `ns`; the cell held before loses an owner (and is dropped
    /// when that was its last owner).
    pub fn reset<V: Clone>(&self, ns: &mut Namespace, reg: &Registry<V>, cells: &mut Cells<V>)
        requires
            reg.wf(),
            self.index() < reg@.len(),
            self.index() < old(ns)@.len(),
            old(cells).wf(),
            old(ns).valid_in(old(cells)@),
        ensures
            ({
                let i = self.index() as int;
                let id = final(ns)@[i];
                &&& final(cells).wf()
                &&& final(ns)@ == old(ns)@.update(i, id)
                &&& !old(cells)@.contains_key(id)
                &&& final(cells)@ == after_release(old(cells)@, old(ns)@[i]).insert(
                    id,
                    final(cells)@[id],
                )
                &&& final(cells)@[id].res == i
                &&& final(cells)@[id].strong == 1
                &&& cloned(reg@[i].default_spec(), final(cells)@[id].value)
                &&& final(ns).valid_in(final(cells)@)
            }),
    {
        let ghost m = cells@;
        let ghost i = self.index as int;
        let res = reg.get(self.index);
        let h = ResArc::new(res, cells);
        let ghost nid = h.id();
        let ghost st = cells@[nid];
        let prev = ns.replace(self.index, h);
        prev.release(cells);
        assert(cells@ =~= after_release(m, old(ns)@[i]).insert(nid, st));
        assert forall|k: int| #![trigger ns@[k]] 0 <= k < ns@.len() implies cells@.contains_key(
            ns@[k],
        ) && cells@[ns@[k]].res == k by {
            if k != i {
                assert(old(ns)@[k] == ns@[k]);
                assert(m[old(ns)@[i]].res == i);
            }
        }
    }
}

/// Sharing a resource blocks writes on both sides until one side lets go:
/// where `src`'s cell had one owner, after `share_from` neither namespace may
/// write it, and once the destination releases it again (by `reset` or by
/// being released itself) the source's cell is back to one owner, unchanged.
pub proof fn lemma_share_blocks_writes<V>(m: CellMap<V>, dst: int, src: int)
    requires
        m.contains_key(dst),
        m.contains_key(src),
        dst != src,
        m[dst].strong >= 1,
        m[src].strong == 1,
    ensures
        after_share(m, dst, src).contains_key(src),
        !unique(after_share(m, dst, src), src),
        after_release(after_share(m, dst, src), src).contains_key(src),
        unique(after_release(after_share(m, dst, src), src), src),
        after_release(after_share(m, dst, src), src)[src] == m[src],
{
}

} // verus!
