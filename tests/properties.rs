use std::sync::atomic::{AtomicUsize, Ordering::SeqCst};
use std::sync::Arc;

use axns::{
    Cells, CurrentNs, Layout, LocalItem, Namespace, Registry, ResArc, ResWrapper, Scope,
};

fn layout_of<T>() -> Layout {
    Layout::from_size_align(std::mem::size_of::<T>(), std::mem::align_of::<T>()).unwrap()
}

fn define<V>(reg: &mut Registry<V>, default: V) -> ResWrapper {
    let index = reg.register(layout_of::<V>(), default).unwrap();
    ResWrapper::new(reg.get(index))
}

/// A value that counts how often it was cloned.
#[derive(Debug)]
struct Counted {
    value: i32,
    clones: Arc<AtomicUsize>,
}

impl Clone for Counted {
    fn clone(&self) -> Self {
        self.clones.fetch_add(1, SeqCst);
        Counted {
            value: self.value,
            clones: self.clones.clone(),
        }
    }
}

/// A reference-counted value whose clone is a new allocation.
#[derive(Debug)]
struct Fresh(Arc<i32>);

impl Clone for Fresh {
    fn clone(&self) -> Self {
        Fresh(Arc::new(*self.0))
    }
}

#[test]
fn fresh_containers_hold_defaults() {
    let clones = Arc::new(AtomicUsize::new(0));
    let mut reg = Registry::new();
    let a = define(
        &mut reg,
        Counted {
            value: 7,
            clones: clones.clone(),
        },
    );
    let b = define(
        &mut reg,
        Counted {
            value: 9,
            clones: clones.clone(),
        },
    );
    let mut cells = Cells::new();
    let ns = Namespace::new(&reg, &mut cells);
    assert_eq!(clones.load(SeqCst), 2);
    assert_eq!(ns.len(), 2);
    assert_eq!(a.get(&ns, &cells).value, 7);
    assert_eq!(b.get(&ns, &cells).value, 9);

    let scope = Scope::new(&reg);
    assert_eq!(clones.load(SeqCst), 4);
    assert_eq!(scope.len(), 2);
    assert_eq!(scope.get(0).value, 7);
    assert_eq!(scope.get(1).value, 9);
}

#[test]
fn empty_registry_gives_empty_containers() {
    let reg: Registry<u32> = Registry::new();
    let mut cells = Cells::new();
    let ns = Namespace::new(&reg, &mut cells);
    assert_eq!(ns.len(), 0);
    assert_eq!(Scope::new(&reg).len(), 0);
    ns.release(&mut cells);
}

#[test]
fn shared_slot_refuses_writes_until_unshared() {
    let mut reg = Registry::new();
    let data = define(&mut reg, 1u64);
    let mut cells = Cells::new();
    let mut a = Namespace::new(&reg, &mut cells);
    let b = Namespace::new(&reg, &mut cells);
    assert!(data.get_mut(&a, &mut cells).is_some());

    data.share_from(&mut a, &b, &mut cells);
    assert!(data.get_mut(&a, &mut cells).is_none());
    assert!(data.get_mut(&b, &mut cells).is_none());

    data.reset(&mut a, &reg, &mut cells);
    assert!(data.get_mut(&b, &mut cells).is_some());
    assert!(data.get_mut(&a, &mut cells).is_some());
}

#[test]
fn releasing_sharer_frees_writes() {
    let mut reg = Registry::new();
    let data = define(&mut reg, 1u64);
    let mut cells = Cells::new();
    let mut a = Namespace::new(&reg, &mut cells);
    let b = Namespace::new(&reg, &mut cells);

    data.share_from(&mut a, &b, &mut cells);
    assert!(data.get_mut(&b, &mut cells).is_none());
    a.release(&mut cells);
    *data.get_mut(&b, &mut cells).unwrap() = 5;
    assert_eq!(*data.get(&b, &cells), 5);
}

#[test]
fn last_release_destroys_once() {
    let mut reg = Registry::new();
    let index = reg.register(layout_of::<Fresh>(), Fresh(Arc::new(3))).unwrap();
    let mut cells = Cells::new();
    let first = ResArc::new(reg.get(index), &mut cells);
    let probe = Arc::downgrade(&first.as_ref(&cells).0);
    let second = first.clone(&mut cells);
    let third = second.clone(&mut cells);

    assert!(!third.release(&mut cells));
    assert!(probe.upgrade().is_some());
    assert!(!first.release(&mut cells));
    assert!(probe.upgrade().is_some());
    assert!(second.release(&mut cells));
    assert!(probe.upgrade().is_none());
}

#[test]
fn indices_follow_registration_order() {
    let mut reg = Registry::new();
    let first = reg.register(layout_of::<u8>(), 1u8).unwrap();
    let second = reg.register(layout_of::<u8>(), 2u8).unwrap();
    let third = reg.register(layout_of::<u8>(), 3u8).unwrap();
    assert_eq!((first, second, third), (0, 1, 2));
    assert_eq!(reg.len(), 3);
    for i in 0..3 {
        assert_eq!(reg.get(i).index(), i);
        assert_eq!(ResWrapper::new(reg.get(i)).index(), i);
        assert_eq!(LocalItem::new(reg.get(i)).index(), i);
    }
    let mut cells = Cells::new();
    let ns = Namespace::new(&reg, &mut cells);
    let values: Vec<u8> = (0..3)
        .map(|i| *ResWrapper::new(reg.get(i)).get(&ns, &cells))
        .collect();
    assert_eq!(values, vec![1, 2, 3]);
}

#[test]
fn register_refuses_empty_value() {
    let mut reg = Registry::new();
    let empty = Layout::from_size_align(0, 1).unwrap();
    assert_eq!(reg.register(empty, 0u8), None);
    assert_eq!(reg.len(), 0);
}

#[test]
fn layout_rules() {
    assert!(Layout::from_size_align(8, 3).is_none());
    assert!(Layout::from_size_align(8, 0).is_none());
    assert!(Layout::from_size_align(isize::MAX as usize, 2).is_none());
    let l = Layout::from_size_align(isize::MAX as usize, 1).unwrap();
    assert_eq!(l.size(), isize::MAX as usize);

    let header = Layout::from_size_align(16, 8).unwrap();
    let body = Layout::from_size_align(4, 4).unwrap();
    let (whole, offset) = header.extend(&body).unwrap();
    assert_eq!((whole.size(), whole.align(), offset), (20, 8, 16));

    let byte = Layout::from_size_align(1, 1).unwrap();
    let word = Layout::from_size_align(8, 8).unwrap();
    let (whole, offset) = byte.extend(&word).unwrap();
    assert_eq!((whole.size(), whole.align(), offset), (16, 8, 8));

    let big = Layout::from_size_align(isize::MAX as usize - 7, 8).unwrap();
    assert!(big.extend(&word).is_none());
}

#[test]
fn scenario_two_namespaces() {
    let mut reg = Registry::new();
    let data = define(&mut reg, 100i32);
    let mut cells = Cells::new();
    let global = Namespace::new(&reg, &mut cells);
    let a = Namespace::new(&reg, &mut cells);
    let b = Namespace::new(&reg, &mut cells);

    *data.get_mut(&a, &mut cells).unwrap() = 42;

    let mut current = CurrentNs::new(&global);
    assert!(current.is_global());
    assert_eq!(*data.current(&current, &cells).get(), 100);
    assert_eq!(*data.get(&a, &cells), 42);
    assert_eq!(*data.get(&b, &cells), 100);

    current.enter(&a);
    assert!(!current.is_global());
    assert_eq!(*data.current(&current, &cells).get(), 42);
    current.leave();
    assert_eq!(*data.current(&current, &cells).get(), 100);
}

#[test]
fn scenario_scope_drops_its_values() {
    let external = Arc::new(5i32);
    let mut reg = Registry::new();
    let index = reg.register(layout_of::<Fresh>(), Fresh(Arc::new(0))).unwrap();
    let item = LocalItem::new(reg.get(index));
    {
        let mut scope = Scope::new(&reg);
        *item.scope_mut(&mut scope).value = Fresh(external.clone());
        assert_eq!(Arc::strong_count(&external), 2);
    }
    assert_eq!(Arc::strong_count(&external), 1);
}

#[test]
fn scenario_share_replaces_destination() {
    let mut reg = Registry::new();
    let data = define(&mut reg, Fresh(Arc::new(0)));
    let mut cells = Cells::new();
    let mut dst = Namespace::new(&reg, &mut cells);
    let src = Namespace::new(&reg, &mut cells);
    let shared = Arc::new(8i32);
    data.get_mut(&src, &mut cells).unwrap().0 = shared.clone();
    let previous = Arc::downgrade(&data.get(&dst, &cells).0);

    data.share_from(&mut dst, &src, &mut cells);

    assert!(Arc::ptr_eq(&data.get(&dst, &cells).0, &shared));
    assert!(Arc::ptr_eq(&data.get(&src, &cells).0, &data.get(&dst, &cells).0));
    assert!(previous.upgrade().is_none());
    assert!(data.get_mut(&dst, &mut cells).is_none());
    dst.release(&mut cells);
    assert_eq!(Arc::strong_count(&shared), 2);
    src.release(&mut cells);
    assert_eq!(Arc::strong_count(&shared), 1);
}
