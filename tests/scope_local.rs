use std::sync::Arc;

use axns::{ActiveScope, Layout, LocalItem, Registry, Scope};

fn layout_of<T>() -> Layout {
    Layout::from_size_align(std::mem::size_of::<T>(), std::mem::align_of::<T>()).unwrap()
}

fn define<V>(reg: &mut Registry<V>, default: V) -> LocalItem {
    let index = reg.register(layout_of::<V>(), default).unwrap();
    LocalItem::new(reg.get(index))
}

#[test]
fn global() {
    let mut reg = Registry::new();
    let data = define(&mut reg, 0usize);
    let global = Scope::new(&reg);
    let active = ActiveScope::new(&global);

    assert_eq!(*data.current(&active), 0);
}

#[test]
fn scope() {
    let mut reg = Registry::new();
    let data = define(&mut reg, 0usize);
    let global = Scope::new(&reg);

    let mut scope = Scope::new(&reg);
    assert_eq!(*data.scope(&scope).get(), 0);

    *data.scope_mut(&mut scope).value = 42;
    assert_eq!(*data.scope(&scope).get(), 42);

    let mut active = ActiveScope::new(&global);
    active.set(&scope);
    assert_eq!(*data.current(&active), 42);

    active.set_global();
    assert!(active.is_global());
    assert_eq!(*data.current(&active), 0);
}

/// A shared string whose clone is a new allocation, as a fresh default would
/// be; sharing an existing one goes through the field.
#[derive(Debug)]
struct Fresh(Arc<String>);

impl Clone for Fresh {
    fn clone(&self) -> Self {
        Fresh(Arc::new((*self.0).clone()))
    }
}

#[test]
fn shared() {
    let mut reg = Registry::new();
    let shared = define(&mut reg, Fresh(Arc::new("qwq".to_string())));
    let global = Scope::new(&reg);
    let active = ActiveScope::new(&global);
    let outer = &shared.current(&active).0;

    assert_eq!(Arc::strong_count(outer), 1);

    {
        let mut scope = Scope::new(&reg);
        *shared.scope_mut(&mut scope).value = Fresh(outer.clone());

        assert_eq!(Arc::strong_count(outer), 2);
        assert!(Arc::ptr_eq(outer, &shared.scope(&scope).get().0));
    }

    assert_eq!(Arc::strong_count(outer), 1);
}
