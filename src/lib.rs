//! Namespaced storage of resources.
//!
//! Modules register resources in a [`Registry`]; a container (a [`Namespace`]
//! of shared, reference-counted cells, or a [`Scope`] of uniquely owned cells)
//! holds one value per registered resource, built by cloning that resource's
//! default. Accessors ([`ResWrapper`], [`LocalItem`]) address a container's
//! slot by the resource's index. Which container "current" accesses read is
//! chosen by a [`CurrentNs`] or an [`ActiveScope`].
mod arc;
mod boxed;
mod item;
mod layout;
mod ns;
mod registry;
mod res;
mod scope;

pub use arc::{CellState, Cells, ResArc};
pub use item::{LocalItem, ScopeItem, ScopeItemMut};
pub use layout::Layout;
pub use ns::Namespace;
pub use registry::{Item, Registry, Resource};
pub use res::{CurrentNs, ResCurrent, ResWrapper};
pub use scope::{ActiveScope, Scope};
