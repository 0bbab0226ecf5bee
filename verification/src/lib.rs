//! Keyed-tree reconciliation for an immediate-mode UI description layer.
//!
//! Client code declares a tree of items again on every frame. The types
//! here map that repeated declaration onto a tree of nodes that persists
//! between frames: a node keeps its state while its identity is unchanged,
//! and nodes are created, moved or pruned when the declared structure changes.
//!
//! - `id`: item identifiers, derived from the keys along the path to an item.
//! - `index`: the ordered identifier index of a store, an `indexmap` set.
//! - `order`: what declaring a child does to the order of the children.
//! - `layout`: the layout tree adapter, which mirrors the order of the children.
//! - `store`: item nodes and the store of one parent's children.
//! - `container`: the reconciler, through which children are declared.
//! - `laws`: what holds of every frame.
//! - `slider`, `scroll`: the state and the decisions of two widgets.
//! - `buffer`, `shader`: sizes and access flags of graphics buffers, and the
//!   traits of shaders.

pub mod buffer;
pub mod container;
pub mod id;
pub mod index;
pub mod laws;
pub mod layout;
pub mod order;
pub mod scroll;
pub mod shader;
pub mod slider;
pub mod store;
