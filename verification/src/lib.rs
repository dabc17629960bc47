//! An identity-stable, arena-backed document tree.
//!
//! A parsed markup tree is walked once and every node receives a dense integer
//! identity in a slab. Lightweight handles navigate the arena, read element
//! attributes and reach the per-node style slot that a style resolver fills.

pub mod adapter;
pub mod arena;
pub mod dom;
pub mod element;
pub mod flags;
pub mod identity;
pub mod laws;
pub mod markup;
pub mod node;
pub mod painters;
pub mod record;
pub mod slot;
pub mod store;
pub mod text;
pub mod tree;
pub mod walk;
