//! The record that the arena keeps for each node.

use crate::tree::Payload;
use atomic_refcell::AtomicRefCell;
use std::sync::atomic::AtomicBool;
use style::data::ElementData;
use vstd::prelude::*;

verus! {

/// One node of the document as the arena stores it.
///
/// `parent`, `id`, `child_idx`, `children` and `node` are set while the arena
/// is built and only read afterwards.
pub struct NodeData {
    /// Identity of the structural parent; `None` for the document root.
    pub parent: Option<usize>,
    /// Identity of this node: its key in the arena.
    pub id: usize,
    /// Index of this node in its parent's `children`.
    pub child_idx: usize,
    /// Identities of the children in document order.
    pub children: Vec<usize>,
    /// What the parsed node carried: element name and attributes, or text.
    pub node: Payload,
    /// The resolver's computed style data, borrowed node by node.
    pub style: AtomicRefCell<ElementData>,
    /// Identifier that the layout engine assigned to this node, if any.
    pub layout_id: Option<u64>,
    /// Set by the resolver when a descendant needs restyling.
    pub dirty_descendants: AtomicBool,
    /// Set by the resolver once the style slot holds computed data.
    pub has_style_data: AtomicBool,
}

} // verus!
