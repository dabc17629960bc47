//! The two per-node flags that the resolver sets and clears while it walks.

use crate::node::BlitzNode;
use vstd::prelude::*;

verus! {

impl<'a> BlitzNode<'a> {
    /// Whether the resolver has marked a descendant of this node for
    /// restyling: the value it stored last.
    pub fn has_dirty_descendants(&self) -> bool
        requires
            self.wf(),
    {
        self.data().dirty_descendants.load(std::sync::atomic::Ordering::Acquire)
    }

    /// Marks this node as having descendants that need restyling.
    pub fn set_dirty_descendants(&self)
        requires
            self.wf(),
    {
        self.data().dirty_descendants.store(true, std::sync::atomic::Ordering::Release);
    }

    /// Clears the mark that `set_dirty_descendants` sets.
    pub fn unset_dirty_descendants(&self)
        requires
            self.wf(),
    {
        self.data().dirty_descendants.store(false, std::sync::atomic::Ordering::Release);
    }

    /// Whether the resolver has marked this node's style slot as holding
    /// computed data: the value it stored last.
    pub fn has_data(&self) -> bool
        requires
            self.wf(),
    {
        self.data().has_style_data.load(std::sync::atomic::Ordering::Acquire)
    }

    /// Marks this node's style slot as holding computed data, or as not
    /// holding any.
    pub fn set_has_data(&self, present: bool)
        requires
            self.wf(),
    {
        self.data().has_style_data.store(present, std::sync::atomic::Ordering::Release);
    }
}

} // verus!
