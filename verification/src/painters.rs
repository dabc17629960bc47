//! Custom painters, such as images, that a style sheet may refer to by name.

use vstd::prelude::*;

verus! {

/// The registry of custom painters. It holds none.
pub struct RegisteredPaintersImpl;

impl RegisteredPaintersImpl {
    /// Whether a painter is registered under `name`: never.
    pub fn is_registered(&self, name: &str) -> (found: bool)
        ensures
            !found,
    {
        false
    }
}

} // verus!
