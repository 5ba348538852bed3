//! Generational handles that identify a slot of a registry.

use vstd::prelude::*;

verus! {

/// An opaque reference to a registry slot: the slot's index and the
/// generation of the slot at the time the handle was issued.
#[derive(Debug, Clone, Copy, PartialEq, Eq, Hash, Structural)]
pub struct Handle {
    pub index: u32,
    pub version: u32,
}

impl Handle {
    /// Builds a handle from its two parts.
    pub fn new(index: u32, version: u32) -> (r: Handle)
        ensures
            r.index == index,
            r.version == version,
    {
        Handle { index, version }
    }

    /// The slot index of this handle.
    pub fn index(&self) -> (r: u32)
        ensures
            r == self.index,
    {
        self.index
    }

    /// The generation of this handle.
    pub fn version(&self) -> (r: u32)
        ensures
            r == self.version,
    {
        self.version
    }
}

} // verus!
