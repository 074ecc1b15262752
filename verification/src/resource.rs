//! Handles to geometry that lives on the GPU.

use vstd::prelude::*;

verus! {

/// A vertex array on the GPU together with the number of indices to draw
/// from it. A count of zero marks a node without geometry.
#[derive(Clone, Copy, Debug, PartialEq, Eq, Structural)]
pub struct ResourceHandle {
    pub array_id: u32,
    pub primitive_count: u32,
}

impl ResourceHandle {
    /// A handle to the vertex array `array_id` with `primitive_count` indices.
    pub fn new(array_id: u32, primitive_count: u32) -> (handle: ResourceHandle)
        ensures
            handle.array_id == array_id,
            handle.primitive_count == primitive_count,
    {
        ResourceHandle { array_id, primitive_count }
    }

    /// Whether drawing this handle draws anything.
    pub open spec fn spec_has_geometry(self) -> bool {
        self.primitive_count > 0
    }

    /// Whether drawing this handle draws anything.
    pub fn has_geometry(&self) -> (drawn: bool)
        ensures
            drawn == self.spec_has_geometry(),
    {
        self.primitive_count > 0
    }
}

} // verus!
