//! Handles of uploaded textures.

use vstd::prelude::*;

verus! {

/// The handle of a texture that the GPU holds. A handle is a plain value: it
/// is copied freely and never released through this type.
#[derive(Clone, Copy, Debug, PartialEq, Eq, Structural)]
pub struct Texture {
    pub id: u32,
}

impl Texture {
    pub fn new(id: u32) -> (t: Texture)
        ensures
            t.id == id,
    {
        Texture { id }
    }

    pub fn id(&self) -> (id: u32)
        ensures
            id == self.id,
    {
        self.id
    }
}

} // verus!
