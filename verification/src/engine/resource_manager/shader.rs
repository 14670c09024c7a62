//! Handles of linked shader programs.

use vstd::prelude::*;

verus! {

/// The handle of a linked shader program. A plain value, like a texture handle.
#[derive(Clone, Copy, Debug, PartialEq, Eq, Structural)]
pub struct Shader {
    pub program_id: u32,
}

impl Shader {
    pub fn new(program_id: u32) -> (s: Shader)
        ensures
            s.program_id == program_id,
    {
        Shader { program_id }
    }

    pub fn program_id(&self) -> (id: u32)
        ensures
            id == self.program_id,
    {
        self.program_id
    }
}

} // verus!
