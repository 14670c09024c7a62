//! What the game needs from its host: named GPU handles, the list of sprites
//! of a frame, and the pacing of the frame loop.

pub mod resource_manager;
pub mod sprite_renderer;
pub mod renderer;
