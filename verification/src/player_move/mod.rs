//! Player movement: the material table behind footstep sounds, the step
//! sound choice, the stuck table and its cycle, the entities touched
//! during a move, and the box outlines of the debug view.

pub mod textures;
pub mod step;
pub mod stuck;
pub mod touch;
pub mod debug_box;
