//! A small 2D game engine: cameras, keyboard / mouse / gamepad input state,
//! textures, sprite sheets and animations, and the integer parts of the
//! pixel-grid renderer.
use vstd::prelude::*;

pub mod camera;
pub mod keys;
mod fx;
pub mod press;
pub mod input;
pub mod renderer;
pub mod physics;
pub mod quad_tree;
pub mod crash_logs;

verus! {

} // verus!
