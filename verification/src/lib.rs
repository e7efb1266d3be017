use vstd::prelude::*;

pub mod cube;
pub mod frame;
pub mod hero;
pub mod history;
pub mod keymap;
pub mod sprite;

verus! {

/// Milliseconds to sleep between two display ticks at the target refresh rate.
pub const FPS: u32 = 1000 / 60;

} // verus!
