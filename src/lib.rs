//! A three-screen game loop (title, play, game over) driven by a frame tick
//! and one countdown timer, with the word wrapping that its screens use.
use vstd::prelude::*;

pub mod screen;
pub mod timer;
pub mod wrap;

verus! {

} // verus!
