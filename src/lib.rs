//! A fixed-step simulation of rain falling on a player's umbrella, a shelter and passers-by,
//! in a resolution-independent world whose coordinates are fixed-point integers.
//!
//! Behavior choices: rain that strikes the umbrella is deflected, not destroyed; NPCs run
//! away from the nearest raindrop in sight; an NPC absorbs rain only once it has fully
//! entered the screen; a soaked NPC absorbs no more rain, keeps moving as its state says,
//! and leaves once it has been soaked for a fixed time.
use vstd::prelude::*;

pub mod world_unit;
pub mod win_info;
pub mod movable;
pub mod gravity;
pub mod player;
pub mod rain;
pub mod shack;
pub mod timer;
pub mod random;
pub mod npc;
pub mod score;
pub mod position;
pub mod world_init;
pub mod framerate;
pub mod color;
pub mod world;

verus! {

} // verus!
