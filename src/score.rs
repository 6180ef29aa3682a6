//! Points earned when an NPC absorbs a raindrop.
use vstd::prelude::*;

verus! {

/// One raindrop absorbed, by the NPC at index `npc`.
#[derive(Clone, Copy, Debug, PartialEq, Eq, Structural)]
pub struct EarnPoint {
    pub npc: usize,
}

/// The score systems.
pub struct ScorePlugin;

impl ScorePlugin {
    /// The score after one point for each event (saturating).
    pub fn earn_points(points: u32, events: &Vec<EarnPoint>) -> (r: u32)
        ensures
            r == (if points + events@.len() > u32::MAX { u32::MAX as int } else { points + events@.len() }),
    {
        let n = events.len();
        if n > (u32::MAX - points) as usize {
            u32::MAX
        } else {
            points + n as u32
        }
    }
}

} // verus!
