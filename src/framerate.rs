//! Counting frames and reporting the count once per second.
use vstd::prelude::*;
use crate::timer::RepeatingTimer;

verus! {

/// Frames counted since the last report, and the one-second report timer.
#[derive(Clone, Copy, Debug, PartialEq, Eq, Structural)]
pub struct FramerateCounter {
    pub frames: u32,
    pub timer: RepeatingTimer,
}

/// The framerate report.
pub struct FrameratePlugin;

impl FrameratePlugin {
    /// A counter with no frames and a one-second timer.
    pub fn new_counter() -> (r: FramerateCounter)
        ensures
            r.frames == 0,
            r.timer.period_ms == 1000,
            r.timer.elapsed_ms == 0,
            r.timer.wf(),
    {
        FramerateCounter { frames: 0, timer: RepeatingTimer::new(1000) }
    }

    /// Counts one frame of `dt` milliseconds. When the second is up, returns the number of
    /// frames counted in it (this one included) and starts counting afresh.
    pub fn print_framerate(counter: &mut FramerateCounter, dt: u32) -> (r: Option<u32>)
        requires
            old(counter).timer.wf(),
        ensures
            final(counter).timer.wf(),
            final(counter).timer.period_ms == old(counter).timer.period_ms,
            final(counter).timer.elapsed_ms == (old(counter).timer.elapsed_ms + dt) % (old(counter).timer.period_ms as int),
            ({
                let frames = if old(counter).frames == u32::MAX { u32::MAX } else { (old(counter).frames + 1) as u32 };
                if old(counter).timer.elapsed_ms + dt >= old(counter).timer.period_ms {
                    r == Some(frames) && final(counter).frames == 0
                } else {
                    r is None && final(counter).frames == frames
                }
            }),
    {
        counter.frames = counter.frames.saturating_add(1);
        if counter.timer.tick(dt) {
            let frames = counter.frames;
            counter.frames = 0;
            Some(frames)
        } else {
            None
        }
    }
}

} // verus!
