//! The shelter: a static rectangle that rain bounces off, along its slanted roof or its
//! walls depending on where the drop meets it.
use vstd::prelude::*;
use crate::position::Position;
use crate::movable::Body;
use crate::timer::RepeatingTimer;
use crate::world_unit::{saturate, saturate_i128, WorldUnit, WorldVec2, BOTTOM, RIGHT};

verus! {

/// The shelter's full width (11.7 world units).
pub const SHACK_WIDTH: i64 = 11_700_000;

/// The shelter's full height (10.9 world units).
pub const SHACK_HEIGHT: i64 = 10_900_000;

/// How far the shelter sits above the bottom edge (a tenth of the screen height).
pub const SHACK_LIFT: i64 = 2_812_500;

/// Restitution of rain on the shelter, `SHACK_RESTITUTION_NUM / SHACK_RESTITUTION_DEN` (0.3).
pub const SHACK_RESTITUTION_NUM: i64 = 3;

pub const SHACK_RESTITUTION_DEN: i64 = 10;

/// The sideways push given to rain bouncing off a wall, so that none rests in a corner
/// (0.1 world units per second).
pub const SHACK_NUDGE: i64 = 100;

/// The shelter's rectangle: its center and half extents.
#[derive(Clone, Copy, Debug, PartialEq, Eq, Structural)]
pub struct Shelter {
    pub center: WorldVec2,
    pub half_width: WorldUnit,
    pub half_height: WorldUnit,
}

impl Shelter {
    pub open spec fn wf(self) -> bool {
        &&& self.center.wf()
        &&& self.half_width.wf()
        &&& self.half_height.wf()
        &&& 0 <= self.half_width@
        &&& 0 <= self.half_height@
    }
}

/// A velocity component reflected and damped by the shelter's restitution, rounded down.
pub open spec fn damped_reflection(v: int) -> int {
    (-v * SHACK_RESTITUTION_NUM) / (SHACK_RESTITUTION_DEN as int)
}

/// Whether the drop's center lies in the shelter's rectangle (boundary included).
pub open spec fn touches_shelter(s: Shelter, p: (int, int)) -> bool {
    let dx = p.0 - s.center@.0;
    let dy = p.1 - s.center@.1;
    &&& -s.half_width@ <= dx <= s.half_width@
    &&& -s.half_height@ <= dy <= s.half_height@
}

/// Whether a touching drop meets the slanted roof: measured from the top-left corner, it
/// lies below the diagonal that runs down and to the right (`y < -x`).
pub open spec fn hits_roof(s: Shelter, p: (int, int)) -> bool {
    let fx = p.0 - (s.center@.0 - s.half_width@);
    let fy = p.1 - (s.center@.1 + s.half_height@);
    fy < -fx
}

/// The drop's velocity after meeting the shelter. On the roof, a drop moving right has its
/// horizontal velocity reflected and damped; elsewhere, a falling drop has its vertical
/// velocity reflected and damped and is nudged to the right. Other drops keep their velocity.
pub open spec fn shelter_bounce(s: Shelter, drop: Body) -> (int, int) {
    let v = drop.delta@;
    if !touches_shelter(s, drop.pos@) {
        v
    } else if hits_roof(s, drop.pos@) {
        if v.0 > 0 {
            (damped_reflection(v.0), v.1)
        } else {
            v
        }
    } else if v.1 < 0 {
        (saturate(v.0 + SHACK_NUDGE), damped_reflection(v.1))
    } else {
        v
    }
}

/// Damps and reflects one velocity component.
fn damp_reflect(v: WorldUnit) -> (r: WorldUnit)
    requires
        v.wf(),
    ensures
        r@ == damped_reflection(v@),
        r.wf(),
{
    proof {
        crate::world_unit::lemma_floor_div_bounds(-v@ * 3, 10);
    }
    WorldUnit(crate::world_unit::floor_div(-(v.0 as i128) * SHACK_RESTITUTION_NUM as i128, SHACK_RESTITUTION_DEN as i128) as i64)
}

/// The shelter systems.
pub struct ShackPlugin;

impl ShackPlugin {
    /// The shelter standing at the right edge, lifted a little off the bottom.
    pub fn spawn_shack() -> (r: Shelter)
        ensures
            r.center@ == (RIGHT - SHACK_WIDTH / 2, BOTTOM + SHACK_HEIGHT / 2 + SHACK_LIFT),
            r.half_width@ == SHACK_WIDTH / 2,
            r.half_height@ == SHACK_HEIGHT / 2,
            r.wf(),
    {
        Shelter {
            center: WorldVec2 {
                x: WorldUnit(RIGHT - SHACK_WIDTH / 2),
                y: WorldUnit(BOTTOM + SHACK_HEIGHT / 2 + SHACK_LIFT),
            },
            half_width: WorldUnit(SHACK_WIDTH / 2),
            half_height: WorldUnit(SHACK_HEIGHT / 2),
        }
    }

    /// The drop's velocity after meeting the shelter.
    pub fn bounce(shelter: &Shelter, drop: &Body) -> (r: WorldVec2)
        requires
            shelter.wf(),
            drop.wf(),
        ensures
            r@ == shelter_bounce(*shelter, *drop),
            r.wf(),
    {
        let px = drop.pos.x.0;
        let py = drop.pos.y.0;
        let dx: i64 = px - shelter.center.x.0;
        let dy: i64 = py - shelter.center.y.0;
        let hw = shelter.half_width.0;
        let hh = shelter.half_height.0;
        if !(-hw <= dx && dx <= hw && -hh <= dy && dy <= hh) {
            return drop.delta;
        }
        let fx: i64 = px - (shelter.center.x.0 - hw);
        let fy: i64 = py - (shelter.center.y.0 + hh);
        let v = drop.delta;
        if fy < -fx {
            if v.x.0 > 0 {
                WorldVec2 { x: damp_reflect(v.x), y: v.y }
            } else {
                v
            }
        } else if v.y.0 < 0 {
            WorldVec2 { x: WorldUnit(saturate_i128(v.x.0 as i128 + SHACK_NUDGE as i128)), y: damp_reflect(v.y) }
        } else {
            v
        }
    }

    /// Bounces every raindrop off the shelter; positions are kept.
    pub fn handle_rain_collisions(shelter: &Shelter, rain: &mut Vec<Body>)
        requires
            shelter.wf(),
            forall|i: int| 0 <= i < old(rain)@.len() ==> (#[trigger] old(rain)@[i]).wf(),
        ensures
            final(rain)@.len() == old(rain)@.len(),
            forall|i: int|
                0 <= i < old(rain)@.len() ==> {
                    &&& (#[trigger] final(rain)@[i]).delta@ == shelter_bounce(*shelter, old(rain)@[i])
                    &&& final(rain)@[i].pos == old(rain)@[i].pos
                    &&& final(rain)@[i].wf()
                },
    {
        let n = rain.len();
        let mut i: usize = 0;
        while i < n
            invariant
                n == old(rain)@.len(),
                rain@.len() == n,
                0 <= i <= n,
                shelter.wf(),
                forall|j: int|
                    0 <= j < i ==> {
                        &&& (#[trigger] rain@[j]).delta@ == shelter_bounce(*shelter, old(rain)@[j])
                        &&& rain@[j].pos == old(rain)@[j].pos
                        &&& rain@[j].wf()
                    },
                forall|j: int| i <= j < n ==> #[trigger] rain@[j] == old(rain)@[j],
                forall|j: int| 0 <= j < n ==> (#[trigger] old(rain)@[j]).wf(),
            decreases n - i,
        {
            let mut b = rain[i];
            proof { assert(old(rain)@[i as int].wf()); }
            b.delta = Self::bounce(shelter, &b);
            rain.set(i, b);
            i += 1;
        }
    }
}

/// Milliseconds per frame of the shelter's animation.
pub const SHACK_ANIMATION_MS: u32 = 300;

/// The number of frames in the shelter's animation cycle.
pub const SHACK_FRAMES: u32 = 4;

/// The shelter's animation: its frame and the timer that paces it.
#[derive(Clone, Copy, Debug, PartialEq, Eq, Structural)]
pub struct Shack {
    pub timer: RepeatingTimer,
    pub animation_idx: u32,
}

/// The image shown at each frame of the cycle: images 1, 2, 3, then 2 again.
pub open spec fn shack_image(idx: int) -> u32 {
    if idx == 0 {
        1
    } else if idx == 1 {
        2
    } else if idx == 2 {
        3
    } else {
        2
    }
}

impl Shack {
    pub open spec fn wf(self) -> bool {
        self.timer.wf() && self.animation_idx < SHACK_FRAMES
    }

    /// The animation at its first frame with its timer just started.
    pub fn new() -> (r: Shack)
        ensures
            r.animation_idx == 0,
            r.timer == (RepeatingTimer { period_ms: SHACK_ANIMATION_MS, elapsed_ms: 0 }),
            r.wf(),
    {
        Shack { timer: RepeatingTimer::new(SHACK_ANIMATION_MS), animation_idx: 0 }
    }

    /// Advances by `dt` milliseconds: one frame on (wrapping) when the timer fires.
    pub fn tick(&mut self, dt: u32)
        requires
            old(self).wf(),
        ensures
            final(self).wf(),
            final(self).timer.elapsed_ms == (old(self).timer.elapsed_ms + dt) % (old(self).timer.period_ms as int),
            final(self).timer.period_ms == old(self).timer.period_ms,
            final(self).animation_idx == (if old(self).timer.elapsed_ms + dt >= old(self).timer.period_ms {
                (old(self).animation_idx + 1) % (SHACK_FRAMES as int)
            } else {
                old(self).animation_idx as int
            }),
    {
        if self.timer.tick(dt) {
            self.animation_idx = (self.animation_idx + 1) % SHACK_FRAMES;
        }
    }

    /// The number of the image to show.
    pub fn image(&self) -> (r: u32)
        requires
            self.wf(),
        ensures
            r == shack_image(self.animation_idx as int),
    {
        if self.animation_idx == 0 {
            1
        } else if self.animation_idx == 1 {
            2
        } else if self.animation_idx == 2 {
            3
        } else {
            2
        }
    }
}

/// The width of the shelter's images in pixels.
pub const SHACK_IMAGE_WIDTH: u32 = 1500;

/// The shelter's paint order: above the umbrella and the rain.
pub const SHACK_DEPTH: i32 = 2;

impl ShackPlugin {
    /// How the shelter is drawn: its full width, on top.
    pub fn render_position(shelter: &Shelter) -> (r: Position)
        ensures
            r.pos == shelter.center,
            r.scale@ == SHACK_WIDTH,
            r.image_width == SHACK_IMAGE_WIDTH,
            r.z_idx == SHACK_DEPTH,
    {
        Position::new(shelter.center, WorldUnit(SHACK_WIDTH), SHACK_IMAGE_WIDTH, SHACK_DEPTH)
    }
}

} // verus!
