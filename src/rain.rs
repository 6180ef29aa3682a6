//! Raindrops: spawning at a timed interval at the top edge, and removal once out of bounds.
use vstd::prelude::*;
use crate::position::Position;
use crate::movable::Body;
use crate::random::random_i64;
use crate::timer::RepeatingTimer;
use crate::world_unit::{WorldUnit, WorldVec2, BOTTOM, LEFT, RIGHT, TOP};

verus! {

/// The raindrop's collision radius (0.4 world units).
pub const RAIN_RADIUS: i64 = 400_000;

/// Milliseconds between two raindrops.
pub const RAIN_INTERVAL_MS: u32 = 200;

/// Marks an entity as a raindrop.
#[derive(Clone, Copy, Debug, PartialEq, Eq, Structural, Default)]
pub struct Rain;

/// Whether a drop at `p` is still in play: not below the bottom edge by more than its
/// radius, and not beyond either side by more than its radius.
pub open spec fn in_bounds(p: (int, int)) -> bool {
    &&& p.1 >= BOTTOM - RAIN_RADIUS
    &&& -(RIGHT + RAIN_RADIUS) <= p.0 <= RIGHT + RAIN_RADIUS
}

/// The drops of `s` that are in play, in their order.
pub open spec fn retained(s: Seq<Body>) -> Seq<Body>
    decreases s.len(),
{
    if s.len() == 0 {
        s
    } else if in_bounds(s.last().pos@) {
        retained(s.drop_last()).push(s.last())
    } else {
        retained(s.drop_last())
    }
}

/// Boundary cleanup: a drop below the bottom edge by more than its radius, or beyond either
/// side by more than its radius, is gone after the pass; every other drop stays; nothing
/// else appears.
pub proof fn lemma_cleanup_keeps_in_bounds(s: Seq<Body>)
    ensures
        forall|b: Body| #[trigger] retained(s).contains(b) <==> (s.contains(b) && in_bounds(b.pos@)),
    decreases s.len(),
{
    if s.len() > 0 {
        lemma_cleanup_keeps_in_bounds(s.drop_last());
        assert(s =~= s.drop_last().push(s.last()));
        let t = s.drop_last();
        let r = retained(t);
        assert forall|b: Body| #[trigger] retained(s).contains(b) <==> (s.contains(b) && in_bounds(b.pos@)) by {
            if s.contains(b) && in_bounds(b.pos@) {
                let i = choose|i: int| 0 <= i < s.len() && s[i] == b;
                if i < s.len() - 1 {
                    assert(t[i] == b);
                    assert(t.contains(b));
                    assert(r.contains(b));
                    let k = choose|k: int| 0 <= k < r.len() && r[k] == b;
                    if in_bounds(s.last().pos@) {
                        assert(r.push(s.last())[k] == b);
                    }
                } else {
                    assert(r.push(s.last())[r.len() as int] == b);
                }
                assert(retained(s).contains(b));
            }
            if retained(s).contains(b) {
                let k = choose|k: int| 0 <= k < retained(s).len() && retained(s)[k] == b;
                if k < r.len() {
                    if in_bounds(s.last().pos@) {
                        assert(r[k] == b);
                    }
                    assert(r.contains(b));
                    assert(t.contains(b));
                    let i = choose|i: int| 0 <= i < t.len() && t[i] == b;
                    assert(s[i] == b);
                } else {
                    assert(b == s.last());
                    assert(s[s.len() - 1] == b);
                }
                assert(s.contains(b));
            }
        }
    }
}

/// The rain systems.
pub struct RainPlugin;

impl RainPlugin {
    /// Whether a drop at `pos` is still in play.
    pub fn is_in_bounds(pos: WorldVec2) -> (r: bool)
        ensures
            r == in_bounds(pos@),
    {
        let min_y: i64 = BOTTOM - RAIN_RADIUS;
        let x_bound: i64 = RIGHT + RAIN_RADIUS;
        pos.y.0 >= min_y && -x_bound <= pos.x.0 && pos.x.0 <= x_bound
    }

    /// Removes the drops that have left the play area, keeping the others in order.
    pub fn despawn_raindrops(rain: &mut Vec<Body>)
        ensures
            final(rain)@ == retained(old(rain)@),
    {
        let mut kept: Vec<Body> = Vec::new();
        let n = rain.len();
        let mut i: usize = 0;
        while i < n
            invariant
                n == rain@.len(),
                0 <= i <= n,
                kept@ == retained(rain@.subrange(0, i as int)),
            decreases n - i,
        {
            let b = rain[i];
            proof {
                assert(rain@.subrange(0, i + 1).drop_last() =~= rain@.subrange(0, i as int));
            }
            if Self::is_in_bounds(b.pos) {
                kept.push(b);
            }
            i += 1;
        }
        proof {
            assert(rain@.subrange(0, n as int) =~= rain@);
        }
        *rain = kept;
    }

    /// Adds a resting drop at horizontal position `x` on the top edge.
    pub fn spawn_rain_at(rain: &mut Vec<Body>, x: WorldUnit)
        ensures
            final(rain)@ == old(rain)@.push(Body {
                pos: WorldVec2 { x, y: WorldUnit(TOP) },
                delta: WorldVec2 { x: WorldUnit(0), y: WorldUnit(0) },
            }),
    {
        rain.push(Body {
            pos: WorldVec2 { x, y: WorldUnit(TOP) },
            delta: WorldVec2 { x: WorldUnit(0), y: WorldUnit(0) },
        });
    }

    /// Advances the spawn timer by `dt` milliseconds; when it fires, adds one resting drop on
    /// the top edge at a random horizontal position across the screen's width.
    pub fn spawn_raindrops(timer: &mut RepeatingTimer, rng: &mut fastrand::Rng, rain: &mut Vec<Body>, dt: u32)
        requires
            old(timer).wf(),
        ensures
            final(timer).wf(),
            final(timer).period_ms == old(timer).period_ms,
            final(timer).elapsed_ms == (old(timer).elapsed_ms + dt) % (old(timer).period_ms as int),
            old(timer).elapsed_ms + dt < old(timer).period_ms ==> final(rain)@ == old(rain)@,
            old(timer).elapsed_ms + dt >= old(timer).period_ms ==> {
                &&& final(rain)@.len() == old(rain)@.len() + 1
                &&& final(rain)@.drop_last() == old(rain)@
                &&& LEFT <= final(rain)@.last().pos.x@ <= RIGHT
                &&& final(rain)@.last().pos.y@ == TOP
                &&& final(rain)@.last().delta@ == (0int, 0int)
                &&& final(rain)@.last().wf()
            },
    {
        if timer.tick(dt) {
            let x = random_i64(rng, LEFT, RIGHT);
            Self::spawn_rain_at(rain, WorldUnit(x));
            proof {
                assert(rain@.drop_last() =~= old(rain)@);
            }
        }
    }
}

/// The width of the raindrop's image in pixels.
pub const RAIN_IMAGE_WIDTH: u32 = 233;

/// The raindrops' paint order: below everything else.
pub const RAIN_DEPTH: i32 = 0;

impl RainPlugin {
    /// How a drop is drawn: as wide as its radius, at the bottom of the paint order.
    pub fn render_position(drop: &Body) -> (r: Position)
        ensures
            r.pos == drop.pos,
            r.scale@ == RAIN_RADIUS,
            r.image_width == RAIN_IMAGE_WIDTH,
            r.z_idx == RAIN_DEPTH,
    {
        Position::new(drop.pos, WorldUnit(RAIN_RADIUS), RAIN_IMAGE_WIDTH, RAIN_DEPTH)
    }
}

} // verus!
