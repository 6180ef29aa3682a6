//! The player's umbrella: velocity from directional intent, confinement to the screen, and
//! the restitution bounce of rain that strikes the umbrella from above.
use vstd::prelude::*;
use crate::position::Position;
use crate::movable::Body;
use crate::world_unit::{
    clamp_spec, dot_spec, floor_div, lemma_floor_div_bounds, saturate, saturate_i128, WorldUnit,
    WorldVec2, BOTTOM, LEFT, RIGHT, TOP,
};

verus! {

/// The umbrella's on-screen width (seven world units).
pub const PLAYER_WIDTH: i64 = 7_000_000;

/// Half the umbrella's width: its collision radius.
pub const PLAYER_HALF_WIDTH: i64 = 3_500_000;

/// The player's speed along each pressed axis (sixteen world units per second).
pub const PLAYER_SPEED: i64 = 16_000;

/// Restitution of rain on the umbrella, `RESTITUTION_NUM / RESTITUTION_DEN` (0.15).
pub const RESTITUTION_NUM: i64 = 15;

pub const RESTITUTION_DEN: i64 = 100;

/// Squared contact distance between the umbrella's center and a raindrop's center: its
/// half width plus the raindrop radius (3.9 world units), squared.
pub const CONTACT_DIST_SQUARED: i64 = 15_210_000_000_000;

/// Directional intent, as four pressed-or-not directions.
#[derive(Clone, Copy, Debug, PartialEq, Eq, Structural, Default)]
pub struct Intent {
    pub up: bool,
    pub down: bool,
    pub left: bool,
    pub right: bool,
}

/// The speed along one axis: positive when only the positive direction is pressed,
/// negative when only the negative one is, else zero.
pub open spec fn axis_speed(pos: bool, neg: bool) -> int {
    if pos && !neg {
        PLAYER_SPEED as int
    } else if neg && !pos {
        -PLAYER_SPEED
    } else {
        0
    }
}

/// The raindrop's center relative to the umbrella's.
pub open spec fn separation(player: Body, drop: Body) -> (int, int) {
    (drop.pos@.0 - player.pos@.0, drop.pos@.1 - player.pos@.1)
}

/// The raindrop's velocity relative to the umbrella's.
pub open spec fn relative_velocity(player: Body, drop: Body) -> (int, int) {
    (drop.delta@.0 - player.delta@.0, drop.delta@.1 - player.delta@.1)
}

/// Whether the drop touches the umbrella from above (at or over its center) while closing in.
pub open spec fn is_striking(player: Body, drop: Body) -> bool {
    let d = separation(player, drop);
    &&& d.1 >= 0
    &&& dot_spec(d, d) < CONTACT_DIST_SQUARED
    &&& dot_spec(d, relative_velocity(player, drop)) < 0
}

/// One component of the impulse `-(1 + e) (n . v) n`, with `n` the unit separation, written
/// without a square root as `-(1 + e) (d . v) d_c / |d|^2` and rounded down.
pub open spec fn impulse(d: (int, int), dot: int, dc: int) -> int {
    (-(RESTITUTION_NUM + RESTITUTION_DEN) * dot * dc) / (RESTITUTION_DEN * dot_spec(d, d))
}

/// The raindrop's velocity after meeting the umbrella: bounced when striking, else kept.
pub open spec fn bounce_spec(player: Body, drop: Body) -> (int, int) {
    if is_striking(player, drop) {
        let d = separation(player, drop);
        let dot = dot_spec(d, relative_velocity(player, drop));
        (saturate(drop.delta@.0 + impulse(d, dot, d.0)), saturate(drop.delta@.1 + impulse(d, dot, d.1)))
    } else {
        drop.delta@
    }
}

/// The player systems.
pub struct PlayerPlugin;

impl PlayerPlugin {
    /// The player's velocity for the given intent: constant speed along each axis with
    /// exactly one of its two directions pressed.
    pub fn move_player(intent: Intent) -> (r: WorldVec2)
        ensures
            r@ == (axis_speed(intent.right, intent.left), axis_speed(intent.up, intent.down)),
            r.wf(),
    {
        let x = if intent.right && !intent.left {
            PLAYER_SPEED
        } else if intent.left && !intent.right {
            -PLAYER_SPEED
        } else {
            0
        };
        let y = if intent.up && !intent.down {
            PLAYER_SPEED
        } else if intent.down && !intent.up {
            -PLAYER_SPEED
        } else {
            0
        };
        WorldVec2 { x: WorldUnit(x), y: WorldUnit(y) }
    }

    /// Moves the position back inside the screen so that the whole umbrella is visible.
    pub fn snap_in_bounds(pos: WorldVec2) -> (r: WorldVec2)
        ensures
            r@ == (
                clamp_spec(pos@.0, LEFT + PLAYER_HALF_WIDTH, RIGHT - PLAYER_HALF_WIDTH),
                clamp_spec(pos@.1, BOTTOM + PLAYER_HALF_WIDTH, TOP - PLAYER_HALF_WIDTH),
            ),
            r.wf(),
    {
        let x = pos.x.min(WorldUnit(RIGHT - PLAYER_HALF_WIDTH)).max(WorldUnit(LEFT + PLAYER_HALF_WIDTH));
        let y = pos.y.min(WorldUnit(TOP - PLAYER_HALF_WIDTH)).max(WorldUnit(BOTTOM + PLAYER_HALF_WIDTH));
        WorldVec2 { x, y }
    }

    /// The raindrop's velocity after meeting the umbrella; the umbrella's own velocity is
    /// not affected (its mass counts as infinite).
    pub fn bounce(player: &Body, drop: &Body) -> (r: WorldVec2)
        requires
            player.wf(),
            drop.wf(),
        ensures
            r@ == bounce_spec(*player, *drop),
    {
        let dx: i128 = drop.pos.x.0 as i128 - player.pos.x.0 as i128;
        let dy: i128 = drop.pos.y.0 as i128 - player.pos.y.0 as i128;
        if dy < 0 {
            return drop.delta;
        }
        proof {
            assert(dx * dx <= 16_000_000_000_000_000_000 && dy * dy <= 16_000_000_000_000_000_000) by (nonlinear_arith)
                requires -4_000_000_000 <= dx <= 4_000_000_000, -4_000_000_000 <= dy <= 4_000_000_000;
            assert(dx * dx >= 0 && dy * dy >= 0) by (nonlinear_arith);
        }
        let dist2: i128 = dx * dx + dy * dy;
        if dist2 >= CONTACT_DIST_SQUARED as i128 {
            return drop.delta;
        }
        proof {
            lemma_small_square(dx as int);
            lemma_small_square(dy as int);
        }
        let rx: i128 = drop.delta.x.0 as i128 - player.delta.x.0 as i128;
        let ry: i128 = drop.delta.y.0 as i128 - player.delta.y.0 as i128;
        proof {
            lemma_product_bound(dx as int, rx as int);
            lemma_product_bound(dy as int, ry as int);
        }
        let dot: i128 = dx * rx + dy * ry;
        if dot >= 0 {
            return drop.delta;
        }
        let k: i128 = (RESTITUTION_NUM + RESTITUTION_DEN) as i128;
        proof {
            lemma_scaled_bound(dot as int, dx as int);
            lemma_scaled_bound(dot as int, dy as int);
            assert(dist2 > 0) by (nonlinear_arith)
                requires dot == dx * rx + dy * ry, dot < 0, dist2 == dx * dx + dy * dy;
        }
        proof {
            assert(RESTITUTION_DEN * dist2 <= 100 * CONTACT_DIST_SQUARED) by (nonlinear_arith)
                requires RESTITUTION_DEN == 100, 0 < dist2 < CONTACT_DIST_SQUARED;
        }
        let den: i128 = RESTITUTION_DEN as i128 * dist2;
        let ix: i128 = floor_div(-k * dot * dx, den);
        let iy: i128 = floor_div(-k * dot * dy, den);
        proof {
            lemma_impulse_bound(-k * dot * dx, den as int);
            lemma_impulse_bound(-k * dot * dy, den as int);
        }
        let vx: i64 = saturate_i128(drop.delta.x.0 as i128 + ix);
        let vy: i64 = saturate_i128(drop.delta.y.0 as i128 + iy);
        WorldVec2 { x: WorldUnit(vx), y: WorldUnit(vy) }
    }

    /// Bounces every raindrop that strikes the umbrella; positions are kept.
    pub fn handle_rain_collisions(player: &Body, rain: &mut Vec<Body>)
        requires
            player.wf(),
            forall|i: int| 0 <= i < old(rain)@.len() ==> (#[trigger] old(rain)@[i]).wf(),
        ensures
            final(rain)@.len() == old(rain)@.len(),
            forall|i: int|
                0 <= i < old(rain)@.len() ==> {
                    &&& (#[trigger] final(rain)@[i]).delta@ == bounce_spec(*player, old(rain)@[i])
                    &&& final(rain)@[i].pos == old(rain)@[i].pos
                    &&& final(rain)@[i].wf()
                },
    {
        let n = rain.len();
        let mut i: usize = 0;
        while i < n
            invariant
                n == old(rain)@.len(),
                rain@.len() == n,
                0 <= i <= n,
                player.wf(),
                forall|j: int|
                    0 <= j < i ==> {
                        &&& (#[trigger] rain@[j]).delta@ == bounce_spec(*player, old(rain)@[j])
                        &&& rain@[j].pos == old(rain)@[j].pos
                        &&& rain@[j].wf()
                    },
                forall|j: int| i <= j < n ==> #[trigger] rain@[j] == old(rain)@[j],
                forall|j: int| 0 <= j < n ==> (#[trigger] old(rain)@[j]).wf(),
            decreases n - i,
        {
            let mut b = rain[i];
            proof { assert(old(rain)@[i as int].wf()); }
            let v = Self::bounce(player, &b);
            proof { lemma_bounce_in_world(*player, b); }
            b.delta = v;
            rain.set(i, b);
            i += 1;
        }
    }
}

proof fn lemma_bounce_in_world(player: Body, drop: Body)
    requires
        drop.wf(),
    ensures
        crate::world_unit::in_world(bounce_spec(player, drop).0),
        crate::world_unit::in_world(bounce_spec(player, drop).1),
{
}

/// A coordinate whose square is under the contact distance squared is under 3.9 world units.
proof fn lemma_small_square(x: int)
    requires
        x * x < CONTACT_DIST_SQUARED,
    ensures
        -3_900_000 < x < 3_900_000,
{
    if x >= 3_900_000 {
        assert(x * x >= 3_900_000 * 3_900_000) by (nonlinear_arith) requires x >= 3_900_000;
    }
    if x <= -3_900_000 {
        assert(x * x >= 3_900_000 * 3_900_000) by (nonlinear_arith) requires x <= -3_900_000;
    }
}

proof fn lemma_product_bound(d: int, r: int)
    requires
        -3_900_000 < d < 3_900_000,
        -4_000_000_000 <= r <= 4_000_000_000,
    ensures
        -16_000_000_000_000_000 <= d * r <= 16_000_000_000_000_000,
{
    assert(-16_000_000_000_000_000 <= d * r <= 16_000_000_000_000_000) by (nonlinear_arith)
        requires
            -3_900_000 < d < 3_900_000,
            -4_000_000_000 <= r <= 4_000_000_000,
    ;
}

proof fn lemma_scaled_bound(dot: int, d: int)
    requires
        -32_000_000_000_000_000 <= dot <= 32_000_000_000_000_000,
        -3_900_000 < d < 3_900_000,
    ensures
        -115 * 32_000_000_000_000_000 * 3_900_000 <= -115 * dot * d <= 115 * 32_000_000_000_000_000 * 3_900_000,
        -115 * dot * d == -(115 * dot) * d,
{
    assert(-115 * 32_000_000_000_000_000 * 3_900_000 <= -115 * dot * d <= 115 * 32_000_000_000_000_000 * 3_900_000)
        by (nonlinear_arith)
        requires
            -32_000_000_000_000_000 <= dot <= 32_000_000_000_000_000,
            -3_900_000 < d < 3_900_000,
    ;
    assert(-115 * dot * d == -(115 * dot) * d) by (nonlinear_arith);
}

proof fn lemma_impulse_bound(x: int, den: int)
    requires
        den > 0,
        -115 * 32_000_000_000_000_000 * 3_900_000 <= x <= 115 * 32_000_000_000_000_000 * 3_900_000,
    ensures
        -115 * 32_000_000_000_000_000 * 3_900_000 <= x / den <= 115 * 32_000_000_000_000_000 * 3_900_000,
{
    lemma_floor_div_bounds(x, den);
    let q = x / den;
    assert(-115 * 32_000_000_000_000_000 * 3_900_000 <= q <= 115 * 32_000_000_000_000_000 * 3_900_000)
        by (nonlinear_arith)
        requires
            den * q <= x,
            x < den * q + den,
            den >= 1,
            -115 * 32_000_000_000_000_000 * 3_900_000 <= x <= 115 * 32_000_000_000_000_000 * 3_900_000,
    ;
}

pub open spec fn abs_spec(v: int) -> int {
    if v < 0 { -v } else { v }
}

/// Restitution on the umbrella: when a drop strikes it with closing speed `s` along the
/// contact normal, the drop leaves with separating speed `e * s` along that normal
/// (`e = RESTITUTION_NUM / RESTITUTION_DEN`), up to the rounding of the fixed-point
/// impulse. Written without the normalizing square root, with `d` the separation:
/// `RESTITUTION_DEN * (d . v') + RESTITUTION_NUM * (d . v)` is at most
/// `RESTITUTION_DEN * (|d.x| + |d.y|)` in magnitude, i.e. the speeds differ by at most
/// `(|d.x| + |d.y|) / |d|`, under 1.5 micro-units per millisecond. The umbrella's velocity
/// is an input only and stays as it was. Holds while the bounced velocity stays within the
/// world limit.
pub proof fn lemma_restitution(player: Body, drop: Body)
    requires
        player.wf(),
        drop.wf(),
        is_striking(player, drop),
        crate::world_unit::in_world(drop.delta@.0 + impulse(
            separation(player, drop),
            dot_spec(separation(player, drop), relative_velocity(player, drop)),
            separation(player, drop).0,
        )),
        crate::world_unit::in_world(drop.delta@.1 + impulse(
            separation(player, drop),
            dot_spec(separation(player, drop), relative_velocity(player, drop)),
            separation(player, drop).1,
        )),
    ensures
        ({
            let d = separation(player, drop);
            let dot = dot_spec(d, relative_velocity(player, drop));
            let v = bounce_spec(player, drop);
            let after = dot_spec(d, (v.0 - player.delta@.0, v.1 - player.delta@.1));
            let err = RESTITUTION_DEN * (abs_spec(d.0) + abs_spec(d.1));
            &&& dot < 0
            &&& -err <= RESTITUTION_DEN * after + RESTITUTION_NUM * dot <= err
        }),
{
    let d = separation(player, drop);
    let rel = relative_velocity(player, drop);
    let dot = dot_spec(d, rel);
    let q = dot_spec(d, d);
    assert(q > 0) by (nonlinear_arith)
        requires
            q == d.0 * d.0 + d.1 * d.1,
            dot == d.0 * rel.0 + d.1 * rel.1,
            dot < 0,
    ;
    let den = RESTITUTION_DEN * q;
    let x = -(RESTITUTION_NUM + RESTITUTION_DEN) * dot;
    let i0 = impulse(d, dot, d.0);
    let i1 = impulse(d, dot, d.1);
    assert(x * d.0 == -(RESTITUTION_NUM + RESTITUTION_DEN) * dot * d.0) by (nonlinear_arith)
        requires x == -(RESTITUTION_NUM + RESTITUTION_DEN) * dot;
    assert(x * d.1 == -(RESTITUTION_NUM + RESTITUTION_DEN) * dot * d.1) by (nonlinear_arith)
        requires x == -(RESTITUTION_NUM + RESTITUTION_DEN) * dot;
    assert(den > 0) by (nonlinear_arith) requires den == RESTITUTION_DEN * q, q > 0, RESTITUTION_DEN == 100;
    lemma_floor_div_bounds(x * d.0, den);
    lemma_floor_div_bounds(x * d.1, den);
    lemma_rounding_component(x, d.0, den, i0);
    lemma_rounding_component(x, d.1, den, i1);
    let s = abs_spec(d.0) + abs_spec(d.1);
    let di = d.0 * i0 + d.1 * i1;
    let a0 = abs_spec(d.0);
    let a1 = abs_spec(d.1);
    assert(x * q == d.0 * (x * d.0) + d.1 * (x * d.1)) by (nonlinear_arith)
        requires q == d.0 * d.0 + d.1 * d.1;
    assert(den * di == d.0 * (den * i0) + d.1 * (den * i1)) by (nonlinear_arith)
        requires di == d.0 * i0 + d.1 * i1;
    assert(den * s == a0 * den + a1 * den) by (nonlinear_arith)
        requires s == a0 + a1;
    assert(-a0 * den == -(a0 * den)) by (nonlinear_arith);
    assert(-a1 * den == -(a1 * den)) by (nonlinear_arith);
    assert(-den * s == -(den * s)) by (nonlinear_arith);
    assert(-den * s <= x * q - den * di <= den * s);
    let e = RESTITUTION_DEN * di - x;
    let err = RESTITUTION_DEN * s;
    assert(-err <= e <= err) by (nonlinear_arith)
        requires
            -den * s <= x * q - den * di <= den * s,
            den == RESTITUTION_DEN * q,
            e == RESTITUTION_DEN * di - x,
            err == RESTITUTION_DEN * s,
            q > 0,
    ;
    let v = bounce_spec(player, drop);
    assert(v == (drop.delta@.0 + i0, drop.delta@.1 + i1));
    let after = dot_spec(d, (v.0 - player.delta@.0, v.1 - player.delta@.1));
    assert(after == dot + di) by (nonlinear_arith)
        requires
            after == d.0 * (v.0 - player.delta@.0) + d.1 * (v.1 - player.delta@.1),
            v.0 == drop.delta@.0 + i0,
            v.1 == drop.delta@.1 + i1,
            rel.0 == drop.delta@.0 - player.delta@.0,
            rel.1 == drop.delta@.1 - player.delta@.1,
            dot == d.0 * rel.0 + d.1 * rel.1,
            di == d.0 * i0 + d.1 * i1,
    ;
    assert(RESTITUTION_DEN * after + RESTITUTION_NUM * dot == e) by (nonlinear_arith)
        requires
            after == dot + di,
            e == RESTITUTION_DEN * di - x,
            x == -(RESTITUTION_NUM + RESTITUTION_DEN) * dot,
    ;
}

/// Multiplying the rounding error of one impulse component back by its separation component.
proof fn lemma_rounding_component(x: int, dc: int, den: int, i: int)
    requires
        den > 0,
        den * i <= x * dc,
        x * dc < den * i + den,
    ensures
        -abs_spec(dc) * den <= dc * (x * dc) - dc * (den * i) <= abs_spec(dc) * den,
{
    let r = x * dc - den * i;
    assert(0 <= r < den);
    assert(dc * (x * dc) - dc * (den * i) == dc * r) by (nonlinear_arith)
        requires r == x * dc - den * i;
    let a = abs_spec(dc);
    if dc >= 0 {
        assert(-a * den <= dc * r <= a * den) by (nonlinear_arith)
            requires dc >= 0, a == dc, 0 <= r < den;
    } else {
        assert(-a * den <= dc * r <= a * den) by (nonlinear_arith)
            requires dc < 0, a == -dc, 0 <= r < den;
    }
}

/// The width of the umbrella's image in pixels.
pub const PLAYER_IMAGE_WIDTH: u32 = 600;

/// The umbrella's paint order.
pub const PLAYER_DEPTH: i32 = 1;

impl PlayerPlugin {
    /// How the umbrella at `player` is drawn: seven units wide, above the rain.
    pub fn render_position(player: &Body) -> (r: Position)
        ensures
            r.pos == player.pos,
            r.scale@ == PLAYER_WIDTH,
            r.image_width == PLAYER_IMAGE_WIDTH,
            r.z_idx == PLAYER_DEPTH,
    {
        Position::new(player.pos, WorldUnit(PLAYER_WIDTH), PLAYER_IMAGE_WIDTH, PLAYER_DEPTH)
    }
}

} // verus!
