//! Constant downward acceleration of gravity-affected entities, applied before integration.
use vstd::prelude::*;
use crate::movable::Body;
use crate::world_unit::{in_world, lemma_saturate_step, saturate, saturate_i128, WorldUnit, WORLD_LIMIT};

verus! {

/// Marks an entity as subject to gravity.
#[derive(Clone, Copy, Debug, PartialEq, Eq, Structural, Default)]
pub struct GravityComponent;

/// Gravity, in micro-units per square millisecond (sixteen world units per square second).
pub const G: i64 = 16;

/// The vertical velocity after one step of gravity.
pub open spec fn fall(vy: int, dt: int) -> int {
    saturate(vy - G * dt)
}

/// The vertical velocity after `n` steps of gravity.
pub open spec fn fall_steps(vy: int, dt: int, n: nat) -> int
    decreases n,
{
    if n == 0 {
        vy
    } else {
        fall(fall_steps(vy, dt, (n - 1) as nat), dt)
    }
}

/// The gravity system.
pub struct GravityPlugin;

impl GravityPlugin {
    /// Lowers a body's vertical velocity by `G * dt`; the horizontal velocity and the
    /// position are kept.
    pub fn accelerate(body: &mut Body, dt: u32)
        ensures
            final(body).delta.y@ == fall(old(body).delta.y@, dt as int),
            final(body).delta.x == old(body).delta.x,
            final(body).pos == old(body).pos,
    {
        let drop: i128 = G as i128 * dt as i128;
        assert(0 <= drop <= 16 * 0xffff_ffff) by (nonlinear_arith)
            requires drop == G * dt, G == 16, 0 <= dt <= 0xffff_ffff;
        let vy: i128 = body.delta.y.0 as i128 - drop;
        body.delta.y = WorldUnit(saturate_i128(vy));
    }

    /// Applies one step of gravity to every gravity-affected body.
    pub fn apply_gravity(bodies: &mut Vec<Body>, dt: u32)
        ensures
            final(bodies)@.len() == old(bodies)@.len(),
            forall|i: int|
                0 <= i < old(bodies)@.len() ==> {
                    &&& (#[trigger] final(bodies)@[i]).delta.y@ == fall(old(bodies)@[i].delta.y@, dt as int)
                    &&& final(bodies)@[i].delta.x == old(bodies)@[i].delta.x
                    &&& final(bodies)@[i].pos == old(bodies)@[i].pos
                },
    {
        let n = bodies.len();
        let mut i: usize = 0;
        while i < n
            invariant
                n == old(bodies)@.len(),
                bodies@.len() == n,
                0 <= i <= n,
                forall|j: int|
                    0 <= j < i ==> {
                        &&& (#[trigger] bodies@[j]).delta.y@ == fall(old(bodies)@[j].delta.y@, dt as int)
                        &&& bodies@[j].delta.x == old(bodies)@[j].delta.x
                        &&& bodies@[j].pos == old(bodies)@[j].pos
                    },
                forall|j: int| i <= j < n ==> #[trigger] bodies@[j] == old(bodies)@[j],
            decreases n - i,
        {
            let mut b = bodies[i];
            Self::accelerate(&mut b, dt);
            bodies.set(i, b);
            i += 1;
        }
    }
}

/// Free fall: from any vertical velocity in the world range, `n` steps of gravity lower it
/// by `n * G * dt` (saturating at the world limit); every step lowers it by exactly `G * dt`
/// while that stays in range, so with `dt > 0` it strictly decreases step after step until
/// it reaches the limit.
pub proof fn lemma_free_fall(vy: int, dt: int, n: nat)
    requires
        dt >= 0,
        in_world(vy),
    ensures
        fall_steps(vy, dt, n) == saturate(vy - n * (G * dt)),
        n > 0 && in_world(vy - n * (G * dt)) ==> fall_steps(vy, dt, n) == fall_steps(vy, dt, (n - 1) as nat) - G * dt,
        n > 0 && dt > 0 && fall_steps(vy, dt, (n - 1) as nat) > -WORLD_LIMIT ==> fall_steps(vy, dt, n) < fall_steps(vy, dt, (n - 1) as nat),
    decreases n,
{
    if n > 0 {
        let m = (n - 1) as nat;
        lemma_free_fall(vy, dt, m);
        lemma_saturate_step(vy, -(G * dt), m);
        assert(m * -(G * dt) == -(m * (G * dt)) && n * -(G * dt) == -(n * (G * dt))) by (nonlinear_arith);
        assert(0 <= m * (G * dt) <= n * (G * dt)) by (nonlinear_arith)
            requires m + 1 == n, dt >= 0, m >= 0, G == 16;
        assert(m * (G * dt) + G * dt == n * (G * dt)) by (nonlinear_arith)
            requires m + 1 == n;
    } else {
        assert(n * (G * dt) == 0) by (nonlinear_arith)
            requires n == 0;
    }
}

} // verus!
