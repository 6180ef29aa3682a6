//! Fixed-step motion: every moving entity advances by its velocity times the step.
use vstd::prelude::*;
use crate::world_unit::{in_world, lemma_saturate_step, saturate, WorldUnit, WorldVec2};

verus! {

/// A moving entity's logical position and velocity ("delta", micro-units per millisecond).
#[derive(Clone, Copy, Debug, PartialEq, Eq, Structural)]
pub struct Body {
    pub pos: WorldVec2,
    pub delta: WorldVec2,
}

impl Body {
    pub open spec fn wf(self) -> bool {
        self.pos.wf() && self.delta.wf()
    }

    /// A body at `pos` with velocity `delta`.
    pub fn new(pos: WorldVec2, delta: WorldVec2) -> (r: Body)
        ensures
            r.pos == pos,
            r.delta == delta,
    {
        Body { pos, delta }
    }

    /// Moves the body by its velocity over `dt` milliseconds.
    pub fn advance(&mut self, dt: u32)
        ensures
            final(self).pos@ == integrate(old(self).pos@, old(self).delta@, dt as int),
            final(self).delta == old(self).delta,
            final(self).pos.wf(),
    {
        self.pos = WorldVec2 { x: exact_add(self.pos.x, self.delta.x, dt), y: exact_add(self.pos.y, self.delta.y, dt) };
    }
}

/// `p + v * dt`, saturated, computed without intermediate rounding.
fn exact_add(p: WorldUnit, v: WorldUnit, dt: u32) -> (r: WorldUnit)
    ensures
        r@ == saturate(p@ + v@ * dt),
        r.wf(),
{
    proof {
        crate::world_unit::lemma_i64_product_fits(v@, dt as int);
    }
    let prod: i128 = v.0 as i128 * dt as i128;
    proof {
        assert(-0x4000_0000_0000_0000_0000_0000_0000_0000 <= prod <= 0x4000_0000_0000_0000_0000_0000_0000_0000);
    }
    WorldUnit(crate::world_unit::saturate_i128(p.0 as i128 + prod))
}

/// One step of linear motion, saturated at the world limit.
pub open spec fn integrate(p: (int, int), v: (int, int), dt: int) -> (int, int) {
    (saturate(p.0 + v.0 * dt), saturate(p.1 + v.1 * dt))
}

/// `n` steps of `dt` milliseconds each.
pub open spec fn integrate_steps(p: (int, int), v: (int, int), dt: int, n: nat) -> (int, int)
    decreases n,
{
    if n == 0 {
        p
    } else {
        integrate(integrate_steps(p, v, dt, (n - 1) as nat), v, dt)
    }
}

/// Integration of the motion systems.
pub struct MovePlugin;

impl MovePlugin {
    /// Advances every body by its velocity over one fixed step of `dt` milliseconds.
    pub fn apply_moves(bodies: &mut Vec<Body>, dt: u32)
        ensures
            final(bodies)@.len() == old(bodies)@.len(),
            forall|i: int|
                0 <= i < old(bodies)@.len() ==> {
                    &&& (#[trigger] final(bodies)@[i]).pos@ == integrate(old(bodies)@[i].pos@, old(bodies)@[i].delta@, dt as int)
                    &&& final(bodies)@[i].delta == old(bodies)@[i].delta
                    &&& final(bodies)@[i].pos.wf()
                },
    {
        let n = bodies.len();
        let mut i: usize = 0;
        while i < n
            invariant
                n == old(bodies)@.len(),
                bodies@.len() == n,
                0 <= i <= n,
                forall|j: int|
                    0 <= j < i ==> {
                        &&& (#[trigger] bodies@[j]).pos@ == integrate(old(bodies)@[j].pos@, old(bodies)@[j].delta@, dt as int)
                        &&& bodies@[j].delta == old(bodies)@[j].delta
                        &&& bodies@[j].pos.wf()
                    },
                forall|j: int| i <= j < n ==> #[trigger] bodies@[j] == old(bodies)@[j],
            decreases n - i,
        {
            let mut b = bodies[i];
            b.advance(dt);
            bodies.set(i, b);
            i += 1;
        }
    }
}

/// Splitting a step: from any position in the world range, `n` steps of `dt` move a body
/// exactly as far as one step of `n * dt` (saturation at the world limit included).
pub proof fn lemma_step_splitting(p: (int, int), v: (int, int), dt: int, n: nat)
    requires
        dt >= 0,
        in_world(p.0),
        in_world(p.1),
    ensures
        integrate_steps(p, v, dt, n) == integrate(p, v, n * dt),
        integrate_steps(p, v, dt, n) == (saturate(p.0 + n * (v.0 * dt)), saturate(p.1 + n * (v.1 * dt))),
    decreases n,
{
    assert(v.0 * (n * dt) == n * (v.0 * dt) && v.1 * (n * dt) == n * (v.1 * dt)) by (nonlinear_arith);
    if n > 0 {
        let m = (n - 1) as nat;
        lemma_step_splitting(p, v, dt, m);
        lemma_saturate_step(p.0, v.0 * dt, m);
        lemma_saturate_step(p.1, v.1 * dt, m);
    } else {
        assert(n * (v.0 * dt) == 0 && n * (v.1 * dt) == 0) by (nonlinear_arith)
            requires n == 0;
    }
}

} // verus!
