//! The simulation context and its fixed step, which runs the systems in a fixed order:
//! intent, gravity, NPC decisions, collisions, integration, cleanup, then spawning.
use vstd::prelude::*;
use crate::gravity::{fall, GravityPlugin};
use crate::movable::{integrate, Body, MovePlugin};
use crate::npc::{absorb_all, all_wf, decided, survivors, Npc, NpcPlugin, NpcState, ANIMATION_MS, IDLE_MS, NPC_WIDTH};
use crate::player::{axis_speed, bounce_spec, Intent, PlayerPlugin, PLAYER_HALF_WIDTH};
use crate::rain::{retained, RainPlugin, RAIN_INTERVAL_MS};
use crate::score::{EarnPoint, ScorePlugin};
use crate::shack::{shelter_bounce, Shack, ShackPlugin, Shelter, SHACK_ANIMATION_MS, SHACK_FRAMES, SHACK_HEIGHT, SHACK_LIFT, SHACK_WIDTH};
use crate::timer::RepeatingTimer;
use crate::world_unit::{clamp_spec, WorldUnit, WorldVec2, BOTTOM, LEFT, RIGHT, TOP};

verus! {

/// Milliseconds between two NPCs entering.
pub const NPC_INTERVAL_MS: u32 = 5_000;

/// Everything the simulation steps: the player, the shelter and its animation, the
/// raindrops, the NPCs, the two spawn timers and the score.
pub struct World {
    pub player: Body,
    pub shelter: Shelter,
    pub shack: Shack,
    pub rain: Vec<Body>,
    pub npcs: Vec<Npc>,
    pub rain_timer: RepeatingTimer,
    pub npc_timer: RepeatingTimer,
    pub score: u32,
}

pub open spec fn all_bodies_wf(s: Seq<Body>) -> bool {
    forall|i: int| 0 <= i < s.len() ==> (#[trigger] s[i]).wf()
}

/// The vector with the given components.
pub open spec fn vec_of(v: (int, int)) -> WorldVec2 {
    WorldVec2 { x: WorldUnit(v.0 as i64), y: WorldUnit(v.1 as i64) }
}

/// A drop after this step's gravity.
pub open spec fn fallen(b: Body, dt: int) -> Body {
    Body { delta: WorldVec2 { y: WorldUnit(fall(b.delta.y@, dt) as i64), ..b.delta }, ..b }
}

/// A drop after this step's gravity, then its meeting with the umbrella, then with the
/// shelter.
pub open spec fn collided(player: Body, shelter: Shelter, b: Body, dt: int) -> Body {
    let g = fallen(b, dt);
    let p = Body { delta: vec_of(bounce_spec(player, g)), ..g };
    Body { delta: vec_of(shelter_bounce(shelter, p)), ..p }
}

/// A drop after this step's integration.
pub open spec fn moved(b: Body, dt: int) -> Body {
    Body { pos: vec_of(integrate(b.pos@, b.delta@, dt)), ..b }
}

/// An NPC after this step's integration.
pub open spec fn moved_npc(n: Npc, dt: int) -> Npc {
    Npc { body: moved(n.body, dt), ..n }
}

/// Whether a repeating timer went from `t0` to `t1` over `dt` milliseconds.
pub open spec fn timer_ticked(t0: RepeatingTimer, t1: RepeatingTimer, dt: int) -> bool {
    &&& t1.period_ms == t0.period_ms
    &&& t1.elapsed_ms == (t0.elapsed_ms + dt) % (t0.period_ms as int)
}

/// Whether a repeating timer fires during the next `dt` milliseconds.
pub open spec fn timer_fired(t0: RepeatingTimer, dt: int) -> bool {
    t0.elapsed_ms + dt >= t0.period_ms
}

/// The NPCs after a step, given the decided NPCs `ds`: they absorb the drops `pre`, move,
/// tick their clocks and the soaked ones leave.
pub open spec fn npcs_after(ds: Seq<Npc>, pre: Seq<Body>, dt: int) -> Seq<Npc> {
    survivors(absorb_all(ds, pre).0.map_values(|n: Npc| moved_npc(n, dt)), dt)
}

/// What one fixed step of `dt` milliseconds under `intent` does, taking `w0` to `w1` and
/// earning `points`:
/// - the player moves at the intent's velocity, then is kept on screen;
/// - each drop falls, bounces off the umbrella and the shelter, may be absorbed by an NPC
///   (each absorption earns one point), moves, and is removed once out of play; when the
///   rain timer fires, a resting drop appears on the top edge;
/// - each NPC decides (see `decided`) seeing the rain after gravity, absorbs, moves, ticks
///   its clocks, and leaves once soaked long enough; when the NPC timer fires, a dry, idle
///   NPC enters at the left;
/// - the shelter stays and its animation ticks; the score grows by the points earned.
pub open spec fn step_done(w0: World, w1: World, intent: Intent, dt: int, points: Seq<EarnPoint>) -> bool {
    let player = Body { pos: w0.player.pos, delta: w1.player.delta };
    let fallen_rain = w0.rain@.map_values(|b: Body| fallen(b, dt));
    let pre = w0.rain@.map_values(|b: Body| collided(player, w0.shelter, b, dt));
    let absorbed = absorb_all(w0.npcs@, pre);
    let rest = retained(absorbed.1.map_values(|b: Body| moved(b, dt)));
    &&& w1.wf()
    &&& w1.player.delta@ == (axis_speed(intent.right, intent.left), axis_speed(intent.up, intent.down))
    &&& w1.player.pos@ == ({
        let m = integrate(w0.player.pos@, w1.player.delta@, dt);
        (
            clamp_spec(m.0, LEFT + PLAYER_HALF_WIDTH, RIGHT - PLAYER_HALF_WIDTH),
            clamp_spec(m.1, BOTTOM + PLAYER_HALF_WIDTH, TOP - PLAYER_HALF_WIDTH),
        )
    })
    &&& w1.shelter == w0.shelter
    &&& w1.score == (if w0.score + points.len() > u32::MAX { u32::MAX as int } else { w0.score + points.len() })
    &&& points == absorbed.2
    &&& timer_ticked(w0.rain_timer, w1.rain_timer, dt)
    &&& !timer_fired(w0.rain_timer, dt) ==> w1.rain@ == rest
    &&& timer_fired(w0.rain_timer, dt) ==> {
        &&& w1.rain@.drop_last() == rest
        &&& w1.rain@.len() == rest.len() + 1
        &&& LEFT <= w1.rain@.last().pos.x@ <= RIGHT
        &&& w1.rain@.last().pos.y@ == TOP
        &&& w1.rain@.last().delta@ == (0int, 0int)
    }
    &&& timer_ticked(w0.npc_timer, w1.npc_timer, dt)
    &&& exists|ds: Seq<Npc>| {
        &&& ds.len() == w0.npcs@.len()
        &&& forall|i: int| 0 <= i < ds.len() ==> decided(w0.npcs@[i], #[trigger] ds[i], fallen_rain, dt)
        &&& !timer_fired(w0.npc_timer, dt) ==> w1.npcs@ == npcs_after(ds, pre, dt)
        &&& timer_fired(w0.npc_timer, dt) ==> {
            &&& w1.npcs@.drop_last() == npcs_after(ds, pre, dt)
            &&& w1.npcs@.len() == npcs_after(ds, pre, dt).len() + 1
            &&& w1.npcs@.last().body.pos@ == (LEFT - NPC_WIDTH / 2, BOTTOM / 2)
            &&& w1.npcs@.last().body.delta@ == (0int, 0int)
            &&& w1.npcs@.last().state == (NpcState::Idle { timer_ms: IDLE_MS })
            &&& w1.npcs@.last().wetness == 0
            &&& w1.npcs@.last().soaked_ms == 0
            &&& w1.npcs@.last().animation_idx == 0
            &&& w1.npcs@.last().animation == (RepeatingTimer { period_ms: ANIMATION_MS, elapsed_ms: 0 })
        }
    }
    &&& timer_ticked(w0.shack.timer, w1.shack.timer, dt)
    &&& w1.shack.animation_idx == (if timer_fired(w0.shack.timer, dt) {
        (w0.shack.animation_idx + 1) % (SHACK_FRAMES as int)
    } else {
        w0.shack.animation_idx as int
    })
}

/// The points of a sequence of steps, in order.
pub open spec fn concat_points(ps: Seq<Seq<EarnPoint>>) -> Seq<EarnPoint>
    decreases ps.len(),
{
    if ps.len() == 0 {
        Seq::empty()
    } else {
        concat_points(ps.drop_last()) + ps.last()
    }
}

/// Whether `ws` are the worlds of consecutive steps under `intent`, `ps[k]` the points of the
/// step from `ws[k]` to `ws[k + 1]`.
pub open spec fn steps_done(ws: Seq<World>, ps: Seq<Seq<EarnPoint>>, intent: Intent, dt: int) -> bool {
    &&& ws.len() == ps.len() + 1
    &&& forall|k: int| #![trigger ps[k]] 0 <= k < ps.len() ==> step_done(ws[k], ws[k + 1], intent, dt, ps[k])
}

impl World {
    pub open spec fn wf(&self) -> bool {
        &&& self.player.wf()
        &&& self.shelter.wf()
        &&& self.shack.wf()
        &&& all_bodies_wf(self.rain@)
        &&& all_wf(self.npcs@)
        &&& self.rain_timer.wf()
        &&& self.npc_timer.wf()
    }

    /// The starting world: the player resting at the center, the shelter in place, no rain,
    /// no NPCs, timers just started and no points.
    pub fn new() -> (r: World)
        ensures
            r.wf(),
            r.player.pos@ == (0int, 0int),
            r.player.delta@ == (0int, 0int),
            r.rain@.len() == 0,
            r.npcs@.len() == 0,
            r.score == 0,
            r.rain_timer == (RepeatingTimer { period_ms: RAIN_INTERVAL_MS, elapsed_ms: 0 }),
            r.npc_timer == (RepeatingTimer { period_ms: NPC_INTERVAL_MS, elapsed_ms: 0 }),
            r.shelter.center@ == (RIGHT - SHACK_WIDTH / 2, BOTTOM + SHACK_HEIGHT / 2 + SHACK_LIFT),
            r.shelter.half_width@ == SHACK_WIDTH / 2,
            r.shelter.half_height@ == SHACK_HEIGHT / 2,
            r.shack.animation_idx == 0,
            r.shack.timer == (RepeatingTimer { period_ms: SHACK_ANIMATION_MS, elapsed_ms: 0 }),
    {
        World {
            player: Body { pos: WorldVec2::zero(), delta: WorldVec2::zero() },
            shelter: ShackPlugin::spawn_shack(),
            shack: Shack::new(),
            rain: Vec::new(),
            npcs: Vec::new(),
            rain_timer: RepeatingTimer::new(RAIN_INTERVAL_MS),
            npc_timer: RepeatingTimer::new(NPC_INTERVAL_MS),
            score: 0,
        }
    }

    /// One fixed step of `dt` milliseconds under the given intent. Returns the points earned
    /// in it, which are also added to the score.
    pub fn step(&mut self, intent: Intent, dt: u32, rng: &mut fastrand::Rng) -> (r: Vec<EarnPoint>)
        requires
            old(self).wf(),
        ensures
            step_done(*old(self), *final(self), intent, dt as int, r@),
            r@.len() <= old(self).rain@.len(),
    {
        // intent
        self.player.delta = PlayerPlugin::move_player(intent);
        let ghost player = self.player;
        let ghost start = self.rain@;
        // gravity
        GravityPlugin::apply_gravity(&mut self.rain, dt);
        // NPC decisions
        let ghost start_gravity_rain = self.rain@;
        NpcPlugin::control_npcs(&mut self.npcs, &self.rain, dt, rng);
        proof {
            assert(start_gravity_rain =~= start.map_values(|b: Body| fallen(b, dt as int)));
        }
        // collisions
        PlayerPlugin::handle_rain_collisions(&self.player, &mut self.rain);
        ShackPlugin::handle_rain_collisions(&self.shelter, &mut self.rain);
        let ghost before_absorb = self.rain@;
        let ghost npcs_before = self.npcs@;
        proof {
            assert(before_absorb =~= start.map_values(|b: Body| collided(player, old(self).shelter, b, dt as int)));
            assert(crate::npc::absorb_equiv(npcs_before, old(self).npcs@)) by {
                assert forall|i: int| 0 <= i < npcs_before.len() implies (#[trigger] npcs_before[i]).body.pos == old(self).npcs@[i].body.pos
                    && npcs_before[i].wetness == old(self).npcs@[i].wetness by {
                    assert(crate::npc::decided(old(self).npcs@[i], npcs_before[i], start_gravity_rain, dt as int));
                }
            }
        }
        let events = NpcPlugin::absorb_rain(&mut self.npcs, &mut self.rain);
        proof {
            crate::npc::lemma_absorb_all_equiv(npcs_before, old(self).npcs@, before_absorb);
            crate::npc::lemma_absorb_count(npcs_before, before_absorb);
            assert forall|i: int| 0 <= i < self.rain@.len() implies (#[trigger] self.rain@[i]).wf() by {
                crate::npc::lemma_absorb_kept(npcs_before, before_absorb);
            }
        }
        // integration
        let ghost kept = self.rain@;
        MovePlugin::apply_moves(&mut self.rain, dt);
        proof {
            assert(self.rain@ =~= kept.map_values(|b: Body| moved(b, dt as int)));
        }
        self.player.advance(dt);
        let ghost absorbed_npcs = self.npcs@;
        NpcPlugin::move_npcs(&mut self.npcs, dt);
        let ghost moved_npcs = self.npcs@;
        proof {
            assert(moved_npcs =~= absorbed_npcs.map_values(|n: Npc| moved_npc(n, dt as int)));
            assert(absorbed_npcs == absorb_all(npcs_before, before_absorb).0);
        }
        // cleanup
        self.player.pos = PlayerPlugin::snap_in_bounds(self.player.pos);
        let ghost before_cleanup = self.rain@;
        RainPlugin::despawn_raindrops(&mut self.rain);
        proof {
            crate::rain::lemma_cleanup_keeps_in_bounds(before_cleanup);
            assert forall|i: int| 0 <= i < self.rain@.len() implies (#[trigger] self.rain@[i]).wf() by {
                assert(self.rain@.contains(self.rain@[i]));
            }
        }
        NpcPlugin::npc_tick(&mut self.npcs, dt);
        self.shack.tick(dt);
        // spawning, between steps
        let ghost before_spawn = self.rain@;
        RainPlugin::spawn_raindrops(&mut self.rain_timer, rng, &mut self.rain, dt);
        proof {
            assert forall|i: int| 0 <= i < self.rain@.len() implies (#[trigger] self.rain@[i]).wf() by {
                if self.rain@.len() > before_spawn.len() && i < before_spawn.len() {
                    assert(self.rain@.drop_last()[i] == self.rain@[i]);
                }
            }
        }
        let ghost npcs_before_spawn = self.npcs@;
        NpcPlugin::spawn_npcs(&mut self.npc_timer, &mut self.npcs, dt);
        proof {
            assert forall|i: int| 0 <= i < self.npcs@.len() implies (#[trigger] self.npcs@[i]).wf() by {
                if self.npcs@.len() > npcs_before_spawn.len() && i < npcs_before_spawn.len() {
                    assert(self.npcs@.drop_last()[i] == self.npcs@[i]);
                }
            }
        }
        self.score = ScorePlugin::earn_points(self.score, &events);
        proof {
            let fallen_rain = start.map_values(|b: Body| fallen(b, dt as int));
            assert(npcs_before_spawn == npcs_after(npcs_before, before_absorb, dt as int));
            assert(npcs_before.len() == old(self).npcs@.len());
            assert(forall|i: int| 0 <= i < npcs_before.len() ==> decided(old(self).npcs@[i], #[trigger] npcs_before[i], fallen_rain, dt as int));
            if self.npcs@.len() > npcs_before_spawn.len() {
                assert(self.npcs@.drop_last() == npcs_before_spawn);
            }
        }
        events
    }
}

/// Accumulates frame time and hands it out in whole fixed steps: a slow frame may run several
/// steps, a fast one none; the remainder carries over to the next frame.
#[derive(Clone, Copy, Debug, PartialEq, Eq, Structural)]
pub struct FixedClock {
    pub step_ms: u32,
    pub accumulated_ms: u32,
}

impl FixedClock {
    pub open spec fn wf(self) -> bool {
        0 < self.step_ms && self.accumulated_ms < self.step_ms
    }

    /// A clock of the given step with nothing accumulated.
    pub fn new(step_ms: u32) -> (r: FixedClock)
        requires
            step_ms > 0,
        ensures
            r.step_ms == step_ms,
            r.accumulated_ms == 0,
            r.wf(),
    {
        FixedClock { step_ms, accumulated_ms: 0 }
    }

    /// Adds a frame of `frame_ms` milliseconds; returns how many whole steps are due.
    pub fn advance(&mut self, frame_ms: u32) -> (steps: u32)
        requires
            old(self).wf(),
        ensures
            steps == (old(self).accumulated_ms + frame_ms) / (old(self).step_ms as int),
            final(self).accumulated_ms == (old(self).accumulated_ms + frame_ms) % (old(self).step_ms as int),
            final(self).step_ms == old(self).step_ms,
            final(self).wf(),
    {
        let total: u64 = self.accumulated_ms as u64 + frame_ms as u64;
        let step: u64 = self.step_ms as u64;
        self.accumulated_ms = (total % step) as u32;
        proof {
            crate::world_unit::lemma_floor_div_bounds(total as int, step as int);
            let q = total as int / step as int;
            let acc = old(self).accumulated_ms as int;
            let f = frame_ms as int;
            assert(step * (q - 1) < f) by (nonlinear_arith)
                requires step * q <= total, total == acc + f, acc < step;
            if q > f {
                assert(step * (q - 1) >= f) by (nonlinear_arith) requires q - 1 >= f, step >= 1, f >= 0;
            }
        }
        (total / step) as u32
    }
}

impl World {
    /// Runs the steps that a frame of `frame_ms` milliseconds makes due on `clock`, all under
    /// the same intent: the worlds pass through that many consecutive steps (see
    /// `step_done`), and the points they earn are returned in order. With no step due, the
    /// world is unchanged.
    pub fn run_frame(&mut self, clock: &mut FixedClock, frame_ms: u32, intent: Intent, rng: &mut fastrand::Rng) -> (r: Vec<EarnPoint>)
        requires
            old(self).wf(),
            old(clock).wf(),
        ensures
            final(self).wf(),
            final(clock).wf(),
            final(clock).step_ms == old(clock).step_ms,
            final(clock).accumulated_ms == (old(clock).accumulated_ms + frame_ms) % (old(clock).step_ms as int),
            exists|ws: Seq<World>, ps: Seq<Seq<EarnPoint>>| {
                &&& steps_done(ws, ps, intent, old(clock).step_ms as int)
                &&& ps.len() == (old(clock).accumulated_ms + frame_ms) / (old(clock).step_ms as int)
                &&& ws[0] == *old(self)
                &&& ws.last() == *final(self)
                &&& r@ == concat_points(ps)
            },
            old(clock).accumulated_ms + frame_ms < old(clock).step_ms ==> *final(self) == *old(self) && r@.len() == 0,
            final(self).score == (if old(self).score + r@.len() > u32::MAX {
                u32::MAX as int
            } else {
                old(self).score + r@.len()
            }),
    {
        let steps = clock.advance(frame_ms);
        let dt = clock.step_ms;
        let mut events: Vec<EarnPoint> = Vec::new();
        let ghost mut ws: Seq<World> = seq![*self];
        let ghost mut ps: Seq<Seq<EarnPoint>> = Seq::empty();
        let mut k: u32 = 0;
        while k < steps
            invariant
                self.wf(),
                k <= steps,
                dt == old(clock).step_ms,
                steps_done(ws, ps, intent, dt as int),
                ps.len() == k,
                ws[0] == *old(self),
                ws.last() == *self,
                events@ == concat_points(ps),
                self.score == (if old(self).score + events@.len() > u32::MAX {
                    u32::MAX as int
                } else {
                    old(self).score + events@.len()
                }),
            decreases steps - k,
        {
            let ghost before = *self;
            let mut points = self.step(intent, dt, rng);
            let ghost got = points@;
            events.append(&mut points);
            proof {
                let ws1 = ws.push(*self);
                let ps1 = ps.push(got);
                assert(ps1.drop_last() =~= ps);
                assert forall|j: int| #![trigger ps1[j]] 0 <= j < ps1.len() implies step_done(ws1[j], ws1[j + 1], intent, dt as int, ps1[j]) by {
                    if j < ps.len() {
                        assert(ps1[j] == ps[j]);
                        assert(ws1[j] == ws[j] && ws1[j + 1] == ws[j + 1]);
                    } else {
                        assert(ws1[j] == before);
                    }
                }
                ws = ws1;
                ps = ps1;
            }
            k += 1;
        }
        proof {
            let total = old(clock).accumulated_ms + frame_ms;
            if total < old(clock).step_ms {
                vstd::arithmetic::div_mod::lemma_fundamental_div_mod_converse(total, old(clock).step_ms as int, 0, total);
                assert(ws.len() == 1);
                assert(events@ =~= Seq::<EarnPoint>::empty());
            }
        }
        events
    }
}

} // verus!
