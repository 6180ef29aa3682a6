//! Non-player characters: a finite-state machine (idle, walking, running from the nearest
//! raindrop in sight), a wetness counter that ends in a soaked state, and the absorption of
//! raindrops that reach an NPC's body.
use vstd::prelude::*;
use crate::position::Position;
use crate::movable::Body;
use crate::rain::RAIN_RADIUS;
use crate::random::{random_below, random_u32};
use crate::score::EarnPoint;
use crate::timer::RepeatingTimer;
use crate::world_unit::{BOTTOM, LEFT};
use crate::world_unit::{clamp_spec, WorldUnit, WorldVec2};

verus! {

/// An NPC's body width (sixty pixels of the 1280-pixel reference screen: 2.34375 world
/// units).
pub const NPC_WIDTH: i64 = 2_343_750;

/// An NPC's body height (its sprite's 656:589 aspect at the body width).
pub const NPC_HEIGHT: i64 = 2_610_356;

/// Squared distance under which an NPC sees a raindrop (five world units).
pub const SIGHT_DIST_SQUARED: i128 = 25_000_000_000_000;

/// Walking speed (two world units per second).
pub const WALK_SPEED: i64 = 2_000;

/// Running speed (six world units per second).
pub const RUN_SPEED: i64 = 6_000;

/// How long an NPC stays idle before deciding again.
pub const IDLE_MS: u32 = 1_500;

/// How long an NPC walks before stopping.
pub const WALK_MS: u32 = 2_000;

/// How long an NPC runs before looking again.
pub const RUN_MS: u32 = 1_000;

/// The wetness level at which an NPC is soaked and absorbs no more rain.
pub const SOAKED_LEVEL: u32 = 3;

/// How long a soaked NPC stays before it leaves.
pub const SOAKED_MS: u32 = 2_000;

/// The NPC's behavior, each state with the milliseconds it has left.
#[derive(Clone, Copy, Debug, PartialEq, Eq, Structural)]
pub enum NpcState {
    Idle { timer_ms: u32 },
    Walking { to_left: bool, timer_ms: u32 },
    Running { to_left: bool, timer_ms: u32 },
}

/// The look of an NPC.
#[derive(Clone, Copy, Debug, PartialEq, Eq, Structural)]
pub enum Character {
    Boy,
    Nun,
    OldMan,
    SchoolGirl,
    Baker,
    BearGirl,
    BoyCap,
}

/// The number of characters.
pub const NUM_CHARACTERS: u32 = 7;

pub open spec fn character_of(i: int) -> Character {
    if i == 0 {
        Character::Boy
    } else if i == 1 {
        Character::Nun
    } else if i == 2 {
        Character::OldMan
    } else if i == 3 {
        Character::SchoolGirl
    } else if i == 4 {
        Character::Baker
    } else if i == 5 {
        Character::BearGirl
    } else {
        Character::BoyCap
    }
}

impl Character {
    /// The character with the given index, in declaration order.
    pub fn from_index(i: u32) -> (r: Character)
        requires
            i < NUM_CHARACTERS,
        ensures
            r == character_of(i as int),
    {
        match i {
            0 => Character::Boy,
            1 => Character::Nun,
            2 => Character::OldMan,
            3 => Character::SchoolGirl,
            4 => Character::Baker,
            5 => Character::BearGirl,
            _ => Character::BoyCap,
        }
    }

    /// A character picked uniformly at random.
    pub fn random_character() -> (r: Character)
        ensures
            exists|i: int| 0 <= i < NUM_CHARACTERS && r == character_of(i),
    {
        let i = random_below(NUM_CHARACTERS);
        Self::from_index(i)
    }

    /// How many frames the character's dry walking animation has.
    pub fn num_states(&self) -> (r: u32)
        ensures
            r == frames_of(*self),
            r > 0,
    {
        match self {
            Character::Boy => 4,
            Character::Nun => 1,
            _ => 2,
        }
    }
}

/// The direction that runs away from a hazard at `hazard_x`: left when it is at or to the
/// right of the NPC.
pub open spec fn flee_left(npc_x: int, hazard_x: int) -> bool {
    hazard_x >= npc_x
}

/// The state after `dt` milliseconds, given the horizontal position of the nearest hazard in
/// sight (if any) and a random `choice` that only an idle NPC whose time is up uses: `0`
/// stays idle, `1` walks left, anything else walks right.
pub open spec fn next_state(s: NpcState, npc_x: int, hazard: Option<int>, dt: int, choice: int) -> NpcState {
    match s {
        NpcState::Running { to_left, timer_ms } => {
            if timer_ms > dt {
                NpcState::Running { to_left, timer_ms: (timer_ms - dt) as u32 }
            } else if hazard is Some {
                NpcState::Running { to_left: flee_left(npc_x, hazard->0), timer_ms: RUN_MS }
            } else {
                NpcState::Idle { timer_ms: IDLE_MS }
            }
        },
        NpcState::Idle { timer_ms } => {
            if hazard is Some {
                NpcState::Running { to_left: flee_left(npc_x, hazard->0), timer_ms: RUN_MS }
            } else if timer_ms > dt {
                NpcState::Idle { timer_ms: (timer_ms - dt) as u32 }
            } else if choice == 0 {
                NpcState::Idle { timer_ms: IDLE_MS }
            } else {
                NpcState::Walking { to_left: choice == 1, timer_ms: WALK_MS }
            }
        },
        NpcState::Walking { to_left, timer_ms } => {
            if hazard is Some {
                NpcState::Running { to_left: flee_left(npc_x, hazard->0), timer_ms: RUN_MS }
            } else if timer_ms > dt {
                NpcState::Walking { to_left, timer_ms: (timer_ms - dt) as u32 }
            } else {
                NpcState::Idle { timer_ms: IDLE_MS }
            }
        },
    }
}

/// Whether the step needs a random choice: an idle NPC whose time is up, with no hazard.
pub open spec fn needs_choice(s: NpcState, hazard: Option<int>, dt: int) -> bool {
    match s {
        NpcState::Idle { timer_ms } => hazard is None && timer_ms <= dt,
        _ => false,
    }
}

/// The horizontal velocity of a state.
pub open spec fn state_speed(s: NpcState) -> int {
    match s {
        NpcState::Idle { .. } => 0,
        NpcState::Walking { to_left, .. } => if to_left { -WALK_SPEED } else { WALK_SPEED as int },
        NpcState::Running { to_left, .. } => if to_left { -RUN_SPEED } else { RUN_SPEED as int },
    }
}

impl NpcState {
    /// The state after `dt` milliseconds (see `next_state`).
    pub fn next(self, npc_x: i64, hazard_x: Option<i64>, dt: u32, choice: u32) -> (r: NpcState)
        ensures
            r == next_state(self, npc_x as int, opt_int(hazard_x), dt as int, choice as int),
    {
        match self {
            NpcState::Running { to_left, timer_ms } => {
                if timer_ms > dt {
                    NpcState::Running { to_left, timer_ms: timer_ms - dt }
                } else {
                    match hazard_x {
                        Some(h) => NpcState::Running { to_left: h >= npc_x, timer_ms: RUN_MS },
                        None => NpcState::Idle { timer_ms: IDLE_MS },
                    }
                }
            },
            NpcState::Idle { timer_ms } => {
                match hazard_x {
                    Some(h) => NpcState::Running { to_left: h >= npc_x, timer_ms: RUN_MS },
                    None => {
                        if timer_ms > dt {
                            NpcState::Idle { timer_ms: timer_ms - dt }
                        } else if choice == 0 {
                            NpcState::Idle { timer_ms: IDLE_MS }
                        } else {
                            NpcState::Walking { to_left: choice == 1, timer_ms: WALK_MS }
                        }
                    },
                }
            },
            NpcState::Walking { to_left, timer_ms } => {
                match hazard_x {
                    Some(h) => NpcState::Running { to_left: h >= npc_x, timer_ms: RUN_MS },
                    None => {
                        if timer_ms > dt {
                            NpcState::Walking { to_left, timer_ms: timer_ms - dt }
                        } else {
                            NpcState::Idle { timer_ms: IDLE_MS }
                        }
                    },
                }
            },
        }
    }

    /// Whether this step needs a random choice (see `needs_choice`).
    pub fn wants_choice(self, hazard_x: Option<i64>, dt: u32) -> (r: bool)
        ensures
            r == needs_choice(self, opt_int(hazard_x), dt as int),
    {
        match self {
            NpcState::Idle { timer_ms } => hazard_x.is_none() && timer_ms <= dt,
            _ => false,
        }
    }

    /// The horizontal velocity of this state.
    pub fn speed(self) -> (r: i64)
        ensures
            r == state_speed(self),
    {
        match self {
            NpcState::Idle { .. } => 0,
            NpcState::Walking { to_left, .. } => if to_left { -WALK_SPEED } else { WALK_SPEED },
            NpcState::Running { to_left, .. } => if to_left { -RUN_SPEED } else { RUN_SPEED },
        }
    }
}

pub open spec fn opt_int(o: Option<i64>) -> Option<int> {
    match o {
        Some(v) => Some(v as int),
        None => None,
    }
}

/// A character walking along the street.
#[derive(Clone, Copy, Debug, PartialEq, Eq, Structural)]
pub struct Npc {
    pub body: Body,
    pub character: Character,
    pub state: NpcState,
    /// Raindrops absorbed so far, up to `SOAKED_LEVEL`.
    pub wetness: u32,
    /// Milliseconds spent soaked.
    pub soaked_ms: u32,
    /// The current frame of the dry walking animation.
    pub animation_idx: u32,
    /// Paces the walking animation.
    pub animation: RepeatingTimer,
}

/// Milliseconds per frame of an NPC's walking animation.
pub const ANIMATION_MS: u32 = 250;

/// What an NPC looks like this frame: a frame of its dry walking animation, or its wet look.
#[derive(Clone, Copy, Debug, PartialEq, Eq, Structural)]
pub enum NpcSprite {
    Dry { character: Character, frame: u32 },
    Wet { character: Character },
}

/// The number of frames of a character's dry walking animation.
pub open spec fn frames_of(c: Character) -> u32 {
    match c {
        Character::Boy => 4,
        Character::Nun => 1,
        _ => 2,
    }
}

/// The NPC after `dt` milliseconds of its own clocks: the walking animation moves on one
/// frame (wrapping) when its timer fires, and a soaked NPC's soaked time grows (saturating).
pub open spec fn ticked(n: Npc, dt: int) -> Npc {
    let total = n.animation.elapsed_ms + dt;
    Npc {
        soaked_ms: if !n.soaked() {
            n.soaked_ms
        } else if n.soaked_ms + dt > u32::MAX {
            u32::MAX
        } else {
            (n.soaked_ms + dt) as u32
        },
        animation: RepeatingTimer { elapsed_ms: (total % (n.animation.period_ms as int)) as u32, ..n.animation },
        animation_idx: if total >= n.animation.period_ms {
            ((n.animation_idx + 1) % (frames_of(n.character) as int)) as u32
        } else {
            n.animation_idx
        },
        ..n
    }
}

/// Whether a (ticked) NPC leaves: it has been soaked for `SOAKED_MS`.
pub open spec fn leaves(n: Npc) -> bool {
    n.soaked() && n.soaked_ms >= SOAKED_MS
}

/// The NPCs of `s` after ticking by `dt`, without those that leave, in order.
pub open spec fn survivors(s: Seq<Npc>, dt: int) -> Seq<Npc>
    decreases s.len(),
{
    if s.len() == 0 {
        s
    } else if leaves(ticked(s.last(), dt)) {
        survivors(s.drop_last(), dt)
    } else {
        survivors(s.drop_last(), dt).push(ticked(s.last(), dt))
    }
}

/// The squared distance between two points.
pub open spec fn dist_squared(a: (int, int), b: (int, int)) -> int {
    (a.0 - b.0) * (a.0 - b.0) + (a.1 - b.1) * (a.1 - b.1)
}

/// Whether a raindrop at `drop` is in sight of an NPC at `npc`.
pub open spec fn in_sight(npc: (int, int), drop: (int, int)) -> bool {
    dist_squared(npc, drop) < SIGHT_DIST_SQUARED
}

/// Whether the raindrop at `drop` reaches the body of an NPC centered at `npc`: the nearest
/// point of the body's rectangle is closer than the drop's radius.
pub open spec fn touches_body(npc: (int, int), drop: (int, int)) -> bool {
    let d = (drop.0 - npc.0, drop.1 - npc.1);
    let c = (clamp_spec(d.0, -(NPC_WIDTH / 2), NPC_WIDTH / 2), clamp_spec(d.1, -(NPC_HEIGHT / 2), NPC_HEIGHT / 2));
    dist_squared(c, d) < RAIN_RADIUS * RAIN_RADIUS
}

impl Npc {
    pub open spec fn wf(self) -> bool {
        &&& self.body.wf()
        &&& self.wetness <= SOAKED_LEVEL
        &&& self.animation.wf()
        &&& self.animation_idx < frames_of(self.character)
    }

    pub open spec fn soaked(self) -> bool {
        self.wetness >= SOAKED_LEVEL
    }

    /// The NPC after absorbing one more raindrop.
    pub open spec fn wetter(self) -> Npc {
        Npc { wetness: (self.wetness + 1) as u32, ..self }
    }

    /// A dry, idle NPC of the given character at `pos`.
    pub fn new(character: Character, pos: WorldVec2) -> (r: Npc)
        requires
            pos.wf(),
        ensures
            r.body.pos == pos,
            r.body.delta@ == (0int, 0int),
            r.character == character,
            r.state == (NpcState::Idle { timer_ms: IDLE_MS }),
            r.wetness == 0,
            r.soaked_ms == 0,
            r.animation_idx == 0,
            r.animation == (RepeatingTimer { period_ms: ANIMATION_MS, elapsed_ms: 0 }),
            r.wf(),
    {
        Npc {
            body: Body { pos, delta: WorldVec2 { x: WorldUnit(0), y: WorldUnit(0) } },
            character,
            state: NpcState::Idle { timer_ms: IDLE_MS },
            wetness: 0,
            soaked_ms: 0,
            animation_idx: 0,
            animation: RepeatingTimer::new(ANIMATION_MS),
        }
    }

    /// Whether any rain has reached the NPC.
    pub fn is_wet(&self) -> (r: bool)
        ensures
            r == (self.wetness > 0),
    {
        self.wetness > 0
    }

    /// Whether the NPC is soaked.
    pub fn is_soaked(&self) -> (r: bool)
        ensures
            r == self.soaked(),
    {
        self.wetness >= SOAKED_LEVEL
    }

    /// Takes in one raindrop: the wetness rises by one unless the NPC is already soaked,
    /// in which case nothing changes. Returns whether the drop was taken in.
    pub fn absorb_rain(&mut self) -> (r: bool)
        ensures
            r == !old(self).soaked(),
            r ==> *final(self) == old(self).wetter(),
            !r ==> *final(self) == *old(self),
    {
        if self.wetness >= SOAKED_LEVEL {
            false
        } else {
            self.wetness = self.wetness + 1;
            true
        }
    }

    /// Advances the NPC's own clocks by `dt` milliseconds (see `ticked`).
    pub fn tick(&mut self, dt: u32)
        requires
            old(self).wf(),
        ensures
            *final(self) == ticked(*old(self), dt as int),
            final(self).wf(),
    {
        if self.animation.tick(dt) {
            self.animation_idx = (self.animation_idx + 1) % self.character.num_states();
        }
        if self.wetness >= SOAKED_LEVEL {
            self.soaked_ms = self.soaked_ms.saturating_add(dt);
        }
    }

    /// What the NPC looks like: its wet look once any rain has reached it, else the current
    /// frame of its walking animation.
    pub fn current_asset(&self) -> (r: NpcSprite)
        ensures
            r == (if self.wetness > 0 {
                NpcSprite::Wet { character: self.character }
            } else {
                NpcSprite::Dry { character: self.character, frame: self.animation_idx }
            }),
    {
        if self.is_wet() {
            NpcSprite::Wet { character: self.character }
        } else {
            NpcSprite::Dry { character: self.character, frame: self.animation_idx }
        }
    }

    /// Whether the NPC has been soaked long enough to leave.
    pub fn should_despawn(&self) -> (r: bool)
        ensures
            r == (self.soaked() && self.soaked_ms >= SOAKED_MS),
    {
        self.wetness >= SOAKED_LEVEL && self.soaked_ms >= SOAKED_MS
    }
}

/// The squared distance between two points in the world range.
fn dist_squared_exec(a: WorldVec2, b: WorldVec2) -> (r: i128)
    requires
        a.wf(),
        b.wf(),
    ensures
        r == dist_squared(a@, b@),
{
    let dx: i128 = a.x.0 as i128 - b.x.0 as i128;
    let dy: i128 = a.y.0 as i128 - b.y.0 as i128;
    proof {
        assert(0 <= dx * dx <= 16_000_000_000_000_000_000 && 0 <= dy * dy <= 16_000_000_000_000_000_000)
            by (nonlinear_arith)
            requires -4_000_000_000 <= dx <= 4_000_000_000, -4_000_000_000 <= dy <= 4_000_000_000;
    }
    dx * dx + dy * dy
}

/// Whether the drop reaches the body of the NPC at `npc`.
pub fn touches(npc: WorldVec2, drop: WorldVec2) -> (r: bool)
    requires
        npc.wf(),
        drop.wf(),
    ensures
        r == touches_body(npc@, drop@),
{
    let dx: i64 = drop.x.0 - npc.x.0;
    let dy: i64 = drop.y.0 - npc.y.0;
    let hw: i64 = NPC_WIDTH / 2;
    let hh: i64 = NPC_HEIGHT / 2;
    let cx: i64 = if dx < -hw { -hw } else if dx > hw { hw } else { dx };
    let cy: i64 = if dy < -hh { -hh } else if dy > hh { hh } else { dy };
    let ex: i128 = (cx - dx) as i128;
    let ey: i128 = (cy - dy) as i128;
    proof {
        assert(0 <= ex * ex <= 16_000_000_000_000_000_000 && 0 <= ey * ey <= 16_000_000_000_000_000_000)
            by (nonlinear_arith)
            requires -4_000_000_000 <= ex <= 4_000_000_000, -4_000_000_000 <= ey <= 4_000_000_000;
    }
    let reach: i128 = RAIN_RADIUS as i128;
    proof {
        assert(reach * reach == RAIN_RADIUS * RAIN_RADIUS);
        assert(reach * reach == 160_000_000_000) by (nonlinear_arith) requires reach == 400_000;
    }
    ex * ex + ey * ey < reach * reach
}

/// Whether `i` is the nearest drop in sight of `npc` (the first such when several are
/// equally near).
pub open spec fn is_nearest(npc: (int, int), rain: Seq<Body>, i: int) -> bool {
    &&& 0 <= i < rain.len()
    &&& in_sight(npc, rain[i].pos@)
    &&& forall|j: int| 0 <= j < rain.len() && in_sight(npc, rain[j].pos@)
        ==> dist_squared(npc, rain[i].pos@) <= dist_squared(npc, #[trigger] rain[j].pos@)
    &&& forall|j: int| 0 <= j < i && in_sight(npc, rain[j].pos@)
        ==> dist_squared(npc, rain[i].pos@) < dist_squared(npc, #[trigger] rain[j].pos@)
}

/// Whether no drop is in sight of `npc`.
pub open spec fn none_in_sight(npc: (int, int), rain: Seq<Body>) -> bool {
    forall|j: int| 0 <= j < rain.len() ==> !in_sight(npc, #[trigger] rain[j].pos@)
}

/// The index of the nearest raindrop in sight of an NPC at `npc`, the first one among
/// equally near drops; `None` when no drop is in sight.
pub fn nearest_hazard(npc: WorldVec2, rain: &Vec<Body>) -> (r: Option<usize>)
    requires
        npc.wf(),
        forall|i: int| 0 <= i < rain@.len() ==> (#[trigger] rain@[i]).wf(),
    ensures
        r is Some ==> is_nearest(npc@, rain@, r->0 as int),
        r is None ==> none_in_sight(npc@, rain@),
{
    let mut best: Option<usize> = None;
    let mut best_d: i128 = 0;
    let n = rain.len();
    let mut i: usize = 0;
    while i < n
        invariant
            n == rain@.len(),
            0 <= i <= n,
            npc.wf(),
            forall|k: int| 0 <= k < rain@.len() ==> (#[trigger] rain@[k]).wf(),
            best is Some ==> {
                &&& (best->0 as int) < i
                &&& in_sight(npc@, rain@[best->0 as int].pos@)
                &&& best_d == dist_squared(npc@, rain@[best->0 as int].pos@)
                &&& forall|j: int| 0 <= j < i && in_sight(npc@, rain@[j].pos@)
                    ==> best_d <= dist_squared(npc@, #[trigger] rain@[j].pos@)
                &&& forall|j: int| 0 <= j < best->0 && in_sight(npc@, rain@[j].pos@)
                    ==> best_d < dist_squared(npc@, #[trigger] rain@[j].pos@)
            },
            best is None ==> forall|j: int| 0 <= j < i ==> !in_sight(npc@, #[trigger] rain@[j].pos@),
        decreases n - i,
    {
        let d = dist_squared_exec(npc, rain[i].pos);
        proof { assert(rain@[i as int].wf()); }
        if d < SIGHT_DIST_SQUARED {
            match best {
                None => {
                    best = Some(i);
                    best_d = d;
                },
                Some(_) => {
                    if d < best_d {
                        best = Some(i);
                        best_d = d;
                    }
                },
            }
        }
        i += 1;
    }
    best
}

/// The index of the first NPC that absorbs `drop` (one that is not soaked and whose body the
/// drop reaches), or the number of NPCs when none does.
pub open spec fn first_absorber(npcs: Seq<Npc>, drop: Body) -> int
    decreases npcs.len(),
{
    if npcs.len() == 0 {
        0
    } else {
        let k = first_absorber(npcs.drop_last(), drop);
        if k < npcs.len() - 1 {
            k
        } else if absorbs(npcs.last(), drop) {
            npcs.len() - 1
        } else {
            npcs.len() as int
        }
    }
}

/// Whether an NPC has fully entered the screen from the left.
pub open spec fn on_screen(npc: Npc) -> bool {
    npc.body.pos@.0 > LEFT + NPC_WIDTH / 2
}

/// Whether the NPC takes in the drop: it has entered the screen, is not soaked, and the drop
/// reaches its body.
pub open spec fn absorbs(npc: Npc, drop: Body) -> bool {
    on_screen(npc) && !npc.soaked() && touches_body(npc.body.pos@, drop.pos@)
}

/// `first_absorber` is the least index of an absorbing NPC.
pub proof fn lemma_first_absorber(npcs: Seq<Npc>, drop: Body)
    ensures
        0 <= first_absorber(npcs, drop) <= npcs.len(),
        forall|j: int| 0 <= j < first_absorber(npcs, drop) ==> !absorbs(#[trigger] npcs[j], drop),
        first_absorber(npcs, drop) < npcs.len() ==> absorbs(npcs[first_absorber(npcs, drop)], drop),
    decreases npcs.len(),
{
    if npcs.len() > 0 {
        lemma_first_absorber(npcs.drop_last(), drop);
        let k = first_absorber(npcs.drop_last(), drop);
        assert forall|j: int| 0 <= j < first_absorber(npcs, drop) implies !absorbs(#[trigger] npcs[j], drop) by {
            if j < npcs.len() - 1 {
                assert(npcs.drop_last()[j] == npcs[j]);
            }
        }
        if k < npcs.len() - 1 {
            assert(npcs.drop_last()[k] == npcs[k]);
        }
    }
}

/// Rain against the NPCs, drop by drop in order: each drop is absorbed by the first NPC that
/// absorbs it (which grows one step wetter, and a point is earned) or else stays. Gives the
/// NPCs, the drops that stay, and the points.
pub open spec fn absorb_all(npcs: Seq<Npc>, rain: Seq<Body>) -> (Seq<Npc>, Seq<Body>, Seq<EarnPoint>)
    decreases rain.len(),
{
    if rain.len() == 0 {
        (npcs, Seq::empty(), Seq::empty())
    } else {
        let prev = absorb_all(npcs, rain.drop_last());
        let d = rain.last();
        let k = first_absorber(prev.0, d);
        if k < prev.0.len() {
            (prev.0.update(k, prev.0[k].wetter()), prev.1, prev.2.push(EarnPoint { npc: k as usize }))
        } else {
            (prev.0, prev.1.push(d), prev.2)
        }
    }
}

pub open spec fn all_wf(npcs: Seq<Npc>) -> bool {
    forall|i: int| 0 <= i < npcs.len() ==> (#[trigger] npcs[i]).wf()
}

/// Absorption keeps the NPCs' number and well-formedness.
pub proof fn lemma_absorb_all_wf(npcs: Seq<Npc>, rain: Seq<Body>)
    requires
        all_wf(npcs),
    ensures
        absorb_all(npcs, rain).0.len() == npcs.len(),
        all_wf(absorb_all(npcs, rain).0),
    decreases rain.len(),
{
    if rain.len() > 0 {
        lemma_absorb_all_wf(npcs, rain.drop_last());
        let prev = absorb_all(npcs, rain.drop_last());
        lemma_first_absorber(prev.0, rain.last());
    }
}

/// The NPC systems.
pub struct NpcPlugin;

impl NpcPlugin {
    /// Lets the first NPC that absorbs `drop` take it in; returns its index.
    pub fn absorb_one(npcs: &mut Vec<Npc>, drop: &Body) -> (r: Option<usize>)
        requires
            drop.wf(),
            all_wf(old(npcs)@),
        ensures
            first_absorber(old(npcs)@, *drop) < old(npcs)@.len() ==> {
                &&& r == Some(first_absorber(old(npcs)@, *drop) as usize)
                &&& final(npcs)@ == old(npcs)@.update(
                    first_absorber(old(npcs)@, *drop),
                    old(npcs)@[first_absorber(old(npcs)@, *drop)].wetter(),
                )
            },
            first_absorber(old(npcs)@, *drop) >= old(npcs)@.len() ==> r is None && final(npcs)@ == old(npcs)@,
    {
        proof { lemma_first_absorber(old(npcs)@, *drop); }
        let n = npcs.len();
        let mut i: usize = 0;
        while i < n
            invariant
                n == npcs@.len(),
                npcs@ == old(npcs)@,
                0 <= i <= n,
                all_wf(npcs@),
                drop.wf(),
                forall|j: int| 0 <= j < i ==> !absorbs(#[trigger] npcs@[j], *drop),
            decreases n - i,
        {
            proof { assert(npcs@[i as int].wf()); }
            if npcs[i].body.pos.x.0 > LEFT + NPC_WIDTH / 2 && !npcs[i].is_soaked() && touches(npcs[i].body.pos, drop.pos) {
                proof {
                    lemma_first_absorber(old(npcs)@, *drop);
                    let k = first_absorber(old(npcs)@, *drop);
                    assert(absorbs(npcs@[i as int], *drop));
                    if k < i {
                        assert(!absorbs(npcs@[k], *drop));
                    }
                    if k > i {
                        assert(!absorbs(old(npcs)@[i as int], *drop));
                    }
                    assert(k == i);
                }
                let mut npc = npcs[i];
                npc.absorb_rain();
                npcs.set(i, npc);
                return Some(i);
            }
            i += 1;
        }
        proof {
            let k = first_absorber(old(npcs)@, *drop);
            if k < n {
                assert(!absorbs(old(npcs)@[k], *drop));
            }
        }
        None
    }

    /// Lets the NPCs absorb the rain that reaches them (see `absorb_all`); the absorbed drops
    /// are removed, and one point is returned for each.
    pub fn absorb_rain(npcs: &mut Vec<Npc>, rain: &mut Vec<Body>) -> (r: Vec<EarnPoint>)
        requires
            all_wf(old(npcs)@),
            forall|i: int| 0 <= i < old(rain)@.len() ==> (#[trigger] old(rain)@[i]).wf(),
        ensures
            (final(npcs)@, final(rain)@, r@) == absorb_all(old(npcs)@, old(rain)@),
            all_wf(final(npcs)@),
    {
        let mut kept: Vec<Body> = Vec::new();
        let mut events: Vec<EarnPoint> = Vec::new();
        let n = rain.len();
        let mut i: usize = 0;
        while i < n
            invariant
                n == rain@.len(),
                rain@ == old(rain)@,
                0 <= i <= n,
                forall|k: int| 0 <= k < rain@.len() ==> (#[trigger] rain@[k]).wf(),
                (npcs@, kept@, events@) == absorb_all(old(npcs)@, rain@.subrange(0, i as int)),
                all_wf(npcs@),
                all_wf(old(npcs)@),
            decreases n - i,
        {
            let drop = rain[i];
            proof {
                assert(rain@.subrange(0, i + 1).drop_last() =~= rain@.subrange(0, i as int));
                assert(rain@[i as int].wf());
            }
            match Self::absorb_one(npcs, &drop) {
                Some(k) => {
                    events.push(EarnPoint { npc: k });
                },
                None => {
                    kept.push(drop);
                },
            }
            proof {
                lemma_absorb_all_wf(old(npcs)@, rain@.subrange(0, i + 1));
            }
            i += 1;
        }
        proof {
            assert(rain@.subrange(0, n as int) =~= rain@);
        }
        *rain = kept;
        events
    }

    /// Advances the spawn timer; when it fires, a dry, idle NPC of a random character enters
    /// just beyond the left edge, halfway down the lower half of the screen.
    pub fn spawn_npcs(timer: &mut RepeatingTimer, npcs: &mut Vec<Npc>, dt: u32)
        requires
            old(timer).wf(),
        ensures
            final(timer).wf(),
            final(timer).period_ms == old(timer).period_ms,
            final(timer).elapsed_ms == (old(timer).elapsed_ms + dt) % (old(timer).period_ms as int),
            old(timer).elapsed_ms + dt < old(timer).period_ms ==> final(npcs)@ == old(npcs)@,
            old(timer).elapsed_ms + dt >= old(timer).period_ms ==> {
                &&& final(npcs)@.len() == old(npcs)@.len() + 1
                &&& final(npcs)@.drop_last() == old(npcs)@
                &&& final(npcs)@.last().body.pos@ == (LEFT - NPC_WIDTH / 2, BOTTOM / 2)
                &&& final(npcs)@.last().body.delta@ == (0int, 0int)
                &&& final(npcs)@.last().state == (NpcState::Idle { timer_ms: IDLE_MS })
                &&& final(npcs)@.last().wetness == 0
                &&& final(npcs)@.last().soaked_ms == 0
                &&& final(npcs)@.last().animation_idx == 0
                &&& final(npcs)@.last().animation == (RepeatingTimer { period_ms: ANIMATION_MS, elapsed_ms: 0 })
                &&& final(npcs)@.last().wf()
            },
    {
        if timer.tick(dt) {
            let pos = WorldVec2 { x: WorldUnit(LEFT - NPC_WIDTH / 2), y: WorldUnit(BOTTOM / 2) };
            npcs.push(Npc::new(Character::random_character(), pos));
            proof {
                assert(npcs@.drop_last() =~= old(npcs)@);
            }
        }
    }
}

/// The horizontal position of the nearest raindrop in sight, if any.
pub open spec fn nearest_x(npc: (int, int), rain: Seq<Body>) -> Option<int> {
    if exists|i: int| is_nearest(npc, rain, i) {
        Some(rain[choose|i: int| is_nearest(npc, rain, i)].pos@.0)
    } else {
        None
    }
}

/// There is at most one nearest drop.
pub proof fn lemma_nearest_unique(npc: (int, int), rain: Seq<Body>, i: int, j: int)
    requires
        is_nearest(npc, rain, i),
        is_nearest(npc, rain, j),
    ensures
        i == j,
{
    if i < j {
        assert(dist_squared(npc, rain[j].pos@) < dist_squared(npc, rain[i].pos@));
    } else if j < i {
        assert(dist_squared(npc, rain[i].pos@) < dist_squared(npc, rain[j].pos@));
    }
}

/// One decision step of an NPC: its state follows `next_state` with the nearest hazard in
/// sight and some choice in `0..3` (`0` whenever no choice is needed); it moves horizontally
/// at its new state's speed; nothing else changes.
pub open spec fn decided(before: Npc, after: Npc, rain: Seq<Body>, dt: int) -> bool {
    let hazard = nearest_x(before.body.pos@, rain);
    &&& exists|c: int| 0 <= c < 3 && after.state == next_state(before.state, before.body.pos@.0, hazard, dt, c)
    &&& !needs_choice(before.state, hazard, dt) ==> after.state == next_state(before.state, before.body.pos@.0, hazard, dt, 0)
    &&& after.body.delta@ == (state_speed(after.state), 0int)
    &&& after.body.pos == before.body.pos
    &&& after.wetness == before.wetness
    &&& after.soaked_ms == before.soaked_ms
    &&& after.character == before.character
}

impl Npc {
    /// Decides this step's state and velocity from the nearest raindrop in sight, drawing
    /// from `rng` only when an idle spell ends with no hazard.
    pub fn decide(&mut self, rain: &Vec<Body>, dt: u32, rng: &mut fastrand::Rng)
        requires
            old(self).wf(),
            forall|i: int| 0 <= i < rain@.len() ==> (#[trigger] rain@[i]).wf(),
        ensures
            decided(*old(self), *final(self), rain@, dt as int),
            final(self).wf(),
    {
        let hazard = nearest_hazard(self.body.pos, rain);
        let hazard_x: Option<i64> = match hazard {
            Some(i) => Some(rain[i].pos.x.0),
            None => None,
        };
        proof {
            let npc = self.body.pos@;
            match hazard {
                Some(i) => {
                    assert(is_nearest(npc, rain@, i as int));
                    let c = choose|c: int| is_nearest(npc, rain@, c);
                    lemma_nearest_unique(npc, rain@, i as int, c);
                    assert(opt_int(hazard_x) == nearest_x(npc, rain@));
                },
                None => {
                    assert forall|c: int| !is_nearest(npc, rain@, c) by {
                        if 0 <= c < rain@.len() {
                            assert(!in_sight(npc, rain@[c].pos@));
                        }
                    }
                    assert(opt_int(hazard_x) == nearest_x(npc, rain@));
                },
            }
        }
        let choice: u32 = if self.state.wants_choice(hazard_x, dt) {
            random_u32(rng, 3)
        } else {
            0
        };
        let next = self.state.next(self.body.pos.x.0, hazard_x, dt, choice);
        let vx: i64 = next.speed();
        self.state = next;
        self.body.delta = WorldVec2 { x: WorldUnit(vx), y: WorldUnit(0) };
        proof {
            assert(0 <= choice < 3);
        }
    }
}

impl NpcPlugin {
    /// One decision step for every NPC (see `decided`).
    pub fn control_npcs(npcs: &mut Vec<Npc>, rain: &Vec<Body>, dt: u32, rng: &mut fastrand::Rng)
        requires
            all_wf(old(npcs)@),
            forall|i: int| 0 <= i < rain@.len() ==> (#[trigger] rain@[i]).wf(),
        ensures
            final(npcs)@.len() == old(npcs)@.len(),
            forall|i: int| 0 <= i < old(npcs)@.len() ==> decided(old(npcs)@[i], #[trigger] final(npcs)@[i], rain@, dt as int),
            all_wf(final(npcs)@),
    {
        let n = npcs.len();
        let mut i: usize = 0;
        while i < n
            invariant
                n == old(npcs)@.len(),
                npcs@.len() == n,
                0 <= i <= n,
                forall|k: int| 0 <= k < rain@.len() ==> (#[trigger] rain@[k]).wf(),
                forall|j: int| 0 <= j < i ==> decided(old(npcs)@[j], #[trigger] npcs@[j], rain@, dt as int),
                forall|j: int| i <= j < n ==> #[trigger] npcs@[j] == old(npcs)@[j],
                all_wf(npcs@),
            decreases n - i,
        {
            let mut npc = npcs[i];
            proof { assert(npcs@[i as int].wf()); }
            npc.decide(rain, dt, rng);
            npcs.set(i, npc);
            i += 1;
        }
    }

    /// Advances every NPC's own clocks, then removes the NPCs that have been soaked long
    /// enough; the others stay in order (see `survivors`).
    pub fn npc_tick(npcs: &mut Vec<Npc>, dt: u32)
        requires
            all_wf(old(npcs)@),
        ensures
            final(npcs)@ == survivors(old(npcs)@, dt as int),
            all_wf(final(npcs)@),
    {
        let mut kept: Vec<Npc> = Vec::new();
        let n = npcs.len();
        let mut i: usize = 0;
        while i < n
            invariant
                n == npcs@.len(),
                0 <= i <= n,
                all_wf(npcs@),
                all_wf(kept@),
                kept@ == survivors(npcs@.subrange(0, i as int), dt as int),
            decreases n - i,
        {
            let mut npc = npcs[i];
            proof {
                assert(npcs@[i as int].wf());
                assert(npcs@.subrange(0, i + 1).drop_last() =~= npcs@.subrange(0, i as int));
            }
            npc.tick(dt);
            if !npc.should_despawn() {
                kept.push(npc);
            }
            i += 1;
        }
        proof {
            assert(npcs@.subrange(0, n as int) =~= npcs@);
        }
        *npcs = kept;
    }
}

/// Absorption by one NPC on screen: a drop that reaches a not yet soaked NPC is removed, once, the
/// NPC's wetness rises by exactly one and one point is earned; when the NPC is soaked the
/// drop stays and the NPC is unchanged.
pub proof fn lemma_absorb_once(npc: Npc, drop: Body)
    requires
        on_screen(npc),
        touches_body(npc.body.pos@, drop.pos@),
    ensures
        !npc.soaked() ==> absorb_all(seq![npc], seq![drop]) == (
            seq![npc.wetter()],
            Seq::<Body>::empty(),
            seq![EarnPoint { npc: 0 }],
        ),
        !npc.soaked() ==> npc.wetter().wetness == npc.wetness + 1,
        npc.soaked() ==> absorb_all(seq![npc], seq![drop]) == (seq![npc], seq![drop], Seq::<EarnPoint>::empty()),
{
    let rain = seq![drop];
    assert(rain.drop_last() =~= Seq::<Body>::empty());
    let prev = absorb_all(seq![npc], rain.drop_last());
    assert(prev.0 == seq![npc]);
    assert(seq![npc].drop_last() =~= Seq::<Npc>::empty());
    assert(first_absorber(Seq::<Npc>::empty(), drop) == 0);
    assert(seq![npc].last() == npc);
    if !npc.soaked() {
        assert(first_absorber(seq![npc], drop) == 0);
        assert(seq![npc].update(0, npc.wetter()) =~= seq![npc.wetter()]);
        assert(Seq::<EarnPoint>::empty().push(EarnPoint { npc: 0 }) =~= seq![EarnPoint { npc: 0 }]);
    } else {
        assert(first_absorber(seq![npc], drop) == 1);
        assert(Seq::<Body>::empty().push(drop) =~= seq![drop]);
    }
}

/// Every drop is either absorbed, earning exactly one point, or kept: never both, never
/// twice.
pub proof fn lemma_absorb_count(npcs: Seq<Npc>, rain: Seq<Body>)
    ensures
        absorb_all(npcs, rain).1.len() + absorb_all(npcs, rain).2.len() == rain.len(),
    decreases rain.len(),
{
    if rain.len() > 0 {
        lemma_absorb_count(npcs, rain.drop_last());
    }
}

impl NpcPlugin {
    /// Moves every NPC by its velocity over `dt` milliseconds; nothing else changes.
    pub fn move_npcs(npcs: &mut Vec<Npc>, dt: u32)
        requires
            all_wf(old(npcs)@),
        ensures
            final(npcs)@.len() == old(npcs)@.len(),
            forall|i: int|
                0 <= i < old(npcs)@.len() ==> {
                    &&& (#[trigger] final(npcs)@[i]).body.pos@ == crate::movable::integrate(
                        old(npcs)@[i].body.pos@,
                        old(npcs)@[i].body.delta@,
                        dt as int,
                    )
                    &&& final(npcs)@[i] == (Npc { body: Body { pos: final(npcs)@[i].body.pos, ..old(npcs)@[i].body }, ..old(npcs)@[i] })
                },
            all_wf(final(npcs)@),
    {
        let n = npcs.len();
        let mut i: usize = 0;
        while i < n
            invariant
                n == old(npcs)@.len(),
                npcs@.len() == n,
                0 <= i <= n,
                forall|j: int|
                    0 <= j < i ==> {
                        &&& (#[trigger] npcs@[j]).body.pos@ == crate::movable::integrate(
                            old(npcs)@[j].body.pos@,
                            old(npcs)@[j].body.delta@,
                            dt as int,
                        )
                        &&& npcs@[j] == (Npc { body: Body { pos: npcs@[j].body.pos, ..old(npcs)@[j].body }, ..old(npcs)@[j] })
                    },
                forall|j: int| i <= j < n ==> #[trigger] npcs@[j] == old(npcs)@[j],
                all_wf(npcs@),
            decreases n - i,
        {
            let mut npc = npcs[i];
            proof { assert(npcs@[i as int].wf()); }
            npc.body.advance(dt);
            npcs.set(i, npc);
            i += 1;
        }
    }
}

/// The drops that absorption keeps are drops of the input.
pub proof fn lemma_absorb_kept(npcs: Seq<Npc>, rain: Seq<Body>)
    ensures
        forall|i: int| 0 <= i < absorb_all(npcs, rain).1.len() ==> rain.contains(#[trigger] absorb_all(npcs, rain).1[i]),
    decreases rain.len(),
{
    if rain.len() > 0 {
        lemma_absorb_kept(npcs, rain.drop_last());
        let prev = absorb_all(npcs, rain.drop_last());
        assert forall|i: int| 0 <= i < absorb_all(npcs, rain).1.len() implies rain.contains(#[trigger] absorb_all(npcs, rain).1[i]) by {
            if i < prev.1.len() {
                assert(absorb_all(npcs, rain).1[i] == prev.1[i]);
                assert(rain.drop_last().contains(prev.1[i]));
                let j = choose|j: int| 0 <= j < rain.drop_last().len() && rain.drop_last()[j] == prev.1[i];
                assert(rain[j] == prev.1[i]);
            } else {
                assert(rain[rain.len() - 1] == absorb_all(npcs, rain).1[i]);
            }
        }
    }
}

/// Two lists of NPCs that absorption cannot tell apart: the same positions and wetness, one
/// by one.
pub open spec fn absorb_equiv(a: Seq<Npc>, b: Seq<Npc>) -> bool {
    &&& a.len() == b.len()
    &&& forall|i: int| 0 <= i < a.len() ==> (#[trigger] a[i]).body.pos == b[i].body.pos && a[i].wetness == b[i].wetness
}

proof fn lemma_first_absorber_equiv(a: Seq<Npc>, b: Seq<Npc>, drop: Body)
    requires
        absorb_equiv(a, b),
    ensures
        first_absorber(a, drop) == first_absorber(b, drop),
    decreases a.len(),
{
    if a.len() > 0 {
        assert(absorb_equiv(a.drop_last(), b.drop_last())) by {
            assert forall|i: int| 0 <= i < a.drop_last().len() implies (#[trigger] a.drop_last()[i]).body.pos == b.drop_last()[i].body.pos
                && a.drop_last()[i].wetness == b.drop_last()[i].wetness by {
                assert(a[i].body.pos == b[i].body.pos);
            }
        }
        lemma_first_absorber_equiv(a.drop_last(), b.drop_last(), drop);
        assert(a.last().body.pos == b.last().body.pos && a.last().wetness == b.last().wetness) by {
            assert(a[a.len() - 1].body.pos == b[b.len() - 1].body.pos);
        }
    }
}

/// Absorption depends on the NPCs' positions and wetness alone: lists that agree on those
/// keep the same drops and earn the same points, and stay in agreement.
pub proof fn lemma_absorb_all_equiv(a: Seq<Npc>, b: Seq<Npc>, rain: Seq<Body>)
    requires
        absorb_equiv(a, b),
    ensures
        absorb_all(a, rain).1 == absorb_all(b, rain).1,
        absorb_all(a, rain).2 == absorb_all(b, rain).2,
        absorb_equiv(absorb_all(a, rain).0, absorb_all(b, rain).0),
    decreases rain.len(),
{
    if rain.len() > 0 {
        lemma_absorb_all_equiv(a, b, rain.drop_last());
        let pa = absorb_all(a, rain.drop_last());
        let pb = absorb_all(b, rain.drop_last());
        lemma_first_absorber_equiv(pa.0, pb.0, rain.last());
        lemma_first_absorber(pa.0, rain.last());
        let k = first_absorber(pa.0, rain.last());
        if k < pa.0.len() {
            let na = pa.0.update(k, pa.0[k].wetter());
            let nb = pb.0.update(k, pb.0[k].wetter());
            assert forall|i: int| 0 <= i < na.len() implies (#[trigger] na[i]).body.pos == nb[i].body.pos && na[i].wetness == nb[i].wetness by {
                assert(pa.0[i].body.pos == pb.0[i].body.pos);
                assert(pa.0[k].body.pos == pb.0[k].body.pos);
            }
        }
    }
}

/// The width of the NPC images in pixels.
pub const NPC_IMAGE_WIDTH: u32 = 589;

/// The NPCs' paint order.
pub const NPC_DEPTH: i32 = 0;

impl NpcPlugin {
    /// How an NPC is drawn: its body width.
    pub fn render_position(npc: &Npc) -> (r: Position)
        ensures
            r.pos == npc.body.pos,
            r.scale@ == NPC_WIDTH,
            r.image_width == NPC_IMAGE_WIDTH,
            r.z_idx == NPC_DEPTH,
    {
        Position::new(npc.body.pos, WorldUnit(NPC_WIDTH), NPC_IMAGE_WIDTH, NPC_DEPTH)
    }
}

} // verus!
