use umbrella::color::StrictColor;
use umbrella::framerate::FrameratePlugin;
use umbrella::gravity::{GravityPlugin, G};
use umbrella::movable::{Body, MovePlugin};
use umbrella::npc::NpcSprite;
use umbrella::shack::Shack;
use umbrella::npc::{nearest_hazard, touches, Character, Npc, NpcPlugin, NpcState, IDLE_MS, RUN_MS, RUN_SPEED, SOAKED_LEVEL, WALK_MS, WALK_SPEED};
use umbrella::player::{Intent, PlayerPlugin, PLAYER_SPEED};
use umbrella::position::{Position, PositionPlugin};
use umbrella::rain::{RainPlugin, RAIN_RADIUS};
use umbrella::score::{EarnPoint, ScorePlugin};
use umbrella::shack::{ShackPlugin, Shelter};
use umbrella::timer::RepeatingTimer;
use umbrella::win_info::{WinInfo, SCALE_DEN};
use umbrella::world::{FixedClock, World};
use umbrella::world_init::WorldInitPlugin;
use umbrella::world_unit::{WorldRect, WorldUnit, WorldVec2, BOTTOM, LEFT, RIGHT, TOP};

fn v(x: i64, y: i64) -> WorldVec2 {
    WorldVec2 { x: WorldUnit(x), y: WorldUnit(y) }
}

fn body(px: i64, py: i64, vx: i64, vy: i64) -> Body {
    Body { pos: v(px, py), delta: v(vx, vy) }
}

#[test]
fn pixel_round_trip_stays_within_one_pixel() {
    let sizes = [(1280u32, 720u32), (1000, 1000), (333, 2000), (1920, 1080), (1, 1), (4000, 300)];
    let values = [0i64, 1, -1, 1_000_000, -1_000_000, 25_000_000, -14_062_500, 123_456_789, -1_999_999_999];
    for (w, h) in sizes {
        let win = WinInfo { width: w, height: h };
        let (num, den) = win.scale();
        assert_eq!(den, SCALE_DEN);
        for u in values {
            let px = WorldUnit(u).to_x(&win);
            let back = WorldUnit::from_pixels(px, &win).unwrap();
            assert!(back.0 <= u);
            assert!((u - back.0) as i128 * num as i128 <= num as i128 + SCALE_DEN as i128);
        }
    }
}

#[test]
fn screen_corners_map_to_window_corners() {
    let win = WinInfo::default();
    assert_eq!((win.width, win.height), (1280, 720));
    assert_eq!(v(RIGHT, TOP).to_absolute(&win), (640, 360));
    assert_eq!(v(LEFT, BOTTOM).to_absolute(&win), (-640, -360));
    // A wide window letterboxes at the sides: the height decides.
    assert_eq!(v(RIGHT, TOP).to_absolute(&WinInfo { width: 2000, height: 720 }), (640, 360));
    // A tall window letterboxes above and below: the width decides.
    assert_eq!(v(RIGHT, TOP).to_absolute(&WinInfo { width: 1280, height: 2000 }), (640, 360));
    assert_eq!(WorldUnit(UNIT_FOR_TEST).to_y(&WinInfo { width: 640, height: 360 }), 12);
}

const UNIT_FOR_TEST: i64 = 1_000_000;

#[test]
fn zero_sized_window_skips_sync() {
    let win = WinInfo { width: 0, height: 720 };
    assert!(win.is_degenerate());
    assert_eq!(win.scale().0, 0);
    assert_eq!(WorldUnit(5).to_x(&win), 0);
    assert!(WorldUnit::from_pixels(10, &win).is_none());
    let p = Position::new(v(1, 2), WorldUnit(7_000_000), 600, 1);
    assert!(PositionPlugin::sync_render_position(&p, &win).is_none());
}

#[test]
fn render_sync_gives_pixels_and_width() {
    let win = WinInfo::default();
    let p = Position::new(v(1_000_000, -2_000_000), WorldUnit(7_000_000), 600, 2);
    let t = PositionPlugin::sync_render_position(&p, &win).unwrap();
    assert_eq!((t.x, t.y, t.z_idx, t.image_width), (25, -52, 2, 600));
    assert_eq!(t.width_px, 179);
}

#[test]
fn normalized_fractions_of_the_screen() {
    assert_eq!(WorldUnit::normalized_x(1, 1).0, RIGHT);
    assert_eq!(WorldUnit::normalized_x(-1, 1).0, LEFT);
    assert_eq!(WorldUnit::normalized_y(1, 1).0, TOP);
    assert_eq!(WorldUnit::normalized_y(-1, 2).0, -7_031_250);
    assert_eq!(WorldVec2::new_normalized(0, 1, 5), v(0, 2_812_500));
}

#[test]
fn unit_arithmetic_saturates() {
    assert_eq!(WorldUnit(3).plus(WorldUnit(4)).0, 7);
    assert_eq!(WorldUnit(3).minus(WorldUnit(4)).0, -1);
    assert_eq!(WorldUnit(-3).abs().0, 3);
    assert_eq!(WorldUnit(-3).squared(), 9);
    assert_eq!(WorldUnit(2_000_000_000).plus(WorldUnit(1)).0, 2_000_000_000);
    assert_eq!(WorldUnit(-2_000_000_000).times(3).0, -2_000_000_000);
    assert_eq!(WorldUnit(-7).scaled(1, 2).0, -4);
    assert_eq!(WorldUnit::new(i64::MAX).0, 2_000_000_000);
    assert_eq!(v(1, 2).dot(v(3, -4)), -5);
    assert_eq!(v(3, 4).length_squared(), 25);
    assert_eq!(v(1, 2).plus(v(3, 4)), v(4, 6));
    assert_eq!(v(1, 2).neg(), v(-1, -2));
}

#[test]
fn closest_point_clamps_to_rectangle() {
    let r = WorldRect::new(WorldUnit(10), WorldUnit(20));
    assert_eq!(r.closest_point(v(3, -4)), v(3, -4));
    assert_eq!(r.closest_point(v(30, -40)), v(5, -10));
    assert_eq!(r.closest_point(v(-30, 40)), v(-5, 10));
}

#[test]
fn many_small_steps_equal_one_long_step() {
    let start = body(1_000, -2_000, 16_000, -7_000);
    for (dt, n) in [(16u32, 10u32), (1, 100), (0, 5), (15, 64)] {
        let mut split = start;
        for _ in 0..n {
            split.advance(dt);
        }
        let mut whole = start;
        whole.advance(dt * n);
        assert_eq!(split, whole);
    }
    let mut bodies = vec![start, body(0, 0, -1, 1)];
    MovePlugin::apply_moves(&mut bodies, 10);
    assert_eq!(bodies[0].pos, v(161_000, -72_000));
    assert_eq!(bodies[1].pos, v(-10, 10));
}

#[test]
fn gravity_lowers_vertical_speed_by_g_dt_each_step() {
    let mut bodies = vec![body(0, 0, 5, 0)];
    let dt = 16u32;
    let mut last = 0i64;
    for k in 1..=20i64 {
        GravityPlugin::apply_gravity(&mut bodies, dt);
        let vy = bodies[0].delta.y.0;
        assert_eq!(vy, -(k * G * dt as i64));
        assert!(vy < last);
        last = vy;
        assert_eq!(bodies[0].delta.x.0, 5);
        assert_eq!(bodies[0].pos, v(0, 0));
    }
}

#[test]
fn intent_sets_player_velocity() {
    let none = Intent::default();
    assert_eq!(PlayerPlugin::move_player(none), v(0, 0));
    let up_right = Intent { up: true, down: false, left: false, right: true };
    assert_eq!(PlayerPlugin::move_player(up_right), v(PLAYER_SPEED, PLAYER_SPEED));
    let both = Intent { up: true, down: true, left: true, right: false };
    assert_eq!(PlayerPlugin::move_player(both), v(-PLAYER_SPEED, 0));
}

#[test]
fn player_snaps_inside_screen() {
    assert_eq!(PlayerPlugin::snap_in_bounds(v(0, 0)), v(0, 0));
    assert_eq!(PlayerPlugin::snap_in_bounds(v(99_000_000, -99_000_000)), v(RIGHT - 3_500_000, BOTTOM + 3_500_000));
    assert_eq!(PlayerPlugin::snap_in_bounds(v(-99_000_000, 99_000_000)), v(LEFT + 3_500_000, TOP - 3_500_000));
}

#[test]
fn rain_bounces_off_umbrella_with_restitution() {
    let player = body(0, 0, 0, 0);
    // Head-on from above: closing speed 10000, leaves at 0.15 of it.
    let drop = body(0, 2_000_000, 0, -10_000);
    assert_eq!(PlayerPlugin::bounce(&player, &drop), v(0, 1_500));
    // Oblique at 45 degrees: the normal component -5000/sqrt2 becomes +750/sqrt2.
    let drop = body(1_000_000, 1_000_000, 0, -10_000);
    let after = PlayerPlugin::bounce(&player, &drop);
    assert_eq!(after, v(5_750, -4_250));
    let before_n = 1_000_000i128 * 0 + 1_000_000i128 * -10_000;
    let after_n = 1_000_000i128 * after.x.0 as i128 + 1_000_000i128 * after.y.0 as i128;
    assert_eq!(after_n * 100, -15 * before_n);
    let mut rain = vec![drop, body(0, 2_000_000, 0, -10_000)];
    PlayerPlugin::handle_rain_collisions(&player, &mut rain);
    assert_eq!(rain[0].delta, v(5_750, -4_250));
    assert_eq!(rain[1].delta, v(0, 1_500));
    assert_eq!(player, body(0, 0, 0, 0));
}

#[test]
fn moving_umbrella_uses_relative_velocity() {
    let player = body(0, 0, 0, 5_000);
    let drop = body(0, 2_000_000, 0, -10_000);
    // Relative velocity -15000: the impulse is 1.15 * 15000 = 17250.
    assert_eq!(PlayerPlugin::bounce(&player, &drop), v(0, 7_250));
}

#[test]
fn rain_ignored_below_far_or_separating() {
    let player = body(0, 0, 0, 0);
    let below = body(0, -1_000_000, 0, 10_000);
    assert_eq!(PlayerPlugin::bounce(&player, &below), v(0, 10_000));
    let far = body(0, 3_900_000, 0, -10_000);
    assert_eq!(PlayerPlugin::bounce(&player, &far), v(0, -10_000));
    let leaving = body(0, 2_000_000, 0, 10_000);
    assert_eq!(PlayerPlugin::bounce(&player, &leaving), v(0, 10_000));
}

#[test]
fn shelter_wall_rule_from_directly_above() {
    let u = 1_000_000;
    let shelter = Shelter { center: v(100 * u, -50 * u), half_width: WorldUnit(75 * u), half_height: WorldUnit(120 * u) };
    // From the top-left corner (25, 70) the drop is at (75, -30): -30 < -75 fails, so the
    // wall rule applies: vertical reflection with restitution and a nudge to the right.
    // Falling at 10 units per second, it leaves at (0.1, 3.0) units per second.
    let drop = body(100 * u, 40 * u, 0, -10_000);
    assert_eq!(ShackPlugin::bounce(&shelter, &drop), v(100, 3_000));
}

#[test]
fn shelter_roof_rule_along_diagonal() {
    let u = 1_000_000;
    let shelter = Shelter { center: v(100 * u, -50 * u), half_width: WorldUnit(75 * u), half_height: WorldUnit(120 * u) };
    // At (30, 60) the drop is (5, -10) from the corner: -10 < -5, the roof rule applies:
    // moving at (4, -4) units per second, it leaves at (-1.2, -4).
    let drop = body(30 * u, 60 * u, 4_000, -4_000);
    assert_eq!(ShackPlugin::bounce(&shelter, &drop), v(-1_200, -4_000));
    // On the roof a drop moving left is left alone.
    let drop = body(30 * u, 60 * u, -1_000, -1_000);
    assert_eq!(ShackPlugin::bounce(&shelter, &drop), v(-1_000, -1_000));
    // Outside the rectangle nothing happens.
    let drop = body(300 * u, 60 * u, 1_000, -1_000);
    assert_eq!(ShackPlugin::bounce(&shelter, &drop), v(1_000, -1_000));
    let mut rain = vec![body(100 * u, 40 * u, 0, -10_000), body(30 * u, 60 * u, 4_000, -4_000)];
    ShackPlugin::handle_rain_collisions(&shelter, &mut rain);
    assert_eq!(rain[0].delta, v(100, 3_000));
    assert_eq!(rain[1].delta, v(-1_200, -4_000));
}

#[test]
fn shelter_stands_at_the_right_edge() {
    let s = ShackPlugin::spawn_shack();
    assert_eq!(s.center, v(RIGHT - 5_850_000, BOTTOM + 5_450_000 + 2_812_500));
    assert_eq!((s.half_width.0, s.half_height.0), (5_850_000, 5_450_000));
}

#[test]
fn npc_absorbs_rain_once_per_drop() {
    let mut npcs = vec![Npc::new(Character::Boy, v(0, 0))];
    let mut rain = vec![body(1_400_000, 0, 0, -1_000), body(1_900_001, 0, 0, -1_000)];
    let events = NpcPlugin::absorb_rain(&mut npcs, &mut rain);
    assert_eq!(events, vec![EarnPoint { npc: 0 }]);
    assert_eq!(npcs[0].wetness, 1);
    assert_eq!(rain, vec![body(1_900_001, 0, 0, -1_000)]);
    // Running the pass again finds nothing new.
    let events = NpcPlugin::absorb_rain(&mut npcs, &mut rain);
    assert!(events.is_empty());
    assert_eq!(npcs[0].wetness, 1);
}

#[test]
fn soaked_npc_absorbs_no_more() {
    let mut npc = Npc::new(Character::Nun, v(0, 0));
    for _ in 0..SOAKED_LEVEL {
        assert!(npc.absorb_rain());
    }
    assert!(npc.is_soaked());
    assert!(!npc.absorb_rain());
    assert_eq!(npc.wetness, SOAKED_LEVEL);
    let mut npcs = vec![npc, Npc::new(Character::Baker, v(500_000, 0))];
    let mut rain = vec![body(0, 0, 0, 0)];
    let events = NpcPlugin::absorb_rain(&mut npcs, &mut rain);
    // The soaked NPC is skipped; the dry one next to it takes the drop.
    assert_eq!(events, vec![EarnPoint { npc: 1 }]);
    assert_eq!(npcs[0].wetness, SOAKED_LEVEL);
    assert_eq!(npcs[1].wetness, 1);
    let mut only_soaked = vec![npc];
    let mut rain = vec![body(0, 0, 0, 0)];
    assert!(NpcPlugin::absorb_rain(&mut only_soaked, &mut rain).is_empty());
    assert_eq!(rain.len(), 1);
    assert_eq!(only_soaked[0], npc);
}

#[test]
fn body_contact_uses_nearest_point_of_rectangle() {
    assert!(touches(v(0, 0), v(1_171_875 + 399_999, 0)));
    assert!(!touches(v(0, 0), v(1_171_875 + 400_000, 0)));
    assert!(touches(v(0, 0), v(0, 1_305_178 + 399_999)));
    assert!(!touches(v(0, 0), v(0, 1_305_178 + 400_000)));
    assert!(!touches(v(0, 0), v(1_171_875 + 300_000, 1_305_178 + 300_000)));
}

#[test]
fn npc_off_screen_absorbs_nothing() {
    let entering = LEFT - 1_171_875;
    let mut npcs = vec![Npc::new(Character::Boy, v(entering, 0))];
    let mut rain = vec![body(entering, 0, 0, 0)];
    assert!(NpcPlugin::absorb_rain(&mut npcs, &mut rain).is_empty());
    assert_eq!(rain.len(), 1);
    // Fully on screen, the same drop is absorbed.
    let inside = LEFT + 1_171_876;
    let mut npcs = vec![Npc::new(Character::Boy, v(inside, 0))];
    let mut rain = vec![body(inside, 0, 0, 0)];
    assert_eq!(NpcPlugin::absorb_rain(&mut npcs, &mut rain), vec![EarnPoint { npc: 0 }]);
}

#[test]
fn idle_npc_decides_with_seeded_choice() {
    for seed in [1u64, 42, 7, 12345] {
        let mut npc = Npc::new(Character::OldMan, v(0, 0));
        let mut rng = fastrand::Rng::with_seed(seed);
        npc.decide(&Vec::new(), IDLE_MS, &mut rng);
        let choice = fastrand::Rng::with_seed(seed).u32(0..3);
        let (state, speed) = match choice {
            0 => (NpcState::Idle { timer_ms: IDLE_MS }, 0),
            1 => (NpcState::Walking { to_left: true, timer_ms: WALK_MS }, -WALK_SPEED),
            _ => (NpcState::Walking { to_left: false, timer_ms: WALK_MS }, WALK_SPEED),
        };
        assert_eq!(npc.state, state);
        assert_eq!(npc.body.delta, v(speed, 0));
    }
}

#[test]
fn idle_npc_with_seed_42_takes_the_generator_draw() {
    let mut npc = Npc::new(Character::OldMan, v(0, 0));
    let mut rng = fastrand::Rng::with_seed(42);
    npc.decide(&Vec::new(), 2_000, &mut rng);
    let mut check = fastrand::Rng::with_seed(42);
    let expected = match check.u32(0..3) {
        0 => NpcState::Idle { timer_ms: IDLE_MS },
        1 => NpcState::Walking { to_left: true, timer_ms: WALK_MS },
        _ => NpcState::Walking { to_left: false, timer_ms: WALK_MS },
    };
    assert_eq!(npc.state, expected);
    // The generator was drawn from exactly once.
    assert_eq!(rng.u64(..), check.u64(..));
}

#[test]
fn npc_state_machine_transitions() {
    let idle = NpcState::Idle { timer_ms: 1_000 };
    assert_eq!(idle.next(0, None, 400, 2), NpcState::Idle { timer_ms: 600 });
    assert_eq!(idle.next(0, None, 1_000, 0), NpcState::Idle { timer_ms: IDLE_MS });
    assert_eq!(idle.next(0, None, 1_000, 1), NpcState::Walking { to_left: true, timer_ms: WALK_MS });
    assert_eq!(idle.next(0, None, 1_000, 2), NpcState::Walking { to_left: false, timer_ms: WALK_MS });
    assert_eq!(idle.next(0, Some(5), 10, 0), NpcState::Running { to_left: true, timer_ms: RUN_MS });
    assert_eq!(idle.next(0, Some(-5), 10, 0), NpcState::Running { to_left: false, timer_ms: RUN_MS });
    let walking = NpcState::Walking { to_left: true, timer_ms: 100 };
    assert_eq!(walking.next(0, None, 50, 0), NpcState::Walking { to_left: true, timer_ms: 50 });
    assert_eq!(walking.next(0, None, 100, 0), NpcState::Idle { timer_ms: IDLE_MS });
    assert_eq!(walking.next(0, Some(-1), 1, 0), NpcState::Running { to_left: false, timer_ms: RUN_MS });
    let running = NpcState::Running { to_left: false, timer_ms: 100 };
    assert_eq!(running.next(0, Some(1), 50, 0), NpcState::Running { to_left: false, timer_ms: 50 });
    assert_eq!(running.next(0, Some(1), 100, 0), NpcState::Running { to_left: true, timer_ms: RUN_MS });
    assert_eq!(running.next(0, None, 100, 0), NpcState::Idle { timer_ms: IDLE_MS });
    assert!(NpcState::Idle { timer_ms: 5 }.wants_choice(None, 5));
    assert!(!NpcState::Idle { timer_ms: 5 }.wants_choice(Some(0), 5));
    assert!(!NpcState::Idle { timer_ms: 6 }.wants_choice(None, 5));
    assert_eq!(NpcState::Running { to_left: true, timer_ms: 1 }.speed(), -RUN_SPEED);
}

#[test]
fn npc_flees_from_nearest_hazard() {
    let mut npc = Npc::new(Character::SchoolGirl, v(0, 0));
    let rain = vec![body(4_000_000, 0, 0, 0), body(1_000_000, 1_000_000, 0, 0), body(-9_000_000, 0, 0, 0)];
    assert_eq!(nearest_hazard(v(0, 0), &rain), Some(1));
    let mut rng = fastrand::Rng::with_seed(3);
    npc.decide(&rain, 16, &mut rng);
    assert_eq!(npc.state, NpcState::Running { to_left: true, timer_ms: RUN_MS });
    assert_eq!(npc.body.delta, v(-RUN_SPEED, 0));
    // Nothing within sight: five world units is already too far.
    assert_eq!(nearest_hazard(v(0, 0), &vec![body(5_000_000, 0, 0, 0)]), None);
    // Equally near drops: the first wins.
    assert_eq!(nearest_hazard(v(0, 0), &vec![body(0, 9_000_000, 0, 0), body(1, 0, 0, 0), body(-1, 0, 0, 0)]), Some(1));
}

#[test]
fn soaked_npc_keeps_walking_and_leaves() {
    let mut npc = Npc::new(Character::BearGirl, v(0, 0));
    npc.state = NpcState::Walking { to_left: false, timer_ms: 500 };
    for _ in 0..SOAKED_LEVEL {
        npc.absorb_rain();
    }
    let mut rng = fastrand::Rng::with_seed(1);
    npc.decide(&Vec::new(), 16, &mut rng);
    assert_eq!(npc.state, NpcState::Walking { to_left: false, timer_ms: 484 });
    assert_eq!(npc.body.delta, v(WALK_SPEED, 0));
    let mut npcs = vec![npc, Npc::new(Character::BoyCap, v(0, 0))];
    NpcPlugin::npc_tick(&mut npcs, 1_999);
    assert_eq!(npcs.len(), 2);
    assert!(!npcs[0].should_despawn());
    NpcPlugin::npc_tick(&mut npcs, 1);
    assert_eq!(npcs.len(), 1);
    assert_eq!(npcs[0].character, Character::BoyCap);
    assert!(!npcs[0].is_wet());
}

#[test]
fn npcs_walk_and_enter_on_timer() {
    let mut npcs = vec![Npc::new(Character::Boy, v(0, 0))];
    npcs[0].body.delta = v(WALK_SPEED, 0);
    NpcPlugin::move_npcs(&mut npcs, 10);
    assert_eq!(npcs[0].body.pos, v(20_000, 0));
    let mut timer = RepeatingTimer::new(5_000);
    NpcPlugin::spawn_npcs(&mut timer, &mut npcs, 4_999);
    assert_eq!(npcs.len(), 1);
    NpcPlugin::spawn_npcs(&mut timer, &mut npcs, 1);
    assert_eq!(npcs.len(), 2);
    assert_eq!(npcs[1].body.pos, v(LEFT - 1_171_875, BOTTOM / 2));
    assert_eq!((npcs[1].animation_idx, npcs[1].soaked_ms, npcs[1].wetness), (0, 0, 0));
    assert_eq!(npcs[1].state, NpcState::Idle { timer_ms: IDLE_MS });
}

#[test]
fn characters_by_index() {
    assert_eq!(Character::from_index(0), Character::Boy);
    assert_eq!(Character::from_index(6), Character::BoyCap);
    assert_eq!(Character::Boy.num_states(), 4);
    assert_eq!(Character::Nun.num_states(), 1);
    assert_eq!(Character::Baker.num_states(), 2);
    for _ in 0..20 {
        let c = Character::random_character();
        assert!((0..7).any(|i| Character::from_index(i) == c));
    }
}

#[test]
fn rain_outside_bounds_is_removed() {
    let floor = BOTTOM - RAIN_RADIUS;
    let side = RIGHT + RAIN_RADIUS;
    let mut rain = vec![
        body(0, floor - 1, 0, 0),
        body(0, floor, 0, 0),
        body(side + 1, 0, 0, 0),
        body(side, 0, 0, 0),
        body(-side, 0, 0, 0),
        body(-side - 1, 0, 0, 0),
        body(0, 99_000_000, 0, 0),
    ];
    RainPlugin::despawn_raindrops(&mut rain);
    assert_eq!(rain, vec![body(0, floor, 0, 0), body(side, 0, 0, 0), body(-side, 0, 0, 0), body(0, 99_000_000, 0, 0)]);
    assert!(!RainPlugin::is_in_bounds(v(0, -14_462_501)));
    assert!(RainPlugin::is_in_bounds(v(0, -14_462_500)));
}

#[test]
fn rain_spawns_on_timer_at_random_x() {
    let mut timer = RepeatingTimer::new(200);
    let mut rng = fastrand::Rng::with_seed(7);
    let mut rain = Vec::new();
    RainPlugin::spawn_raindrops(&mut timer, &mut rng, &mut rain, 199);
    assert!(rain.is_empty());
    RainPlugin::spawn_raindrops(&mut timer, &mut rng, &mut rain, 1);
    assert_eq!(rain.len(), 1);
    let x = fastrand::Rng::with_seed(7).i64(LEFT..=RIGHT);
    assert_eq!(rain[0], body(x, TOP, 0, 0));
    RainPlugin::spawn_rain_at(&mut rain, WorldUnit(5));
    assert_eq!(rain[1], body(5, TOP, 0, 0));
}

#[test]
fn timer_repeats_with_leftover() {
    let mut t = RepeatingTimer::new(200);
    assert!(!t.tick(150));
    assert!(t.tick(100));
    assert_eq!(t.elapsed_ms, 50);
    assert!(t.tick(550));
    assert_eq!(t.elapsed_ms, 0);
}

#[test]
fn framerate_reports_once_a_second() {
    let mut c = FrameratePlugin::new_counter();
    for _ in 0..59 {
        assert_eq!(FrameratePlugin::print_framerate(&mut c, 16), None);
    }
    assert_eq!(FrameratePlugin::print_framerate(&mut c, 100), Some(60));
    assert_eq!(c.frames, 0);
}

#[test]
fn score_adds_one_per_point() {
    let events = vec![EarnPoint { npc: 0 }, EarnPoint { npc: 3 }];
    assert_eq!(ScorePlugin::earn_points(5, &events), 7);
    assert_eq!(ScorePlugin::earn_points(u32::MAX - 1, &events), u32::MAX);
}

#[test]
fn resize_and_exit() {
    let mut win = WinInfo::default();
    WorldInitPlugin::resize_listener(&mut win, &Vec::new());
    assert_eq!(win, WinInfo { width: 1280, height: 720 });
    WorldInitPlugin::resize_listener(&mut win, &vec![WinInfo { width: 10, height: 20 }, WinInfo { width: 800, height: 600 }]);
    assert_eq!(win, WinInfo { width: 800, height: 600 });
    assert!(WorldInitPlugin::app_exit_listener(true));
    assert!(!WorldInitPlugin::app_exit_listener(false));
}

#[test]
fn colors_compare_by_channel() {
    assert_eq!(StrictColor::new(1, 2, 3), StrictColor { r: 1, g: 2, b: 3 });
    assert_ne!(StrictColor::new(1, 2, 3), StrictColor::new(1, 2, 4));
}

#[test]
fn world_steps_in_order() {
    let mut world = World::new();
    let mut rng = fastrand::Rng::with_seed(11);
    let right = Intent { up: false, down: false, left: false, right: true };
    let points = world.step(right, 16, &mut rng);
    assert!(points.is_empty());
    assert_eq!(world.player.delta, v(PLAYER_SPEED, 0));
    assert_eq!(world.player.pos, v(PLAYER_SPEED * 16, 0));
    assert_eq!(world.score, 0);
    // A drop resting on a walking NPC's head is absorbed in the next step and scores.
    world.npcs.push(Npc::new(Character::Boy, v(0, -5_000_000)));
    world.rain.push(body(0, -3_500_000, 0, 0));
    let points = world.step(Intent::default(), 16, &mut rng);
    assert_eq!(points, vec![EarnPoint { npc: 0 }]);
    assert_eq!(world.score, 1);
    assert_eq!(world.npcs[0].wetness, 1);
    // Rain keeps coming: 200 ms of steps adds one drop.
    let before = world.rain.len();
    for _ in 0..13 {
        world.step(Intent::default(), 16, &mut rng);
    }
    assert!(world.rain.len() >= before + 1);
}

#[test]
fn npc_animation_and_look() {
    let mut npc = Npc::new(Character::Boy, v(0, 0));
    assert_eq!(npc.current_asset(), NpcSprite::Dry { character: Character::Boy, frame: 0 });
    for frame in [1u32, 2, 3, 0, 1] {
        npc.tick(250);
        assert_eq!(npc.current_asset(), NpcSprite::Dry { character: Character::Boy, frame });
    }
    npc.tick(249);
    assert_eq!(npc.animation_idx, 1);
    npc.absorb_rain();
    assert_eq!(npc.current_asset(), NpcSprite::Wet { character: Character::Boy });
    let mut nun = Npc::new(Character::Nun, v(0, 0));
    nun.tick(1_000);
    assert_eq!(nun.animation_idx, 0);
}

#[test]
fn shelter_animation_cycles_images() {
    let mut shack = Shack::new();
    let mut images = vec![shack.image()];
    for _ in 0..4 {
        shack.tick(300);
        images.push(shack.image());
    }
    assert_eq!(images, vec![1, 2, 3, 2, 1]);
    shack.tick(299);
    assert_eq!(shack.image(), 1);
}

#[test]
fn vector_length_and_direction() {
    assert_eq!(v(3_000_000, 4_000_000).length().0, 5_000_000);
    assert_eq!(v(1, 1).length().0, 1);
    assert_eq!(v(0, 0).length().0, 0);
    assert_eq!(v(2_000_000_000, 2_000_000_000).length().0, 2_000_000_000);
    assert_eq!(v(3, 4).try_normalize(), Some(v(600_000, 800_000)));
    assert_eq!(v(0, -7).try_normalize(), Some(v(0, -1_000_000)));
    assert_eq!(v(1, 1).try_normalize(), Some(v(707_106, 707_106)));
    assert_eq!(v(2_000_000_000, -2_000_000_000).normalized(), v(707_106, -707_106));
    for w in [v(1, 1), v(3, 4), v(-5, 17), v(1_999_999_999, -3), v(0, 1)] {
        let n = w.normalized();
        let l2 = n.length_squared();
        assert!(l2 <= 1_000_000_000_000 && l2 >= 1_000_000_000_000 - 4_000_001);
    }
    assert_eq!(v(0, 0).try_normalize(), None);
    assert_eq!(v(0, 0).normalized(), v(0, -1_000_000));
    assert_eq!(v(-3, 4).normalized(), v(-600_000, 800_000));
}

#[test]
fn fixed_clock_runs_whole_steps() {
    let mut clock = FixedClock::new(16);
    assert_eq!(clock.advance(10), 0);
    assert_eq!(clock.advance(10), 1);
    assert_eq!(clock.accumulated_ms, 4);
    assert_eq!(clock.advance(60), 4);
    assert_eq!(clock.accumulated_ms, 0);
    let mut one = FixedClock::new(1);
    assert_eq!(one.advance(u32::MAX), u32::MAX);
}

#[test]
fn frame_runs_due_steps() {
    let mut world = World::new();
    let mut clock = FixedClock::new(16);
    let mut rng = fastrand::Rng::with_seed(5);
    let right = Intent { up: false, down: false, left: false, right: true };
    world.run_frame(&mut clock, 40, right, &mut rng);
    assert_eq!(world.player.pos, v(2 * 16 * PLAYER_SPEED, 0));
    assert_eq!(clock.accumulated_ms, 8);
    world.run_frame(&mut clock, 5, right, &mut rng);
    assert_eq!(world.player.pos, v(2 * 16 * PLAYER_SPEED, 0));
}

#[test]
fn entities_carry_their_render_data() {
    let p = PlayerPlugin::render_position(&body(1, 2, 3, 4));
    assert_eq!((p.pos, p.scale.0, p.image_width, p.z_idx), (v(1, 2), 7_000_000, 600, 1));
    let r = RainPlugin::render_position(&body(5, 6, 0, 0));
    assert_eq!((r.pos, r.scale.0, r.image_width, r.z_idx), (v(5, 6), 400_000, 233, 0));
    let shelter = ShackPlugin::spawn_shack();
    let s = ShackPlugin::render_position(&shelter);
    assert_eq!((s.pos, s.scale.0, s.image_width, s.z_idx), (shelter.center, 11_700_000, 1_500, 2));
    let n = NpcPlugin::render_position(&Npc::new(Character::Baker, v(7, 8)));
    assert_eq!((n.pos, n.scale.0, n.image_width, n.z_idx), (v(7, 8), 2_343_750, 589, 0));
}

#[test]
fn empty_frame_leaves_world_unchanged() {
    let mut world = World::new();
    let mut clock = FixedClock::new(16);
    let mut rng = fastrand::Rng::with_seed(9);
    let points = world.run_frame(&mut clock, 15, Intent { up: true, down: false, left: false, right: false }, &mut rng);
    assert!(points.is_empty());
    assert_eq!(world.player, body(0, 0, 0, 0));
    assert_eq!(world.rain_timer.elapsed_ms, 0);
    assert_eq!(clock.accumulated_ms, 15);
}
