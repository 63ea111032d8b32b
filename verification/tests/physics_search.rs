//! Physics stepper and planner tests.  Coordinates are fixed-point
//! subunits: 100000 subunits per game unit.

use cheats_rust::env_modifier::EnvModifier;
use cheats_rust::geometry::Pointf;
use cheats_rust::hitbox::Hitbox;
use cheats_rust::moves::Direction;
use cheats_rust::moves::Move;
use cheats_rust::objects::ObjectType;
use cheats_rust::physics::PhysState;
use cheats_rust::physics::PlayerState;
use cheats_rust::physics::get_transition;
use cheats_rust::round_cache::RoundCache;
use cheats_rust::search::astar_search;
use cheats_rust::search::astar_search_bounded;
use cheats_rust::search::state_key;
use cheats_rust::settings::GameMode;
use cheats_rust::settings::SearchSettings;
use cheats_rust::static_state::StaticState;

const U: i64 = 100_000;

fn rect_hitbox(x1: i64, x2: i64, y1: i64, y2: i64) -> Hitbox {
    Hitbox::new(vec![
        Pointf::new(x1, y1),
        Pointf::new(x2, y1),
        Pointf::new(x2, y2),
        Pointf::new(x1, y2),
    ])
    .unwrap()
}

fn player_at(x: i64, y: i64, in_the_air: bool) -> PlayerState {
    PlayerState::new(
        x,
        y,
        x - 16 * U,
        x + 16 * U,
        y - 16 * U,
        y + 16 * U,
        0,
        0,
        0,
        true,
        Direction::E,
        in_the_air,
    )
}

fn settings(mode: GameMode, simple_geometry: bool) -> SearchSettings {
    SearchSettings::new(
        mode,
        5,
        false,
        false,
        Vec::new(),
        5,
        false,
        simple_geometry,
        1,
        1500,
        1000,
    )
}

#[test]
fn gravity_applies_while_airborne() {
    let ss = settings(GameMode::Platformer, false);
    let stat = StaticState::new(Vec::new(), Vec::new());
    let state = PhysState::new(player_at(0, 50 * U, true), ss.physics_settings());
    let p = get_transition(ss, stat, state, Move::NONE, false);
    assert_eq!(p.y, 50 * U);
    assert_eq!(p.vy, -600_000);
    assert!(p.in_the_air);
    assert!(!p.dead);
}

#[test]
fn env_modifier_can_cancel_gravity() {
    let ss = settings(GameMode::Platformer, false);
    let region = rect_hitbox(-100 * U, 100 * U, 0, 100 * U);
    let env = EnvModifier::new(region, 0, 1000, 1000, false);
    let stat = StaticState::new(Vec::new(), vec![env]);
    let state = PhysState::new(player_at(0, 50 * U, true), ss.physics_settings());
    let p = get_transition(ss, stat, state, Move::NONE, false);
    assert_eq!(p.vy, 0);
}

#[test]
fn dropped_player_comes_to_rest_on_platform_top() {
    // A flat ground platform with its top surface at y = 0; the player is
    // dropped from 50 units with no horizontal velocity.  Repeated ticks
    // must converge to rest at the platform top plus the half height,
    // with zero vertical velocity, well within 100 ticks.
    let ss = settings(GameMode::Platformer, false);
    let floor = rect_hitbox(-100 * U, 100 * U, -20 * U, 0);
    let stat = StaticState::new(vec![(floor, ObjectType::Wall)], Vec::new());
    let mut state = PhysState::new(player_at(0, 50 * U, true), ss.physics_settings());
    let mut cache = RoundCache::new();
    state.detect_env_mod(&stat);
    for _ in 0..100 {
        state.tick(Move::NONE, false, &stat, &ss, &mut cache);
    }
    assert_eq!(state.player.y, 16 * U);
    assert_eq!(state.player.vy, 0);
    assert!(!state.player.in_the_air);
    assert!(!state.player.dead);
    // One more tick does not disturb the rest state.
    state.tick(Move::NONE, false, &stat, &ss, &mut cache);
    assert_eq!(state.player.y, 16 * U);
    assert_eq!(state.player.vy, 0);
}

#[test]
fn speed_tile_takes_control_and_pushes_north() {
    let ss = settings(GameMode::Scroller, false);
    let tile = rect_hitbox(-5 * U, 5 * U, -5 * U, 5 * U);
    let stat = StaticState::new(vec![(tile, ObjectType::SpeedTile)], Vec::new());
    let mut state = PhysState::new(player_at(0, 0, false), ss.physics_settings());
    let mut cache = RoundCache::new();
    state.tick(Move::NONE, false, &stat, &ss, &mut cache);
    assert!(!state.player.can_control_movement);
    assert_eq!(state.player.direction, Direction::N);
    // Push speed 2500 minus one decay step of 125, applied upward.
    assert_eq!(state.player.vpush, 237_500_000);
    assert_eq!(state.player.vy, 237_500_000);
    assert_eq!(state.player.y, 3_958_333);
}

#[test]
fn spike_overlap_kills_the_player() {
    let ss = settings(GameMode::Scroller, false);
    let spike = rect_hitbox(-5 * U, 5 * U, -5 * U, 5 * U);
    let stat = StaticState::new(vec![(spike, ObjectType::Spike)], Vec::new());
    let mut state = PhysState::new(player_at(0, 0, false), ss.physics_settings());
    let mut cache = RoundCache::new();
    state.tick(Move::NONE, false, &stat, &ss, &mut cache);
    assert!(state.player.dead);
}

#[test]
fn static_state_partitions_objects_by_kind() {
    let wall = rect_hitbox(0, 10 * U, 0, 10 * U);
    let spike = rect_hitbox(20 * U, 30 * U, 0, 10 * U);
    let tile = rect_hitbox(40 * U, 50 * U, 0, 10 * U);
    let stat = StaticState::new(
        vec![
            (wall, ObjectType::Wall),
            (spike, ObjectType::Spike),
            (tile, ObjectType::SpeedTile),
        ],
        Vec::new(),
    );
    assert_eq!(stat.objects.len(), 1);
    assert_eq!(stat.objects[0].1, ObjectType::Wall);
    assert_eq!(stat.deadly.len(), 1);
    assert_eq!(stat.speed_tiles.len(), 1);
    assert_eq!(stat.environments.len(), 0);
}

#[test]
fn object_type_spike_is_deadly() {
    assert!(ObjectType::Spike.is_deadly());
    assert!(!ObjectType::Wall.is_deadly());
    assert!(!ObjectType::SpeedTile.is_deadly());
}

#[test]
fn only_vertical_moves() {
    assert!(Move::S.is_only_vertical());
    assert!(Move::W.is_only_vertical());
    assert!(!Move::A.is_only_vertical());
    assert!(!Move::WD.is_only_vertical());
}

#[test]
fn move_all_uses_mode_defaults_and_overrides() {
    let platformer = settings(GameMode::Platformer, false);
    assert_eq!(
        Move::all(&platformer),
        vec![Move::NONE, Move::A, Move::D, Move::W, Move::WA, Move::WD]
    );
    let scroller = settings(GameMode::Scroller, false);
    assert_eq!(Move::all(&scroller).len(), 9);
    let mut with_override = settings(GameMode::Scroller, false);
    with_override.allowed_moves = vec![Move::D, Move::A];
    assert_eq!(Move::all(&with_override), vec![Move::D, Move::A]);
}

#[test]
fn physics_settings_copies_the_shared_fields() {
    let ss = settings(GameMode::Platformer, true);
    let ps = ss.physics_settings();
    assert_eq!(ps.mode, GameMode::Platformer);
    assert_eq!(ps.enable_vpush, false);
    assert_eq!(ps.simple_geometry, true);
}

#[test]
fn close_enough_is_a_per_axis_band() {
    let ss = settings(GameMode::Scroller, false);
    let a = PhysState::new(player_at(0, 0, false), ss.physics_settings());
    let b = PhysState::new(player_at(10 * U, -10 * U, false), ss.physics_settings());
    assert!(a.close_enough(&b, 16 * U));
    assert!(!a.close_enough(&b, 5 * U));
}

#[test]
fn round_cache_returns_exact_rounded_deltas() {
    let mut cache = RoundCache::new();
    // 160 units/s over a 1/60 tick is 2.66667 units after 5-decimal
    // rounding: 266667 subunits.
    assert_eq!(cache.rounded_delta(16_000_000), 266_667);
    assert_eq!(cache.rounded_delta(-16_000_000), -266_667);
    // 320 units/s gives 5.33333 units.
    assert_eq!(cache.rounded_delta(32_000_000), 533_333);
    // Ties go to the even value.
    assert_eq!(cache.rounded_delta(90), 2);
    assert_eq!(cache.rounded_delta(30), 0);
    assert_eq!(cache.rounded_delta(-90), -2);
}

#[test]
fn round_cache_is_idempotent_per_key() {
    let mut cache = RoundCache::new();
    let first = cache.rounded_delta(12_345_678);
    let again = cache.rounded_delta(12_345_678);
    assert_eq!(first, again);
    let other = cache.rounded_delta(-98_765);
    assert_eq!(cache.rounded_delta(-98_765), other);
    assert_eq!(cache.rounded_delta(12_345_678), first);
}

#[test]
fn state_key_rounds_coarsely_under_simple_geometry() {
    let simple = settings(GameMode::Scroller, true).physics_settings();
    let exact = settings(GameMode::Scroller, false).physics_settings();
    let mut p = player_at(0, 0, false);
    p.x = 123_456;
    p.y = -123_456;
    let ks = state_key(&simple, &p);
    assert_eq!(ks.x, 120_000);
    assert_eq!(ks.y, -120_000);
    let ke = state_key(&exact, &p);
    assert_eq!(ke.x, 123_456);
    assert_eq!(ke.y, -123_456);
    // Halfway rounds away from zero.
    p.x = 5_000;
    assert_eq!(state_key(&simple, &p).x, 10_000);
}

#[test]
fn state_key_ignores_push_fields_unless_enabled() {
    let mut ps = settings(GameMode::Scroller, false).physics_settings();
    let mut p = player_at(0, 0, false);
    p.vpush = 7 * U;
    p.direction = Direction::W;
    let k_disabled = state_key(&ps, &p);
    assert_eq!(k_disabled.vpush, 0);
    assert_eq!(k_disabled.dir, Direction::N);
    ps.enable_vpush = true;
    let k_enabled = state_key(&ps, &p);
    assert_eq!(k_enabled.vpush, 7 * U);
    assert_eq!(k_enabled.dir, Direction::W);
}

#[test]
fn search_with_start_at_target_returns_empty_path() {
    let ss = settings(GameMode::Scroller, true);
    let stat = StaticState::new(Vec::new(), Vec::new());
    let start = PhysState::new(player_at(0, 0, false), ss.physics_settings());
    let target = PhysState::new(player_at(10 * U, 0, false), ss.physics_settings());
    let r = astar_search(ss, start, target, stat);
    assert_eq!(r.map(|v| v.len()), Some(0));
}

#[test]
fn search_reaches_a_nearby_target() {
    let ss = settings(GameMode::Scroller, true);
    let stat = StaticState::new(Vec::new(), Vec::new());
    let start = PhysState::new(player_at(0, 0, false), ss.physics_settings());
    let target = PhysState::new(player_at(60 * U, 0, false), ss.physics_settings());
    let r = astar_search(ss, start, target, stat).expect("a path should exist");
    assert!(r.len() > 0);
    let last = r[r.len() - 1].2;
    assert!((last.x - 60 * U).abs() <= 16 * U);
    assert!((last.y).abs() <= 16 * U);
}

#[test]
fn search_is_deterministic_across_runs() {
    let make = || {
        let ss = settings(GameMode::Scroller, true);
        let stat = StaticState::new(Vec::new(), Vec::new());
        let start = PhysState::new(player_at(0, 0, false), ss.physics_settings());
        let target = PhysState::new(player_at(60 * U, 20 * U, false), ss.physics_settings());
        astar_search_bounded(ss, start, target, stat, 1_000_000)
    };
    let r1 = make().expect("a path should exist");
    let r2 = make().expect("a path should exist");
    assert_eq!(r1, r2);
}

#[test]
fn search_reports_no_path_from_a_sealed_room() {
    // The reachable region is a sealed box; a target far outside it is
    // reported unreachable once the open set empties, well before the
    // timeout.
    let ss = settings(GameMode::Scroller, true);
    let bottom = rect_hitbox(-64 * U, 64 * U, -20 * U, 0);
    let top = rect_hitbox(-64 * U, 64 * U, 64 * U, 84 * U);
    let left = rect_hitbox(-52 * U, -32 * U, 0, 64 * U);
    let right = rect_hitbox(32 * U, 52 * U, 0, 64 * U);
    let stat = StaticState::new(
        vec![
            (bottom, ObjectType::Wall),
            (top, ObjectType::Wall),
            (left, ObjectType::Wall),
            (right, ObjectType::Wall),
        ],
        Vec::new(),
    );
    let start = PhysState::new(player_at(0, 32 * U, false), ss.physics_settings());
    let target = PhysState::new(player_at(500 * U, 32 * U, false), ss.physics_settings());
    let r = astar_search(ss, start, target, stat);
    assert!(r.is_none());
}

#[test]
fn replaying_a_found_path_steps_tick_by_tick() {
    let ss = settings(GameMode::Scroller, true);
    let stat = StaticState::new(Vec::new(), Vec::new());
    let start = PhysState::new(player_at(0, 0, false), ss.physics_settings());
    let target = PhysState::new(player_at(60 * U, 0, false), ss.physics_settings());
    let path = astar_search(
        settings(GameMode::Scroller, true),
        start,
        target,
        StaticState::new(Vec::new(), Vec::new()),
    )
    .expect("a path should exist");
    // Each recorded step is reproducible with the single-tick preview.
    let mut cur = start;
    for (mv, sh, _expected) in path.iter() {
        let p = get_transition(
            settings(GameMode::Scroller, true),
            StaticState::new(Vec::new(), Vec::new()),
            cur,
            *mv,
            *sh,
        );
        cur = PhysState::new(p, ss.physics_settings());
    }
    // State-equivalence merging may shift replayed positions by a few
    // rounding grains, so allow a small margin over the goal tolerance.
    let end = PhysState::new(cur.player, ss.physics_settings());
    assert!(end.close_enough(&target, 20 * U));
}

#[test]
fn sprint_scales_horizontal_speed() {
    // 160 units/s times the 1.5 sprint factor is 240 units/s; one tick
    // moves 4 units exactly.
    let ss = settings(GameMode::Scroller, false);
    let stat = StaticState::new(Vec::new(), Vec::new());
    let state = PhysState::new(player_at(0, 0, false), ss.physics_settings());
    let p = get_transition(ss, stat, state, Move::D, true);
    assert_eq!(p.vx, 24_000_000);
    assert_eq!(p.x, 400_000);
    assert_eq!(p.direction, Direction::E);
}

#[test]
fn walking_without_sprint_moves_at_base_speed() {
    let ss = settings(GameMode::Scroller, false);
    let stat = StaticState::new(Vec::new(), Vec::new());
    let state = PhysState::new(player_at(0, 0, false), ss.physics_settings());
    let p = get_transition(ss, stat, state, Move::A, false);
    assert_eq!(p.vx, -16_000_000);
    assert_eq!(p.x, -266_667);
    assert_eq!(p.direction, Direction::W);
}

#[test]
fn grounded_jump_sets_vertical_speed_minus_gravity() {
    // Jump speed 320 units/s; the first tick moves up by its rounded
    // delta and then gravity (6 units/s) bites once, as the jump leaves
    // the player airborne.
    let ss = settings(GameMode::Platformer, false);
    let stat = StaticState::new(Vec::new(), Vec::new());
    let state = PhysState::new(player_at(0, 0, false), ss.physics_settings());
    let p = get_transition(ss, stat, state, Move::W, false);
    assert_eq!(p.y, 533_333);
    assert_eq!(p.vy, 31_400_000);
    assert!(p.in_the_air);
}

#[test]
fn airborne_jump_is_ignored_in_platformer_mode() {
    let ss = settings(GameMode::Platformer, false);
    let stat = StaticState::new(Vec::new(), Vec::new());
    let state = PhysState::new(player_at(0, 50 * U, true), ss.physics_settings());
    let p = get_transition(ss, stat, state, Move::W, false);
    // The jump is swallowed; only gravity acts.
    assert_eq!(p.vy, -600_000);
    assert_eq!(p.y, 50 * U);
}

#[test]
fn walking_into_a_wall_snaps_flush_with_a_gap() {
    // Wall face at x = 20; the player is snapped to 20 - 16 - 1 = 3 units
    // and stays there while pushing further.
    let ss = settings(GameMode::Scroller, false);
    let wall = rect_hitbox(20 * U, 40 * U, -16 * U, 16 * U);
    let stat = StaticState::new(vec![(wall, ObjectType::Wall)], Vec::new());
    let mut state = PhysState::new(player_at(0, 0, false), ss.physics_settings());
    let mut cache = RoundCache::new();
    for _ in 0..5 {
        state.tick(Move::D, false, &stat, &ss, &mut cache);
    }
    assert_eq!(state.player.x, 3 * U);
    assert_eq!(state.player.vx, 0);
}

#[test]
fn control_stays_removed_while_any_tile_overlaps() {
    // A tile later in the list that does not overlap must not restore
    // control removed by an overlapping one: control returns only when
    // the player overlaps no tile at all.
    let ss = settings(GameMode::Scroller, false);
    let tile_on = rect_hitbox(-5 * U, 5 * U, -5 * U, 5 * U);
    let tile_off = rect_hitbox(200 * U, 220 * U, 0, 20 * U);
    let stat = StaticState::new(
        vec![
            (tile_on, ObjectType::SpeedTile),
            (tile_off, ObjectType::SpeedTile),
        ],
        Vec::new(),
    );
    let mut state = PhysState::new(player_at(0, 0, false), ss.physics_settings());
    let mut cache = RoundCache::new();
    state.tick(Move::NONE, false, &stat, &ss, &mut cache);
    assert!(!state.player.can_control_movement);
    assert_eq!(state.player.vpush, 237_500_000);
}

#[test]
fn control_restored_when_no_tile_overlaps() {
    let ss = settings(GameMode::Scroller, false);
    let stat = StaticState::new(Vec::new(), Vec::new());
    let mut p = player_at(0, 0, false);
    p.can_control_movement = false;
    let mut state = PhysState::new(p, ss.physics_settings());
    let mut cache = RoundCache::new();
    state.tick(Move::NONE, false, &stat, &ss, &mut cache);
    assert!(state.player.can_control_movement);
}
