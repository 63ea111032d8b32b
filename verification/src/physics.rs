//! The deterministic per-tick physics stepper.
//!
//! One tick: speed-tile pass, movement update from the chosen input,
//! position update by rounded velocity deltas, lethal-zone check, solid
//! collision resolution (horizontal snap pass, then a recomputed vertical
//! snap pass), and, in platformer mode, environment-modifier detection and
//! gravity.  Every step is an exact function of the state, mirrored
//! one-to-one by the `spec_` functions below; player coordinates are kept
//! inside the world range by saturation.

use vstd::prelude::*;
use vstd::pervasive::unreached;

use crate::env_modifier::EnvModifier;
use crate::env_modifier::env_modifier_wf;
use crate::geometry::COORD_LIMIT;
use crate::geometry::Pointf;
use crate::geometry::min_x;
use crate::geometry::max_x;
use crate::geometry::min_y;
use crate::geometry::max_y;
use crate::hitbox::Hitbox;
use crate::hitbox::hitbox_wf;
use crate::hitbox::mpv_x;
use crate::hitbox::mpv_y;
use crate::hitbox::rects_overlap;
use crate::hitbox::separated;
use crate::hitbox::rect_outline;
use crate::hitbox::lemma_rect_outline;
use crate::moves::Direction;
use crate::moves::Move;
use crate::objects::ObjectType;
use crate::round_cache::RoundCache;
use crate::round_cache::cache_wf;
use crate::round_cache::round_tick_delta;
use crate::settings::GameMode;
use crate::settings::MUL_ONE;
use crate::settings::MUL_MAX;
use crate::settings::PhysicsSettings;
use crate::settings::SearchSettings;
use crate::settings::settings_wf;
use crate::static_state::StaticState;
use crate::static_state::static_wf;

verus! {

/// Vertical speed granted by a jump, in subunits per second (320 units/s).
pub const PLAYER_JUMP_SPEED: i64 = 32_000_000;

/// Horizontal walk speed, in subunits per second (160 units/s).
pub const PLAYER_MOVEMENT_SPEED: i64 = 16_000_000;

/// Gravity per tick, in subunits per second (6 units/s each tick).
pub const GRAVITY_CONSTANT: i64 = 600_000;

/// Per-tick decay of the push velocity (125 units/s).
pub const PUSH_DELTA: i64 = 12_500_000;

/// Push velocity granted by a speed tile (2500 units/s).
pub const PUSH_SPEED: i64 = 250_000_000;

/// Half the player's width and height (16 units).
pub const HALF_SIZE: i64 = 1_600_000;

/// Gap left between the player and an object after a horizontal snap
/// (1 unit).
pub const EDGE_GAP: i64 = 100_000;

/// Player positions saturate into `[-WORLD_LIMIT, WORLD_LIMIT]`.
pub const WORLD_LIMIT: i64 = 992_000_000;

/// Velocities saturate into `[-VEL_LIMIT, VEL_LIMIT]`.
pub const VEL_LIMIT: i64 = 990_000_000;

/// How far the player's tracked hitbox edges may sit from its center.
pub const HITBOX_PAD: i64 = 4_000_000;

/// Broad-phase range around the player center for collision candidates
/// (16 units).
pub const NEAR_RANGE: i64 = 1_600_000;

/// The player's kinematic state.  Coordinates and velocities are
/// fixed-point subunits; the explicit hitbox extents move in lockstep with
/// the position.
#[derive(PartialEq, Eq, Structural, Debug, Copy, Clone)]
pub struct PlayerState {
    pub x: i64,
    pub y: i64,
    pub hx_min: i64,
    pub hx_max: i64,
    pub hy_min: i64,
    pub hy_max: i64,
    pub vx: i64,
    pub vy: i64,
    pub vpush: i64,
    pub can_control_movement: bool,
    pub direction: Direction,
    pub in_the_air: bool,
    pub dead: bool,
}

/// Saturate `v` into `[-lim, lim]`.
pub open spec fn clamp(v: int, lim: int) -> int {
    if v < -lim { -lim } else if v > lim { lim } else { v }
}

/// A player state the stepper can do exact arithmetic on.
pub open spec fn wf_player(p: PlayerState) -> bool {
    &&& -WORLD_LIMIT <= p.x <= WORLD_LIMIT
    &&& -WORLD_LIMIT <= p.y <= WORLD_LIMIT
    &&& p.x - HITBOX_PAD <= p.hx_min < p.hx_max <= p.x + HITBOX_PAD
    &&& p.y - HITBOX_PAD <= p.hy_min < p.hy_max <= p.y + HITBOX_PAD
    &&& -VEL_LIMIT <= p.vx <= VEL_LIMIT
    &&& -VEL_LIMIT <= p.vy <= VEL_LIMIT
    &&& 0 <= p.vpush <= VEL_LIMIT
}

/// Saturating add of two `i64` values into `[-lim, lim]`.
pub(crate) fn clamp_add(a: i64, b: i64, lim: i64) -> (r: i64)
    requires
        0 <= lim,
    ensures
        r == clamp(a + b, lim as int),
{
    let s: i128 = a as i128 + b as i128;
    if s < -(lim as i128) {
        -lim
    } else if s > lim as i128 {
        lim
    } else {
        s as i64
    }
}

/// The corners of the player's axis-aligned hitbox, in outline order.
pub open spec fn player_outline(p: PlayerState) -> Seq<Pointf> {
    seq![
        Pointf { x: p.hx_min, y: p.hy_min },
        Pointf { x: p.hx_max, y: p.hy_min },
        Pointf { x: p.hx_max, y: p.hy_max },
        Pointf { x: p.hx_min, y: p.hy_max },
    ]
}

impl PlayerState {
    /// A live player at the given position with the given tracked hitbox
    /// extents and velocities.
    pub fn new(
        x: i64,
        y: i64,
        hx_min: i64,
        hx_max: i64,
        hy_min: i64,
        hy_max: i64,
        vx: i64,
        vy: i64,
        vpush: i64,
        can_control_movement: bool,
        direction: Direction,
        in_the_air: bool,
    ) -> (r: Self)
        requires
            -WORLD_LIMIT <= x <= WORLD_LIMIT,
            -WORLD_LIMIT <= y <= WORLD_LIMIT,
            x - HITBOX_PAD <= hx_min < hx_max <= x + HITBOX_PAD,
            y - HITBOX_PAD <= hy_min < hy_max <= y + HITBOX_PAD,
            -VEL_LIMIT <= vx <= VEL_LIMIT,
            -VEL_LIMIT <= vy <= VEL_LIMIT,
            0 <= vpush <= VEL_LIMIT,
        ensures
            r == (PlayerState {
                x, y, hx_min, hx_max, hy_min, hy_max, vx, vy, vpush,
                can_control_movement, direction, in_the_air, dead: false,
            }),
            wf_player(r),
    {
        PlayerState {
            x, y, hx_min, hx_max, hy_min, hy_max, vx, vy, vpush,
            can_control_movement, direction, in_the_air, dead: false,
        }
    }

    /// Half the player's height, in subunits.
    pub fn half_height(&self) -> (r: i64)
        ensures
            r == HALF_SIZE,
    {
        HALF_SIZE
    }

    /// Half the player's width, in subunits.
    pub fn half_width(&self) -> (r: i64)
        ensures
            r == HALF_SIZE,
    {
        HALF_SIZE
    }

    /// The player's center position.
    pub fn center(&self) -> (r: Pointf)
        ensures
            r.x == self.x,
            r.y == self.y,
    {
        Pointf { x: self.x, y: self.y }
    }
}

/// Move the player by `(dx, dy)`, keeping the hitbox extents in lockstep;
/// the applied delta saturates so the position stays inside the world.
pub open spec fn spec_move_by(p: PlayerState, dx: int, dy: int) -> PlayerState {
    let nx = clamp(p.x + dx, WORLD_LIMIT as int);
    let ny = clamp(p.y + dy, WORLD_LIMIT as int);
    let rdx = nx - p.x;
    let rdy = ny - p.y;
    PlayerState {
        x: nx as i64,
        y: ny as i64,
        hx_min: (p.hx_min + rdx) as i64,
        hx_max: (p.hx_max + rdx) as i64,
        hy_min: (p.hy_min + rdy) as i64,
        hy_max: (p.hy_max + rdy) as i64,
        ..p
    }
}

/// Position update of one tick: advance by the rounded per-tick deltas of
/// the two velocity components.
pub open spec fn spec_update_position(p: PlayerState) -> PlayerState {
    spec_move_by(p, round_tick_delta(p.vx as int), round_tick_delta(p.vy as int))
}

/// Walk-speed factor of the active modifier (times `MUL_ONE`).
pub open spec fn walk_mult(am: Option<EnvModifier>) -> int {
    match am {
        Some(m) => m.walk_speed as int,
        None => MUL_ONE as int,
    }
}

/// Jump-speed factor of the active modifier.
pub open spec fn jump_mult(am: Option<EnvModifier>) -> int {
    match am {
        Some(m) => m.jump_speed as int,
        None => MUL_ONE as int,
    }
}

/// Gravity factor of the active modifier.
pub open spec fn grav_mult(am: Option<EnvModifier>) -> int {
    match am {
        Some(m) => m.gravity as int,
        None => MUL_ONE as int,
    }
}

/// Whether the active modifier permits airborne jumps.
pub open spec fn jump_override_of(am: Option<EnvModifier>) -> bool {
    match am {
        Some(m) => m.jump_override,
        None => false,
    }
}

/// A speed `a` scaled by the factor `m / MUL_ONE` (truncating), saturated
/// to the velocity range.
pub open spec fn scaled(a: int, m: int) -> int {
    clamp((a * m) / (MUL_ONE as int), VEL_LIMIT as int)
}

/// Exact scaled speed.
fn scaled_exec(a: i64, m: i64) -> (r: i64)
    requires
        0 <= a <= 2_000_000_000,
        0 <= m <= MUL_MAX,
    ensures
        r == scaled(a as int, m as int),
        0 <= r <= VEL_LIMIT,
{
    proof {
        assert(0 <= a * m <= 200_000_000_000_000 && (a * m) / 1000 <= a * m)
            by (nonlinear_arith)
            requires
                0 <= a <= 2_000_000_000,
                0 <= m <= 100_000,
        ;
    }
    let prod: u128 = a as u128 * m as u128;
    let q: u128 = prod / 1000;
    if q > VEL_LIMIT as u128 {
        VEL_LIMIT
    } else {
        q as i64
    }
}

/// The owned view of an optional modifier reference.
pub open spec fn am_view(am: Option<&EnvModifier>) -> Option<EnvModifier> {
    match am {
        Some(m) => Some(*m),
        None => None,
    }
}

/// A usable optional modifier.
pub open spec fn am_wf(am: Option<EnvModifier>) -> bool {
    match am {
        Some(m) => env_modifier_wf(m),
        None => true,
    }
}

/// Change the facing direction and set the velocity for it.
pub open spec fn spec_change_direction(
    p: PlayerState,
    ss: SearchSettings,
    ps: PhysicsSettings,
    dir: Direction,
    sprinting: bool,
    am: Option<EnvModifier>,
) -> PlayerState {
    let p1 = PlayerState { direction: dir, ..p };
    if dir == Direction::E || dir == Direction::W {
        let mm = if sprinting { ss.speed_multiplier as int } else { MUL_ONE as int };
        let sp = scaled(scaled(PLAYER_MOVEMENT_SPEED as int, walk_mult(am)), mm);
        PlayerState { vx: (if dir == Direction::E { sp } else { -sp }) as i64, ..p1 }
    } else if dir == Direction::N {
        if ps.mode == GameMode::Platformer && p.in_the_air && !jump_override_of(am) {
            p1
        } else {
            let mm = if sprinting && ss.mode == GameMode::Scroller {
                ss.speed_multiplier as int
            } else {
                ss.jump_multiplier as int
            };
            let sp = if ps.mode == GameMode::Scroller {
                scaled(PLAYER_MOVEMENT_SPEED as int, mm)
            } else {
                scaled(scaled(PLAYER_JUMP_SPEED as int, jump_mult(am)), mm)
            };
            PlayerState { vy: sp as i64, in_the_air: true, ..p1 }
        }
    } else {
        // Direction::S: only affects vertical speed while airborne in
        // side-scroller mode.
        if p.in_the_air && ps.mode == GameMode::Scroller {
            let mm = if sprinting { ss.speed_multiplier as int } else { MUL_ONE as int };
            PlayerState { vy: (-scaled(PLAYER_MOVEMENT_SPEED as int, mm)) as i64, ..p1 }
        } else {
            p1
        }
    }
}

/// Movement update of one tick: reset the controlled velocity, interpret
/// the move (when control is enabled), decay the push velocity, and apply
/// any remaining push along the facing direction.
pub open spec fn spec_update_movement(
    p: PlayerState,
    mov: Move,
    ss: SearchSettings,
    ps: PhysicsSettings,
    shift: bool,
    am: Option<EnvModifier>,
) -> PlayerState {
    let p0 = PlayerState {
        vx: 0,
        vy: if ps.mode == GameMode::Scroller { 0 } else { p.vy },
        ..p
    };
    let p1 = if p.can_control_movement {
        let a = if mov == Move::D || mov == Move::WD || mov == Move::SD {
            spec_change_direction(p0, ss, ps, Direction::E, shift, am)
        } else {
            p0
        };
        let b = if mov == Move::A || mov == Move::WA || mov == Move::SA {
            spec_change_direction(a, ss, ps, Direction::W, shift, am)
        } else {
            a
        };
        let c = if mov == Move::W || mov == Move::WA || mov == Move::WD {
            spec_change_direction(b, ss, ps, Direction::N, shift, am)
        } else {
            b
        };
        if mov == Move::S || mov == Move::SA || mov == Move::SD {
            spec_change_direction(c, ss, ps, Direction::S, shift, am)
        } else {
            c
        }
    } else {
        p0
    };
    let decayed = if p1.vpush - PUSH_DELTA >= 0 { p1.vpush - PUSH_DELTA } else { 0 };
    let p2 = PlayerState { vpush: decayed as i64, ..p1 };
    if p2.vpush > 0 {
        match p2.direction {
            Direction::N => PlayerState {
                vy: clamp(p2.vy + p2.vpush, VEL_LIMIT as int) as i64, ..p2
            },
            Direction::S => PlayerState {
                vy: clamp(p2.vy - p2.vpush, VEL_LIMIT as int) as i64, ..p2
            },
            Direction::E => PlayerState {
                vx: clamp(p2.vx + p2.vpush, VEL_LIMIT as int) as i64, ..p2
            },
            Direction::W => PlayerState {
                vx: clamp(p2.vx - p2.vpush, VEL_LIMIT as int) as i64, ..p2
            },
        }
    } else {
        p2
    }
}

impl PlayerState {
    /// Shift position and hitbox extents together, saturating at the world
    /// boundary.
    fn move_by(&mut self, dx: i64, dy: i64)
        requires
            wf_player(*old(self)),
            -8_000_000_000_000_000_000 <= dx <= 8_000_000_000_000_000_000,
            -8_000_000_000_000_000_000 <= dy <= 8_000_000_000_000_000_000,
        ensures
            *final(self) == spec_move_by(*old(self), dx as int, dy as int),
            wf_player(*final(self)),
    {
        let nx: i64 = clamp_add(self.x, dx, WORLD_LIMIT);
        let ny: i64 = clamp_add(self.y, dy, WORLD_LIMIT);
        let rdx: i64 = nx - self.x;
        let rdy: i64 = ny - self.y;
        self.x = nx;
        self.y = ny;
        self.hx_min = self.hx_min + rdx;
        self.hx_max = self.hx_max + rdx;
        self.hy_min = self.hy_min + rdy;
        self.hy_max = self.hy_max + rdy;
    }

    /// Advance the position by this tick's rounded velocity deltas.
    fn update_position(&mut self, cache: &mut RoundCache)
        requires
            wf_player(*old(self)),
            cache_wf(*old(cache)),
        ensures
            *final(self) == spec_update_position(*old(self)),
            wf_player(*final(self)),
            cache_wf(*final(cache)),
    {
        let dx: i64 = cache.rounded_delta(self.vx);
        let dy: i64 = cache.rounded_delta(self.vy);
        self.move_by(dx, dy);
    }

    /// Interpret one tick's input.
    #[verifier::rlimit(80)]
    fn update_movement(
        &mut self,
        mov: Move,
        search_settings: &SearchSettings,
        settings: &PhysicsSettings,
        shift_pressed: bool,
        active_modifier: Option<&EnvModifier>,
    )
        requires
            wf_player(*old(self)),
            settings_wf(*search_settings),
            am_wf(am_view(active_modifier)),
        ensures
            *final(self) == spec_update_movement(
                *old(self), mov, *search_settings, *settings, shift_pressed,
                am_view(active_modifier),
            ),
            wf_player(*final(self)),
    {
        let ghost start = *old(self);
        let ghost am = am_view(active_modifier);
        self.vx = 0;
        if settings.mode == GameMode::Scroller {
            self.vy = 0;
        }
        proof {
            assert(*self == (PlayerState {
                vx: 0,
                vy: if settings.mode == GameMode::Scroller { 0 } else { start.vy },
                ..start
            }));
        }
        let ghost q0 = *self;
        if self.can_control_movement {
            if mov == Move::D || mov == Move::WD || mov == Move::SD {
                self.change_direction(
                    search_settings, settings, Direction::E, shift_pressed, active_modifier,
                );
            }
            proof {
                assert(*self == (if mov == Move::D || mov == Move::WD || mov == Move::SD {
                    spec_change_direction(q0, *search_settings, *settings, Direction::E,
                        shift_pressed, am)
                } else {
                    q0
                }));
            }
            let ghost qa = *self;
            if mov == Move::A || mov == Move::WA || mov == Move::SA {
                self.change_direction(
                    search_settings, settings, Direction::W, shift_pressed, active_modifier,
                );
            }
            proof {
                assert(*self == (if mov == Move::A || mov == Move::WA || mov == Move::SA {
                    spec_change_direction(qa, *search_settings, *settings, Direction::W,
                        shift_pressed, am)
                } else {
                    qa
                }));
            }
            let ghost qb = *self;
            if mov == Move::W || mov == Move::WA || mov == Move::WD {
                self.change_direction(
                    search_settings, settings, Direction::N, shift_pressed, active_modifier,
                );
            }
            proof {
                assert(*self == (if mov == Move::W || mov == Move::WA || mov == Move::WD {
                    spec_change_direction(qb, *search_settings, *settings, Direction::N,
                        shift_pressed, am)
                } else {
                    qb
                }));
            }
            let ghost qc = *self;
            if mov == Move::S || mov == Move::SA || mov == Move::SD {
                self.change_direction(
                    search_settings, settings, Direction::S, shift_pressed, active_modifier,
                );
            }
            proof {
                assert(*self == (if mov == Move::S || mov == Move::SA || mov == Move::SD {
                    spec_change_direction(qc, *search_settings, *settings, Direction::S,
                        shift_pressed, am)
                } else {
                    qc
                }));
            }
        }
        // The push velocity decays every tick, whatever the control state.
        self.vpush = if self.vpush - PUSH_DELTA >= 0 { self.vpush - PUSH_DELTA } else { 0 };
        if self.vpush > 0 {
            match self.direction {
                Direction::N => { self.vy = clamp_add(self.vy, self.vpush, VEL_LIMIT); }
                Direction::S => { self.vy = clamp_add(self.vy, -self.vpush, VEL_LIMIT); }
                Direction::E => { self.vx = clamp_add(self.vx, self.vpush, VEL_LIMIT); }
                Direction::W => { self.vx = clamp_add(self.vx, -self.vpush, VEL_LIMIT); }
            }
        }
    }

    /// Face `direction` and set the matching velocity component.
    fn change_direction(
        &mut self,
        search_settings: &SearchSettings,
        settings: &PhysicsSettings,
        direction: Direction,
        sprinting: bool,
        active_modifier: Option<&EnvModifier>,
    )
        requires
            wf_player(*old(self)),
            settings_wf(*search_settings),
            am_wf(am_view(active_modifier)),
        ensures
            *final(self) == spec_change_direction(
                *old(self), *search_settings, *settings, direction, sprinting,
                am_view(active_modifier),
            ),
            wf_player(*final(self)),
    {
        self.direction = direction;
        match direction {
            Direction::E | Direction::W => {
                let move_modifier: i64 = if sprinting {
                    search_settings.speed_multiplier
                } else {
                    MUL_ONE
                };
                let base: i64 = self.movement_speed(active_modifier);
                let sp: i64 = scaled_exec(base, move_modifier);
                self.vx = if direction == Direction::E { sp } else { -sp };
            }
            Direction::N => {
                if settings.mode == GameMode::Platformer
                    && self.in_the_air
                    && !self.jump_override(active_modifier)
                {
                    return;
                }
                let move_modifier: i64 = if sprinting
                    && search_settings.mode == GameMode::Scroller
                {
                    search_settings.speed_multiplier
                } else {
                    search_settings.jump_multiplier
                };
                self.vy = if settings.mode == GameMode::Scroller {
                    scaled_exec(PLAYER_MOVEMENT_SPEED, move_modifier)
                } else {
                    scaled_exec(self.jump_speed(active_modifier), move_modifier)
                };
                self.in_the_air = true;
            }
            Direction::S => {
                if self.in_the_air && settings.mode == GameMode::Scroller {
                    let move_modifier: i64 = if sprinting {
                        search_settings.speed_multiplier
                    } else {
                        MUL_ONE
                    };
                    self.vy = -scaled_exec(PLAYER_MOVEMENT_SPEED, move_modifier);
                }
            }
        }
    }

    /// Jump speed under the active modifier.
    fn jump_speed(&self, active_modifier: Option<&EnvModifier>) -> (r: i64)
        requires
            am_wf(am_view(active_modifier)),
        ensures
            r == scaled(PLAYER_JUMP_SPEED as int, jump_mult(am_view(active_modifier))),
            0 <= r <= VEL_LIMIT,
    {
        match active_modifier {
            Some(m) => scaled_exec(PLAYER_JUMP_SPEED, m.jump_speed),
            None => scaled_exec(PLAYER_JUMP_SPEED, MUL_ONE),
        }
    }

    /// Walk speed under the active modifier.
    fn movement_speed(&self, active_modifier: Option<&EnvModifier>) -> (r: i64)
        requires
            am_wf(am_view(active_modifier)),
        ensures
            r == scaled(PLAYER_MOVEMENT_SPEED as int, walk_mult(am_view(active_modifier))),
            0 <= r <= VEL_LIMIT,
    {
        match active_modifier {
            Some(m) => scaled_exec(PLAYER_MOVEMENT_SPEED, m.walk_speed),
            None => scaled_exec(PLAYER_MOVEMENT_SPEED, MUL_ONE),
        }
    }

    /// Whether the active modifier permits airborne jumps.
    fn jump_override(&self, active_modifier: Option<&EnvModifier>) -> (r: bool)
        ensures
            r == jump_override_of(am_view(active_modifier)),
    {
        match active_modifier {
            Some(m) => m.jump_override,
            None => false,
        }
    }
}

/// A physics search node: the player plus the physics configuration and a
/// cached index of the active environment modifier.  The cache is derived
/// state: it never takes part in state equivalence.
#[derive(Debug, Copy, Clone)]
pub struct PhysState {
    pub player: PlayerState,
    pub settings: PhysicsSettings,
    pub active_modifier: Option<usize>,
}

/// The cached modifier index points into the level's modifier list.
pub open spec fn am_idx_ok(idx: Option<usize>, s: StaticState) -> bool {
    match idx {
        Some(i) => i < s.environments@.len(),
        None => true,
    }
}

/// The modifier a cached index refers to.
pub open spec fn am_of(s: StaticState, idx: Option<usize>) -> Option<EnvModifier> {
    match idx {
        Some(i) => if i < s.environments@.len() {
            Some(s.environments@[i as int])
        } else {
            None
        },
        None => None,
    }
}

/// Fold of all speed tiles' effects from index `i` on, in order.
pub open spec fn spec_speed_tiles(
    tiles: Seq<crate::objects::SpeedTile>,
    p: PlayerState,
    i: int,
) -> PlayerState
    decreases tiles.len() - i,
{
    if i < 0 || i >= tiles.len() {
        p
    } else {
        spec_speed_tiles(tiles, crate::objects::spec_speed_tile_tick(tiles[i], p), i + 1)
    }
}

/// Some speed tile overlaps the player.
pub open spec fn any_tile_overlap(
    tiles: Seq<crate::objects::SpeedTile>,
    p: PlayerState,
) -> bool {
    exists|j: int| 0 <= j < tiles.len()
        && !separated((#[trigger] tiles[j]).hitbox.polygon.outline@, player_outline(p))
}

/// The tick's speed-tile pass: every overlapping tile applies its effect
/// in order, and movement control is restored only when the player
/// overlaps no tile at all.
pub open spec fn spec_speed_tile_pass(
    tiles: Seq<crate::objects::SpeedTile>,
    p: PlayerState,
) -> PlayerState {
    let q = spec_speed_tiles(tiles, p, 0);
    if any_tile_overlap(tiles, p) {
        q
    } else {
        PlayerState { can_control_movement: true, ..q }
    }
}

/// The player's tracked hitbox overlaps the lethal rectangle (inclusive).
pub open spec fn deadly_hit(p: PlayerState, d: Hitbox) -> bool {
    p.hx_min <= d.polygon.rightmost_point && p.hx_max >= d.polygon.leftmost_point
        && p.hy_min <= d.polygon.highest_point && p.hy_max >= d.polygon.lowest_point
}

/// Some lethal zone overlaps the player.
pub open spec fn any_deadly(deadly: Seq<Hitbox>, p: PlayerState) -> bool {
    exists|i: int| 0 <= i < deadly.len() && #[trigger] deadly_hit(p, deadly[i])
}

/// Broad phase: the object's bounding box is within `NEAR_RANGE` of the
/// player's center.
pub open spec fn near_spec(h: Hitbox, p: PlayerState) -> bool {
    !(h.polygon.leftmost_point > p.x + NEAR_RANGE
        || h.polygon.rightmost_point < p.x - NEAR_RANGE
        || h.polygon.lowest_point > p.y + NEAR_RANGE
        || h.polygon.highest_point < p.y - NEAR_RANGE)
}

/// The object collides with the player and the penetration direction is
/// horizontal (zero y, nonzero x).
pub open spec fn qual_x(h: Hitbox, p: PlayerState) -> bool {
    &&& near_spec(h, p)
    &&& !separated(h.polygon.outline@, player_outline(p))
    &&& mpv_x(h.polygon.outline@, player_outline(p)) != 0
    &&& mpv_y(h.polygon.outline@, player_outline(p)) == 0
}

/// The object collides with the player and the penetration direction is
/// vertical (zero x).
pub open spec fn qual_y(h: Hitbox, p: PlayerState) -> bool {
    &&& near_spec(h, p)
    &&& !separated(h.polygon.outline@, player_outline(p))
    &&& mpv_x(h.polygon.outline@, player_outline(p)) == 0
}

/// Horizontal collisions among the objects from index `i` on: pairs of
/// object index and the x component of the penetration direction.
pub open spec fn collect_x(
    objs: Seq<(Hitbox, ObjectType)>,
    p: PlayerState,
    i: int,
) -> Seq<(usize, i64)>
    decreases objs.len() - i,
{
    if i < 0 || i >= objs.len() {
        Seq::empty()
    } else {
        let rest = collect_x(objs, p, i + 1);
        if qual_x(objs[i].0, p) {
            seq![
                ((i as usize), mpv_x(objs[i].0.polygon.outline@, player_outline(p)) as i64)
            ] + rest
        } else {
            rest
        }
    }
}

/// Vertical collisions among the objects from index `i` on: pairs of
/// object index and the y component of the penetration direction.
pub open spec fn collect_y(
    objs: Seq<(Hitbox, ObjectType)>,
    p: PlayerState,
    i: int,
) -> Seq<(usize, i64)>
    decreases objs.len() - i,
{
    if i < 0 || i >= objs.len() {
        Seq::empty()
    } else {
        let rest = collect_y(objs, p, i + 1);
        if qual_y(objs[i].0, p) {
            seq![
                ((i as usize), mpv_y(objs[i].0.polygon.outline@, player_outline(p)) as i64)
            ] + rest
        } else {
            rest
        }
    }
}

/// Snap flush against the object's left or right edge (by the sign of the
/// penetration direction), kill horizontal velocity, and mark airborne.
pub open spec fn spec_align_x(h: Hitbox, mval: i64, p: PlayerState) -> PlayerState {
    let p0 = PlayerState { vx: 0, in_the_air: true, ..p };
    let dx = if mval > 0 {
        h.polygon.leftmost_point - HALF_SIZE - EDGE_GAP - p.x
    } else {
        h.polygon.rightmost_point + HALF_SIZE + EDGE_GAP - p.x
    };
    spec_move_by(p0, dx, 0)
}

/// Snap flush against the object's top or bottom edge, kill vertical
/// velocity, and clear airborne when landing on top.
pub open spec fn spec_align_y(h: Hitbox, mval: i64, p: PlayerState) -> PlayerState {
    let landing = mval < 0;
    let p0 = PlayerState {
        vy: 0,
        in_the_air: if landing { false } else { p.in_the_air },
        ..p
    };
    let dy = if landing {
        h.polygon.highest_point + HALF_SIZE - p.y
    } else {
        h.polygon.lowest_point - HALF_SIZE - p.y
    };
    spec_move_by(p0, 0, dy)
}

/// Fold of the horizontal snaps over a collision list, from entry `j` on.
pub open spec fn apply_x(
    objs: Seq<(Hitbox, ObjectType)>,
    lst: Seq<(usize, i64)>,
    p: PlayerState,
    j: int,
) -> PlayerState
    decreases lst.len() - j,
{
    if j < 0 || j >= lst.len() {
        p
    } else {
        apply_x(objs, lst, spec_align_x(objs[lst[j].0 as int].0, lst[j].1, p), j + 1)
    }
}

/// Fold of the vertical snaps over a collision list, from entry `j` on.
pub open spec fn apply_y(
    objs: Seq<(Hitbox, ObjectType)>,
    lst: Seq<(usize, i64)>,
    p: PlayerState,
    j: int,
) -> PlayerState
    decreases lst.len() - j,
{
    if j < 0 || j >= lst.len() {
        p
    } else {
        apply_y(objs, lst, spec_align_y(objs[lst[j].0 as int].0, lst[j].1, p), j + 1)
    }
}

/// Solid-collision resolution: if nothing collides the player is airborne;
/// otherwise snap horizontally for every horizontal collision, recompute
/// the collision list, and snap vertically for every vertical collision.
pub open spec fn spec_detect_collision(
    s: PhysState,
    objs: Seq<(Hitbox, ObjectType)>,
) -> PhysState {
    let lx = collect_x(objs, s.player, 0);
    let ly = collect_y(objs, s.player, 0);
    if lx.len() == 0 && ly.len() == 0 {
        PhysState { player: PlayerState { in_the_air: true, ..s.player }, ..s }
    } else {
        let p1 = apply_x(objs, lx, s.player, 0);
        let ly2 = collect_y(objs, p1, 0);
        let p2 = apply_y(objs, ly2, p1, 0);
        PhysState { player: p2, ..s }
    }
}

/// Index of the first environment modifier whose region overlaps the
/// player, scanning from `i`.
pub open spec fn spec_first_env(envs: Seq<EnvModifier>, p: PlayerState, i: int) -> Option<usize>
    decreases envs.len() - i,
{
    if i < 0 || i >= envs.len() {
        None
    } else if !separated(envs[i].hitbox.polygon.outline@, player_outline(p)) {
        Some(i as usize)
    } else {
        spec_first_env(envs, p, i + 1)
    }
}

/// Gravity per tick under the active modifier.
pub open spec fn spec_gravity(am: Option<EnvModifier>) -> int {
    scaled(GRAVITY_CONSTANT as int, grav_mult(am))
}

/// Platformer end-of-tick: refresh the cached modifier index and, while
/// airborne, apply gravity scaled by the active modifier.
pub open spec fn spec_tick_platformer(s: PhysState, stat: StaticState) -> PhysState {
    let idx = spec_first_env(stat.environments@, s.player, 0);
    let am = am_of(stat, idx);
    let p = if s.player.in_the_air {
        PlayerState {
            vy: clamp(s.player.vy - spec_gravity(am), VEL_LIMIT as int) as i64,
            ..s.player
        }
    } else {
        s.player
    };
    PhysState { player: p, active_modifier: idx, ..s }
}

/// One full tick of the physics stepper.
pub open spec fn spec_tick(
    s: PhysState,
    mov: Move,
    shift: bool,
    stat: StaticState,
    ss: SearchSettings,
) -> PhysState {
    let p1 = spec_speed_tile_pass(stat.speed_tiles@, s.player);
    let am = am_of(stat, s.active_modifier);
    let p2 = spec_update_movement(p1, mov, ss, s.settings, shift, am);
    let p3 = spec_update_position(p2);
    if any_deadly(stat.deadly@, p3) {
        PhysState { player: PlayerState { dead: true, ..p3 }, ..s }
    } else {
        let s4 = spec_detect_collision(PhysState { player: p3, ..s }, stat.objects@);
        if s.settings.mode == GameMode::Platformer {
            spec_tick_platformer(s4, stat)
        } else {
            s4
        }
    }
}

/// Both players' centers agree within `prec` on each axis.
pub open spec fn close_spec(a: PlayerState, b: PlayerState, prec: int) -> bool {
    -prec <= a.x - b.x <= prec && -prec <= a.y - b.y <= prec
}

/// Extents of a bounded outline are bounded.
proof fn lemma_extent_bounds(o: Seq<Pointf>, b: int)
    requires
        1 <= o.len(),
        forall|i: int| 0 <= i < o.len()
            ==> -b <= (#[trigger] o[i]).x <= b && -b <= o[i].y <= b,
    ensures
        -b <= min_x(o) <= b,
        -b <= max_x(o) <= b,
        -b <= min_y(o) <= b,
        -b <= max_y(o) <= b,
    decreases o.len(),
{
    if o.len() == 1 {
        assert(o[0].x <= b && -b <= o[0].x);
    } else {
        lemma_extent_bounds(o.drop_last(), b);
    }
}

/// A collision list's entries point at objects past `i` and in range.
proof fn lemma_collect_x_valid(objs: Seq<(Hitbox, ObjectType)>, p: PlayerState, i: int)
    requires
        objs.len() <= usize::MAX,
    ensures
        forall|j: int| 0 <= j < collect_x(objs, p, i).len()
            ==> i <= (#[trigger] collect_x(objs, p, i)[j]).0 < objs.len(),
    decreases objs.len() - i,
{
    if i < 0 || i >= objs.len() {
    } else {
        lemma_collect_x_valid(objs, p, i + 1);
        let rest = collect_x(objs, p, i + 1);
        if qual_x(objs[i].0, p) {
            assert forall|j: int| 0 <= j < collect_x(objs, p, i).len()
                implies i <= (#[trigger] collect_x(objs, p, i)[j]).0 < objs.len() by {
                if j == 0 {
                    assert(collect_x(objs, p, i)[0].0 == i as usize);
                    assert((i as usize) as int == i);
                } else {
                    assert(collect_x(objs, p, i)[j] == rest[j - 1]);
                }
            }
        }
    }
}

/// A collision list's entries point at objects past `i` and in range.
proof fn lemma_collect_y_valid(objs: Seq<(Hitbox, ObjectType)>, p: PlayerState, i: int)
    requires
        objs.len() <= usize::MAX,
    ensures
        forall|j: int| 0 <= j < collect_y(objs, p, i).len()
            ==> i <= (#[trigger] collect_y(objs, p, i)[j]).0 < objs.len(),
    decreases objs.len() - i,
{
    if i < 0 || i >= objs.len() {
    } else {
        lemma_collect_y_valid(objs, p, i + 1);
        let rest = collect_y(objs, p, i + 1);
        if qual_y(objs[i].0, p) {
            assert forall|j: int| 0 <= j < collect_y(objs, p, i).len()
                implies i <= (#[trigger] collect_y(objs, p, i)[j]).0 < objs.len() by {
                if j == 0 {
                    assert(collect_y(objs, p, i)[0].0 == i as usize);
                    assert((i as usize) as int == i);
                } else {
                    assert(collect_y(objs, p, i)[j] == rest[j - 1]);
                }
            }
        }
    }
}

/// Scanning from 0 equals scanning from `i` when no earlier region
/// overlaps.
proof fn lemma_first_env_skip(envs: Seq<EnvModifier>, p: PlayerState, i: int)
    requires
        0 <= i <= envs.len(),
        forall|j: int| 0 <= j < i
            ==> separated((#[trigger] envs[j]).hitbox.polygon.outline@, player_outline(p)),
    ensures
        spec_first_env(envs, p, 0) == spec_first_env(envs, p, i),
    decreases i,
{
    if i > 0 {
        lemma_first_env_skip(envs, p, i - 1);
        assert(spec_first_env(envs, p, i - 1) == spec_first_env(envs, p, i));
    }
}

impl PhysState {
    /// A fresh search node with no cached modifier.
    pub fn new(player: PlayerState, settings: PhysicsSettings) -> (r: Self)
        ensures
            r.player == player,
            r.settings == settings,
            r.active_modifier is None,
    {
        PhysState { player, settings, active_modifier: None }
    }

    /// The player's axis-aligned hitbox as a collision shape.
    pub fn get_player_hitbox(&self) -> (h: Hitbox)
        requires
            wf_player(self.player),
        ensures
            hitbox_wf(h),
            h.polygon.outline@ == player_outline(self.player),
            h.polygon.leftmost_point == self.player.hx_min,
            h.polygon.rightmost_point == self.player.hx_max,
            h.polygon.lowest_point == self.player.hy_min,
            h.polygon.highest_point == self.player.hy_max,
    {
        let outline: Vec<Pointf> = vec![
            Pointf::new(self.player.hx_min, self.player.hy_min),
            Pointf::new(self.player.hx_max, self.player.hy_min),
            Pointf::new(self.player.hx_max, self.player.hy_max),
            Pointf::new(self.player.hx_min, self.player.hy_max),
        ];
        proof {
            assert(outline@ =~= player_outline(self.player));
            assert(outline@ =~= rect_outline(
                self.player.hx_min,
                self.player.hx_max,
                self.player.hy_min,
                self.player.hy_max,
            ));
            lemma_rect_outline(
                self.player.hx_min,
                self.player.hx_max,
                self.player.hy_min,
                self.player.hy_max,
                outline@,
            );
        }
        match Hitbox::new(outline) {
            Some(h) => h,
            None => unreached(),
        }
    }

    /// Whether this state's position is within `precision` of the
    /// target's on both axes.
    pub fn close_enough(&self, target_state: &PhysState, precision: i64) -> (r: bool)
        requires
            wf_player(self.player),
            wf_player(target_state.player),
            0 <= precision,
        ensures
            r == close_spec(self.player, target_state.player, precision as int),
    {
        let dx: i64 = self.player.x - target_state.player.x;
        let dy: i64 = self.player.y - target_state.player.y;
        -precision <= dx && dx <= precision && -precision <= dy && dy <= precision
    }

    /// The modifier the cached index refers to.
    fn get_active_modifier<'a>(&self, state: &'a StaticState) -> (r: Option<&'a EnvModifier>)
        requires
            am_idx_ok(self.active_modifier, *state),
        ensures
            am_view(r) == am_of(*state, self.active_modifier),
    {
        match self.active_modifier {
            Some(i) => Some(&state.environments[i]),
            None => None,
        }
    }

    /// Gravity per tick under the given modifier.
    fn gravity(&self, active_modifier: Option<&EnvModifier>) -> (r: i64)
        requires
            am_wf(am_view(active_modifier)),
        ensures
            r == spec_gravity(am_view(active_modifier)),
            0 <= r <= VEL_LIMIT,
    {
        match active_modifier {
            Some(m) => scaled_exec(GRAVITY_CONSTANT, m.gravity),
            None => scaled_exec(GRAVITY_CONSTANT, MUL_ONE),
        }
    }

    /// Refresh the cached index of the first environment modifier whose
    /// region overlaps the player.
    pub fn detect_env_mod(&mut self, state: &StaticState)
        requires
            wf_player(old(self).player),
            static_wf(*state),
        ensures
            final(self).player == old(self).player,
            final(self).settings == old(self).settings,
            final(self).active_modifier
                == spec_first_env(state.environments@, old(self).player, 0),
            am_idx_ok(final(self).active_modifier, *state),
    {
        let player_hitbox = self.get_player_hitbox();
        let n: usize = state.environments.len();
        let mut i: usize = 0;
        while i < n
            invariant
                self.player == old(self).player,
                self.settings == old(self).settings,
                wf_player(self.player),
                n == state.environments@.len(),
                0 <= i <= n,
                static_wf(*state),
                hitbox_wf(player_hitbox),
                player_hitbox.polygon.outline@ == player_outline(self.player),
                forall|j: int| 0 <= j < i
                    ==> separated(
                        (#[trigger] state.environments@[j]).hitbox.polygon.outline@,
                        player_outline(self.player),
                    ),
            decreases n - i,
        {
            let env = &state.environments[i];
            if env.hitbox.collides(&player_hitbox).is_some() {
                proof {
                    lemma_first_env_skip(state.environments@, self.player, i as int);
                    assert(!separated(
                        state.environments@[i as int].hitbox.polygon.outline@,
                        player_outline(self.player),
                    ));
                    assert(spec_first_env(state.environments@, self.player, i as int)
                        == Some(i));
                }
                self.active_modifier = Some(i);
                return;
            }
            i = i + 1;
        }
        self.active_modifier = None;
        proof {
            lemma_first_env_skip(state.environments@, self.player, n as int);
        }
    }

    /// Snap the player flush against a vertical object edge.
    fn align_x_edge(&mut self, o1: &Hitbox, mpv: i64)
        requires
            wf_player(old(self).player),
            hitbox_wf(*o1),
            crate::env_modifier::hitbox_in_static_bounds(*o1),
        ensures
            final(self).player == spec_align_x(*o1, mpv, old(self).player),
            final(self).settings == old(self).settings,
            final(self).active_modifier == old(self).active_modifier,
            wf_player(final(self).player),
    {
        proof {
            lemma_extent_bounds(o1.polygon.outline@, crate::geometry::OBJ_COORD_LIMIT as int);
        }
        self.player.vx = 0;
        self.player.in_the_air = true;
        let dx: i64 = if mpv > 0 {
            o1.polygon.leftmost_point - HALF_SIZE - EDGE_GAP - self.player.x
        } else {
            o1.polygon.rightmost_point + HALF_SIZE + EDGE_GAP - self.player.x
        };
        self.player.move_by(dx, 0);
    }

    /// Snap the player flush against a horizontal object edge.
    fn align_y_edge(&mut self, o1: &Hitbox, mpv: i64)
        requires
            wf_player(old(self).player),
            hitbox_wf(*o1),
            crate::env_modifier::hitbox_in_static_bounds(*o1),
        ensures
            final(self).player == spec_align_y(*o1, mpv, old(self).player),
            final(self).settings == old(self).settings,
            final(self).active_modifier == old(self).active_modifier,
            wf_player(final(self).player),
    {
        proof {
            lemma_extent_bounds(o1.polygon.outline@, crate::geometry::OBJ_COORD_LIMIT as int);
        }
        self.player.vy = 0;
        let dy: i64 = if mpv < 0 {
            self.player.in_the_air = false;
            o1.polygon.highest_point + HALF_SIZE - self.player.y
        } else {
            o1.polygon.lowest_point - HALF_SIZE - self.player.y
        };
        self.player.move_by(0, dy);
    }

    /// The horizontal and vertical collision lists of the player against
    /// the solid objects near it.
    fn get_collisions_list(&self, state: &StaticState) -> (r: (Vec<(usize, i64)>, Vec<(usize, i64)>))
        requires
            wf_player(self.player),
            static_wf(*state),
        ensures
            r.0@ == collect_x(state.objects@, self.player, 0),
            r.1@ == collect_y(state.objects@, self.player, 0),
    {
        let mut collisions_x: Vec<(usize, i64)> = Vec::new();
        let mut collisions_y: Vec<(usize, i64)> = Vec::new();
        let px: i64 = self.player.x;
        let py: i64 = self.player.y;
        let player_hitbox = self.get_player_hitbox();
        let n: usize = state.objects.len();
        let mut i: usize = 0;
        while i < n
            invariant
                wf_player(self.player),
                px == self.player.x,
                py == self.player.y,
                n == state.objects@.len(),
                0 <= i <= n,
                static_wf(*state),
                hitbox_wf(player_hitbox),
                player_hitbox.polygon.outline@ == player_outline(self.player),
                collisions_x@ + collect_x(state.objects@, self.player, i as int)
                    == collect_x(state.objects@, self.player, 0),
                collisions_y@ + collect_y(state.objects@, self.player, i as int)
                    == collect_y(state.objects@, self.player, 0),
            decreases n - i,
        {
            let o1 = &state.objects[i].0;
            let near: bool = !(o1.polygon.leftmost_point > px + NEAR_RANGE
                || o1.polygon.rightmost_point < px - NEAR_RANGE
                || o1.polygon.lowest_point > py + NEAR_RANGE
                || o1.polygon.highest_point < py - NEAR_RANGE);
            if near {
                match o1.collides_dir(&player_hitbox) {
                    Some((mpv, _, _)) => {
                        if mpv.x == 0 {
                            collisions_y.push((i, mpv.y));
                            proof {
                                assert(collisions_y@
                                    + collect_y(state.objects@, self.player, (i + 1) as int)
                                    =~= collisions_y@.drop_last()
                                    + collect_y(state.objects@, self.player, i as int));
                            }
                        } else if mpv.y == 0 {
                            collisions_x.push((i, mpv.x));
                            proof {
                                assert(collisions_x@
                                    + collect_x(state.objects@, self.player, (i + 1) as int)
                                    =~= collisions_x@.drop_last()
                                    + collect_x(state.objects@, self.player, i as int));
                            }
                        }
                    }
                    None => {}
                }
            }
            i = i + 1;
        }
        proof {
            assert(collect_x(state.objects@, self.player, n as int)
                =~= Seq::<(usize, i64)>::empty());
            assert(collect_y(state.objects@, self.player, n as int)
                =~= Seq::<(usize, i64)>::empty());
            assert(collisions_x@ + collect_x(state.objects@, self.player, n as int)
                =~= collisions_x@);
            assert(collisions_y@ + collect_y(state.objects@, self.player, n as int)
                =~= collisions_y@);
        }
        (collisions_x, collisions_y)
    }

    /// Resolve solid collisions: horizontal snaps, then a recomputed pass
    /// of vertical snaps.
    fn detect_collision(&mut self, state: &StaticState)
        requires
            wf_player(old(self).player),
            static_wf(*state),
        ensures
            *final(self) == spec_detect_collision(*old(self), state.objects@),
            wf_player(final(self).player),
            final(self).settings == old(self).settings,
            final(self).active_modifier == old(self).active_modifier,
    {
        let ghost p0 = self.player;
        let nobj: usize = state.objects.len();
        let (list_x, list_y) = self.get_collisions_list(state);
        if list_x.len() == 0 && list_y.len() == 0 {
            self.player.in_the_air = true;
            return;
        }
        proof {
            lemma_collect_x_valid(state.objects@, p0, 0);
        }
        let nx: usize = list_x.len();
        let mut j: usize = 0;
        while j < nx
            invariant
                nx == list_x@.len(),
                0 <= j <= nx,
                static_wf(*state),
                list_x@ == collect_x(state.objects@, p0, 0),
                forall|k: int| 0 <= k < nx
                    ==> (#[trigger] list_x@[k]).0 < state.objects@.len(),
                wf_player(self.player),
                apply_x(state.objects@, list_x@, self.player, j as int)
                    == apply_x(state.objects@, list_x@, p0, 0),
                self.settings == old(self).settings,
                self.active_modifier == old(self).active_modifier,
            decreases nx - j,
        {
            let (idx, mval) = list_x[j];
            self.align_x_edge(&state.objects[idx].0, mval);
            j = j + 1;
        }
        let ghost p1 = self.player;
        let (_, list_y2) = self.get_collisions_list(state);
        proof {
            lemma_collect_y_valid(state.objects@, p1, 0);
        }
        let ny: usize = list_y2.len();
        let mut j: usize = 0;
        while j < ny
            invariant
                ny == list_y2@.len(),
                0 <= j <= ny,
                static_wf(*state),
                list_y2@ == collect_y(state.objects@, p1, 0),
                forall|k: int| 0 <= k < ny
                    ==> (#[trigger] list_y2@[k]).0 < state.objects@.len(),
                wf_player(self.player),
                apply_y(state.objects@, list_y2@, self.player, j as int)
                    == apply_y(state.objects@, list_y2@, p1, 0),
                self.settings == old(self).settings,
                self.active_modifier == old(self).active_modifier,
            decreases ny - j,
        {
            let (idx, mval) = list_y2[j];
            self.align_y_edge(&state.objects[idx].0, mval);
            j = j + 1;
        }
    }

    /// Platformer end-of-tick: modifier detection, then gravity while
    /// airborne.
    fn tick_platformer(&mut self, state: &StaticState)
        requires
            wf_player(old(self).player),
            static_wf(*state),
            old(self).settings.mode == GameMode::Platformer,
        ensures
            *final(self) == spec_tick_platformer(*old(self), *state),
            wf_player(final(self).player),
            am_idx_ok(final(self).active_modifier, *state),
    {
        if self.settings.mode == GameMode::Platformer {
            self.detect_env_mod(state);
        }
        if self.player.in_the_air {
            let am = self.get_active_modifier(state);
            let g: i64 = self.gravity(am);
            self.player.vy = clamp_add(self.player.vy, -g, VEL_LIMIT);
        }
    }

    /// One tick of the physics stepper for the chosen input.
    #[verifier::rlimit(80)]
    pub fn tick(
        &mut self,
        mov: Move,
        shift_pressed: bool,
        state: &StaticState,
        search_settings: &SearchSettings,
        cache: &mut RoundCache,
    )
        requires
            wf_player(old(self).player),
            static_wf(*state),
            settings_wf(*search_settings),
            cache_wf(*old(cache)),
            am_idx_ok(old(self).active_modifier, *state),
        ensures
            *final(self) == spec_tick(*old(self), mov, shift_pressed, *state, *search_settings),
            wf_player(final(self).player),
            am_idx_ok(final(self).active_modifier, *state),
            cache_wf(*final(cache)),
    {
        let ghost s0 = *self;
        let pass_hitbox = self.get_player_hitbox();
        let nt: usize = state.speed_tiles.len();
        let mut on_tile: bool = false;
        let mut i: usize = 0;
        while i < nt
            invariant
                nt == state.speed_tiles@.len(),
                0 <= i <= nt,
                static_wf(*state),
                *self == s0,
                wf_player(self.player),
                hitbox_wf(pass_hitbox),
                pass_hitbox.polygon.outline@ == player_outline(s0.player),
                on_tile ==> exists|j: int| 0 <= j < i && !separated(
                    (#[trigger] state.speed_tiles@[j]).hitbox.polygon.outline@,
                    player_outline(s0.player),
                ),
                !on_tile ==> forall|j: int| 0 <= j < i ==> separated(
                    (#[trigger] state.speed_tiles@[j]).hitbox.polygon.outline@,
                    player_outline(s0.player),
                ),
            decreases nt - i,
        {
            let tile = &state.speed_tiles[i];
            if tile.hitbox.collides(&pass_hitbox).is_some() {
                on_tile = true;
            }
            i = i + 1;
        }
        proof {
            if on_tile {
                assert(any_tile_overlap(state.speed_tiles@, s0.player));
            } else {
                if any_tile_overlap(state.speed_tiles@, s0.player) {
                    let j = choose|j: int| 0 <= j < state.speed_tiles@.len()
                        && !separated(
                            (#[trigger] state.speed_tiles@[j]).hitbox.polygon.outline@,
                            player_outline(s0.player),
                        );
                    assert(separated(
                        state.speed_tiles@[j].hitbox.polygon.outline@,
                        player_outline(s0.player),
                    ));
                }
                assert(!any_tile_overlap(state.speed_tiles@, s0.player));
            }
        }
        let mut i: usize = 0;
        while i < nt
            invariant
                nt == state.speed_tiles@.len(),
                0 <= i <= nt,
                static_wf(*state),
                wf_player(self.player),
                spec_speed_tiles(state.speed_tiles@, self.player, i as int)
                    == spec_speed_tiles(state.speed_tiles@, s0.player, 0),
                self.settings == s0.settings,
                self.active_modifier == s0.active_modifier,
            decreases nt - i,
        {
            let tile = &state.speed_tiles[i];
            tile.tick(self);
            i = i + 1;
        }
        proof {
            assert(self.player == spec_speed_tiles(state.speed_tiles@, s0.player, 0));
        }
        if !on_tile {
            // No tile overlaps: the pass restores movement control.
            self.player.can_control_movement = true;
        }
        proof {
            assert(self.player == spec_speed_tile_pass(state.speed_tiles@, s0.player));
        }
        let ghost p1 = self.player;
        let am = self.get_active_modifier(state);
        let ps: PhysicsSettings = self.settings;
        self.player.update_movement(mov, search_settings, &ps, shift_pressed, am);
        proof {
            assert(self.player == spec_update_movement(
                p1, mov, *search_settings, s0.settings, shift_pressed,
                am_of(*state, s0.active_modifier),
            ));
        }
        let ghost p2 = self.player;
        self.player.update_position(cache);
        proof {
            assert(self.player == spec_update_position(p2));
        }
        let ghost p3 = self.player;
        let player_hitbox = self.get_player_hitbox();
        let nd: usize = state.deadly.len();
        let mut i: usize = 0;
        while i < nd
            invariant
                nd == state.deadly@.len(),
                0 <= i <= nd,
                static_wf(*state),
                wf_player(self.player),
                self.player == p3,
                hitbox_wf(player_hitbox),
                player_hitbox.polygon.leftmost_point == p3.hx_min,
                player_hitbox.polygon.rightmost_point == p3.hx_max,
                player_hitbox.polygon.lowest_point == p3.hy_min,
                player_hitbox.polygon.highest_point == p3.hy_max,
                player_hitbox.polygon.outline@.len() == 4,
                forall|j: int| 0 <= j < i ==> !deadly_hit(p3, #[trigger] state.deadly@[j]),
                self.settings == s0.settings,
                self.active_modifier == s0.active_modifier,
                s0 == *old(self),
                am_idx_ok(s0.active_modifier, *state),
                cache_wf(*cache),
                settings_wf(*search_settings),
                p3 == spec_update_position(spec_update_movement(
                    spec_speed_tile_pass(state.speed_tiles@, s0.player),
                    mov, *search_settings, s0.settings, shift_pressed,
                    am_of(*state, s0.active_modifier),
                )),
            decreases nd - i,
        {
            let obj = &state.deadly[i];
            if player_hitbox.collides_as_rect(obj) {
                proof {
                    assert(deadly_hit(p3, state.deadly@[i as int]));
                    assert(any_deadly(state.deadly@, p3));
                }
                self.player.dead = true;
                proof {
                    assert(self.player == PlayerState { dead: true, ..p3 });
                    assert(*self == spec_tick(s0, mov, shift_pressed, *state, *search_settings));
                }
                return;
            }
            i = i + 1;
        }
        proof {
            assert(!any_deadly(state.deadly@, p3));
            assert(*self == PhysState { player: p3, ..s0 });
        }
        self.detect_collision(state);
        let ghost s4 = *self;
        proof {
            assert(s4 == spec_detect_collision(PhysState { player: p3, ..s0 }, state.objects@));
        }
        if self.settings.mode == GameMode::Platformer {
            self.tick_platformer(state);
            proof {
                assert(*self == spec_tick_platformer(s4, *state));
            }
        }
        proof {
            assert(*self == spec_tick(s0, mov, shift_pressed, *state, *search_settings));
        }
    }
}

/// Single-tick preview: refresh the modifier cache, run one tick, and
/// return the resulting player state.
pub fn get_transition(
    settings: SearchSettings,
    static_state: StaticState,
    state: PhysState,
    next_move: Move,
    shift_pressed: bool,
) -> (r: PlayerState)
    requires
        wf_player(state.player),
        static_wf(static_state),
        settings_wf(settings),
    ensures
        ({
            let s0 = PhysState {
                active_modifier: spec_first_env(static_state.environments@, state.player, 0),
                ..state
            };
            r == spec_tick(s0, next_move, shift_pressed, static_state, settings).player
        }),
{
    let mut st = state;
    let mut cache = RoundCache::new();
    st.detect_env_mod(&static_state);
    st.tick(next_move, shift_pressed, &static_state, &settings, &mut cache);
    st.player
}

} // verus!
