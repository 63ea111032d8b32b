//! Static object kinds and speed tiles.

use vstd::prelude::*;

use crate::env_modifier::hitbox_in_static_bounds;
use crate::hitbox::Hitbox;
use crate::hitbox::hitbox_wf;
use crate::hitbox::separated;
use crate::moves::Direction;
use crate::physics::VEL_LIMIT;
use crate::physics::PUSH_SPEED;
use crate::physics::PhysState;
use crate::physics::PlayerState;
use crate::physics::clamp;
use crate::physics::clamp_add;
use crate::physics::player_outline;
use crate::physics::wf_player;

verus! {

/// Kind tag of a static level object.
#[derive(PartialEq, Eq, Structural, Debug, Clone, Copy)]
pub enum ObjectType {
    /// Solid, collidable.
    Wall,
    /// Instantly lethal on overlap.
    Spike,
    /// Grants a push velocity while overlapped.
    SpeedTile,
}

impl ObjectType {
    /// Whether overlapping an object of this kind kills the player.
    pub fn is_deadly(&self) -> (r: bool)
        ensures
            r == (*self == ObjectType::Spike),
    {
        *self == ObjectType::Spike
    }
}

/// A region that pushes the player while overlapped.
#[derive(Debug, Clone)]
pub struct SpeedTile {
    pub hitbox: Hitbox,
}

/// Usable speed tile.
pub open spec fn speed_tile_wf(t: SpeedTile) -> bool {
    hitbox_wf(t.hitbox) && hitbox_in_static_bounds(t.hitbox)
}

/// Effect of one speed tile on the player at the start of a tick: while
/// the player overlaps the tile, movement control is removed, the push
/// direction forced north, and (unless a push was already in progress)
/// the push speed granted.  A tile the player does not overlap has no
/// effect; control is restored by the tick's tile pass, and only when no
/// tile at all overlaps.
pub open spec fn spec_speed_tile_tick(t: SpeedTile, p: PlayerState) -> PlayerState {
    let already_pushing = p.can_control_movement && p.vpush > 0;
    if !separated(t.hitbox.polygon.outline@, player_outline(p)) {
        let p1 = PlayerState {
            can_control_movement: false,
            direction: Direction::N,
            ..p
        };
        if !already_pushing {
            PlayerState {
                vpush: clamp(p1.vpush + PUSH_SPEED, VEL_LIMIT as int) as i64,
                ..p1
            }
        } else {
            p1
        }
    } else {
        p
    }
}

impl SpeedTile {
    pub fn new(hitbox: Hitbox) -> (r: Self)
        ensures
            r.hitbox == hitbox,
    {
        Self { hitbox }
    }

    /// Apply this tile's effect for the current tick.  Restoring
    /// movement control when the player overlaps no tile is the tile
    /// pass's job, not any single tile's.
    pub fn tick(&self, state: &mut PhysState)
        requires
            speed_tile_wf(*self),
            wf_player(old(state).player),
        ensures
            final(state).player == spec_speed_tile_tick(*self, old(state).player),
            final(state).settings == old(state).settings,
            final(state).active_modifier == old(state).active_modifier,
            wf_player(final(state).player),
    {
        let already_pushing = state.player.can_control_movement && state.player.vpush > 0;
        let player_hitbox = state.get_player_hitbox();
        if self.hitbox.collides(&player_hitbox).is_some() {
            state.player.can_control_movement = false;
            state.player.direction = Direction::N;
            if !already_pushing {
                state.player.vpush = clamp_add(state.player.vpush, PUSH_SPEED, VEL_LIMIT);
            }
        }
    }
}

} // verus!
