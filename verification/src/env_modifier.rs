//! Environment modifiers: spatial regions that change gravity, jump and
//! walk parameters while the player overlaps them.

use vstd::prelude::*;

use crate::geometry::OBJ_COORD_LIMIT;
use crate::hitbox::Hitbox;
use crate::hitbox::hitbox_wf;
use crate::settings::MUL_MAX;

verus! {

/// A region plus the factors it applies while the player is inside.
/// The three speed factors are fixed-point fractions scaled by `MUL_ONE`.
#[derive(Clone, Debug)]
pub struct EnvModifier {
    pub hitbox: Hitbox,
    /// Gravity factor.
    pub gravity: i64,
    /// Jump speed factor.
    pub jump_speed: i64,
    /// Walk speed factor.
    pub walk_speed: i64,
    /// Permit jumping while airborne inside the region.
    pub jump_override: bool,
}

/// All coordinates of an outline fit in the static-level range.
pub open spec fn hitbox_in_static_bounds(h: Hitbox) -> bool {
    forall|i: int| 0 <= i < h.polygon.outline@.len()
        ==> -OBJ_COORD_LIMIT <= (#[trigger] h.polygon.outline@[i]).x <= OBJ_COORD_LIMIT
            && -OBJ_COORD_LIMIT <= h.polygon.outline@[i].y <= OBJ_COORD_LIMIT
}

/// Usable modifier: valid region and factors in range.
pub open spec fn env_modifier_wf(m: EnvModifier) -> bool {
    &&& hitbox_wf(m.hitbox)
    &&& hitbox_in_static_bounds(m.hitbox)
    &&& 0 <= m.gravity <= MUL_MAX
    &&& 0 <= m.jump_speed <= MUL_MAX
    &&& 0 <= m.walk_speed <= MUL_MAX
}

impl EnvModifier {
    pub fn new(
        hitbox: Hitbox,
        gravity: i64,
        jump_speed: i64,
        walk_speed: i64,
        jump_override: bool,
    ) -> (r: Self)
        ensures
            r == (EnvModifier { hitbox, gravity, jump_speed, walk_speed, jump_override }),
    {
        EnvModifier { hitbox, gravity, jump_speed, walk_speed, jump_override }
    }
}

} // verus!
