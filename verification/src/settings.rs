//! Search and physics configuration.
//!
//! Speed multipliers are fixed-point fractions scaled by `MUL_ONE` (so
//! `1500` means a factor of one and a half); the heuristic weight is a
//! plain small integer.

use vstd::prelude::*;

use crate::moves::Move;

verus! {

/// Multiplier value that means "times one".
pub const MUL_ONE: i64 = 1000;

/// Largest accepted multiplier (a factor of one hundred).
pub const MUL_MAX: i64 = 100_000;

/// Largest accepted heuristic weight.
pub const WEIGHT_MAX: i64 = 1000;

/// Which movement model is simulated.
#[derive(PartialEq, Eq, Structural, Debug, Copy, Clone)]
pub enum GameMode {
    Scroller,
    Platformer,
}

/// The part of the configuration the physics stepper reads.
#[derive(PartialEq, Eq, Structural, Debug, Copy, Clone)]
pub struct PhysicsSettings {
    pub mode: GameMode,
    pub enable_vpush: bool,
    pub simple_geometry: bool,
}

/// Full search configuration.
#[derive(Debug, Clone)]
pub struct SearchSettings {
    pub mode: GameMode,
    /// Wall-clock budget in seconds.
    pub timeout: u64,
    /// Treat sprint as always held.
    pub always_shift: bool,
    /// Never try sprinting.
    pub disable_shift: bool,
    /// Explicit override of the per-mode move set; empty means the default.
    pub allowed_moves: Vec<Move>,
    /// Weight of the distance heuristic (plain factor, default 5).
    pub heuristic_weight: i64,
    pub enable_vpush: bool,
    pub simple_geometry: bool,
    pub state_batch_size: usize,
    /// Sprint speed factor, scaled by `MUL_ONE`.
    pub speed_multiplier: i64,
    /// Jump speed factor, scaled by `MUL_ONE`.
    pub jump_multiplier: i64,
}

/// Configuration values the search and stepper can do exact arithmetic on.
pub open spec fn settings_wf(s: SearchSettings) -> bool {
    &&& 0 <= s.speed_multiplier <= MUL_MAX
    &&& 0 <= s.jump_multiplier <= MUL_MAX
    &&& 0 <= s.heuristic_weight <= WEIGHT_MAX
}

impl SearchSettings {
    pub fn new(
        mode: GameMode,
        timeout: u64,
        always_shift: bool,
        disable_shift: bool,
        allowed_moves: Vec<Move>,
        heuristic_weight: i64,
        enable_vpush: bool,
        simple_geometry: bool,
        state_batch_size: usize,
        speed_multiplier: i64,
        jump_multiplier: i64,
    ) -> (r: Self)
        ensures
            r == (SearchSettings {
                mode,
                timeout,
                always_shift,
                disable_shift,
                allowed_moves,
                heuristic_weight,
                enable_vpush,
                simple_geometry,
                state_batch_size,
                speed_multiplier,
                jump_multiplier,
            }),
    {
        Self {
            mode,
            timeout,
            always_shift,
            disable_shift,
            allowed_moves,
            heuristic_weight,
            enable_vpush,
            simple_geometry,
            state_batch_size,
            speed_multiplier,
            jump_multiplier,
        }
    }

    /// The slice of the configuration the stepper needs.
    pub fn physics_settings(&self) -> (r: PhysicsSettings)
        ensures
            r.mode == self.mode,
            r.enable_vpush == self.enable_vpush,
            r.simple_geometry == self.simple_geometry,
    {
        PhysicsSettings {
            mode: self.mode,
            enable_vpush: self.enable_vpush,
            simple_geometry: self.simple_geometry,
        }
    }
}

} // verus!
