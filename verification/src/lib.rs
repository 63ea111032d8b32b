//! Deterministic 2D platformer movement planning: convex-polygon collision
//! geometry (separating-axis test with minimum-penetration direction), a
//! per-tick physics stepper, and an A*-style search that derives a sequence
//! of per-tick inputs driving a player from a start state to a target state.
//!
//! All coordinates, velocities and distances are fixed-point integers in
//! units of 1/100000 of a game unit, so every computation is exact and
//! bit-for-bit reproducible.

pub mod env_modifier;
pub mod geometry;
pub mod hitbox;
pub mod moves;
pub mod objects;
pub mod physics;
pub mod round_cache;
pub mod search;
pub mod settings;
pub mod static_state;

pub use geometry::Pointf;
pub use geometry::Polygon;
pub use hitbox::Hitbox;
