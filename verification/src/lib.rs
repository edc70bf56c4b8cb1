//! A small 2D rigid-body physics core: per-body force accumulation with
//! semi-implicit Euler integration, inverse-square gravity queries, and a
//! pairwise impulse-based collision resolver with positional de-penetration.
//!
//! All quantities are scaled integers (see [`fixed::SCALE`]), so every
//! operation has an exact, machine-checkable meaning.

pub mod collision;
pub mod fixed;
pub mod physics_object;
pub mod physics_system;
pub mod rigid_body;
pub mod vec2;
