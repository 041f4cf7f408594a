//! A 2D particle ("fluid") simulation core: a uniform spatial hash over a
//! bounded domain, windowed region queries for broad-phase collision
//! detection, and a two-pass per-frame update (detect contacts, then resolve
//! velocities and integrate positions).
//!
//! All world-space quantities (positions, velocities, radii, time steps) are
//! fixed-point scalars: an `i64` counting 1/65536ths of a world unit. One grid
//! cell spans one world unit, matching the default particle radius of one.

pub mod fixed;
pub mod vector_2;
pub mod particle;
pub mod spatial_hash;
pub mod spatial_hash_iter;
pub mod shape;
pub mod rect;
pub mod fluid_sim;
pub mod bench;
