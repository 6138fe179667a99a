//! Core rules of a thrown, returning projectile: aiming with a slow-motion
//! targeting phase, multi-waypoint flight with eased speed, falling, and the
//! damage and death pipeline fed by collisions.
//!
//! All quantities are integers in fixed point: lengths in millimetres, time in
//! milliseconds, speeds per second, and fractions in basis points.

pub mod geometry;
pub mod easing;
pub mod settings;
pub mod time_dilation;
pub mod boomerang;
pub mod flight;
pub mod targeting;
pub mod aim_mode;
pub mod health;
pub mod audio;
pub mod physics_layers;
pub mod game;
pub mod preview;
