//! Per-frame movement and interaction core of a 2D side-scrolling platformer.
//!
//! The crate converts directional input into character motion, decides ground
//! contact from a physics cast result, applies jump-buffering and coyote-time
//! forgiveness windows, and decouples physical collisions from gameplay
//! reactions (skin changes, grouped despawn, game-state transitions) through a
//! semantic trigger event layer.
//!
//! The host simulation loop owns the ECS store, the physics backend and the
//! frame clock; it calls into this crate once per frame, in the order
//! input recording, grounded detection, jump eligibility, movement
//! application, and independently collision translation followed by the
//! reaction handlers.
//!
//! All quantities are fixed point: time in microseconds (frame deltas for the
//! kinematic step as exact rational seconds), lengths in micro-pixels, speeds
//! in milli-pixels per second, and dimensionless scales in milli-units.

pub mod movement;
pub mod timer;
pub mod trigger;
pub mod world;
