//! Resting positions of two snooker balls on a frictional plane.
//!
//! One ball is launched with an initial velocity and may strike the
//! other in a single elastic collision; friction limits how far each
//! ball can roll.  All geometry is carried out in fixed-point
//! arithmetic: a coordinate is an `i64` counting micro-units
//! (one millionth of a table unit), so every step of the computation
//! has an exact mathematical meaning that the contracts state.

pub mod arith;
pub mod vec2;
pub mod collide;
pub mod render;
