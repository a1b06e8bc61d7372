//! A kinematic character controller in fixed-point arithmetic: velocity
//! integration, an attachment state machine and collide-and-slide resolution.
//!
//! Every length, speed, acceleration, time and factor is an `i64` counting
//! millionths of a unit (see `fixed`). Surface normals are unit vectors in that
//! scale, so the cosine of a normal's angle to world-up is its `y` component.
//!
//! One simulation step runs, in order: `integrator::apply_gravity`, then
//! `integrator::apply_inputs`; then `resolver` turns `velocity × dt` into a safe
//! position, the caller performing each shape cast it asks for; then
//! `ground::query_surrounding_hits` records the downward probe; and
//! `controller::update_markers` decides the attachment that the next step reads.

pub mod fixed;
pub mod math;
pub mod vector;
pub mod params;
pub mod controller;
pub mod input;
pub mod integrator;
pub mod resolver;
pub mod ground;
pub mod mood;
pub mod state;
