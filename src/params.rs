//! Tunable movement constants.
use vstd::prelude::*;
use crate::fixed::{fmul, fx_mul, in_range, MAX_MAGNITUDE, SCALE};
use crate::vector::Vec3;

verus! {

/// Largest value of a manoeuvrability factor (one thousand units).
pub const FACTOR_LIMIT: i64 = 1_000_000_000;

/// How agile movement is in one context (base, on the ground, in the air).
/// Every factor is a fixed-point multiplier.
#[derive(Clone, Copy, Debug, PartialEq, Eq, Structural)]
pub struct Manoeuvrability {
    /// Horizontal acceleration caused by input.
    pub input_factor: i64,
    /// Horizontal deceleration caused by input against the current motion.
    pub reverse_input_factor: i64,
    /// Vertical impulse of jumping.
    pub jump_factor: i64,
    /// Maximum horizontal speed.
    pub speed_factor: i64,
    /// The time it takes to stop horizontally when inputs are released.
    pub stop_factor: i64,
}

/// Whether a factor lies between zero and `FACTOR_LIMIT`.
pub open spec fn factor_ok(f: int) -> bool {
    0 <= f <= FACTOR_LIMIT
}

impl Manoeuvrability {
    /// Every factor lies between zero and `FACTOR_LIMIT`.
    pub open spec fn wf(self) -> bool {
        factor_ok(self.input_factor as int) && factor_ok(self.reverse_input_factor as int)
            && factor_ok(self.jump_factor as int) && factor_ok(self.speed_factor as int)
            && factor_ok(self.stop_factor as int)
    }

    /// Whether every factor lies between zero and `FACTOR_LIMIT`.
    pub fn is_wf(&self) -> (r: bool)
        ensures
            r == self.wf(),
    {
        0 <= self.input_factor && self.input_factor <= FACTOR_LIMIT && 0 <= self.reverse_input_factor
            && self.reverse_input_factor <= FACTOR_LIMIT && 0 <= self.jump_factor && self.jump_factor <= FACTOR_LIMIT
            && 0 <= self.speed_factor && self.speed_factor <= FACTOR_LIMIT && 0 <= self.stop_factor
            && self.stop_factor <= FACTOR_LIMIT
    }
}

/// Configuration of the character controller.
///
/// Slope thresholds and the escape incidence are cosines: a surface normal `n`
/// (a unit vector) makes an angle with world-up whose cosine is `n.y`, so a slope
/// is at most as steep as a threshold angle exactly when `n.y` is at least that
/// angle's cosine.
#[derive(Clone, Copy, Debug, PartialEq, Eq, Structural)]
pub struct CharacterControllerParams {
    /// The base numbers for input acceleration, jump impulse, speed and stop time.
    pub base_movement: Manoeuvrability,
    /// Movement factors on the ground.
    pub ground_movement: Manoeuvrability,
    /// Movement factors in the air.
    pub aerial_movement: Manoeuvrability,
    /// Gravity while falling.
    pub gravity: Vec3,
    /// Amount the collider shrinks during shape casts, and the gap kept to surfaces.
    pub collider_skin_thickness: i64,
    /// The number of surfaces that collide-and-slide can slide along in a single step.
    pub max_collision_bounces: usize,
    /// Cosine of the angle between a surface normal and the velocity above which the
    /// character is escaping that surface, so it does not count as ground.
    pub escape_incidence: i64,
    /// Terminal velocity while falling (negative: downward).
    pub terminal_velocity: i64,
    /// Terminal velocity while floating upwards.
    pub buoyant_terminal_velocity: i64,
    /// Cosine of the steepest slope angle that permits walking.
    pub max_walking_slope_cos: i64,
    /// Cosine of the steepest slope angle that counts as ground at all.
    pub max_sliding_slope_cos: i64,
}

impl CharacterControllerParams {
    /// Ranges that keep every computation in fixed point exact, and the ordering of
    /// the two slope thresholds (walkable is never steeper than sliding).
    pub open spec fn wf(self) -> bool {
        &&& self.base_movement.wf()
        &&& self.ground_movement.wf()
        &&& self.aerial_movement.wf()
        &&& fmul(self.ground_movement.stop_factor as int, self.base_movement.stop_factor as int) > 0
        &&& fmul(self.aerial_movement.stop_factor as int, self.base_movement.stop_factor as int) > 0
        &&& in_range(self.gravity.y as int)
        &&& 0 <= self.collider_skin_thickness <= SCALE
        &&& -SCALE <= self.escape_incidence <= SCALE
        &&& in_range(self.terminal_velocity as int)
        &&& in_range(self.buoyant_terminal_velocity as int)
        &&& -SCALE <= self.max_sliding_slope_cos <= self.max_walking_slope_cos <= SCALE
    }

    /// Whether a unit normal is flat enough to walk on.
    pub open spec fn walkable(self, normal: Vec3) -> bool {
        normal.y >= self.max_walking_slope_cos
    }

    /// Whether a unit normal is flat enough to count as ground.
    pub open spec fn slidable(self, normal: Vec3) -> bool {
        normal.y >= self.max_sliding_slope_cos
    }

    /// Whether the parameters meet `wf`.
    pub fn is_wf(&self) -> (r: bool)
        ensures
            r == self.wf(),
    {
        if !(self.base_movement.is_wf() && self.ground_movement.is_wf() && self.aerial_movement.is_wf()) {
            return false;
        }
        let ground_stop = fx_mul(self.ground_movement.stop_factor, self.base_movement.stop_factor);
        let aerial_stop = fx_mul(self.aerial_movement.stop_factor, self.base_movement.stop_factor);
        ground_stop > 0 && aerial_stop > 0 && -MAX_MAGNITUDE <= self.gravity.y && self.gravity.y <= MAX_MAGNITUDE
            && 0 <= self.collider_skin_thickness && self.collider_skin_thickness <= SCALE && -SCALE
            <= self.escape_incidence && self.escape_incidence <= SCALE && -MAX_MAGNITUDE <= self.terminal_velocity
            && self.terminal_velocity <= MAX_MAGNITUDE && -MAX_MAGNITUDE <= self.buoyant_terminal_velocity
            && self.buoyant_terminal_velocity <= MAX_MAGNITUDE && -SCALE <= self.max_sliding_slope_cos
            && self.max_sliding_slope_cos <= self.max_walking_slope_cos && self.max_walking_slope_cos <= SCALE
    }

    /// Whether a unit normal is flat enough to walk on.
    pub fn is_walkable(&self, normal: &Vec3) -> (r: bool)
        ensures
            r == self.walkable(*normal),
    {
        normal.y >= self.max_walking_slope_cos
    }

    /// Whether a unit normal is flat enough to count as ground.
    pub fn is_slidable(&self, normal: &Vec3) -> (r: bool)
        ensures
            r == self.slidable(*normal),
    {
        normal.y >= self.max_sliding_slope_cos
    }
}

impl Default for CharacterControllerParams {
    /// The tuned defaults: walking up to 0.17 pi, sliding up to 0.33 pi, escaping
    /// within a quarter pi of a surface normal, gravity twice 9.81 downward.
    fn default() -> (r: Self)
        ensures
            r.wf(),
            r.base_movement == (Manoeuvrability {
                input_factor: 5_000_000,
                reverse_input_factor: 10_000_000,
                jump_factor: 12_000_000,
                speed_factor: 3_000_000,
                stop_factor: 500_000,
            }),
            r.ground_movement == (Manoeuvrability {
                input_factor: 1_000_000,
                reverse_input_factor: 3_000_000,
                jump_factor: 1_000_000,
                speed_factor: 1_000_000,
                stop_factor: 1_000_000,
            }),
            r.aerial_movement == (Manoeuvrability {
                input_factor: 250_000,
                reverse_input_factor: 1_000_000,
                jump_factor: 0,
                speed_factor: 1_000_000,
                stop_factor: 10_000_000,
            }),
            r.gravity.x == 0 && r.gravity.y == -19_620_000 && r.gravity.z == 0,
            r.collider_skin_thickness == 10_000,
            r.max_collision_bounces == 3,
            r.escape_incidence == 707_107,
            r.terminal_velocity == -20_000_000,
            r.buoyant_terminal_velocity == 4_000_000,
            r.max_walking_slope_cos == 860_742,
            r.max_sliding_slope_cos == 509_041,
    {
        CharacterControllerParams {
            base_movement: Manoeuvrability {
                input_factor: 5_000_000,
                reverse_input_factor: 10_000_000,
                jump_factor: 12_000_000,
                speed_factor: 3_000_000,
                stop_factor: 500_000,
            },
            ground_movement: Manoeuvrability {
                input_factor: 1_000_000,
                reverse_input_factor: 3_000_000,
                jump_factor: 1_000_000,
                speed_factor: 1_000_000,
                stop_factor: 1_000_000,
            },
            aerial_movement: Manoeuvrability {
                input_factor: 250_000,
                reverse_input_factor: 1_000_000,
                jump_factor: 0,
                speed_factor: 1_000_000,
                stop_factor: 10_000_000,
            },
            gravity: Vec3 { x: 0, y: -19_620_000, z: 0 },
            collider_skin_thickness: 10_000,
            max_collision_bounces: 3,
            escape_incidence: 707_107,
            terminal_velocity: -20_000_000,
            buoyant_terminal_velocity: 4_000_000,
            max_walking_slope_cos: 860_742,
            max_sliding_slope_cos: 509_041,
        }
    }
}

} // verus!
