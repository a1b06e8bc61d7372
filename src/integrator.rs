//! Gravity and input integration of the character's velocity.
use vstd::prelude::*;
use crate::controller::{attachment_wf, Attachment, PlayerController};
use crate::fixed::{
    div_toward_zero, div_tz, fmul, fx_mul, in_range, lemma_div_tz_le, lemma_fmul_factors, lemma_fmul_unit,
    lemma_mul_bound, MAX_MAGNITUDE, SCALE,
};
use crate::input::MovementState;
use crate::math::{
    approach_velocity, approach_velocity_spec, approach_zero, approach_zero_spec, lemma_approach_velocity_bound,
    lemma_approach_zero_bound,
};
use crate::params::{CharacterControllerParams, Manoeuvrability};
use crate::vector::{Vec3, VEC_LIMIT};

verus! {

/// Largest magnitude of a velocity component after integration.
pub const INTEGRATED_LIMIT: i64 = 1_000_003_000_000_000_000;

/// Vertical acceleration: none on walkable ground, gravity otherwise.
pub open spec fn gravity_for(attachment: Option<Attachment>, params: CharacterControllerParams) -> int {
    match attachment {
        Some(Attachment::Grounded { normal }) => if params.walkable(normal) {
            0
        } else {
            params.gravity.y as int
        },
        None => params.gravity.y as int,
    }
}

/// Applies gravity, with the falling terminal velocity, to the vertical velocity.
pub fn apply_gravity(
    controller: &mut PlayerController,
    attachment: &Option<Attachment>,
    params: &CharacterControllerParams,
    delta_time: i64,
)
    requires
        old(controller).velocity.in_bounds(),
        params.wf(),
        0 <= delta_time <= MAX_MAGNITUDE,
    ensures
        final(controller).velocity.x == old(controller).velocity.x,
        final(controller).velocity.z == old(controller).velocity.z,
        final(controller).velocity.y == approach_velocity_spec(
            old(controller).velocity.y as int,
            gravity_for(*attachment, *params),
            delta_time as int,
            params.terminal_velocity as int,
        ),
{
    let gravity: i64 = match attachment {
        Some(Attachment::Grounded { normal }) => if params.is_walkable(normal) {
            0
        } else {
            params.gravity.y
        },
        None => params.gravity.y,
    };
    controller.velocity.y = approach_velocity(controller.velocity.y, gravity, delta_time, params.terminal_velocity);
}

/// The new speed along one direction of movement under a signed input in that
/// direction. Without input the speed brakes to rest; with input it accelerates
/// toward `speed × base speed × input`, using the forward factors when the speed is
/// zero or already along the input and the reverse factors when it opposes it.
pub open spec fn manoeuvre_speed(
    speed: int,
    input: int,
    factors: Manoeuvrability,
    base: Manoeuvrability,
    delta_time: int,
) -> int {
    let max_speed = fmul(factors.speed_factor as int, base.speed_factor as int);
    if input == 0 {
        approach_zero_spec(speed, delta_time, max_speed, fmul(factors.stop_factor as int, base.stop_factor as int))
    } else {
        let acceleration = if speed * input >= 0 {
            fmul(fmul(factors.input_factor as int, base.input_factor as int), input)
        } else {
            fmul(fmul(factors.reverse_input_factor as int, base.reverse_input_factor as int), input)
        };
        approach_velocity_spec(speed, acceleration, delta_time, fmul(max_speed, input))
    }
}

fn manoeuvre_speed_exec(
    speed: i64,
    input: i64,
    factors: &Manoeuvrability,
    base: &Manoeuvrability,
    delta_time: i64,
) -> (r: i64)
    requires
        in_range(speed as int),
        -SCALE <= input <= SCALE,
        factors.wf(),
        base.wf(),
        fmul(factors.stop_factor as int, base.stop_factor as int) > 0,
        0 <= delta_time <= MAX_MAGNITUDE,
    ensures
        r == manoeuvre_speed(speed as int, input as int, *factors, *base, delta_time as int),
        -1_000_002_000_000_000_000 <= r <= 1_000_002_000_000_000_000,
        input == 0 && speed >= 0 ==> 0 <= r <= speed,
        input == 0 && speed < 0 ==> speed <= r <= 0,
{
    proof {
        lemma_fmul_factors(factors.speed_factor as int, base.speed_factor as int);
        lemma_fmul_factors(factors.stop_factor as int, base.stop_factor as int);
        lemma_fmul_factors(factors.input_factor as int, base.input_factor as int);
        lemma_fmul_factors(factors.reverse_input_factor as int, base.reverse_input_factor as int);
    }
    let max_speed = fx_mul(factors.speed_factor, base.speed_factor);
    if input == 0 {
        let stop_time = fx_mul(factors.stop_factor, base.stop_factor);
        proof {
            lemma_approach_zero_bound(speed as int, delta_time as int, max_speed as int, stop_time as int);
        }
        approach_zero(speed, delta_time, max_speed, stop_time)
    } else {
        proof {
            lemma_mul_bound(speed as int, input as int, MAX_MAGNITUDE as int, SCALE as int);
        }
        let along: i128 = (speed as i128) * (input as i128);
        let factor = if along >= 0 {
            fx_mul(factors.input_factor, base.input_factor)
        } else {
            fx_mul(factors.reverse_input_factor, base.reverse_input_factor)
        };
        proof {
            lemma_fmul_unit(factor as int, input as int, MAX_MAGNITUDE as int);
            lemma_fmul_unit(max_speed as int, input as int, MAX_MAGNITUDE as int);
        }
        let acceleration = fx_mul(factor, input);
        let terminal = fx_mul(max_speed, input);
        proof {
            lemma_approach_velocity_bound(speed as int, acceleration as int, delta_time as int, terminal as int);
        }
        approach_velocity(speed, acceleration, delta_time, terminal)
    }
}

/// Velocity along a unit normal, in the vertical plane of movement.
pub open spec fn normal_speed(v: Vec3, normal: Vec3) -> int {
    div_tz(v.x * normal.x + v.y * normal.y, SCALE as int)
}

/// Velocity along the slope tangent `(normal.y, -normal.x)`, which points toward
/// positive x on any surface that faces up.
pub open spec fn tangent_speed(v: Vec3, normal: Vec3) -> int {
    div_tz(v.x * normal.y - v.y * normal.x, SCALE as int)
}

/// Horizontal component of `along_normal × normal + along_tangent × tangent`.
pub open spec fn recompose_x(along_normal: int, along_tangent: int, normal: Vec3) -> int {
    div_tz(along_normal * normal.x + along_tangent * normal.y, SCALE as int)
}

/// Vertical component of `along_normal × normal + along_tangent × tangent`.
pub open spec fn recompose_y(along_normal: int, along_tangent: int, normal: Vec3) -> int {
    div_tz(along_normal * normal.y - along_tangent * normal.x, SCALE as int)
}

/// Whether input acceleration follows the plane of a walkable surface.
pub open spec fn planar_mode(attachment: Option<Attachment>, params: CharacterControllerParams) -> bool {
    match attachment {
        Some(Attachment::Grounded { normal }) => params.walkable(normal),
        None => false,
    }
}

/// The factors that govern input in the current attachment.
pub open spec fn context_factors(attachment: Option<Attachment>, params: CharacterControllerParams) -> Manoeuvrability {
    match attachment {
        Some(Attachment::Grounded { .. }) => params.ground_movement,
        None => params.aerial_movement,
    }
}

/// The normal of the surface the character is attached to.
pub open spec fn attached_normal(attachment: Option<Attachment>) -> Vec3 {
    match attachment {
        Some(Attachment::Grounded { normal }) => normal,
        None => Vec3 { x: 0, y: SCALE, z: 0 },
    }
}

/// Horizontal velocity after input, before any jump.
pub open spec fn input_velocity_x(
    v: Vec3,
    attachment: Option<Attachment>,
    params: CharacterControllerParams,
    input: MovementState,
    delta_time: int,
) -> int {
    let factors = context_factors(attachment, params);
    if planar_mode(attachment, params) {
        let normal = attached_normal(attachment);
        let along_tangent = manoeuvre_speed(
            tangent_speed(v, normal),
            input.input_direction_x as int,
            factors,
            params.base_movement,
            delta_time,
        );
        recompose_x(normal_speed(v, normal), along_tangent, normal)
    } else {
        manoeuvre_speed(v.x as int, input.input_direction_x as int, factors, params.base_movement, delta_time)
    }
}

/// Vertical velocity after input, before any jump.
pub open spec fn input_velocity_y(
    v: Vec3,
    attachment: Option<Attachment>,
    params: CharacterControllerParams,
    input: MovementState,
    delta_time: int,
) -> int {
    let factors = context_factors(attachment, params);
    if planar_mode(attachment, params) {
        let normal = attached_normal(attachment);
        let along_tangent = manoeuvre_speed(
            tangent_speed(v, normal),
            input.input_direction_x as int,
            factors,
            params.base_movement,
            delta_time,
        );
        recompose_y(normal_speed(v, normal), along_tangent, normal)
    } else {
        v.y as int
    }
}

/// A jump happens when it was just pressed and the character is attached.
pub open spec fn jumps(attachment: Option<Attachment>, input: MovementState) -> bool {
    input.just_pressed_jump && attachment is Some
}

/// The vertical impulse of a jump from the ground.
pub open spec fn jump_impulse(params: CharacterControllerParams) -> int {
    fmul(params.ground_movement.jump_factor as int, params.base_movement.jump_factor as int)
}

/// Vertical velocity after input, including a jump.
pub open spec fn velocity_y_after_inputs(
    v: Vec3,
    attachment: Option<Attachment>,
    params: CharacterControllerParams,
    input: MovementState,
    delta_time: int,
) -> int {
    input_velocity_y(v, attachment, params, input, delta_time) + if jumps(attachment, input) {
        jump_impulse(params)
    } else {
        0
    }
}

/// Attachment after input: a jump leaves the ground.
pub open spec fn attachment_after_inputs(attachment: Option<Attachment>, input: MovementState) -> Option<Attachment> {
    if jumps(attachment, input) {
        None
    } else {
        attachment
    }
}

fn planar_velocity(
    v: &Vec3,
    normal: &Vec3,
    input: i64,
    factors: &Manoeuvrability,
    base: &Manoeuvrability,
    delta_time: i64,
) -> (r: (i64, i64))
    requires
        v.in_bounds(),
        normal.is_direction(),
        -SCALE <= input <= SCALE,
        factors.wf(),
        base.wf(),
        fmul(factors.stop_factor as int, base.stop_factor as int) > 0,
        0 <= delta_time <= MAX_MAGNITUDE,
    ensures
        ({
            let along_tangent = manoeuvre_speed(tangent_speed(*v, *normal), input as int, *factors, *base, delta_time as int);
            &&& r.0 == recompose_x(normal_speed(*v, *normal), along_tangent, *normal)
            &&& r.1 == recompose_y(normal_speed(*v, *normal), along_tangent, *normal)
        }),
        -INTEGRATED_LIMIT <= r.0 <= INTEGRATED_LIMIT,
        -INTEGRATED_LIMIT <= r.1 <= INTEGRATED_LIMIT,
{
    proof {
        lemma_mul_bound(v.x as int, normal.x as int, VEC_LIMIT as int, SCALE as int);
        lemma_mul_bound(v.y as int, normal.y as int, VEC_LIMIT as int, SCALE as int);
        lemma_mul_bound(v.x as int, normal.y as int, VEC_LIMIT as int, SCALE as int);
        lemma_mul_bound(v.y as int, normal.x as int, VEC_LIMIT as int, SCALE as int);
    }
    let normal_dot: i128 = (v.x as i128) * (normal.x as i128) + (v.y as i128) * (normal.y as i128);
    let tangent_dot: i128 = (v.x as i128) * (normal.y as i128) - (v.y as i128) * (normal.x as i128);
    proof {
        lemma_div_tz_le(normal_dot as int, 200_000_000_000);
        lemma_div_tz_le(tangent_dot as int, 200_000_000_000);
    }
    let along_normal = div_toward_zero(normal_dot, SCALE as i128);
    let along_tangent = div_toward_zero(tangent_dot, SCALE as i128);
    let new_tangent = manoeuvre_speed_exec(along_tangent as i64, input, factors, base, delta_time);
    proof {
        lemma_mul_bound(along_normal as int, normal.x as int, 200_000_000_000, SCALE as int);
        lemma_mul_bound(along_normal as int, normal.y as int, 200_000_000_000, SCALE as int);
        lemma_mul_bound(new_tangent as int, normal.x as int, 1_000_002_000_000_000_000, SCALE as int);
        lemma_mul_bound(new_tangent as int, normal.y as int, 1_000_002_000_000_000_000, SCALE as int);
    }
    let x_raw: i128 = along_normal * (normal.x as i128) + (new_tangent as i128) * (normal.y as i128);
    let y_raw: i128 = along_normal * (normal.y as i128) - (new_tangent as i128) * (normal.x as i128);
    proof {
        lemma_div_tz_le(x_raw as int, INTEGRATED_LIMIT as int);
        lemma_div_tz_le(y_raw as int, INTEGRATED_LIMIT as int);
    }
    let x = div_toward_zero(x_raw, SCALE as i128);
    let y = div_toward_zero(y_raw, SCALE as i128);
    (x as i64, y as i64)
}

/// Applies horizontal (or slope-following) input acceleration and jumping.
///
/// Airborne, input moves the character horizontally with aerial factors and jumping
/// is not possible. On ground too steep to walk, input is horizontal with ground
/// factors. On walkable ground, the velocity splits into its parts along the normal
/// and along the slope tangent; input changes only the tangent part. A jump from the
/// ground adds the jump impulse and leaves the ground at once. The depth axis is
/// pinned to zero.
pub fn apply_inputs(
    controller: &mut PlayerController,
    attachment: &mut Option<Attachment>,
    params: &CharacterControllerParams,
    inputs: &MovementState,
    delta_time: i64,
)
    requires
        old(controller).velocity.in_bounds(),
        attachment_wf(*old(attachment)),
        params.wf(),
        inputs.wf(),
        0 <= delta_time <= MAX_MAGNITUDE,
    ensures
        final(controller).velocity.x == input_velocity_x(
            old(controller).velocity,
            *old(attachment),
            *params,
            *inputs,
            delta_time as int,
        ),
        final(controller).velocity.y == velocity_y_after_inputs(
            old(controller).velocity,
            *old(attachment),
            *params,
            *inputs,
            delta_time as int,
        ),
        final(controller).velocity.z == 0,
        *final(attachment) == attachment_after_inputs(*old(attachment), *inputs),
{
    let v = controller.velocity;
    let (x, y): (i64, i64) = match attachment {
        Some(Attachment::Grounded { normal }) => {
            if params.is_walkable(normal) {
                planar_velocity(
                    &v,
                    normal,
                    inputs.input_direction_x,
                    &params.ground_movement,
                    &params.base_movement,
                    delta_time,
                )
            } else {
                let x = manoeuvre_speed_exec(
                    v.x,
                    inputs.input_direction_x,
                    &params.ground_movement,
                    &params.base_movement,
                    delta_time,
                );
                (x, v.y)
            }
        },
        None => {
            let x = manoeuvre_speed_exec(
                v.x,
                inputs.input_direction_x,
                &params.aerial_movement,
                &params.base_movement,
                delta_time,
            );
            (x, v.y)
        },
    };
    let mut y = y;
    if inputs.just_pressed_jump && attachment.is_some() {
        proof {
            lemma_fmul_factors(params.ground_movement.jump_factor as int, params.base_movement.jump_factor as int);
        }
        y = y + fx_mul(params.ground_movement.jump_factor, params.base_movement.jump_factor);
        *attachment = None;
    }
    controller.velocity = Vec3 { x, y, z: 0 };
}

/// A jump from the ground adds exactly the jump impulse (ground jump factor times
/// base jump factor) to the vertical velocity that the same step would give without
/// the jump, leaves the horizontal velocity as it would be, and makes the character
/// airborne before the collision resolver runs.
pub proof fn lemma_jump_adds_impulse(
    v: Vec3,
    normal: Vec3,
    params: CharacterControllerParams,
    input: MovementState,
    delta_time: int,
)
    requires
        input.just_pressed_jump,
    ensures
        ({
            let grounded = Some(Attachment::Grounded { normal });
            let no_jump = MovementState { just_pressed_jump: false, ..input };
            &&& velocity_y_after_inputs(v, grounded, params, input, delta_time)
                == velocity_y_after_inputs(v, grounded, params, no_jump, delta_time) + jump_impulse(params)
            &&& input_velocity_x(v, grounded, params, input, delta_time)
                == input_velocity_x(v, grounded, params, no_jump, delta_time)
            &&& attachment_after_inputs(grounded, input) == None::<Attachment>
        }),
{
}

} // verus!
