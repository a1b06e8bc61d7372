//! Collide-and-slide: turning an attempted displacement into a safe one.
//!
//! The resolver is a step function. A caller performs each requested shape cast
//! against the world and hands back the nearest hit (or none); the resolver then
//! either finishes with the corrected position or asks for the next cast.
use vstd::prelude::*;
use crate::controller::HitProperties;
use crate::fixed::{
    div_toward_zero, div_tz, fmul, fx_mul, lemma_div_tz_bound, lemma_div_tz_exact, lemma_fmul_le,
    lemma_mul_bound, MAX_MAGNITUDE, SCALE,
};
use crate::params::CharacterControllerParams;
use crate::vector::{is_floor_sqrt, lemma_sqrt_floor_is, sqrt_floor, Vec3, VEC_LIMIT};

verus! {

/// A collide-and-slide resolution in progress: the current position, the
/// displacement still to attempt, and how many surfaces have been hit so far.
#[derive(Clone, Copy, Debug, PartialEq, Eq, Structural)]
pub struct SlideState {
    pub position: Vec3,
    pub displacement: Vec3,
    pub bounce: usize,
}

/// A shape cast for the caller to perform: the character's (skin-shrunk) collider
/// moved from `origin` along the unit `direction` for at most `max_distance`,
/// ignoring the character itself.
#[derive(Clone, Copy, Debug, PartialEq, Eq, Structural)]
pub struct ShapeCast {
    pub origin: Vec3,
    pub direction: Vec3,
    pub max_distance: i64,
}

/// What the resolver needs next.
#[derive(Clone, Copy, Debug, PartialEq, Eq, Structural)]
pub enum SlideStep {
    /// Perform the cast of this state and continue with its result.
    Cast(SlideState),
    /// Resolution is over; this is the corrected position.
    Done(Vec3),
}

/// Whether every component of a vector is zero.
pub open spec fn is_zero(v: Vec3) -> bool {
    v.x == 0 && v.y == 0 && v.z == 0
}

/// The displacement attempted in one step: `velocity × delta_time`.
pub open spec fn displacement_spec(velocity: Vec3, delta_time: int) -> Vec3 {
    Vec3 {
        x: fmul(velocity.x as int, delta_time) as i64,
        y: fmul(velocity.y as int, delta_time) as i64,
        z: fmul(velocity.z as int, delta_time) as i64,
    }
}

/// The displacement attempted in one step: `velocity × delta_time`.
pub fn attempted_displacement(velocity: &Vec3, delta_time: i64) -> (r: Vec3)
    requires
        velocity.in_bounds(),
        0 <= delta_time <= MAX_MAGNITUDE,
    ensures
        r == displacement_spec(*velocity, delta_time as int),
{
    proof {
        lemma_mul_bound(velocity.x as int, delta_time as int, VEC_LIMIT as int, MAX_MAGNITUDE as int);
        lemma_mul_bound(velocity.y as int, delta_time as int, VEC_LIMIT as int, MAX_MAGNITUDE as int);
        lemma_mul_bound(velocity.z as int, delta_time as int, VEC_LIMIT as int, MAX_MAGNITUDE as int);
        lemma_fmul_le(velocity.x as int, delta_time as int, 100_000_000_000_000_000);
        lemma_fmul_le(velocity.y as int, delta_time as int, 100_000_000_000_000_000);
        lemma_fmul_le(velocity.z as int, delta_time as int, 100_000_000_000_000_000);
    }
    Vec3 {
        x: fx_mul(velocity.x, delta_time),
        y: fx_mul(velocity.y, delta_time),
        z: fx_mul(velocity.z, delta_time),
    }
}

/// Starts resolving `displacement` from `position`. A zero displacement has no
/// direction to cast along, so the position stays as it is.
pub open spec fn begin_slide_spec(position: Vec3, displacement: Vec3) -> SlideStep {
    if is_zero(displacement) {
        SlideStep::Done(position)
    } else {
        SlideStep::Cast(SlideState { position, displacement, bounce: 0 })
    }
}

/// Starts resolving `displacement` from `position`.
pub fn begin_slide(position: Vec3, displacement: Vec3) -> (r: SlideStep)
    ensures
        r == begin_slide_spec(position, displacement),
{
    if displacement.x == 0 && displacement.y == 0 && displacement.z == 0 {
        SlideStep::Done(position)
    } else {
        SlideStep::Cast(SlideState { position, displacement, bounce: 0 })
    }
}

/// The part of `d` travelled before a hit at `distance`, keeping `skin` clear of the
/// surface: `d / |d| × (distance - skin)`, rounded toward zero.
pub open spec fn travel_of(d: int, distance: int, skin: int, length: int) -> int {
    div_tz(d * (distance - skin), length)
}

impl SlideState {
    /// Length of the displacement, rounded down.
    pub open spec fn length(self) -> int {
        sqrt_floor(self.displacement.dot_spec(self.displacement))
    }

    /// Position and displacement within bounds, and a displacement to cast along.
    pub open spec fn wf(self) -> bool {
        self.position.in_bounds() && self.displacement.in_bounds() && !is_zero(self.displacement)
    }

    /// A hit that this state's cast can report: a unit-shaped normal and a distance
    /// within the cast's reach.
    pub open spec fn hit_ok(self, hit: HitProperties, params: CharacterControllerParams) -> bool {
        hit.normal.is_unit_like() && 0 <= hit.distance <= self.length() + params.collider_skin_thickness
    }

    /// Distance moved along each axis before the hit.
    pub open spec fn travel(self, hit: HitProperties, params: CharacterControllerParams) -> (int, int, int) {
        let skin = params.collider_skin_thickness as int;
        (
            travel_of(self.displacement.x as int, hit.distance as int, skin, self.length()),
            travel_of(self.displacement.y as int, hit.distance as int, skin, self.length()),
            travel_of(self.displacement.z as int, hit.distance as int, skin, self.length()),
        )
    }

    /// The displacement left over after the hit, with its part along the hit normal
    /// removed: the slide along the surface.
    pub open spec fn slide(self, hit: HitProperties, params: CharacterControllerParams) -> (int, int, int) {
        let t = self.travel(hit, params);
        let n = hit.normal;
        let lx = self.displacement.x - t.0;
        let ly = self.displacement.y - t.1;
        let lz = self.displacement.z - t.2;
        let along = lx * n.x + ly * n.y + lz * n.z;
        let nn = n.dot_spec(n);
        (lx - div_tz(n.x * along, nn), ly - div_tz(n.y * along, nn), lz - div_tz(n.z * along, nn))
    }

    /// Whether this state's cast can report `hit` (see `hit_ok`).
    pub fn accepts_hit(&self, hit: &HitProperties, params: &CharacterControllerParams) -> (r: bool)
        requires
            self.wf(),
            params.wf(),
        ensures
            r == self.hit_ok(*hit, *params),
    {
        let length = self.displacement.length();
        hit.normal.is_unit_shaped() && 0 <= hit.distance && hit.distance <= length + params.collider_skin_thickness
    }

    /// Whether this state meets `wf`.
    pub fn is_wf(&self) -> (r: bool)
        ensures
            r == self.wf(),
    {
        self.position.is_in_bounds() && self.displacement.is_in_bounds() && !(self.displacement.x == 0
            && self.displacement.y == 0 && self.displacement.z == 0)
    }

    /// The shape cast that this state asks for: along the displacement, for its
    /// length plus the skin thickness.
    pub fn shape_cast(&self, params: &CharacterControllerParams) -> (r: ShapeCast)
        requires
            self.wf(),
            params.wf(),
        ensures
            r.origin == self.position,
            r.max_distance == self.length() + params.collider_skin_thickness,
            r.direction.x == div_tz(self.displacement.x * SCALE, self.length()),
            r.direction.y == div_tz(self.displacement.y * SCALE, self.length()),
            r.direction.z == div_tz(self.displacement.z * SCALE, self.length()),
            r.direction.is_direction(),
    {
        let length = self.displacement.length();
        proof {
            self.lemma_components_within_length();
        }
        let d = self.displacement;
        proof {
            lemma_div_tz_bound(d.x * SCALE, length as int, SCALE as int);
            lemma_div_tz_bound(d.y * SCALE, length as int, SCALE as int);
            lemma_div_tz_bound(d.z * SCALE, length as int, SCALE as int);
            lemma_mul_bound(d.x as int, SCALE as int, VEC_LIMIT as int, SCALE as int);
            lemma_mul_bound(d.y as int, SCALE as int, VEC_LIMIT as int, SCALE as int);
            lemma_mul_bound(d.z as int, SCALE as int, VEC_LIMIT as int, SCALE as int);
        }
        let x = div_toward_zero((d.x as i128) * (SCALE as i128), length as i128);
        let y = div_toward_zero((d.y as i128) * (SCALE as i128), length as i128);
        let z = div_toward_zero((d.z as i128) * (SCALE as i128), length as i128);
        ShapeCast {
            origin: self.position,
            direction: Vec3 { x: x as i64, y: y as i64, z: z as i64 },
            max_distance: length + params.collider_skin_thickness,
        }
    }

    /// A non-zero displacement has a length of at least one raw step, and no
    /// component exceeds the length.
    pub proof fn lemma_components_within_length(self)
        requires
            self.wf(),
        ensures
            1 <= self.length() <= 2 * VEC_LIMIT,
            -self.length() <= self.displacement.x <= self.length(),
            -self.length() <= self.displacement.y <= self.length(),
            -self.length() <= self.displacement.z <= self.length(),
            self.length() * (self.displacement.x * SCALE) == (self.displacement.x * SCALE) * self.length(),
    {
        let d = self.displacement;
        let n = d.dot_spec(d);
        let len = self.length();
        assert(d.x * d.x >= 0 && d.y * d.y >= 0 && d.z * d.z >= 0) by (nonlinear_arith);
        assert(n >= 1) by (nonlinear_arith)
            requires
                n == d.x * d.x + d.y * d.y + d.z * d.z,
                d.x != 0 || d.y != 0 || d.z != 0,
        ;
        assert(n <= 3 * VEC_LIMIT * VEC_LIMIT) by (nonlinear_arith)
            requires
                n == d.x * d.x + d.y * d.y + d.z * d.z,
                -VEC_LIMIT <= d.x <= VEC_LIMIT,
                -VEC_LIMIT <= d.y <= VEC_LIMIT,
                -VEC_LIMIT <= d.z <= VEC_LIMIT,
        ;
        assert(exists|r: int| is_floor_sqrt(r, n)) by {
            let w = floor_sqrt_witness(n);
            assert(is_floor_sqrt(w, n));
        }
        assert(is_floor_sqrt(len, n));
        assert(len >= 1) by (nonlinear_arith)
            requires
                is_floor_sqrt(len, n),
                n >= 1,
        ;
        assert(len <= 2 * VEC_LIMIT) by (nonlinear_arith)
            requires
                is_floor_sqrt(len, n),
                n <= 3 * VEC_LIMIT * VEC_LIMIT,
        ;
        assert(-len <= d.x <= len) by (nonlinear_arith)
            requires
                is_floor_sqrt(len, n),
                n == d.x * d.x + d.y * d.y + d.z * d.z,
                d.y * d.y >= 0,
                d.z * d.z >= 0,
        ;
        assert(-len <= d.y <= len) by (nonlinear_arith)
            requires
                is_floor_sqrt(len, n),
                n == d.x * d.x + d.y * d.y + d.z * d.z,
                d.x * d.x >= 0,
                d.z * d.z >= 0,
        ;
        assert(-len <= d.z <= len) by (nonlinear_arith)
            requires
                is_floor_sqrt(len, n),
                n == d.x * d.x + d.y * d.y + d.z * d.z,
                d.x * d.x >= 0,
                d.y * d.y >= 0,
        ;
        assert(len * (d.x * SCALE) == (d.x * SCALE) * len) by (nonlinear_arith);
    }
}

/// One bounce of collide-and-slide, given the nearest hit of this state's cast.
///
/// Without a hit the whole displacement is free. With one, the character travels up
/// to the skin thickness short of the surface, and what is left of the displacement,
/// less its part along the hit normal, becomes the next displacement, until the
/// bounce limit is reached or nothing is left to slide.
pub open spec fn continue_slide_spec(
    state: SlideState,
    hit: Option<HitProperties>,
    params: CharacterControllerParams,
) -> SlideStep {
    let p = state.position;
    let d = state.displacement;
    match hit {
        None => SlideStep::Done(Vec3 { x: (p.x + d.x) as i64, y: (p.y + d.y) as i64, z: (p.z + d.z) as i64 }),
        Some(h) => {
            let t = state.travel(h, params);
            let reached = Vec3 { x: (p.x + t.0) as i64, y: (p.y + t.1) as i64, z: (p.z + t.2) as i64 };
            let s = state.slide(h, params);
            if state.bounce + 1 < params.max_collision_bounces && !(s.0 == 0 && s.1 == 0 && s.2 == 0) {
                SlideStep::Cast(
                    SlideState {
                        position: reached,
                        displacement: Vec3 { x: s.0 as i64, y: s.1 as i64, z: s.2 as i64 },
                        bounce: (state.bounce + 1) as usize,
                    },
                )
            } else {
                SlideStep::Done(reached)
            }
        },
    }
}

/// One bounce of collide-and-slide, given the nearest hit of this state's cast (see
/// `continue_slide_spec`).
pub fn continue_slide(state: &SlideState, hit: &Option<HitProperties>, params: &CharacterControllerParams) -> (r:
    SlideStep)
    requires
        state.wf(),
        params.wf(),
        match *hit {
            Some(h) => state.hit_ok(h, *params),
            None => true,
        },
    ensures
        r == continue_slide_spec(*state, *hit, *params),
{
    let p = state.position;
    let d = state.displacement;
    match hit {
        None => SlideStep::Done(Vec3 { x: p.x + d.x, y: p.y + d.y, z: p.z + d.z }),
        Some(h) => {
            let length = d.length();
            proof {
                state.lemma_components_within_length();
            }
            let skin = params.collider_skin_thickness;
            let gap: i64 = h.distance - skin;
            let reach: i64 = if length > skin { length } else { skin };
            proof {
                lemma_mul_bound(d.x as int, gap as int, length as int, reach as int);
                lemma_mul_bound(d.y as int, gap as int, length as int, reach as int);
                lemma_mul_bound(d.z as int, gap as int, length as int, reach as int);
                lemma_div_tz_bound(d.x * gap, length as int, reach as int);
                lemma_div_tz_bound(d.y * gap, length as int, reach as int);
                lemma_div_tz_bound(d.z * gap, length as int, reach as int);
                lemma_mul_bound(d.x as int, gap as int, VEC_LIMIT as int, 2 * VEC_LIMIT);
                lemma_mul_bound(d.y as int, gap as int, VEC_LIMIT as int, 2 * VEC_LIMIT);
                lemma_mul_bound(d.z as int, gap as int, VEC_LIMIT as int, 2 * VEC_LIMIT);
            }
            let tx = div_toward_zero((d.x as i128) * (gap as i128), length as i128);
            let ty = div_toward_zero((d.y as i128) * (gap as i128), length as i128);
            let tz = div_toward_zero((d.z as i128) * (gap as i128), length as i128);
            let reached = Vec3 { x: p.x + tx as i64, y: p.y + ty as i64, z: p.z + tz as i64 };
            let lx: i128 = (d.x as i128) - tx;
            let ly: i128 = (d.y as i128) - ty;
            let lz: i128 = (d.z as i128) - tz;
            let n = h.normal;
            proof {
                lemma_mul_bound(lx as int, n.x as int, 3 * VEC_LIMIT, SCALE as int);
                lemma_mul_bound(ly as int, n.y as int, 3 * VEC_LIMIT, SCALE as int);
                lemma_mul_bound(lz as int, n.z as int, 3 * VEC_LIMIT, SCALE as int);
            }
            let along: i128 = lx * (n.x as i128) + ly * (n.y as i128) + lz * (n.z as i128);
            proof {
                lemma_mul_bound(n.x as int, n.x as int, SCALE as int, SCALE as int);
                lemma_mul_bound(n.y as int, n.y as int, SCALE as int, SCALE as int);
                lemma_mul_bound(n.z as int, n.z as int, SCALE as int, SCALE as int);
            }
            let nn: i128 = (n.x as i128) * (n.x as i128) + (n.y as i128) * (n.y as i128) + (n.z as i128) * (
            n.z as i128);
            proof {
                lemma_mul_bound(n.x as int, along as int, SCALE as int, 900_000_000_000_000_000);
                lemma_mul_bound(n.y as int, along as int, SCALE as int, 900_000_000_000_000_000);
                lemma_mul_bound(n.z as int, along as int, SCALE as int, 900_000_000_000_000_000);
                assert(nn * 1_800_000_000_000 >= 900_000_000_000_000_000_000_000) by (nonlinear_arith)
                    requires
                        nn >= 500_000_000_000,
                ;
                lemma_div_tz_bound(n.x * along, nn as int, 1_800_000_000_000);
                lemma_div_tz_bound(n.y * along, nn as int, 1_800_000_000_000);
                lemma_div_tz_bound(n.z * along, nn as int, 1_800_000_000_000);
            }
            let sx: i128 = lx - div_toward_zero((n.x as i128) * along, nn);
            let sy: i128 = ly - div_toward_zero((n.y as i128) * along, nn);
            let sz: i128 = lz - div_toward_zero((n.z as i128) * along, nn);
            let more = params.max_collision_bounces > 0 && state.bounce < params.max_collision_bounces - 1;
            if more && !(sx == 0 && sy == 0 && sz == 0) {
                SlideStep::Cast(
                    SlideState {
                        position: reached,
                        displacement: Vec3 { x: sx as i64, y: sy as i64, z: sz as i64 },
                        bounce: state.bounce + 1,
                    },
                )
            } else {
                SlideStep::Done(reached)
            }
        },
    }
}

/// The velocity that carries `from` to `to` in `delta_time`, rounded toward zero.
pub open spec fn velocity_of_travel(from: Vec3, to: Vec3, delta_time: int) -> Vec3 {
    Vec3 {
        x: div_tz((to.x - from.x) * SCALE, delta_time) as i64,
        y: div_tz((to.y - from.y) * SCALE, delta_time) as i64,
        z: div_tz((to.z - from.z) * SCALE, delta_time) as i64,
    }
}

/// The effective velocity after resolution: the travel divided by the time step.
pub fn velocity_from_travel(from: &Vec3, to: &Vec3, delta_time: i64) -> (r: Vec3)
    requires
        from.in_bounds(),
        to.in_bounds(),
        0 < delta_time,
    ensures
        r == velocity_of_travel(*from, *to, delta_time as int),
{
    proof {
        lemma_div_tz_bound((to.x - from.x) * SCALE, delta_time as int, 200_000_000_000_000_000);
        lemma_div_tz_bound((to.y - from.y) * SCALE, delta_time as int, 200_000_000_000_000_000);
        lemma_div_tz_bound((to.z - from.z) * SCALE, delta_time as int, 200_000_000_000_000_000);
    }
    let x = div_toward_zero(((to.x as i128) - (from.x as i128)) * (SCALE as i128), delta_time as i128);
    let y = div_toward_zero(((to.y as i128) - (from.y as i128)) * (SCALE as i128), delta_time as i128);
    let z = div_toward_zero(((to.z as i128) - (from.z as i128)) * (SCALE as i128), delta_time as i128);
    Vec3 { x: x as i64, y: y as i64, z: z as i64 }
}

/// With no geometry along the way, resolution ends at exactly
/// `position + velocity × delta_time`.
pub proof fn lemma_free_flight(
    position: Vec3,
    velocity: Vec3,
    delta_time: int,
    params: CharacterControllerParams,
)
    requires
        position.in_bounds(),
        displacement_spec(velocity, delta_time).in_bounds(),
    ensures
        ({
            let d = displacement_spec(velocity, delta_time);
            let end = Vec3 {
                x: (position.x + d.x) as i64,
                y: (position.y + d.y) as i64,
                z: (position.z + d.z) as i64,
            };
            match begin_slide_spec(position, d) {
                SlideStep::Done(p) => p == end,
                SlideStep::Cast(state) => continue_slide_spec(state, None, params) == SlideStep::Done(end),
            }
        }),
{
}

/// Each bounce asks for at most one more cast, and never past the bounce limit, so a
/// resolution performs at most `max_collision_bounces` casts (and one when the limit
/// is zero).
pub proof fn lemma_bounces_bounded(state: SlideState, hit: Option<HitProperties>, params: CharacterControllerParams)
    ensures
        match continue_slide_spec(state, hit, params) {
            SlideStep::Cast(next) => next.bounce == state.bounce + 1 && next.bounce < params.max_collision_bounces,
            SlideStep::Done(_) => true,
        },
{
}

/// Whether a vector points along a single axis.
pub open spec fn axis_aligned(v: Vec3) -> bool {
    (v.y == 0 && v.z == 0) || (v.x == 0 && v.z == 0) || (v.x == 0 && v.y == 0)
}

/// Against a surface whose normal lies along an axis, the slide has no part along
/// the normal, and a displacement along an axis travels exactly
/// `hit distance - skin thickness` along it before the hit.
pub proof fn lemma_slide_is_orthogonal(state: SlideState, hit: HitProperties, params: CharacterControllerParams)
    requires
        state.wf(),
        params.wf(),
        state.hit_ok(hit, params),
        axis_aligned(hit.normal),
    ensures
        ({
            let s = state.slide(hit, params);
            s.0 * hit.normal.x + s.1 * hit.normal.y + s.2 * hit.normal.z == 0
        }),
        ({
            let d = state.displacement;
            let t = state.travel(hit, params);
            let gap = hit.distance - params.collider_skin_thickness;
            &&& d.y == 0 && d.z == 0 ==> t.0 == (if d.x > 0 { gap } else { -gap }) && t.1 == 0 && t.2 == 0
            &&& d.x == 0 && d.z == 0 ==> t.1 == (if d.y > 0 { gap } else { -gap }) && t.0 == 0 && t.2 == 0
            &&& d.x == 0 && d.y == 0 ==> t.2 == (if d.z > 0 { gap } else { -gap }) && t.0 == 0 && t.1 == 0
        }),
{
    let n = hit.normal;
    let t = state.travel(hit, params);
    let lx = state.displacement.x - t.0;
    let ly = state.displacement.y - t.1;
    let lz = state.displacement.z - t.2;
    let along = lx * n.x + ly * n.y + lz * n.z;
    let nn = n.dot_spec(n);
    assert(nn > 0);
    assert(0 * along == 0) by (nonlinear_arith);
    if n.y == 0 && n.z == 0 {
        assert(along == lx * n.x && nn == n.x * n.x) by (nonlinear_arith)
            requires
                along == lx * n.x + ly * n.y + lz * n.z,
                nn == n.x * n.x + n.y * n.y + n.z * n.z,
                n.y == 0,
                n.z == 0,
        ;
        assert(n.x * along == lx * nn) by (nonlinear_arith)
            requires
                along == lx * n.x,
                nn == n.x * n.x,
        ;
        lemma_div_tz_exact(lx, nn);
        let sl = state.slide(hit, params);
        assert(sl.0 == 0);
        assert(sl.0 * n.x + sl.1 * n.y + sl.2 * n.z == 0) by (nonlinear_arith)
            requires
                sl.0 == 0,
                n.y == 0,
                n.z == 0,
        ;
    } else if n.x == 0 && n.z == 0 {
        assert(along == ly * n.y && nn == n.y * n.y) by (nonlinear_arith)
            requires
                along == lx * n.x + ly * n.y + lz * n.z,
                nn == n.x * n.x + n.y * n.y + n.z * n.z,
                n.x == 0,
                n.z == 0,
        ;
        assert(n.y * along == ly * nn) by (nonlinear_arith)
            requires
                along == ly * n.y,
                nn == n.y * n.y,
        ;
        lemma_div_tz_exact(ly, nn);
        let sl = state.slide(hit, params);
        assert(sl.1 == 0);
        assert(sl.0 * n.x + sl.1 * n.y + sl.2 * n.z == 0) by (nonlinear_arith)
            requires
                sl.1 == 0,
                n.x == 0,
                n.z == 0,
        ;
    } else {
        assert(along == lz * n.z && nn == n.z * n.z) by (nonlinear_arith)
            requires
                along == lx * n.x + ly * n.y + lz * n.z,
                nn == n.x * n.x + n.y * n.y + n.z * n.z,
                n.x == 0,
                n.y == 0,
        ;
        assert(n.z * along == lz * nn) by (nonlinear_arith)
            requires
                along == lz * n.z,
                nn == n.z * n.z,
        ;
        lemma_div_tz_exact(lz, nn);
        let sl = state.slide(hit, params);
        assert(sl.2 == 0);
        assert(sl.0 * n.x + sl.1 * n.y + sl.2 * n.z == 0) by (nonlinear_arith)
            requires
                sl.2 == 0,
                n.x == 0,
                n.y == 0,
        ;
    }
    lemma_axis_travel(state, hit, params);
}

proof fn lemma_axis_travel(state: SlideState, hit: HitProperties, params: CharacterControllerParams)
    requires
        state.wf(),
    ensures
        ({
            let d = state.displacement;
            let t = state.travel(hit, params);
            let gap = hit.distance - params.collider_skin_thickness;
            &&& d.y == 0 && d.z == 0 ==> t.0 == (if d.x > 0 { gap } else { -gap }) && t.1 == 0 && t.2 == 0
            &&& d.x == 0 && d.z == 0 ==> t.1 == (if d.y > 0 { gap } else { -gap }) && t.0 == 0 && t.2 == 0
            &&& d.x == 0 && d.y == 0 ==> t.2 == (if d.z > 0 { gap } else { -gap }) && t.0 == 0 && t.1 == 0
        }),
{
    let d = state.displacement;
    let gap = hit.distance - params.collider_skin_thickness;
    state.lemma_components_within_length();
    let len = state.length();
    assert(0 * gap == 0) by (nonlinear_arith);
    if d.y == 0 && d.z == 0 {
        assert(d.dot_spec(d) == d.x * d.x) by (nonlinear_arith)
            requires
                d.dot_spec(d) == d.x * d.x + d.y * d.y + d.z * d.z,
                d.y == 0,
                d.z == 0,
        ;
        lemma_single_axis_length(d.x as int, d.dot_spec(d));
        lemma_axis_component(d.x as int, gap, len);
    }
    if d.x == 0 && d.z == 0 {
        assert(d.dot_spec(d) == d.y * d.y) by (nonlinear_arith)
            requires
                d.dot_spec(d) == d.x * d.x + d.y * d.y + d.z * d.z,
                d.x == 0,
                d.z == 0,
        ;
        lemma_single_axis_length(d.y as int, d.dot_spec(d));
        lemma_axis_component(d.y as int, gap, len);
    }
    if d.x == 0 && d.y == 0 {
        assert(d.dot_spec(d) == d.z * d.z) by (nonlinear_arith)
            requires
                d.dot_spec(d) == d.x * d.x + d.y * d.y + d.z * d.z,
                d.x == 0,
                d.y == 0,
        ;
        lemma_single_axis_length(d.z as int, d.dot_spec(d));
        lemma_axis_component(d.z as int, gap, len);
    }
}

proof fn lemma_single_axis_length(c: int, n: int)
    requires
        n == c * c,
    ensures
        sqrt_floor(n) == (if c >= 0 { c } else { -c }),
{
    let a = if c >= 0 { c } else { -c };
    assert(a * a == n) by (nonlinear_arith)
        requires
            n == c * c,
            a == c || a == -c,
    ;
    assert(n < (a + 1) * (a + 1)) by (nonlinear_arith)
        requires
            a * a == n,
            a >= 0,
    ;
    lemma_sqrt_floor_is(a, n);
}

proof fn lemma_axis_component(c: int, gap: int, len: int)
    requires
        c != 0,
        len == (if c >= 0 { c } else { -c }),
    ensures
        div_tz(c * gap, len) == (if c > 0 { gap } else { -gap }),
{
    if c > 0 {
        lemma_div_tz_exact(gap, c);
        assert(c * gap == gap * c) by (nonlinear_arith);
    } else {
        assert(c * gap == (-gap) * len) by (nonlinear_arith)
            requires
                len == -c,
        ;
        lemma_div_tz_exact(-gap, len);
    }
}

/// A floor square root exists for every number in range (found by bisection).
proof fn floor_sqrt_witness(n: int) -> (r: int)
    requires
        0 <= n <= 3 * VEC_LIMIT * VEC_LIMIT,
    ensures
        is_floor_sqrt(r, n),
{
    assert(0x100_0000_0000 * 0x100_0000_0000 > 3 * VEC_LIMIT * VEC_LIMIT) by (nonlinear_arith);
    bisect_sqrt(0, 0x100_0000_0000, n)
}

proof fn bisect_sqrt(lo: int, hi: int, n: int) -> (r: int)
    requires
        0 <= lo < hi,
        lo * lo <= n,
        n < hi * hi,
    ensures
        is_floor_sqrt(r, n),
    decreases hi - lo,
{
    if hi - lo <= 1 {
        lo
    } else {
        let mid = lo + (hi - lo) / 2;
        if mid * mid <= n {
            bisect_sqrt(mid, hi, n)
        } else {
            bisect_sqrt(lo, mid, n)
        }
    }
}

} // verus!
