//! The ground probe: choosing the ground hit and keeping contact with the ground.
use vstd::prelude::*;
use crate::controller::{Attachment, HitProperties, PlayerHits, GROUNDING_PROXIMITY};
use crate::fixed::{lemma_mul_bound, SCALE};
use crate::params::CharacterControllerParams;
use crate::resolver::ShapeCast;
use crate::vector::{sqrt_floor, within_limit, Vec3, VEC_LIMIT};

verus! {

/// Most hits the ground probe reports.
pub const GROUND_CAST_MAX_HITS: u32 = 3;

/// The downward probe from `position`, reaching `GROUNDING_PROXIMITY`.
pub fn ground_cast(position: &Vec3) -> (r: ShapeCast)
    ensures
        r.origin == *position,
        r.direction.x == 0 && r.direction.y == -SCALE && r.direction.z == 0,
        r.max_distance == GROUNDING_PROXIMITY,
{
    ShapeCast { origin: *position, direction: Vec3 { x: 0, y: -SCALE, z: 0 }, max_distance: GROUNDING_PROXIMITY }
}

/// The character is escaping a surface when it moves and the cosine of the angle
/// between the surface normal and its velocity reaches `escape_incidence`: with a
/// unit normal, `normal · velocity >= escape_incidence × |velocity|` in raw units.
pub open spec fn escaping(normal: Vec3, velocity: Vec3, params: CharacterControllerParams) -> bool {
    let speed = sqrt_floor(velocity.dot_spec(velocity));
    speed > 0 && normal.dot_spec(velocity) >= params.escape_incidence * speed
}

/// A hit counts as ground when it is within reach of the probe and the character is
/// not escaping it.
pub open spec fn ground_candidate(hit: HitProperties, velocity: Vec3, params: CharacterControllerParams) -> bool {
    hit.distance <= GROUNDING_PROXIMITY && !escaping(hit.normal, velocity, params)
}

/// The first hit, in the probe's order, that counts as ground.
pub open spec fn first_ground_hit(
    hits: Seq<HitProperties>,
    velocity: Vec3,
    params: CharacterControllerParams,
) -> Option<HitProperties>
    decreases hits.len(),
{
    if hits.len() == 0 {
        None
    } else if ground_candidate(hits[0], velocity, params) {
        Some(hits[0])
    } else {
        first_ground_hit(hits.drop_first(), velocity, params)
    }
}

/// Whether every hit carries a normal of unit shape.
pub open spec fn normals_ok(hits: Seq<HitProperties>) -> bool {
    forall|i: int| 0 <= i < hits.len() ==> (#[trigger] hits[i]).normal.is_direction()
}

/// Picks the ground hit among the probe's hits.
pub fn select_ground_hit(
    hits: &Vec<HitProperties>,
    velocity: &Vec3,
    params: &CharacterControllerParams,
) -> (r: Option<HitProperties>)
    requires
        velocity.in_bounds(),
        normals_ok(hits@),
        params.wf(),
    ensures
        r == first_ground_hit(hits@, *velocity, *params),
{
    let speed = velocity.length();
    let n = hits.len();
    assert(hits@.subrange(0, n as int) =~= hits@);
    let mut i: usize = 0;
    while i < n
        invariant
            0 <= i <= n,
            n == hits@.len(),
            velocity.in_bounds(),
            normals_ok(hits@),
            params.wf(),
            speed == sqrt_floor(velocity.dot_spec(*velocity)),
            0 <= speed <= 2 * VEC_LIMIT,
            first_ground_hit(hits@, *velocity, *params) == first_ground_hit(
                hits@.subrange(i as int, n as int),
                *velocity,
                *params,
            ),
        decreases n - i,
    {
        let hit = hits[i];
        assert(hits@.subrange(i as int, n as int)[0] == hit);
        assert(hits@.subrange(i as int, n as int).drop_first() =~= hits@.subrange(i as int + 1, n as int));
        let along = velocity.dot(&hit.normal);
        proof {
            lemma_mul_bound(params.escape_incidence as int, speed as int, 1_000_000_000_000, 2 * VEC_LIMIT);
        }
        let escape = speed > 0 && along >= (params.escape_incidence as i128) * (speed as i128);
        proof {
            assert(hit.normal.dot_spec(*velocity) == velocity.dot_spec(hit.normal)) by (nonlinear_arith);
            assert(escape == escaping(hit.normal, *velocity, *params));
        }
        if hit.distance <= GROUNDING_PROXIMITY && !escape {
            return Some(hit);
        }
        i = i + 1;
    }
    assert(hits@.subrange(n as int, n as int).len() == 0);
    None
}

/// The position after the probe: a character that was grounded and still finds
/// ground moves down onto it, up to the skin thickness, so contact stays flush.
pub open spec fn snapped_position(
    position: Vec3,
    attachment: Option<Attachment>,
    ground: Option<HitProperties>,
    params: CharacterControllerParams,
) -> Vec3 {
    match (attachment, ground) {
        (Some(Attachment::Grounded { .. }), Some(hit)) => Vec3 {
            y: (position.y - (hit.distance - params.collider_skin_thickness)) as i64,
            ..position
        },
        _ => position,
    }
}

/// Records the ground probe and keeps a grounded character flush with the ground.
///
/// `hits` are the probe's hits, nearest first. Returns the new probe record and the
/// corrected position.
pub fn query_surrounding_hits(
    hits: &Vec<HitProperties>,
    position: &Vec3,
    velocity: &Vec3,
    attachment: &Option<Attachment>,
    params: &CharacterControllerParams,
) -> (r: (PlayerHits, Vec3))
    requires
        position.in_bounds(),
        velocity.in_bounds(),
        normals_ok(hits@),
        params.wf(),
        forall|i: int| 0 <= i < hits@.len() ==> within_limit(#[trigger] hits@[i].distance as int),
    ensures
        r.0.ground == first_ground_hit(hits@, *velocity, *params),
        r.1 == snapped_position(*position, *attachment, r.0.ground, *params),
{
    let ground = select_ground_hit(hits, velocity, params);
    let snapped = match (attachment, &ground) {
        (Some(Attachment::Grounded { .. }), Some(hit)) => {
            proof {
                lemma_first_ground_hit_is_member(hits@, *velocity, *params);
            }
            Vec3 { y: position.y - (hit.distance - params.collider_skin_thickness), ..*position }
        },
        _ => *position,
    };
    (PlayerHits { ground }, snapped)
}

/// The ground hit, when there is one, is one of the probe's hits within reach.
pub proof fn lemma_first_ground_hit_is_member(
    hits: Seq<HitProperties>,
    velocity: Vec3,
    params: CharacterControllerParams,
)
    ensures
        match first_ground_hit(hits, velocity, params) {
            Some(h) => hits.contains(h) && h.distance <= GROUNDING_PROXIMITY,
            None => true,
        },
    decreases hits.len(),
{
    if hits.len() > 0 {
        assert(hits[0] == hits[0]);
        assert(hits.contains(hits[0]));
        if !ground_candidate(hits[0], velocity, params) {
            lemma_first_ground_hit_is_member(hits.drop_first(), velocity, params);
            match first_ground_hit(hits, velocity, params) {
                Some(h) => {
                    let j = choose|j: int| 0 <= j < hits.drop_first().len() && hits.drop_first()[j] == h;
                    assert(hits[j + 1] == h);
                },
                None => {},
            }
        }
    }
}

} // verus!
