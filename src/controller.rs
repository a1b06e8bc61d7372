//! The character's own state: velocity, collider, latest ground probe and attachment.
use vstd::prelude::*;
use crate::fixed::SCALE;
use crate::params::CharacterControllerParams;
use crate::vector::Vec3;

verus! {

/// Height of the player's collider (1.70 units).
pub const PLAYER_HEIGHT: i64 = 1_700_000;

/// Radius of the player's collider (0.4 units).
pub const PLAYER_RADIUS: i64 = 400_000;

/// How far below the character the ground probe looks (0.4 units).
pub const GROUNDING_PROXIMITY: i64 = 400_000;

/// The attachment of the character to a surface. Airborne is the absence of an
/// attachment (`None`).
#[derive(Clone, Copy, Debug, PartialEq, Eq, Structural)]
pub enum Attachment {
    /// Standing on, walking on or sliding down a surface with this unit normal.
    Grounded { normal: Vec3 },
}

/// A grounded attachment carries a normal of unit shape.
pub open spec fn attachment_wf(attachment: Option<Attachment>) -> bool {
    match attachment {
        Some(Attachment::Grounded { normal }) => normal.is_direction(),
        None => true,
    }
}

/// Whether a grounded attachment carries a normal of unit shape.
pub fn attachment_is_wf(attachment: &Option<Attachment>) -> (r: bool)
    ensures
        r == attachment_wf(*attachment),
{
    match attachment {
        Some(Attachment::Grounded { normal }) => normal.is_direction_shaped(),
        None => true,
    }
}

/// The result of one shape cast: the contact normal (a unit vector, world space)
/// and the distance travelled by the shape before contact.
#[derive(Clone, Copy, Debug, PartialEq, Eq, Structural)]
pub struct HitProperties {
    pub normal: Vec3,
    pub distance: i64,
}

impl HitProperties {
    /// Cosine of the angle between the contact normal and world-up.
    pub fn normal_up(&self) -> (r: i64)
        ensures
            r == self.normal.y,
    {
        self.normal.y
    }
}

/// The most recent ground probe.
#[derive(Clone, Copy, Debug, PartialEq, Eq, Structural)]
pub struct PlayerHits {
    pub ground: Option<HitProperties>,
}

/// The dimensions of the player's cylinder collider.
#[derive(Clone, Copy, Debug, PartialEq, Eq, Structural)]
pub struct ColliderShape {
    pub radius: i64,
    pub height: i64,
}

/// The playable character: its velocity is kept across steps rather than derived
/// from the engine's transform.
#[derive(Clone, Copy, Debug, PartialEq, Eq, Structural)]
pub struct PlayerController {
    pub velocity: Vec3,
}

impl PlayerController {
    /// A character at rest.
    pub fn new() -> (r: PlayerController)
        ensures
            r.velocity == (Vec3 { x: 0, y: 0, z: 0 }),
    {
        PlayerController { velocity: Vec3 { x: 0, y: 0, z: 0 } }
    }

    /// The collider, shrunk by a skin thickness on every side.
    pub fn collider(skin_thickness: i64) -> (r: ColliderShape)
        requires
            0 <= skin_thickness <= SCALE,
        ensures
            r.radius == PLAYER_RADIUS - skin_thickness,
            r.height == PLAYER_HEIGHT - 2 * skin_thickness,
    {
        ColliderShape { radius: PLAYER_RADIUS - skin_thickness, height: PLAYER_HEIGHT - 2 * skin_thickness }
    }
}

/// The attachment after a ground probe. An airborne character lands only on walkable
/// ground; a grounded one stays grounded, on the newly probed surface, while that
/// surface still counts as ground, and is airborne otherwise.
pub open spec fn next_attachment(
    previous: Option<Attachment>,
    ground: Option<HitProperties>,
    params: CharacterControllerParams,
) -> Option<Attachment> {
    match previous {
        None => match ground {
            Some(hit) if params.walkable(hit.normal) => Some(Attachment::Grounded { normal: hit.normal }),
            _ => None,
        },
        Some(Attachment::Grounded { .. }) => match ground {
            Some(hit) if params.slidable(hit.normal) => Some(Attachment::Grounded { normal: hit.normal }),
            _ => None,
        },
    }
}

/// Decides the attachment for the next step from the previous one and the latest
/// ground probe.
pub fn update_markers(
    attachment: &Option<Attachment>,
    hits: &PlayerHits,
    params: &CharacterControllerParams,
) -> (r: Option<Attachment>)
    ensures
        r == next_attachment(*attachment, hits.ground, *params),
{
    match attachment {
        None => match &hits.ground {
            Some(hit) => {
                if params.is_walkable(&hit.normal) {
                    Some(Attachment::Grounded { normal: hit.normal })
                } else {
                    None
                }
            },
            None => None,
        },
        Some(Attachment::Grounded { .. }) => match &hits.ground {
            Some(hit) => {
                if params.is_slidable(&hit.normal) {
                    Some(Attachment::Grounded { normal: hit.normal })
                } else {
                    None
                }
            },
            None => None,
        },
    }
}

/// An airborne character probing flat ground lands on it, and a grounded character
/// probing a surface steeper than the sliding threshold becomes airborne.
pub proof fn lemma_attachment_transitions(previous_normal: Vec3, hit: HitProperties, params: CharacterControllerParams)
    requires
        params.wf(),
    ensures
        hit.normal.y == SCALE ==> next_attachment(None, Some(hit), params)
            == Some(Attachment::Grounded { normal: hit.normal }),
        !params.slidable(hit.normal) ==> next_attachment(
            Some(Attachment::Grounded { normal: previous_normal }),
            Some(hit),
            params,
        ) == None::<Attachment>,
        !params.slidable(hit.normal) ==> next_attachment(None, Some(hit), params) == None::<Attachment>,
{
}

/// The character is only ever grounded on the surface of the latest probe, and only
/// when that surface is no steeper than the sliding threshold.
pub proof fn lemma_grounded_only_on_ground(
    previous: Option<Attachment>,
    ground: Option<HitProperties>,
    params: CharacterControllerParams,
)
    requires
        params.wf(),
    ensures
        match next_attachment(previous, ground, params) {
            Some(Attachment::Grounded { normal }) => ground is Some && ground->0.normal == normal
                && params.slidable(normal),
            None => true,
        },
{
}

} // verus!
