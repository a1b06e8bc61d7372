use kinematic_controller::controller::{Attachment, HitProperties, PlayerController, PlayerHits};
use kinematic_controller::controller::update_markers;
use kinematic_controller::params::CharacterControllerParams;
use kinematic_controller::vector::Vec3;

fn hit(normal_y: i64, normal_x: i64) -> HitProperties {
    HitProperties { normal: Vec3::new(normal_x, normal_y, 0), distance: 100_000 }
}

fn grounded() -> Option<Attachment> {
    Some(Attachment::Grounded { normal: Vec3::new(0, 1_000_000, 0) })
}

#[test]
fn airborne_lands_on_flat_ground() {
    let params = CharacterControllerParams::default();
    let h = hit(1_000_000, 0);
    let next = update_markers(&None, &PlayerHits { ground: Some(h) }, &params);
    assert_eq!(next, Some(Attachment::Grounded { normal: h.normal }));
}

#[test]
fn airborne_does_not_catch_on_steep_ground() {
    let params = CharacterControllerParams::default();
    let h = hit(700_000, -714_143);
    assert_eq!(update_markers(&None, &PlayerHits { ground: Some(h) }, &params), None);
}

#[test]
fn airborne_without_ground_stays_airborne() {
    let params = CharacterControllerParams::default();
    assert_eq!(update_markers(&None, &PlayerHits { ground: None }, &params), None);
}

#[test]
fn grounded_stays_on_sliding_ground() {
    let params = CharacterControllerParams::default();
    let h = hit(700_000, -714_143);
    let next = update_markers(&grounded(), &PlayerHits { ground: Some(h) }, &params);
    assert_eq!(next, Some(Attachment::Grounded { normal: h.normal }));
}

#[test]
fn grounded_leaves_too_steep_ground() {
    let params = CharacterControllerParams::default();
    let h = hit(400_000, -916_515);
    assert_eq!(update_markers(&grounded(), &PlayerHits { ground: Some(h) }, &params), None);
}

#[test]
fn grounded_without_ground_becomes_airborne() {
    let params = CharacterControllerParams::default();
    assert_eq!(update_markers(&grounded(), &PlayerHits { ground: None }, &params), None);
}

#[test]
fn collider_shrinks_by_skin() {
    let c = PlayerController::collider(10_000);
    assert_eq!(c.radius, 390_000);
    assert_eq!(c.height, 1_680_000);
    assert_eq!(hit(700_000, 0).normal_up(), 700_000);
}

#[test]
fn parameter_validation() {
    let params = CharacterControllerParams::default();
    assert!(params.is_wf());
    let mut swapped = params;
    swapped.max_walking_slope_cos = 400_000;
    assert!(!swapped.is_wf());
    let mut no_stop = params;
    no_stop.aerial_movement.stop_factor = 0;
    assert!(!no_stop.is_wf());
    assert!(params.is_walkable(&Vec3::new(0, 860_742, 0)));
    assert!(!params.is_walkable(&Vec3::new(0, 860_741, 0)));
    assert!(params.is_slidable(&Vec3::new(0, 509_041, 0)));
    assert!(!params.is_slidable(&Vec3::new(0, 509_040, 0)));
}
