use kinematic_controller::controller::{update_markers, Attachment, HitProperties, PlayerController};
use kinematic_controller::ground::{ground_cast, query_surrounding_hits, select_ground_hit};
use kinematic_controller::input::MovementState;
use kinematic_controller::integrator::{apply_gravity, apply_inputs};
use kinematic_controller::params::CharacterControllerParams;
use kinematic_controller::resolver::{attempted_displacement, begin_slide, continue_slide, velocity_from_travel, SlideStep};
use kinematic_controller::vector::Vec3;

const UNIT: i64 = 1_000_000;
const DT: i64 = 10_417;

/// A flat static plane at y = 0: the collider's bottom, `half_height` below its
/// centre, touches it after travelling the remaining height along a downward cast.
fn plane_cast(origin: Vec3, direction: Vec3, max_distance: i64, half_height: i64) -> Option<HitProperties> {
    if direction.y >= 0 {
        return None;
    }
    let gap = origin.y - half_height;
    let distance = if gap <= 0 { 0 } else { (gap as i128 * UNIT as i128 / (-direction.y) as i128) as i64 };
    if distance > max_distance {
        None
    } else {
        Some(HitProperties { normal: Vec3::new(0, UNIT, 0), distance })
    }
}

#[test]
fn falling_character_settles_on_a_plane() {
    let params = CharacterControllerParams::default();
    let shape = PlayerController::collider(params.collider_skin_thickness);
    let half = shape.height / 2;
    let mut position = Vec3::new(0, 5 * UNIT, 0);
    let mut controller = PlayerController::new();
    let mut attachment: Option<Attachment> = None;
    let idle = MovementState::new();
    let mut landed_at = None;
    for tick in 0..400 {
        apply_gravity(&mut controller, &attachment, &params, DT);
        apply_inputs(&mut controller, &mut attachment, &params, &idle, DT);
        let d = attempted_displacement(&controller.velocity, DT);
        let mut step = begin_slide(position, d);
        let end = loop {
            match step {
                SlideStep::Cast(state) => {
                    let cast = state.shape_cast(&params);
                    let hit = plane_cast(cast.origin, cast.direction, cast.max_distance, half);
                    step = continue_slide(&state, &hit, &params);
                }
                SlideStep::Done(p) => break p,
            }
        };
        controller.velocity = velocity_from_travel(&position, &end, DT);
        position = end;
        let probe = ground_cast(&position);
        let hits: Vec<HitProperties> =
            plane_cast(probe.origin, probe.direction, probe.max_distance, half).into_iter().collect();
        let (record, snapped) = query_surrounding_hits(&hits, &position, &controller.velocity, &attachment, &params);
        position = snapped;
        attachment = update_markers(&attachment, &record, &params);
        assert!(position.y - half >= 0, "penetrated the plane at tick {}", tick);
        assert!(position.y - shape.height / 2 - params.collider_skin_thickness >= 0);
        if attachment.is_some() && landed_at.is_none() {
            landed_at = Some(tick);
        }
        if let Some(t) = landed_at {
            assert!(attachment.is_some(), "lost contact at tick {}", tick);
            if tick > t + 1 {
                assert_eq!(controller.velocity.y, 0);
            }
        }
    }
    assert!(landed_at.is_some());
    assert_eq!(position.y, 850_000);
    assert_eq!(controller.velocity, Vec3::zero());
}

#[test]
fn departing_character_ignores_the_ground() {
    let params = CharacterControllerParams::default();
    let hits = vec![HitProperties { normal: Vec3::new(0, UNIT, 0), distance: 20_000 }];
    assert_eq!(select_ground_hit(&hits, &Vec3::new(0, 12_000_000, 0), &params), None);
    assert_eq!(select_ground_hit(&hits, &Vec3::new(3_000_000, 1_000_000, 0), &params), Some(hits[0]));
    assert_eq!(select_ground_hit(&hits, &Vec3::zero(), &params), Some(hits[0]));
}

#[test]
fn ground_selection_takes_the_first_candidate() {
    let params = CharacterControllerParams::default();
    let hits = vec![
        HitProperties { normal: Vec3::new(0, UNIT, 0), distance: 500_000 },
        HitProperties { normal: Vec3::new(-600_000, 800_000, 0), distance: 100_000 },
        HitProperties { normal: Vec3::new(0, UNIT, 0), distance: 200_000 },
    ];
    assert_eq!(select_ground_hit(&hits, &Vec3::new(0, -1_000_000, 0), &params), Some(hits[1]));
    assert_eq!(select_ground_hit(&Vec::new(), &Vec3::zero(), &params), None);
}

#[test]
fn grounded_character_snaps_to_the_ground() {
    let params = CharacterControllerParams::default();
    let hits = vec![HitProperties { normal: Vec3::new(0, UNIT, 0), distance: 60_000 }];
    let position = Vec3::new(0, 1_000_000, 0);
    let grounded = Some(Attachment::Grounded { normal: Vec3::new(0, UNIT, 0) });
    let (record, snapped) = query_surrounding_hits(&hits, &position, &Vec3::zero(), &grounded, &params);
    assert_eq!(record.ground, Some(hits[0]));
    assert_eq!(snapped, Vec3::new(0, 950_000, 0));
    let (_, unsnapped) = query_surrounding_hits(&hits, &position, &Vec3::zero(), &None, &params);
    assert_eq!(unsnapped, position);
}
