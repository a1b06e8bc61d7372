use kinematic_controller::controller::HitProperties;
use kinematic_controller::params::CharacterControllerParams;
use kinematic_controller::resolver::{
    attempted_displacement, begin_slide, continue_slide, velocity_from_travel, SlideState, SlideStep,
};
use kinematic_controller::vector::Vec3;

fn floor_hit(distance: i64) -> Option<HitProperties> {
    Some(HitProperties { normal: Vec3::new(0, 1_000_000, 0), distance })
}

fn cast_state(step: SlideStep) -> SlideState {
    match step {
        SlideStep::Cast(s) => s,
        SlideStep::Done(p) => panic!("resolution ended early at {:?}", p),
    }
}

#[test]
fn free_flight_moves_the_whole_displacement() {
    let params = CharacterControllerParams::default();
    let position = Vec3::new(1_000_000, 5_000_000, 0);
    let velocity = Vec3::new(2_000_000, -3_000_000, 0);
    let d = attempted_displacement(&velocity, 10_417);
    assert_eq!(d, Vec3::new(20_834, -31_251, 0));
    let state = cast_state(begin_slide(position, d));
    assert_eq!(state.bounce, 0);
    assert_eq!(
        continue_slide(&state, &None, &params),
        SlideStep::Done(Vec3::new(1_020_834, 4_968_749, 0))
    );
}

#[test]
fn zero_displacement_is_a_no_op() {
    let position = Vec3::new(7, 8, 9);
    assert_eq!(begin_slide(position, Vec3::zero()), SlideStep::Done(position));
}

#[test]
fn cast_follows_the_displacement() {
    let params = CharacterControllerParams::default();
    let state = cast_state(begin_slide(Vec3::new(0, 2_000_000, 0), Vec3::new(0, -100_000, 0)));
    let cast = state.shape_cast(&params);
    assert_eq!(cast.origin, Vec3::new(0, 2_000_000, 0));
    assert_eq!(cast.direction, Vec3::new(0, -1_000_000, 0));
    assert_eq!(cast.max_distance, 110_000);
}

#[test]
fn head_on_hit_stops_short_by_the_skin() {
    let params = CharacterControllerParams::default();
    let state = cast_state(begin_slide(Vec3::new(0, 2_000_000, 0), Vec3::new(0, -100_000, 0)));
    assert_eq!(
        continue_slide(&state, &floor_hit(50_000), &params),
        SlideStep::Done(Vec3::new(0, 1_960_000, 0))
    );
}

#[test]
fn hit_within_the_skin_backs_off() {
    let params = CharacterControllerParams::default();
    let state = cast_state(begin_slide(Vec3::new(0, 2_000_000, 0), Vec3::new(0, -100_000, 0)));
    assert_eq!(
        continue_slide(&state, &floor_hit(4_000), &params),
        SlideStep::Done(Vec3::new(0, 2_006_000, 0))
    );
}

#[test]
fn diagonal_hit_slides_along_the_floor() {
    let params = CharacterControllerParams::default();
    let state = cast_state(begin_slide(Vec3::new(0, 2_000_000, 0), Vec3::new(100_000, -100_000, 0)));
    let next = cast_state(continue_slide(&state, &floor_hit(50_000), &params));
    assert_eq!(next.position, Vec3::new(28_284, 1_971_716, 0));
    assert_eq!(next.displacement, Vec3::new(71_716, 0, 0));
    assert_eq!(next.bounce, 1);
    assert_eq!(continue_slide(&next, &None, &params), SlideStep::Done(Vec3::new(100_000, 1_971_716, 0)));
}

#[test]
fn wall_hit_slides_vertically() {
    let params = CharacterControllerParams::default();
    let state = cast_state(begin_slide(Vec3::zero(), Vec3::new(100_000, 100_000, 0)));
    let wall = Some(HitProperties { normal: Vec3::new(-1_000_000, 0, 0), distance: 30_000 });
    let next = cast_state(continue_slide(&state, &wall, &params));
    assert_eq!(next.position, Vec3::new(14_142, 14_142, 0));
    assert_eq!(next.displacement, Vec3::new(0, 85_858, 0));
}

#[test]
fn bounce_limit_ends_resolution() {
    let mut params = CharacterControllerParams::default();
    params.max_collision_bounces = 1;
    let state = cast_state(begin_slide(Vec3::new(0, 2_000_000, 0), Vec3::new(100_000, -100_000, 0)));
    assert_eq!(
        continue_slide(&state, &floor_hit(50_000), &params),
        SlideStep::Done(Vec3::new(28_284, 1_971_716, 0))
    );
}

#[test]
fn velocity_is_travel_over_time() {
    let from = Vec3::new(0, 1_000_000, 0);
    let to = Vec3::new(10_417, 1_000_000 - 20_834, 0);
    assert_eq!(velocity_from_travel(&from, &to, 10_417), Vec3::new(1_000_000, -2_000_000, 0));
}

#[test]
fn hits_beyond_reach_or_with_bad_normals_are_refused() {
    let params = CharacterControllerParams::default();
    let state = cast_state(begin_slide(Vec3::zero(), Vec3::new(0, -100_000, 0)));
    assert!(state.is_wf());
    assert!(state.accepts_hit(&floor_hit(110_000).unwrap(), &params));
    assert!(!state.accepts_hit(&floor_hit(110_001).unwrap(), &params));
    assert!(!state.accepts_hit(&floor_hit(-1).unwrap(), &params));
    let flat_normal = HitProperties { normal: Vec3::new(0, 500_000, 0), distance: 0 };
    assert!(!state.accepts_hit(&flat_normal, &params));
}
