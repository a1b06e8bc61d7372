use kinematic_controller::controller::{Attachment, PlayerController};
use kinematic_controller::input::MovementState;
use kinematic_controller::integrator::{apply_gravity, apply_inputs};
use kinematic_controller::params::CharacterControllerParams;
use kinematic_controller::vector::Vec3;

const DT: i64 = 10_417;

fn controller(x: i64, y: i64) -> PlayerController {
    PlayerController { velocity: Vec3::new(x, y, 0) }
}

fn flat() -> Option<Attachment> {
    Some(Attachment::Grounded { normal: Vec3::new(0, 1_000_000, 0) })
}

fn steep() -> Option<Attachment> {
    Some(Attachment::Grounded { normal: Vec3::new(-714_143, 700_000, 0) })
}

fn input(x: i64, jump: bool) -> MovementState {
    MovementState { input_direction_x: x, pressing_jump: jump, just_pressed_jump: jump }
}

#[test]
fn gravity_applies_in_the_air() {
    let params = CharacterControllerParams::default();
    let mut c = controller(1_000, 0);
    apply_gravity(&mut c, &None, &params, DT);
    assert_eq!(c.velocity, Vec3::new(1_000, -204_381, 0));
}

#[test]
fn gravity_is_suppressed_on_walkable_ground() {
    let params = CharacterControllerParams::default();
    let mut c = controller(0, -5_000);
    apply_gravity(&mut c, &flat(), &params, DT);
    assert_eq!(c.velocity.y, -5_000);
}

#[test]
fn gravity_applies_on_steep_ground() {
    let params = CharacterControllerParams::default();
    let mut c = controller(0, 0);
    apply_gravity(&mut c, &steep(), &params, DT);
    assert_eq!(c.velocity.y, -204_381);
}

#[test]
fn aerial_input_accelerates_horizontally() {
    let params = CharacterControllerParams::default();
    let mut c = controller(0, -100_000);
    let mut a = None;
    apply_inputs(&mut c, &mut a, &params, &input(1_000_000, false), DT);
    assert_eq!(c.velocity, Vec3::new(13_021, -100_000, 0));
    assert_eq!(a, None);
}

#[test]
fn aerial_jump_is_ignored() {
    let params = CharacterControllerParams::default();
    let mut c = controller(0, -100_000);
    let mut a = None;
    apply_inputs(&mut c, &mut a, &params, &input(0, true), DT);
    assert_eq!(c.velocity, Vec3::new(0, -100_000, 0));
    assert_eq!(a, None);
}

#[test]
fn aerial_braking_without_input() {
    let params = CharacterControllerParams::default();
    let mut c = controller(1_000_000, 0);
    let mut a = None;
    apply_inputs(&mut c, &mut a, &params, &input(0, false), DT);
    assert_eq!(c.velocity.x, 993_749);
}

#[test]
fn reverse_input_uses_reverse_factors() {
    let params = CharacterControllerParams::default();
    let mut c = controller(1_000_000, 0);
    let mut a = steep();
    apply_inputs(&mut c, &mut a, &params, &input(-1_000_000, false), DT);
    assert_eq!(c.velocity.x, 687_490);
    assert_eq!(a, steep());
}

#[test]
fn planar_input_on_flat_ground() {
    let params = CharacterControllerParams::default();
    let mut c = controller(0, 0);
    let mut a = flat();
    apply_inputs(&mut c, &mut a, &params, &input(1_000_000, false), DT);
    assert_eq!(c.velocity, Vec3::new(52_085, 0, 0));
}

#[test]
fn depth_axis_is_pinned() {
    let params = CharacterControllerParams::default();
    let mut c = PlayerController { velocity: Vec3::new(0, 0, 500_000) };
    let mut a = None;
    apply_inputs(&mut c, &mut a, &params, &input(0, false), DT);
    assert_eq!(c.velocity.z, 0);
}

#[test]
fn jump_adds_impulse_and_leaves_ground() {
    let params = CharacterControllerParams::default();
    let mut with_jump = controller(200_000, 0);
    let mut without_jump = controller(200_000, 0);
    let mut a = flat();
    let mut b = flat();
    apply_inputs(&mut with_jump, &mut a, &params, &input(1_000_000, true), DT);
    apply_inputs(&mut without_jump, &mut b, &params, &input(1_000_000, false), DT);
    assert_eq!(with_jump.velocity.y, without_jump.velocity.y + 12_000_000);
    assert_eq!(with_jump.velocity.x, without_jump.velocity.x);
    assert_eq!(a, None);
    assert_eq!(b, flat());
}

#[test]
fn jump_from_steep_ground() {
    let params = CharacterControllerParams::default();
    let mut c = controller(0, -300_000);
    let mut a = steep();
    apply_inputs(&mut c, &mut a, &params, &input(0, true), DT);
    assert_eq!(c.velocity.y, 11_700_000);
    assert_eq!(a, None);
}

#[test]
fn walking_up_a_walkable_slope_follows_the_plane() {
    let params = CharacterControllerParams::default();
    // A slope rising toward positive x, just below the walkable threshold angle.
    let normal = Vec3::new(-508_566, 861_000, 0);
    let attachment = Some(Attachment::Grounded { normal });
    let mut c = controller(0, 0);
    for _ in 0..200 {
        let mut a = attachment;
        apply_gravity(&mut c, &a, &params, DT);
        apply_inputs(&mut c, &mut a, &params, &input(1_000_000, false), DT);
        assert_eq!(a, attachment);
        let v = c.velocity;
        let along_normal = (v.x as i128 * normal.x as i128 + v.y as i128 * normal.y as i128) / 1_000_000;
        let along_tangent = (v.x as i128 * normal.y as i128 - v.y as i128 * normal.x as i128) / 1_000_000;
        assert!(along_normal.abs() <= 5, "normal speed {}", along_normal);
        assert!(along_tangent > 0);
        assert!(v.y > 0);
    }
    let v = c.velocity;
    let along_tangent = (v.x as i128 * normal.y as i128 - v.y as i128 * normal.x as i128) / 1_000_000;
    assert!(along_tangent > 2_990_000 && along_tangent <= 3_000_000);
}
