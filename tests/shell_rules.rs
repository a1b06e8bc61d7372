use kinematic_controller::input::MovementState;
use kinematic_controller::mood::{Mood, MoodParams, PhysicalLevelSegment, MOOD_TRANSITION_DURATION};
use kinematic_controller::state::{leave_splash_after_delay, AppState};

#[test]
fn keys_set_direction_and_jump_edge() {
    let mut s = MovementState::new();
    s.update_from_keys(true, false, true);
    assert_eq!(s.input_direction_x, -1_000_000);
    assert!(s.pressing_jump && s.just_pressed_jump);
    s.update_from_keys(false, true, true);
    assert_eq!(s.input_direction_x, 1_000_000);
    assert!(s.pressing_jump && !s.just_pressed_jump);
    s.update_from_keys(true, true, false);
    assert_eq!(s.input_direction_x, 0);
    assert!(!s.pressing_jump && !s.just_pressed_jump);
}

#[test]
fn reset_clears_inputs() {
    let mut s = MovementState { input_direction_x: 1_000_000, pressing_jump: true, just_pressed_jump: true };
    s.reset();
    assert_eq!(s, MovementState::new());
}

#[test]
fn segments_follow_x() {
    assert_eq!(PhysicalLevelSegment::for_x(0), PhysicalLevelSegment::Freedom);
    assert_eq!(PhysicalLevelSegment::for_x(5_000_000), PhysicalLevelSegment::Freedom);
    assert_eq!(PhysicalLevelSegment::for_x(5_000_001), PhysicalLevelSegment::ConfidentQuest);
    assert_eq!(PhysicalLevelSegment::for_x(12_000_000), PhysicalLevelSegment::Subquest);
    assert_eq!(PhysicalLevelSegment::for_x(15_500_000), PhysicalLevelSegment::FinishQuest);
    assert_eq!(PhysicalLevelSegment::for_x(21_000_000), PhysicalLevelSegment::FinalRelief);
    assert_eq!(PhysicalLevelSegment::for_x(-2_000_000_000), PhysicalLevelSegment::FinalRelief);
    assert_eq!(PhysicalLevelSegment::Subquest.get_starting_x(), 10_000_000);
}

#[test]
fn segments_set_moods() {
    assert_eq!(PhysicalLevelSegment::Freedom.get_mood(), Mood::Peace);
    assert_eq!(PhysicalLevelSegment::ConfidentQuest.get_mood(), Mood::Confidence);
    assert_eq!(PhysicalLevelSegment::Subquest.get_mood(), Mood::SubquestTension);
    assert_eq!(PhysicalLevelSegment::FinishQuest.get_mood(), Mood::Triumph);
    assert_eq!(PhysicalLevelSegment::FinalRelief.get_mood(), Mood::ReliefAfterQuest);
}

#[test]
fn entering_a_segment_starts_a_transition() {
    let mut m = MoodParams::new();
    assert!(!m.process_player_position(1_000_000));
    assert!(!m.transitioning);
    assert!(m.process_player_position(6_000_000));
    assert_eq!(m.current_mood, Mood::Confidence);
    assert_eq!(m.current_physical_segment, PhysicalLevelSegment::ConfidentQuest);
    assert!(m.transitioning);
    m.transition_moods(500_000);
    assert_eq!(m.transition_progress, 500_000);
    assert_eq!(m.blend_fraction(), 250_000);
    m.transition_moods(1_600_000);
    assert!(!m.transitioning);
    assert_eq!(m.transition_progress, MOOD_TRANSITION_DURATION);
    assert_eq!(m.blend_fraction(), 1_000_000);
}

#[test]
fn splash_leaves_after_three_seconds() {
    assert_eq!(leave_splash_after_delay(1_000_000, 4_000_000), None);
    assert_eq!(leave_splash_after_delay(1_000_000, 4_000_001), Some(AppState::Game));
}
