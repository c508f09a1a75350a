use cube_chess::cube_rotation::{
    requested_rotation, start_rotation, RotationInput, RotationState, RotationStep, SeeDirection,
};
use cube_chess::direction::CartesianDirection::{NegX, NegY, NegZ, X, Y, Z};
use cube_chess::direction::Vec3i;

#[test]
fn rotation_state_after_rotation_test() {
    let rotation_state = RotationState { top: Y, side: Z };
    assert_eq!(rotation_state.after_rotation(Z), RotationState { top: X, side: Z });
}

#[test]
fn default_state_looks_from_the_positive_corner() {
    let state = RotationState::default();
    assert_eq!(state, RotationState { top: Y, side: Z });
    assert_eq!(state.camera_location(), Vec3i::new(1, 1, 1));
    assert_eq!(RotationState { top: Y, side: X }.camera_location(), Vec3i::new(1, 1, -1));
}

#[test]
fn four_quarter_turns_bring_the_cube_back() {
    for rotation in [X, NegX, Y, NegY, Z, NegZ] {
        let start = RotationState { top: Y, side: Z };
        let mut state = start;
        for _ in 0..4 {
            state = state.after_rotation(rotation);
            assert!(state.is_possible());
        }
        assert_eq!(state, start);
    }
}

#[test]
fn faces_seen_from_each_place() {
    let state = RotationState { top: Y, side: Z };
    assert_eq!(state.get_see_direction(SeeDirection::Top), Y);
    assert_eq!(state.get_see_direction(SeeDirection::Left), Z);
    assert_eq!(state.get_see_direction(SeeDirection::Right), X);
    assert_eq!(state.get_see_direction(SeeDirection::BackLeft), NegX);
    assert_eq!(state.get_see_direction(SeeDirection::Bottom), NegY);
    assert_eq!(state.get_see_direction(SeeDirection::BackRight), NegZ);
    assert!(!RotationState { top: Y, side: NegY }.is_possible());
}

#[test]
fn set_see_direction_changes_top_or_left_only() {
    let mut state = RotationState { top: Y, side: Z };
    state.set_see_direction(SeeDirection::Top, X);
    assert_eq!(state, RotationState { top: X, side: Z });
    state.set_see_direction(SeeDirection::Left, NegY);
    assert_eq!(state, RotationState { top: X, side: NegY });
    state.set_see_direction(SeeDirection::Right, Z);
    state.set_see_direction(SeeDirection::Bottom, Z);
    assert_eq!(state, RotationState { top: X, side: NegY });
}

#[test]
fn keys_turn_about_top_or_left_face() {
    let state = RotationState { top: Y, side: Z };
    assert_eq!(requested_rotation(state, RotationInput::Right), NegY);
    assert_eq!(requested_rotation(state, RotationInput::Left), Y);
    assert_eq!(requested_rotation(state, RotationInput::Up), NegZ);
    assert_eq!(requested_rotation(state, RotationInput::Down), Z);
}

#[test]
fn start_rotation_queues_the_faces_that_change() {
    let mut future = RotationState { top: Y, side: Z };
    let steps = start_rotation(&mut future, Y);
    assert_eq!(steps, vec![RotationStep { from: Z, target: NegX, side_changing: SeeDirection::Left }]);
    assert_eq!(future, RotationState { top: Y, side: NegX });
    let steps = start_rotation(&mut future, Z);
    assert_eq!(
        steps,
        vec![
            RotationStep { from: NegX, target: Y, side_changing: SeeDirection::Left },
            RotationStep { from: Y, target: X, side_changing: SeeDirection::Top },
        ]
    );
    assert_eq!(future, RotationState { top: X, side: Y });
}
