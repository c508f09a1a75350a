//! The way the cube is turned towards the viewer, and the quarter turns that change it.

use crate::direction::{CartesianDirection, Vec3i};
use vstd::prelude::*;

verus! {

/// One of the six faces of the cube as the viewer sees them.
#[derive(Debug, Clone, Copy, PartialEq, Eq, Structural)]
pub enum SeeDirection {
    Top,
    Left,
    Right,
    BackLeft,
    Bottom,
    BackRight,
}

/// Which face of the cube is on top and which is on the viewer's left.
#[derive(Debug, Clone, Copy, PartialEq, Eq, Structural)]
pub struct RotationState {
    pub top: CartesianDirection,
    pub side: CartesianDirection,
}

impl Default for RotationState {
    fn default() -> (r: RotationState)
        ensures
            r == (RotationState { top: CartesianDirection::Y, side: CartesianDirection::Z }),
    {
        RotationState { top: CartesianDirection::Y, side: CartesianDirection::Z }
    }
}

/// A quarter turn that the viewer asks for.
#[derive(Debug, Clone, Copy, PartialEq, Eq, Structural)]
pub enum RotationInput {
    Right,
    Left,
    Up,
    Down,
}

/// One face changing under a quarter turn: the face of the cube that is seen in
/// `side_changing` goes from `from` to `target`.
#[derive(Debug, Clone, Copy, PartialEq, Eq, Structural)]
pub struct RotationStep {
    pub from: CartesianDirection,
    pub target: CartesianDirection,
    pub side_changing: SeeDirection,
}

impl RotationState {
    /// The corner of the cube from which the camera looks: the sum of the unit vectors of
    /// the top face, the left face and the face they have between them on the right.
    pub open spec fn spec_camera_location(&self) -> (int, int, int) {
        let top = self.top.spec_as_vec3i();
        let side = self.side.spec_as_vec3i();
        let right = top.spec_cross(side);
        (top.x + side.x + right.0, top.y + side.y + right.1, top.z + side.z + right.2)
    }

    /// The corner of the cube from which the camera looks.
    pub fn camera_location(&self) -> (v: Vec3i)
        ensures
            (v.x as int, v.y as int, v.z as int) == self.spec_camera_location(),
    {
        let top_vec = self.top.as_vec3i();
        let side_vec = self.side.as_vec3i();
        let right_vec = top_vec.cross(side_vec);
        proof {
            let a = top_vec;
            let b = side_vec;
            assert(-1 <= a.y * b.z <= 1 && -1 <= a.z * b.y <= 1 && -1 <= a.z * b.x <= 1 && -1
                <= a.x * b.z <= 1 && -1 <= a.x * b.y <= 1 && -1 <= a.y * b.x <= 1)
                by (nonlinear_arith)
                requires
                    -1 <= a.x <= 1,
                    -1 <= a.y <= 1,
                    -1 <= a.z <= 1,
                    -1 <= b.x <= 1,
                    -1 <= b.y <= 1,
                    -1 <= b.z <= 1,
            ;
        }
        Vec3i {
            x: top_vec.x + side_vec.x + right_vec.x,
            y: top_vec.y + side_vec.y + right_vec.y,
            z: top_vec.z + side_vec.z + right_vec.z,
        }
    }

    /// The state after a quarter turn about `rotation`: each of the two faces is replaced
    /// by its vector product with the rotation, and a face on the rotation's own axis stays.
    pub open spec fn spec_after_rotation(&self, rotation: CartesianDirection) -> RotationState {
        RotationState {
            top: match self.top.spec_cross(rotation) {
                Some(new_top) => new_top,
                None => self.top,
            },
            side: match self.side.spec_cross(rotation) {
                Some(new_side) => new_side,
                None => self.side,
            },
        }
    }

    /// The state after a quarter turn, clockwise for one who looks along `rotation`.
    #[verifier::when_used_as_spec(spec_after_rotation)]
    pub fn after_rotation(&self, rotation: CartesianDirection) -> (r: RotationState)
        ensures
            r == self.spec_after_rotation(rotation),
    {
        let mut rotation_state = *self;
        if let Some(new_top) = rotation_state.top.cross(rotation) {
            rotation_state.top = new_top;
        }
        if let Some(new_side) = rotation_state.side.cross(rotation) {
            rotation_state.side = new_side;
        }
        rotation_state
    }

    /// Sets the face seen on top or on the left; for any other place nothing changes.
    pub fn set_see_direction(&mut self, see_direction: SeeDirection, value: CartesianDirection)
        ensures
            *final(self) == match see_direction {
                SeeDirection::Top => RotationState { top: value, ..*old(self) },
                SeeDirection::Left => RotationState { side: value, ..*old(self) },
                _ => *old(self),
            },
    {
        match see_direction {
            SeeDirection::Top => self.top = value,
            SeeDirection::Left => self.side = value,
            _ => {},
        }
    }

    /// The face of the cube that is seen in the given place.
    pub open spec fn spec_get_see_direction(&self, see_direction: SeeDirection) -> CartesianDirection {
        match see_direction {
            SeeDirection::Top => self.top,
            SeeDirection::Left => self.side,
            SeeDirection::Right => self.top.spec_cross(self.side).unwrap(),
            SeeDirection::BackLeft => self.top.spec_cross(self.side).unwrap().spec_opposite(),
            SeeDirection::Bottom => self.top.spec_opposite(),
            SeeDirection::BackRight => self.side.spec_opposite(),
        }
    }

    /// The face of the cube that is seen in the given place, for a state whose top and left
    /// faces lie on different axes.
    pub fn get_see_direction(&self, see_direction: SeeDirection) -> (d: CartesianDirection)
        requires
            !self.top.spec_is_parallel_to(self.side),
        ensures
            d == self.spec_get_see_direction(see_direction),
    {
        match see_direction {
            SeeDirection::Top => self.top,
            SeeDirection::Left => self.side,
            SeeDirection::Right => match self.top.cross(self.side) {
                Some(right) => right,
                None => self.top,
            },
            SeeDirection::BackLeft => match self.top.cross(self.side) {
                Some(right) => right.opposite(),
                None => self.top,
            },
            SeeDirection::Bottom => self.top.opposite(),
            SeeDirection::BackRight => self.side.opposite(),
        }
    }

    /// Whether the top and the left face lie on different axes, as they do on a real cube.
    pub fn is_possible(&self) -> (b: bool)
        ensures
            b == !self.top.spec_is_parallel_to(self.side),
    {
        !self.top.is_parallel_to(self.side)
    }
}

/// The axis of the quarter turn that the viewer asks for: right and left turn the cube
/// about its top face, up and down about its left face.
pub open spec fn spec_requested_rotation(state: RotationState, input: RotationInput) -> CartesianDirection {
    match input {
        RotationInput::Right => state.top.spec_opposite(),
        RotationInput::Left => state.top,
        RotationInput::Up => state.side.spec_opposite(),
        RotationInput::Down => state.side,
    }
}

/// The axis of the quarter turn that the viewer asks for.
pub fn requested_rotation(state: RotationState, input: RotationInput) -> (r: CartesianDirection)
    ensures
        r == spec_requested_rotation(state, input),
{
    match input {
        RotationInput::Right => state.top.opposite(),
        RotationInput::Left => state.top,
        RotationInput::Up => state.side.opposite(),
        RotationInput::Down => state.side,
    }
}

/// The steps of a quarter turn about `rotation`: first the left face, if the rotation is
/// not about its axis, then the top face likewise, each to where the turn takes it from
/// the state that the step before left.
pub open spec fn spec_start_rotation(state: RotationState, rotation: CartesianDirection) -> (
    Seq<RotationStep>,
    RotationState,
) {
    let side_step = if rotation.spec_is_parallel_to(state.side) {
        Seq::<RotationStep>::empty()
    } else {
        seq![
            RotationStep {
                from: state.side,
                target: state.spec_after_rotation(rotation).side,
                side_changing: SeeDirection::Left,
            },
        ]
    };
    let turned = RotationState { side: state.spec_after_rotation(rotation).side, ..state };
    let top_step = if rotation.spec_is_parallel_to(turned.top) {
        Seq::<RotationStep>::empty()
    } else {
        seq![
            RotationStep {
                from: turned.top,
                target: turned.spec_after_rotation(rotation).top,
                side_changing: SeeDirection::Top,
            },
        ]
    };
    (
        side_step + top_step,
        RotationState { top: turned.spec_after_rotation(rotation).top, ..turned },
    )
}

/// Begins a quarter turn about `rotation` from the state that the turns begun so far lead
/// to: moves that state on and hands back the steps to be shown, in the order in which they
/// are to be queued.
pub fn start_rotation(future_rotation_state: &mut RotationState, rotation: CartesianDirection) -> (steps:
    Vec<RotationStep>)
    ensures
        steps@ == spec_start_rotation(*old(future_rotation_state), rotation).0,
        *final(future_rotation_state) == spec_start_rotation(
            *old(future_rotation_state),
            rotation,
        ).1,
{
    let mut steps: Vec<RotationStep> = Vec::new();
    if !rotation.is_parallel_to(future_rotation_state.side) {
        let target = future_rotation_state.after_rotation(rotation).side;
        steps.push(
            RotationStep {
                from: future_rotation_state.side,
                target,
                side_changing: SeeDirection::Left,
            },
        );
        future_rotation_state.side = target;
    }
    if !rotation.is_parallel_to(future_rotation_state.top) {
        let target = future_rotation_state.after_rotation(rotation).top;
        steps.push(
            RotationStep {
                from: future_rotation_state.top,
                target,
                side_changing: SeeDirection::Top,
            },
        );
        future_rotation_state.top = target;
    }
    assert(steps@ =~= spec_start_rotation(*old(future_rotation_state), rotation).0);
    steps
}

/// A quarter turn keeps the top and the left face on different axes, and four quarter turns
/// about the same axis bring the cube back.
pub proof fn lemma_rotation(state: RotationState, rotation: CartesianDirection)
    requires
        !state.top.spec_is_parallel_to(state.side),
    ensures
        !state.spec_after_rotation(rotation).top.spec_is_parallel_to(
            state.spec_after_rotation(rotation).side,
        ),
        state.spec_after_rotation(rotation).spec_after_rotation(rotation).spec_after_rotation(
            rotation,
        ).spec_after_rotation(rotation) == state,
        spec_start_rotation(state, rotation).1 == state.spec_after_rotation(rotation),
{
}

} // verus!
