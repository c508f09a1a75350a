//! Coordinates of the cells on the surface of the cube, and the steps that lead from one
//! cell to the next across the faces.

use crate::direction::{CartesianDirection, RadialDiagonal, RadialDirection};
use vstd::prelude::*;
use vstd::string::StringExecFns;

verus! {

/// A cell on the surface of the cube.
///
/// The axis whose value is zero is the one the face is at right angles to; the other two
/// values count the cell's place on the face, starting at one. `normal_is_positive` tells the
/// face from the one on the far side of the cube.
#[derive(Debug, Copy, Clone, PartialEq, Eq, PartialOrd, Ord, Structural)]
pub struct CellCoordinates {
    pub x: u32,
    pub y: u32,
    pub z: u32,
    pub normal_is_positive: bool,
}

impl Default for CellCoordinates {
    fn default() -> (c: CellCoordinates)
        ensures
            c == (CellCoordinates { x: 0, y: 0, z: 0, normal_is_positive: false }),
    {
        CellCoordinates { x: 0, y: 0, z: 0, normal_is_positive: false }
    }
}

impl CellCoordinates {
    pub fn new(x: u32, y: u32, z: u32, normal_is_positive: bool) -> (c: Self)
        ensures
            c == (CellCoordinates { x, y, z, normal_is_positive }),
    {
        CellCoordinates { x, y, z, normal_is_positive }
    }

    /// The value on the axis with the given index (0 for x, 1 for y, anything else for z).
    pub open spec fn spec_get(self, axis: int) -> u32 {
        if axis == 0 {
            self.x
        } else if axis == 1 {
            self.y
        } else {
            self.z
        }
    }

    /// The value on the axis with the given index.
    pub fn get(&self, axis: u32) -> (v: u32)
        requires
            axis < 3,
        ensures
            v == self.spec_get(axis as int),
    {
        if axis == 0 {
            self.x
        } else if axis == 1 {
            self.y
        } else {
            self.z
        }
    }

    /// The coordinates with the value on one axis replaced.
    pub open spec fn spec_with(self, axis: int, value: u32) -> Self {
        if axis == 0 {
            CellCoordinates { x: value, ..self }
        } else if axis == 1 {
            CellCoordinates { y: value, ..self }
        } else {
            CellCoordinates { z: value, ..self }
        }
    }

    /// Replaces the value on the axis with the given index.
    pub fn set(&mut self, axis: u32, value: u32)
        requires
            axis < 3,
        ensures
            *final(self) == old(self).spec_with(axis as int, value),
    {
        if axis == 0 {
            self.x = value;
        } else if axis == 1 {
            self.y = value;
        } else {
            self.z = value;
        }
    }

    /// How many of the three axis values are zero.
    pub open spec fn zero_axes(self) -> int {
        (if self.x == 0 {
            1int
        } else {
            0
        }) + (if self.y == 0 {
            1int
        } else {
            0
        }) + (if self.z == 0 {
            1int
        } else {
            0
        })
    }

    /// Exactly one axis value is zero, so the coordinates name a face.
    pub open spec fn has_normal(self) -> bool {
        self.zero_axes() == 1
    }

    /// No axis value exceeds the side length.
    pub open spec fn within(self, cube_side_length: u32) -> bool {
        self.x <= cube_side_length && self.y <= cube_side_length && self.z <= cube_side_length
    }

    /// The coordinates name a cell of a cube with the given side length: one axis value is
    /// zero and the other two lie between one and the side length.
    pub open spec fn on_cube(self, cube_side_length: u32) -> bool {
        self.has_normal() && self.within(cube_side_length)
    }

    /// Whether exactly one axis value is zero.
    pub fn is_valid(&self) -> (b: bool)
        ensures
            b == self.has_normal(),
    {
        let mut zeros: u32 = 0;
        if self.x == 0 {
            zeros += 1;
        }
        if self.y == 0 {
            zeros += 1;
        }
        if self.z == 0 {
            zeros += 1;
        }
        zeros == 1
    }

    /// Whether the coordinates name a cell of a cube with the given side length.
    pub fn is_on_cube(&self, cube_side_length: u32) -> (b: bool)
        ensures
            b == self.on_cube(cube_side_length),
    {
        self.is_valid() && self.x <= cube_side_length && self.y <= cube_side_length && self.z
            <= cube_side_length
    }

    /// The outward direction of the face: the axis whose value is zero, with the sign that
    /// `normal_is_positive` gives. Where several values are zero, z goes before y and y before x.
    pub open spec fn spec_normal_direction(&self) -> CartesianDirection {
        if self.z == 0 {
            if self.normal_is_positive {
                CartesianDirection::Z
            } else {
                CartesianDirection::NegZ
            }
        } else if self.y == 0 {
            if self.normal_is_positive {
                CartesianDirection::Y
            } else {
                CartesianDirection::NegY
            }
        } else {
            if self.normal_is_positive {
                CartesianDirection::X
            } else {
                CartesianDirection::NegX
            }
        }
    }

    /// The outward direction of the face the cell lies on.
    #[verifier::when_used_as_spec(spec_normal_direction)]
    pub fn normal_direction(&self) -> (d: CartesianDirection)
        requires
            self.has_normal(),
        ensures
            d == self.spec_normal_direction(),
            self.spec_get(d.spec_axis_num() as int) == 0,
            d.spec_is_negative() == !self.normal_is_positive,
    {
        if self.z == 0 {
            if self.normal_is_positive {
                CartesianDirection::Z
            } else {
                CartesianDirection::NegZ
            }
        } else if self.y == 0 {
            if self.normal_is_positive {
                CartesianDirection::Y
            } else {
                CartesianDirection::NegY
            }
        } else {
            if self.normal_is_positive {
                CartesianDirection::X
            } else {
                CartesianDirection::NegX
            }
        }
    }

    /// One step from the cell in the given direction.
    ///
    /// There is no step along the face's own axis. A step that stays between one and the side
    /// length only changes the value on the direction's axis. Any other step folds over the
    /// edge onto the neighbouring face: the direction's axis becomes the new normal axis,
    /// positive if the step went up, and the old normal axis takes the value at the edge that
    /// was crossed, the side length when the old face was the positive one and one otherwise.
    /// The flag tells whether the step folded.
    pub open spec fn spec_get_cell_in_direction(
        &self,
        direction: CartesianDirection,
        cube_side_length: u32,
    ) -> Option<(CellCoordinates, bool)> {
        let normal = self.spec_normal_direction();
        let axis = direction.spec_axis_num() as int;
        let moved = self.spec_get(axis) + (if direction.spec_is_negative() {
            -1int
        } else {
            1int
        });
        if normal.spec_is_parallel_to(direction) {
            None
        } else if 1 <= moved <= cube_side_length {
            Some((self.spec_with(axis, moved as u32), false))
        } else {
            let edge = if self.normal_is_positive {
                cube_side_length
            } else {
                1u32
            };
            let folded = CellCoordinates { normal_is_positive: moved > 0, ..*self }.spec_with(
                normal.spec_axis_num() as int,
                edge,
            ).spec_with(axis, 0);
            Some((folded, true))
        }
    }

    /// One step from the cell in the given direction, with a flag that tells whether the
    /// step crossed an edge of the cube; `None` if the direction is along the face's normal.
    #[verifier::when_used_as_spec(spec_get_cell_in_direction)]
    pub fn get_cell_in_direction(
        &self,
        direction: CartesianDirection,
        cube_side_length: u32,
    ) -> (r: Option<(CellCoordinates, bool)>)
        requires
            self.has_normal(),
        ensures
            r == self.spec_get_cell_in_direction(direction, cube_side_length),
            r is Some <==> !self.spec_normal_direction().spec_is_parallel_to(direction),
            r matches Some((next, _)) ==> {
                &&& (cube_side_length > 0 ==> next.has_normal())
                &&& (self.on_cube(cube_side_length) ==> next.on_cube(cube_side_length))
            },
    {
        let normal = self.normal_direction();
        if normal.is_parallel_to(direction) {
            return None;
        }
        let axis = direction.axis_num();
        let step: i64 = if direction.is_negative() {
            -1
        } else {
            1
        };
        let mut adjacent = *self;
        let moved: i64 = self.get(axis) as i64 + step;
        let folded_to_other_face = moved <= 0 || moved > cube_side_length as i64;
        if folded_to_other_face {
            adjacent.normal_is_positive = moved > 0;
            let old_normal_axis_new_val = if self.normal_is_positive {
                cube_side_length
            } else {
                1
            };
            adjacent.set(normal.axis_num(), old_normal_axis_new_val);
            adjacent.set(axis, 0);
        } else {
            adjacent.set(axis, moved as u32);
        }
        Some((adjacent, folded_to_other_face))
    }

    /// One step along the walk round the cube, as `spec_get_cell_in_direction` takes it in
    /// the direction that the walk has on this face.
    pub open spec fn spec_get_cell_in_radial_direction(
        &self,
        radial_direction: RadialDirection,
        cube_side_length: u32,
    ) -> Option<(CellCoordinates, bool)> {
        match radial_direction.spec_to_cartesian_direction(self.spec_normal_direction()) {
            None => None,
            Some(direction) => self.spec_get_cell_in_direction(direction, cube_side_length),
        }
    }

    /// One step along the walk round the cube, with a flag that tells whether the step
    /// crossed an edge; `None` on the two faces that the rotation axis passes through.
    #[verifier::when_used_as_spec(spec_get_cell_in_radial_direction)]
    pub fn get_cell_in_radial_direction(
        &self,
        radial_direction: RadialDirection,
        cube_side_length: u32,
    ) -> (r: Option<(CellCoordinates, bool)>)
        requires
            self.has_normal(),
        ensures
            r == self.spec_get_cell_in_radial_direction(radial_direction, cube_side_length),
            r is Some <==> !radial_direction.spec_rotation_axis().spec_is_parallel_to(
                self.spec_normal_direction(),
            ),
            r matches Some((next, _)) ==> {
                &&& (cube_side_length > 0 ==> next.has_normal())
                &&& (self.on_cube(cube_side_length) ==> next.on_cube(cube_side_length))
                &&& !radial_direction.spec_rotation_axis().spec_is_parallel_to(
                    next.spec_normal_direction(),
                )
            },
    {
        if radial_direction.rotation_axis().is_parallel_to(self.normal_direction()) {
            return None;
        }
        match radial_direction.to_cartesian_direction(self.normal_direction()) {
            None => None,
            Some(cartesian_direction) => self.get_cell_in_direction(
                cartesian_direction,
                cube_side_length,
            ),
        }
    }

    /// The cell reached by one step in the first direction and then one in the second. There
    /// is none where either step is missing, nor where both cross an edge: the two steps then
    /// turn a corner of the cube and end on a cell that shares an edge with the start.
    pub open spec fn spec_get_diagonal(
        &self,
        diagonal: (CartesianDirection, CartesianDirection),
        cube_side_length: u32,
    ) -> Option<(CellCoordinates, bool)> {
        match self.spec_get_cell_in_direction(diagonal.0, cube_side_length) {
            None => None,
            Some((first, first_crossed)) => match first.spec_get_cell_in_direction(
                diagonal.1,
                cube_side_length,
            ) {
                None => None,
                Some((second, second_crossed)) => if first_crossed && second_crossed {
                    None
                } else {
                    Some((second, first_crossed || second_crossed))
                },
            },
        }
    }

    /// The diagonal neighbour reached by walking in the two directions one after the other,
    /// with a flag that tells whether the move crossed an edge; `None` where a step is missing
    /// or both steps cross an edge.
    #[verifier::when_used_as_spec(spec_get_diagonal)]
    pub fn get_diagonal(
        &self,
        diagonal: (CartesianDirection, CartesianDirection),
        cube_side_length: u32,
    ) -> (r: Option<(CellCoordinates, bool)>)
        requires
            self.has_normal(),
            cube_side_length > 0,
        ensures
            r == self.spec_get_diagonal(diagonal, cube_side_length),
            r matches Some((next, _)) ==> {
                &&& next.has_normal()
                &&& (self.on_cube(cube_side_length) ==> next.on_cube(cube_side_length))
            },
    {
        let cell1 = match self.get_cell_in_direction(diagonal.0, cube_side_length) {
            None => { return None; },
            Some(cell1) => cell1,
        };
        let cell2 = match cell1.0.get_cell_in_direction(diagonal.1, cube_side_length) {
            None => { return None; },
            Some(cell2) => cell2,
        };
        if cell1.1 && cell2.1 {
            return None;
        }
        Some((cell2.0, cell1.1 || cell2.1))
    }

    /// The two directions that a `RadialDiagonal` names on this face: along each axis whose
    /// value is not zero, with the sign it holds for that axis. `None` unless at least two
    /// values are not zero.
    pub open spec fn spec_diagonal_directions(&self, diagonal: RadialDiagonal) -> Option<
        (CartesianDirection, CartesianDirection),
    > {
        let dx = CartesianDirection::spec_from_axis_num(0, diagonal.0);
        let dy = CartesianDirection::spec_from_axis_num(1, diagonal.1);
        let dz = CartesianDirection::spec_from_axis_num(2, diagonal.2);
        if self.x != 0 && self.y != 0 {
            Some((dx, dy))
        } else if self.x != 0 && self.z != 0 {
            Some((dx, dz))
        } else if self.y != 0 && self.z != 0 {
            Some((dy, dz))
        } else {
            None
        }
    }

    /// The diagonal neighbour that a `RadialDiagonal` names on this face.
    pub open spec fn spec_get_diagonal_radial(
        &self,
        diagonal: RadialDiagonal,
        cube_side_length: u32,
    ) -> Option<(CellCoordinates, bool)> {
        match self.spec_diagonal_directions(diagonal) {
            None => None,
            Some(directions) => self.spec_get_diagonal(directions, cube_side_length),
        }
    }

    /// The diagonal neighbour reached by stepping along each of the two axes of the face, up
    /// or down as `diagonal` says for that axis.
    #[verifier::when_used_as_spec(spec_get_diagonal_radial)]
    pub fn get_diagonal_radial(&self, diagonal: RadialDiagonal, cube_side_length: u32) -> (r:
        Option<(CellCoordinates, bool)>)
        requires
            self.has_normal(),
            cube_side_length > 0,
        ensures
            r == self.spec_get_diagonal_radial(diagonal, cube_side_length),
            r matches Some((next, _)) ==> {
                &&& next.has_normal()
                &&& (self.on_cube(cube_side_length) ==> next.on_cube(cube_side_length))
            },
    {
        let mut directions: Vec<CartesianDirection> = Vec::new();
        if self.x != 0 {
            directions.push(CartesianDirection::from_axis_num(0, diagonal.0));
        }
        if self.y != 0 {
            directions.push(CartesianDirection::from_axis_num(1, diagonal.1));
        }
        if self.z != 0 {
            directions.push(CartesianDirection::from_axis_num(2, diagonal.2));
        }
        if directions.len() < 2 {
            return None;
        }
        let directions = (directions[0], directions[1]);
        self.get_diagonal(directions, cube_side_length)
    }

    /// The four directions along a face, in the order of `CartesianDirection::directions`.
    pub open spec fn spec_face_directions(normal: CartesianDirection) -> Seq<CartesianDirection> {
        match normal.spec_abs() {
            CartesianDirection::X => seq![
                CartesianDirection::Y,
                CartesianDirection::NegY,
                CartesianDirection::Z,
                CartesianDirection::NegZ,
            ],
            CartesianDirection::Y => seq![
                CartesianDirection::X,
                CartesianDirection::NegX,
                CartesianDirection::Z,
                CartesianDirection::NegZ,
            ],
            _ => seq![
                CartesianDirection::X,
                CartesianDirection::NegX,
                CartesianDirection::Y,
                CartesianDirection::NegY,
            ],
        }
    }

    /// The four neighbours of the cell, one for each direction along its face.
    pub open spec fn spec_get_adjacent(&self, cube_side_length: u32) -> Seq<CellCoordinates> {
        Seq::new(
            4,
            |i: int|
                self.spec_get_cell_in_direction(
                    Self::spec_face_directions(self.spec_normal_direction())[i],
                    cube_side_length,
                ).unwrap().0,
        )
    }

    /// The four cells one step away: the step in each direction along the face, in the order
    /// of `CartesianDirection::directions`.
    pub fn get_adjacent(&self, cube_side_length: u32) -> (r: [CellCoordinates; 4])
        requires
            self.has_normal(),
        ensures
            r@ == self.spec_get_adjacent(cube_side_length),
            forall|i: int|
                0 <= i < 4 ==> {
                    &&& (cube_side_length > 0 ==> (#[trigger] r@[i]).has_normal())
                    &&& (self.on_cube(cube_side_length) ==> r@[i].on_cube(cube_side_length))
                },
    {
        let mut output: [CellCoordinates; 4] = [*self, *self, *self, *self];
        let directions = CartesianDirection::directions();
        let ghost face = Self::spec_face_directions(self.spec_normal_direction());
        let mut i: usize = 0;
        let mut k: usize = 0;
        proof {
            Self::lemma_face_directions(self.spec_normal_direction());
        }
        while k < 6
            invariant
                k <= 6,
                i <= 4,
                self.has_normal(),
                directions@ == CartesianDirection::spec_directions(),
                face == Self::spec_face_directions(self.spec_normal_direction()),
                i == Self::spec_face_directions_before(self.spec_normal_direction(), k as int),
                forall|j: int|
                    0 <= j < i ==> (#[trigger] output@[j]) == self.spec_get_cell_in_direction(
                        face[j],
                        cube_side_length,
                    ).unwrap().0,
                forall|j: int|
                    0 <= j < i ==> {
                        &&& (cube_side_length > 0 ==> (#[trigger] output@[j]).has_normal())
                        &&& (self.on_cube(cube_side_length) ==> output@[j].on_cube(
                            cube_side_length,
                        ))
                    },
            decreases 6 - k,
        {
            proof {
                Self::lemma_face_directions(self.spec_normal_direction());
            }
            let direction = directions[k];
            k += 1;
            match self.get_cell_in_direction(direction, cube_side_length) {
                None => {},
                Some(adjacent) => {
                    assert(i < 4);
                    assert(face[i as int] == direction);
                    output[i] = adjacent.0;
                    i += 1;
                },
            }
        }
        assert(i == 4);
        assert(output@ =~= self.spec_get_adjacent(cube_side_length));
        output
    }

    /// How many of the first `k` directions run along the face with the given normal.
    pub open spec fn spec_face_directions_before(normal: CartesianDirection, k: int) -> int {
        let a = normal.spec_axis_num() as int;
        if a == 0 {
            if k <= 2 {
                0
            } else {
                k - 2
            }
        } else if a == 1 {
            if k <= 2 {
                k
            } else if k <= 4 {
                2
            } else {
                k - 2
            }
        } else {
            if k <= 4 {
                k
            } else {
                4
            }
        }
    }

    /// The directions along a face are those of the six that do not lie on the normal's axis,
    /// in the same order.
    proof fn lemma_face_directions(normal: CartesianDirection)
        ensures
            Self::spec_face_directions(normal).len() == 4,
            forall|k: int|
                #![trigger CartesianDirection::spec_directions()[k]]
                0 <= k < 6 && !normal.spec_is_parallel_to(CartesianDirection::spec_directions()[k])
                    ==> {
                    &&& 0 <= Self::spec_face_directions_before(normal, k) < 4
                    &&& Self::spec_face_directions(normal)[Self::spec_face_directions_before(
                        normal,
                        k,
                    )] == CartesianDirection::spec_directions()[k]
                    &&& Self::spec_face_directions_before(normal, k + 1)
                        == Self::spec_face_directions_before(normal, k) + 1
                },
            forall|k: int|
                #![trigger CartesianDirection::spec_directions()[k]]
                0 <= k < 6 && normal.spec_is_parallel_to(CartesianDirection::spec_directions()[k])
                    ==> Self::spec_face_directions_before(normal, k + 1)
                    == Self::spec_face_directions_before(normal, k),
            Self::spec_face_directions_before(normal, 0) == 0,
            Self::spec_face_directions_before(normal, 6) == 4,
    {
        let s = CartesianDirection::spec_directions();
        assert(s[0] == CartesianDirection::X && s[1] == CartesianDirection::NegX);
        assert(s[2] == CartesianDirection::Y && s[3] == CartesianDirection::NegY);
        assert(s[4] == CartesianDirection::Z && s[5] == CartesianDirection::NegZ);
        let f = Self::spec_face_directions(normal);
        match normal.spec_abs() {
            CartesianDirection::X => {
                assert(f[0] == CartesianDirection::Y && f[1] == CartesianDirection::NegY);
                assert(f[2] == CartesianDirection::Z && f[3] == CartesianDirection::NegZ);
            },
            CartesianDirection::Y => {
                assert(f[0] == CartesianDirection::X && f[1] == CartesianDirection::NegX);
                assert(f[2] == CartesianDirection::Z && f[3] == CartesianDirection::NegZ);
            },
            _ => {
                assert(f[0] == CartesianDirection::X && f[1] == CartesianDirection::NegX);
                assert(f[2] == CartesianDirection::Y && f[3] == CartesianDirection::NegY);
            },
        }
    }

    /// The cell at the far end of the line through the centre of the cube: every value that
    /// is not zero is counted from the other end of its axis, and the face is the one on the
    /// other side.
    pub open spec fn spec_opposite(&self, cube_side_length: u32) -> CellCoordinates {
        CellCoordinates {
            x: Self::spec_mirror(self.x, cube_side_length),
            y: Self::spec_mirror(self.y, cube_side_length),
            z: Self::spec_mirror(self.z, cube_side_length),
            normal_is_positive: !self.normal_is_positive,
        }
    }

    /// A value counted from the other end of its axis; zero stays zero.
    pub open spec fn spec_mirror(value: u32, cube_side_length: u32) -> u32 {
        if value == 0 {
            0
        } else {
            (cube_side_length - value + 1) as u32
        }
    }

    /// A value counted from the other end of its axis.
    fn mirror(value: u32, cube_side_length: u32) -> (r: u32)
        requires
            value <= cube_side_length + 1,
        ensures
            r == Self::spec_mirror(value, cube_side_length),
            r <= cube_side_length,
            (r == 0) == (value == 0 || value == cube_side_length + 1),
    {
        if value == 0 || value > cube_side_length {
            0
        } else {
            cube_side_length - value + 1
        }
    }

    /// The reflection of the cell through the centre of the cube. No axis value may exceed
    /// the side length by more than one.
    #[verifier::when_used_as_spec(spec_opposite)]
    pub fn opposite(&self, cube_side_length: u32) -> (r: CellCoordinates)
        requires
            self.x <= cube_side_length + 1,
            self.y <= cube_side_length + 1,
            self.z <= cube_side_length + 1,
        ensures
            r == self.spec_opposite(cube_side_length),
            r.within(cube_side_length),
            self.within(cube_side_length) ==> r.zero_axes() == self.zero_axes(),
    {
        CellCoordinates {
            x: Self::mirror(self.x, cube_side_length),
            y: Self::mirror(self.y, cube_side_length),
            z: Self::mirror(self.z, cube_side_length),
            normal_is_positive: !self.normal_is_positive,
        }
    }
}

/// The decimal digit for a number below ten.
pub open spec fn spec_digit(d: nat) -> char {
    if d == 0 {
        '0'
    } else if d == 1 {
        '1'
    } else if d == 2 {
        '2'
    } else if d == 3 {
        '3'
    } else if d == 4 {
        '4'
    } else if d == 5 {
        '5'
    } else if d == 6 {
        '6'
    } else if d == 7 {
        '7'
    } else if d == 8 {
        '8'
    } else {
        '9'
    }
}

/// The decimal digits of a number, the most significant first.
pub open spec fn spec_decimal(n: nat) -> Seq<char>
    decreases n,
{
    if n < 10 {
        seq![spec_digit(n)]
    } else {
        spec_decimal(n / 10).push(spec_digit(n % 10))
    }
}

fn digit_str(d: u32) -> (r: &'static str)
    requires
        d < 10,
    ensures
        r@ == seq![spec_digit(d as nat)],
{
    proof {
        reveal_strlit("0");
        reveal_strlit("1");
        reveal_strlit("2");
        reveal_strlit("3");
        reveal_strlit("4");
        reveal_strlit("5");
        reveal_strlit("6");
        reveal_strlit("7");
        reveal_strlit("8");
        reveal_strlit("9");
    }
    let r = if d == 0 {
        "0"
    } else if d == 1 {
        "1"
    } else if d == 2 {
        "2"
    } else if d == 3 {
        "3"
    } else if d == 4 {
        "4"
    } else if d == 5 {
        "5"
    } else if d == 6 {
        "6"
    } else if d == 7 {
        "7"
    } else if d == 8 {
        "8"
    } else {
        "9"
    };
    assert(r@ =~= seq![spec_digit(d as nat)]);
    r
}

/// The number in decimal digits.
pub fn decimal(n: u32) -> (r: String)
    ensures
        r@ == spec_decimal(n as nat),
    decreases n,
{
    if n < 10 {
        String::from_str(digit_str(n))
    } else {
        let mut digits = decimal(n / 10);
        digits.append(digit_str(n % 10));
        assert(digits@ =~= spec_decimal(n as nat));
        digits
    }
}

/// The letter of the face: x, y or z for the axis it is at right angles to, a capital for
/// the positive face.
pub open spec fn spec_face_letter(normal: CartesianDirection) -> char {
    match normal {
        CartesianDirection::X => 'X',
        CartesianDirection::NegX => 'x',
        CartesianDirection::Y => 'Y',
        CartesianDirection::NegY => 'y',
        CartesianDirection::Z => 'Z',
        CartesianDirection::NegZ => 'z',
    }
}

/// The letter for a place along a row: a for one up to d for four.
pub open spec fn spec_file_letter(value: u32) -> char {
    if value == 1 {
        'a'
    } else if value == 2 {
        'b'
    } else if value == 3 {
        'c'
    } else {
        'd'
    }
}

impl CellCoordinates {
    /// The name of the cell: the letter of its face, a letter for its place on the first of
    /// the face's two axes, and a number for its place on the second.
    pub open spec fn spec_display(&self) -> Seq<char> {
        let first = if self.x != 0 {
            self.x
        } else {
            self.y
        };
        let second = if self.x != 0 && self.y != 0 {
            self.y
        } else {
            self.z
        };
        seq![spec_face_letter(self.spec_normal_direction()), spec_file_letter(first)]
            + spec_decimal(second as nat)
    }

    /// The name of a cell whose place on the first axis of its face is at most four, such
    /// as `Yb3`.
    pub fn display(&self) -> (r: String)
        requires
            self.has_normal(),
            self.x != 0 ==> self.x <= 4,
            self.x == 0 ==> self.y <= 4,
        ensures
            r@ == self.spec_display(),
    {
        proof {
            reveal_strlit("X");
            reveal_strlit("x");
            reveal_strlit("Y");
            reveal_strlit("y");
            reveal_strlit("Z");
            reveal_strlit("z");
            reveal_strlit("a");
            reveal_strlit("b");
            reveal_strlit("c");
            reveal_strlit("d");
        }
        let mut output = String::from_str(
            match self.normal_direction() {
                CartesianDirection::X => "X",
                CartesianDirection::NegX => "x",
                CartesianDirection::Y => "Y",
                CartesianDirection::NegY => "y",
                CartesianDirection::Z => "Z",
                CartesianDirection::NegZ => "z",
            },
        );
        let first = if self.x != 0 {
            self.x
        } else {
            self.y
        };
        let second = if self.x != 0 && self.y != 0 {
            self.y
        } else {
            self.z
        };
        output.append(
            if first == 1 {
                "a"
            } else if first == 2 {
                "b"
            } else if first == 3 {
                "c"
            } else {
                "d"
            },
        );
        let number = decimal(second);
        output.append(number.as_str());
        assert(output@ =~= self.spec_display());
        output
    }
}

/// Every step from a cell of the cube ends on a cell of the cube.
pub proof fn lemma_step_stays_on_cube(
    c: CellCoordinates,
    direction: CartesianDirection,
    cube_side_length: u32,
)
    requires
        c.on_cube(cube_side_length),
    ensures
        c.spec_get_cell_in_direction(direction, cube_side_length) matches Some((next, _))
            ==> next.on_cube(cube_side_length),
{
}

/// Every step along a walk round the cube, every diagonal and every reflection through the
/// centre lead from a cell of the cube to a cell of the cube.
pub proof fn lemma_moves_stay_on_cube(
    c: CellCoordinates,
    diagonal: (CartesianDirection, CartesianDirection),
    radial: RadialDirection,
    cube_side_length: u32,
)
    requires
        c.on_cube(cube_side_length),
    ensures
        c.spec_get_cell_in_radial_direction(radial, cube_side_length) matches Some((next, _))
            ==> next.on_cube(cube_side_length),
        c.spec_get_diagonal(diagonal, cube_side_length) matches Some((next, _))
            ==> next.on_cube(cube_side_length),
        c.spec_opposite(cube_side_length).on_cube(cube_side_length),
{
    match radial.spec_to_cartesian_direction(c.spec_normal_direction()) {
        Some(direction) => {
            lemma_step_stays_on_cube(c, direction, cube_side_length);
        },
        None => {},
    }
    lemma_step_stays_on_cube(c, diagonal.0, cube_side_length);
    match c.spec_get_cell_in_direction(diagonal.0, cube_side_length) {
        Some((first, _)) => {
            lemma_step_stays_on_cube(first, diagonal.1, cube_side_length);
        },
        None => {},
    }
}

/// A step can be taken back. After a step that stayed on its face, the step in the opposite
/// direction returns to the start; after one that crossed an edge, the step in the direction
/// of the face that was left does, and crosses the same edge.
pub proof fn lemma_step_round_trip(
    c: CellCoordinates,
    direction: CartesianDirection,
    cube_side_length: u32,
)
    requires
        c.on_cube(cube_side_length),
    ensures
        c.spec_get_cell_in_direction(direction, cube_side_length) matches Some((next, crossed))
            ==> next.spec_get_cell_in_direction(
            if crossed {
                c.spec_normal_direction()
            } else {
                direction.spec_opposite()
            },
            cube_side_length,
        ) == Some((c, crossed)),
        c.spec_get_cell_in_direction(direction, cube_side_length) matches Some((next, crossed))
            ==> (crossed ==> next.spec_normal_direction() == direction),
{
}

/// Reflecting a cell through the centre of the cube twice gives the cell back.
pub proof fn lemma_opposite_involution(c: CellCoordinates, cube_side_length: u32)
    requires
        c.within(cube_side_length),
    ensures
        c.spec_opposite(cube_side_length).spec_opposite(cube_side_length) == c,
{
}

/// Two steps that both cross an edge never make a diagonal.
pub proof fn lemma_diagonal_excludes_corner(
    c: CellCoordinates,
    diagonal: (CartesianDirection, CartesianDirection),
    cube_side_length: u32,
)
    ensures
        (c.spec_get_cell_in_direction(diagonal.0, cube_side_length) matches Some((first, true))
            && first.spec_get_cell_in_direction(diagonal.1, cube_side_length) matches Some(
            (_, true),
        )) ==> c.spec_get_diagonal(diagonal, cube_side_length) is None,
        c.spec_get_diagonal(diagonal, cube_side_length) matches Some((next, crossed)) ==> {
            let first = c.spec_get_cell_in_direction(diagonal.0, cube_side_length).unwrap();
            let second = first.0.spec_get_cell_in_direction(diagonal.1, cube_side_length).unwrap();
            &&& next == second.0
            &&& crossed == (first.1 != second.1)
        },
{
}

/// A walk round the cube never leaves its ring: after a step, the rotation axis still does
/// not pass through the face, so the next step exists.
pub proof fn lemma_radial_step_stays_on_ring(
    c: CellCoordinates,
    radial: RadialDirection,
    cube_side_length: u32,
)
    requires
        c.has_normal(),
        cube_side_length > 0,
    ensures
        c.spec_get_cell_in_radial_direction(radial, cube_side_length) matches Some((next, _))
            ==> next.has_normal() && next.spec_get_cell_in_radial_direction(
            radial,
            cube_side_length,
        ) is Some,
{
    crate::direction::lemma_cross_antisymmetric(
        c.spec_normal_direction(),
        radial.spec_rotation_axis(),
    );
    match c.spec_get_cell_in_radial_direction(radial, cube_side_length) {
        Some((next, _)) => {
            crate::direction::lemma_cross_antisymmetric(
                next.spec_normal_direction(),
                radial.spec_rotation_axis(),
            );
        },
        None => {},
    }
}

} // verus!
