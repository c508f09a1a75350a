//! The cells that make up the surface of the cube, face by face.

use crate::board::CellColor;
use crate::cell::CellCoordinates;
use vstd::prelude::*;

verus! {

/// The largest side length for which the cells of a face can be counted in a `u32`.
pub const MAX_SIDE_LENGTH: u32 = 0xffff;

/// One of two shades in a chequered pattern: the first where the cell's number is even, or,
/// on a cube with an even side length, where the number of its row and the number itself
/// are both even or both odd; the second elsewhere. With `switch_colors` the two shades
/// change places.
pub open spec fn spec_choose_color(
    side_length: u32,
    i: u32,
    c1: CellColor,
    c2: CellColor,
    switch_colors: bool,
) -> CellColor {
    let first = if switch_colors {
        c2
    } else {
        c1
    };
    let second = if switch_colors {
        c1
    } else {
        c2
    };
    let chequer = if side_length % 2 == 0 {
        (i / side_length + i % 2) % 2 == 0
    } else {
        i % 2 == 0
    };
    if chequer {
        first
    } else {
        second
    }
}

/// The shade of the cell with number `i` on a face that is chequered in the two shades.
pub fn choose_color(
    side_length: u32,
    i: u32,
    c1: CellColor,
    c2: CellColor,
    switch_colors: bool,
) -> (r: CellColor)
    requires
        side_length > 0,
    ensures
        r == spec_choose_color(side_length, i, c1, c2, switch_colors),
{
    let (first, second) = if switch_colors {
        (c2, c1)
    } else {
        (c1, c2)
    };
    if side_length % 2 == 0 {
        assert(i / side_length <= 0x7fff_ffff) by (nonlinear_arith)
            requires
                side_length >= 2,
                i <= 0xffff_ffff,
        ;
        if (i / side_length + i % 2) % 2 == 0 {
            first
        } else {
            second
        }
    } else {
        if i % 2 == 0 {
            first
        } else {
            second
        }
    }
}

/// The cell with number `i` on the face with number `side`, and its shade.
///
/// Faces 0 and 1 are those at right angles to the y axis, 2 and 3 to the z axis, 4 and 5 to
/// the x axis. On each face the cells are counted row by row, the first of the face's two
/// axes running along a row. The pairs of shades are bright and middle, dark and bright,
/// middle and dark.
pub open spec fn spec_surface_cell(side_length: u32, side: u32, i: u32) -> (
    CellCoordinates,
    CellColor,
) {
    let along = (i % side_length + 1) as u32;
    let across = (i / side_length % side_length + 1) as u32;
    if side < 2 {
        (
            CellCoordinates { x: along, y: 0, z: across, normal_is_positive: side % 2 == 0 },
            spec_choose_color(side_length, i, CellColor::Bright, CellColor::Mid, side % 2 == 0),
        )
    } else if side < 4 {
        (
            CellCoordinates { x: along, y: across, z: 0, normal_is_positive: side % 2 == 1 },
            spec_choose_color(side_length, i, CellColor::Dark, CellColor::Bright, side % 2 == 1),
        )
    } else {
        (
            CellCoordinates { x: 0, y: across, z: along, normal_is_positive: side % 2 == 0 },
            spec_choose_color(side_length, i, CellColor::Mid, CellColor::Dark, side % 2 == 0),
        )
    }
}

/// The cell with number `i` on the face with number `side`, and its shade.
pub fn surface_cell(side_length: u32, side: u32, i: u32) -> (r: (CellCoordinates, CellColor))
    requires
        side_length > 0,
        side < 6,
    ensures
        r == spec_surface_cell(side_length, side, i),
        r.0.on_cube(side_length),
{
    let along = i % side_length + 1;
    let across = i / side_length % side_length + 1;
    if side < 2 {
        (
            CellCoordinates::new(along, 0, across, side % 2 == 0),
            choose_color(side_length, i, CellColor::Bright, CellColor::Mid, side % 2 == 0),
        )
    } else if side < 4 {
        (
            CellCoordinates::new(along, across, 0, side % 2 == 1),
            choose_color(side_length, i, CellColor::Dark, CellColor::Bright, side % 2 == 1),
        )
    } else {
        (
            CellCoordinates::new(0, across, along, side % 2 == 0),
            choose_color(side_length, i, CellColor::Mid, CellColor::Dark, side % 2 == 0),
        )
    }
}

/// All the cells of the cube's surface with their shades: face after face, and on each
/// face cell after cell.
pub fn surface_cells(side_length: u32) -> (r: Vec<(CellCoordinates, CellColor)>)
    requires
        0 < side_length <= MAX_SIDE_LENGTH,
    ensures
        r@.len() == 6 * side_length * side_length,
        forall|side: int, i: int|
            0 <= side < 6 && 0 <= i < side_length * side_length ==> #[trigger] r@[side
                * side_length * side_length + i] == spec_surface_cell(
                side_length,
                side as u32,
                i as u32,
            ),
        forall|k: int| 0 <= k < r@.len() ==> (#[trigger] r@[k]).0.on_cube(side_length),
{
    let mut output: Vec<(CellCoordinates, CellColor)> = Vec::new();
    assert(side_length * side_length <= 0xffff * 0xffff) by (nonlinear_arith)
        requires
            0 < side_length <= 0xffff,
    ;
    let per_face: u32 = side_length * side_length;
    let mut side: u32 = 0;
    while side < 6
        invariant
            side <= 6,
            0 < side_length,
            per_face == side_length * side_length,
            per_face <= 0xffff * 0xffff,
            output@.len() == side * per_face,
            forall|s: int, i: int|
                0 <= s < side && 0 <= i < per_face ==> #[trigger] output@[s * per_face + i]
                    == spec_surface_cell(side_length, s as u32, i as u32),
            forall|k: int| 0 <= k < output@.len() ==> (#[trigger] output@[k]).0.on_cube(side_length),
        decreases 6 - side,
    {
        let mut i: u32 = 0;
        while i < per_face
            invariant
                i <= per_face,
                side < 6,
                0 < side_length,
                per_face <= 0xffff * 0xffff,
                output@.len() == side * per_face + i,
                forall|s: int, j: int|
                    0 <= s < side && 0 <= j < per_face ==> #[trigger] output@[s * per_face + j]
                        == spec_surface_cell(side_length, s as u32, j as u32),
                forall|j: int|
                    0 <= j < i ==> #[trigger] output@[side * per_face + j] == spec_surface_cell(
                        side_length,
                        side,
                        j as u32,
                    ),
                forall|k: int|
                    0 <= k < output@.len() ==> (#[trigger] output@[k]).0.on_cube(side_length),
            decreases per_face - i,
        {
            let ghost before = output@;
            output.push(surface_cell(side_length, side, i));
            proof {
                assert forall|s: int, j: int| 0 <= s < side && 0 <= j < per_face implies #[trigger] output@[s
                    * per_face + j] == spec_surface_cell(side_length, s as u32, j as u32) by {
                    assert(s * per_face + j < side * per_face) by (nonlinear_arith)
                        requires
                            0 <= s < side,
                            0 <= j < per_face,
                    ;
                    assert(output@[s * per_face + j] == before[s * per_face + j]);
                }
            }
            i += 1;
        }
        proof {
            assert((side + 1) * per_face == side * per_face + per_face) by (nonlinear_arith);
            assert forall|s: int, j: int| 0 <= s < side + 1 && 0 <= j < per_face implies #[trigger] output@[s
                * per_face + j] == spec_surface_cell(side_length, s as u32, j as u32) by {
                if s == side {
                    assert(output@[side * per_face + j] == spec_surface_cell(
                        side_length,
                        side,
                        j as u32,
                    ));
                }
            }
        }
        side += 1;
    }
    proof {
        assert(6 * per_face == 6 * side_length * side_length) by (nonlinear_arith)
            requires
                per_face == side_length * side_length,
        ;
        assert forall|s: int, i: int|
            0 <= s < 6 && 0 <= i < side_length * side_length implies #[trigger] output@[s
            * side_length * side_length + i] == spec_surface_cell(
            side_length,
            s as u32,
            i as u32,
        ) by {
            assert(s * side_length * side_length == s * per_face) by (nonlinear_arith)
                requires
                    per_face == side_length * side_length,
            ;
            assert(output@[s * per_face + i] == spec_surface_cell(side_length, s as u32, i as u32));
        }
    }
    output
}

/// A cell's number on its face can be read off its coordinates: the value along a row less
/// one, and a full row for each row before.
proof fn lemma_cell_number(side_length: u32, i: u32)
    requires
        side_length > 0,
        i < side_length * side_length,
    ensures
        i == (i / side_length % side_length) * side_length + i % side_length,
        0 <= i % side_length < side_length,
        0 <= i / side_length % side_length < side_length,
{
    let s = side_length as int;
    let x = i as int;
    vstd::arithmetic::div_mod::lemma_fundamental_div_mod(x, s);
    assert(x / s < s) by (nonlinear_arith)
        requires
            x == s * (x / s) + x % s,
            0 <= x % s,
            x < s * s,
            s > 0,
    ;
    assert(0 <= x / s) by (nonlinear_arith)
        requires
            x >= 0,
            s > 0,
    ;
    vstd::arithmetic::div_mod::lemma_small_mod((x / s) as nat, s as nat);
    assert(s * (x / s) == (x / s) * s) by (nonlinear_arith);
}

/// No two cells of the surface have the same coordinates: two numbers of faces and cells
/// that give the same coordinates are the same numbers.
pub proof fn lemma_surface_cells_distinct(
    side_length: u32,
    side_a: u32,
    i_a: u32,
    side_b: u32,
    i_b: u32,
)
    requires
        side_length > 0,
        side_a < 6,
        side_b < 6,
        i_a < side_length * side_length,
        i_b < side_length * side_length,
        spec_surface_cell(side_length, side_a, i_a).0 == spec_surface_cell(
            side_length,
            side_b,
            i_b,
        ).0,
    ensures
        side_a == side_b,
        i_a == i_b,
{
    lemma_cell_number(side_length, i_a);
    lemma_cell_number(side_length, i_b);
}

/// Every cell of a cube whose faces can be counted is a cell of the surface: it has a face
/// number and a cell number.
pub proof fn lemma_surface_cells_cover(side_length: u32, coords: CellCoordinates)
    requires
        coords.on_cube(side_length),
        side_length <= MAX_SIDE_LENGTH,
    ensures
        exists|side: u32, i: u32|
            side < 6 && i < side_length * side_length && (#[trigger] spec_surface_cell(
                side_length,
                side,
                i,
            )).0 == coords,
{
    let s = side_length as int;
    let (side, along, across): (u32, int, int) = if coords.y == 0 {
        (
            if coords.normal_is_positive {
                0u32
            } else {
                1u32
            },
            coords.x as int,
            coords.z as int,
        )
    } else if coords.z == 0 {
        (
            if coords.normal_is_positive {
                3u32
            } else {
                2u32
            },
            coords.x as int,
            coords.y as int,
        )
    } else {
        (
            if coords.normal_is_positive {
                4u32
            } else {
                5u32
            },
            coords.z as int,
            coords.y as int,
        )
    };
    let number = (across - 1) * s + (along - 1);
    assert(0 <= number < s * s) by (nonlinear_arith)
        requires
            1 <= across <= s,
            1 <= along <= s,
            number == (across - 1) * s + (along - 1),
    ;
    vstd::arithmetic::div_mod::lemma_fundamental_div_mod_converse(
        number,
        s,
        across - 1,
        along - 1,
    );
    assert(s * s <= 0xffff * 0xffff) by (nonlinear_arith)
        requires
            0 < s <= 0xffff,
    ;
    let i = number as u32;
    vstd::arithmetic::div_mod::lemma_small_mod((across - 1) as nat, s as nat);
    assert((i / side_length) % side_length == across - 1);
    assert(spec_surface_cell(side_length, side, i).0 == coords);
}

} // verus!
