//! The walks that the movement patterns of the pieces are put together from.

use crate::board::Board;
use crate::cell::CellCoordinates;
use crate::direction::{CartesianDirection, RadialDirection};
use crate::units::{spec_is_unit_at, Unit, Units};
use vstd::prelude::*;

verus! {

/// Whether the list holds the cell.
pub fn contains_cell(cells: &Vec<CellCoordinates>, cell: CellCoordinates) -> (b: bool)
    ensures
        b == cells@.contains(cell),
{
    let mut i: usize = 0;
    while i < cells.len()
        invariant
            i <= cells.len(),
            forall|j: int| 0 <= j < i ==> cells@[j] != cell,
        decreases cells.len() - i,
    {
        if cells[i] == cell {
            return true;
        }
        i += 1;
    }
    false
}

/// The cells that a walk round the cube still reaches from `latest`, with `dist_left` steps
/// and `crossings_left` edge crossings to spend, when the cells in `visited` were reached
/// before.
///
/// The walk ends before a step that does not exist, that returns to a cell reached before,
/// or that would cross one edge too many. It ends before an occupied cell unless
/// `include_other_unit_cells` is set, and on it if it is.
pub open spec fn spec_walk(
    latest: CellCoordinates,
    dist_left: nat,
    crossings_left: nat,
    cube_side_length: u32,
    units: Seq<Unit>,
    direction: RadialDirection,
    include_other_unit_cells: bool,
    visited: Seq<CellCoordinates>,
) -> Seq<CellCoordinates>
    decreases dist_left,
{
    if dist_left == 0 {
        Seq::empty()
    } else {
        match latest.spec_get_cell_in_radial_direction(direction, cube_side_length) {
            None => Seq::empty(),
            Some((next, crossed)) => {
                if visited.contains(next) || (crossed && crossings_left == 0) || (
                !include_other_unit_cells && spec_is_unit_at(units, next)) {
                    Seq::empty()
                } else if spec_is_unit_at(units, next) {
                    seq![next]
                } else {
                    seq![next] + spec_walk(
                        next,
                        (dist_left - 1) as nat,
                        if crossed {
                            (crossings_left - 1) as nat
                        } else {
                            crossings_left
                        },
                        cube_side_length,
                        units,
                        direction,
                        include_other_unit_cells,
                        visited.push(next),
                    )
                }
            },
        }
    }
}

/// A walk reaches no more cells than it has steps to spend.
pub proof fn lemma_walk_len(
    latest: CellCoordinates,
    dist_left: nat,
    crossings_left: nat,
    cube_side_length: u32,
    units: Seq<Unit>,
    direction: RadialDirection,
    include_other_unit_cells: bool,
    visited: Seq<CellCoordinates>,
)
    ensures
        spec_walk(
            latest,
            dist_left,
            crossings_left,
            cube_side_length,
            units,
            direction,
            include_other_unit_cells,
            visited,
        ).len() <= dist_left,
    decreases dist_left,
{
    if dist_left > 0 {
        match latest.spec_get_cell_in_radial_direction(direction, cube_side_length) {
            Some((next, crossed)) => {
                lemma_walk_len(
                    next,
                    (dist_left - 1) as nat,
                    if crossed {
                        (crossings_left - 1) as nat
                    } else {
                        crossings_left
                    },
                    cube_side_length,
                    units,
                    direction,
                    include_other_unit_cells,
                    visited.push(next),
                );
            },
            None => {},
        }
    }
}

/// The cells that a walk from `coords` round the cube reaches.
pub open spec fn spec_get_cells_in_direction(
    coords: CellCoordinates,
    max_dist: u32,
    max_edge_crossings: u32,
    cube_side_length: u32,
    units: Seq<Unit>,
    direction: RadialDirection,
    include_other_unit_cells: bool,
) -> Seq<CellCoordinates> {
    spec_walk(
        coords,
        max_dist as nat,
        max_edge_crossings as nat,
        cube_side_length,
        units,
        direction,
        include_other_unit_cells,
        Seq::empty(),
    )
}

/// The cells reached by walking from `coords` round the cube in the given direction, nearest
/// first: at most `max_dist` steps over at most `max_edge_crossings` edges, up to the first
/// occupied cell. That cell is the last of the list if `include_other_unit_cells` is set and
/// is left out if not.
pub fn get_cells_in_direction(
    coords: CellCoordinates,
    max_dist: u32,
    max_edge_crossings: u32,
    cube_side_length: u32,
    units: &Units,
    direction: RadialDirection,
    include_other_unit_cells: bool,
) -> (r: Vec<CellCoordinates>)
    requires
        coords.has_normal(),
        cube_side_length > 0,
    ensures
        r@ == spec_get_cells_in_direction(
            coords,
            max_dist,
            max_edge_crossings,
            cube_side_length,
            units@,
            direction,
            include_other_unit_cells,
        ),
        r@.len() <= max_dist,
        forall|i: int| 0 <= i < r@.len() ==> (#[trigger] r@[i]).has_normal(),
        coords.on_cube(cube_side_length) ==> forall|i: int|
            0 <= i < r@.len() ==> (#[trigger] r@[i]).on_cube(cube_side_length),
{
    let mut output: Vec<CellCoordinates> = Vec::new();
    let mut latest_cell = coords;
    let mut dist: u32 = 0;
    let mut edge_crossings: u32 = 0;
    let ghost total = spec_get_cells_in_direction(
        coords,
        max_dist,
        max_edge_crossings,
        cube_side_length,
        units@,
        direction,
        include_other_unit_cells,
    );
    assert(output@ + total =~= total);
    while dist < max_dist
        invariant_except_break
            total == output@ + spec_walk(
                latest_cell,
                (max_dist - dist) as nat,
                (max_edge_crossings - edge_crossings) as nat,
                cube_side_length,
                units@,
                direction,
                include_other_unit_cells,
                output@,
            ),
        invariant
            dist <= max_dist,
            edge_crossings <= max_edge_crossings,
            cube_side_length > 0,
            latest_cell.has_normal(),
            coords.on_cube(cube_side_length) ==> latest_cell.on_cube(cube_side_length),
            output@.len() == dist,
            forall|i: int| 0 <= i < output@.len() ==> (#[trigger] output@[i]).has_normal(),
            coords.on_cube(cube_side_length) ==> forall|i: int|
                0 <= i < output@.len() ==> (#[trigger] output@[i]).on_cube(cube_side_length),
        ensures
            total == output@,
        decreases max_dist - dist,
    {
        let next_cell = match latest_cell.get_cell_in_radial_direction(
            direction,
            cube_side_length,
        ) {
            None => {
                assert(output@ + Seq::<CellCoordinates>::empty() =~= output@);
                break ;
            },
            Some(next_cell) => next_cell,
        };
        if contains_cell(&output, next_cell.0) {
            assert(output@ + Seq::<CellCoordinates>::empty() =~= output@);
            break ;
        }
        if next_cell.1 && edge_crossings >= max_edge_crossings {
            assert(output@ + Seq::<CellCoordinates>::empty() =~= output@);
            break ;
        }
        let occupied = units.is_unit_at(next_cell.0);
        if !include_other_unit_cells && occupied {
            assert(output@ + Seq::<CellCoordinates>::empty() =~= output@);
            break ;
        }
        let ghost before = output@;
        output.push(next_cell.0);
        dist += 1;
        if next_cell.1 {
            edge_crossings += 1;
        }
        if occupied {
            assert(before + seq![next_cell.0] =~= output@);
            break ;
        }
        proof {
            let rest = spec_walk(
                next_cell.0,
                (max_dist - dist) as nat,
                (max_edge_crossings - edge_crossings) as nat,
                cube_side_length,
                units@,
                direction,
                include_other_unit_cells,
                output@,
            );
            assert(before + (seq![next_cell.0] + rest) =~= output@ + rest);
        }
        latest_cell = next_cell.0;
    }
    proof {
        if dist >= max_dist {
            assert(output@ + Seq::<CellCoordinates>::empty() =~= output@);
        }
    }
    output
}

/// The cells of the first `n` walks of `get_straight`, one walk after the other.
pub open spec fn spec_straight_upto(
    n: nat,
    coords: CellCoordinates,
    max_dist: u32,
    max_edge_crossings: u32,
    cube_side_length: u32,
    units: Seq<Unit>,
) -> Seq<CellCoordinates>
    decreases n,
{
    if n == 0 {
        Seq::empty()
    } else {
        spec_straight_upto(
            (n - 1) as nat,
            coords,
            max_dist,
            max_edge_crossings,
            cube_side_length,
            units,
        ) + spec_get_cells_in_direction(
            coords,
            max_dist,
            max_edge_crossings,
            cube_side_length,
            units,
            RadialDirection::spec_directions()[n - 1],
            true,
        )
    }
}

/// The cells in straight lines from `coords`: the walks in the six directions of
/// `RadialDirection::directions`, one after the other.
pub open spec fn spec_get_straight(
    coords: CellCoordinates,
    max_dist: u32,
    max_edge_crossings: u32,
    cube_side_length: u32,
    units: Seq<Unit>,
) -> Seq<CellCoordinates> {
    spec_straight_upto(6, coords, max_dist, max_edge_crossings, cube_side_length, units)
}

/// The cells in straight lines from `coords`, each line up to and including the first
/// occupied cell.
pub fn get_straight(
    coords: CellCoordinates,
    max_dist: u32,
    max_edge_crossings: u32,
    cube_side_length: u32,
    units: &Units,
) -> (r: Vec<CellCoordinates>)
    requires
        coords.has_normal(),
        cube_side_length > 0,
    ensures
        r@ == spec_get_straight(coords, max_dist, max_edge_crossings, cube_side_length, units@),
        forall|i: int| 0 <= i < r@.len() ==> (#[trigger] r@[i]).has_normal(),
        coords.on_cube(cube_side_length) ==> forall|i: int|
            0 <= i < r@.len() ==> (#[trigger] r@[i]).on_cube(cube_side_length),
{
    let mut output: Vec<CellCoordinates> = Vec::new();
    let directions = RadialDirection::directions();
    let mut k: usize = 0;
    while k < 6
        invariant
            k <= 6,
            coords.has_normal(),
            cube_side_length > 0,
            directions@ == RadialDirection::spec_directions(),
            output@ == spec_straight_upto(
                k as nat,
                coords,
                max_dist,
                max_edge_crossings,
                cube_side_length,
                units@,
            ),
            forall|i: int| 0 <= i < output@.len() ==> (#[trigger] output@[i]).has_normal(),
            coords.on_cube(cube_side_length) ==> forall|i: int|
                0 <= i < output@.len() ==> (#[trigger] output@[i]).on_cube(cube_side_length),
        decreases 6 - k,
    {
        let mut cells = get_cells_in_direction(
            coords,
            max_dist,
            max_edge_crossings,
            cube_side_length,
            units,
            directions[k],
            true,
        );
        output.append(&mut cells);
        k += 1;
    }
    output
}

/// The cells that a diagonal walk still reaches from `latest`, with `dist_left` steps and
/// `crossings_left` edge crossings to spend, when the cells in `visited` were reached before.
///
/// The walk ends before a step that does not exist, that leads to a cell reached before, or
/// that would cross one edge too many, and it ends on the first occupied cell.
pub open spec fn spec_diagonal_walk(
    latest: CellCoordinates,
    dist_left: nat,
    crossings_left: nat,
    cube_side_length: u32,
    units: Seq<Unit>,
    diagonal: (CartesianDirection, CartesianDirection),
    visited: Seq<CellCoordinates>,
) -> Seq<CellCoordinates>
    decreases dist_left,
{
    if dist_left == 0 {
        Seq::empty()
    } else {
        match latest.spec_get_diagonal(diagonal, cube_side_length) {
            None => Seq::empty(),
            Some((next, crossed)) => {
                if visited.contains(next) || (crossed && crossings_left == 0) {
                    Seq::empty()
                } else if spec_is_unit_at(units, next) {
                    seq![next]
                } else {
                    seq![next] + spec_diagonal_walk(
                        next,
                        (dist_left - 1) as nat,
                        if crossed {
                            (crossings_left - 1) as nat
                        } else {
                            crossings_left
                        },
                        cube_side_length,
                        units,
                        diagonal,
                        visited.push(next),
                    )
                }
            },
        }
    }
}

/// The cells of the first `n` diagonal walks of `get_diagonals`. Each walk counts the cells
/// of the walks before it as reached.
pub open spec fn spec_diagonals_upto(
    n: nat,
    coords: CellCoordinates,
    max_dist: u32,
    max_edge_crossings: u32,
    cube_side_length: u32,
    units: Seq<Unit>,
) -> Seq<CellCoordinates>
    decreases n,
{
    if n == 0 {
        Seq::empty()
    } else {
        let before = spec_diagonals_upto(
            (n - 1) as nat,
            coords,
            max_dist,
            max_edge_crossings,
            cube_side_length,
            units,
        );
        before + spec_diagonal_walk(
            coords,
            max_dist as nat,
            max_edge_crossings as nat,
            cube_side_length,
            units,
            CartesianDirection::spec_diagonals()[n - 1],
            before,
        )
    }
}

/// The cells on diagonals from `coords`: the walks along the twelve diagonals of
/// `CartesianDirection::diagonals`, one after the other.
pub open spec fn spec_get_diagonals(
    coords: CellCoordinates,
    max_dist: u32,
    max_edge_crossings: u32,
    cube_side_length: u32,
    units: Seq<Unit>,
) -> Seq<CellCoordinates> {
    spec_diagonals_upto(12, coords, max_dist, max_edge_crossings, cube_side_length, units)
}

/// The cells on diagonals from `coords`, each diagonal up to and including the first occupied
/// cell, and no cell twice.
pub fn get_diagonals(
    coords: CellCoordinates,
    max_dist: u32,
    max_edge_crossings: u32,
    cube_side_length: u32,
    units: &Units,
) -> (r: Vec<CellCoordinates>)
    requires
        coords.has_normal(),
        cube_side_length > 0,
    ensures
        r@ == spec_get_diagonals(coords, max_dist, max_edge_crossings, cube_side_length, units@),
        r@.no_duplicates(),
        forall|i: int| 0 <= i < r@.len() ==> (#[trigger] r@[i]).has_normal(),
        coords.on_cube(cube_side_length) ==> forall|i: int|
            0 <= i < r@.len() ==> (#[trigger] r@[i]).on_cube(cube_side_length),
{
    let mut output: Vec<CellCoordinates> = Vec::new();
    let diagonals = CartesianDirection::diagonals();
    let mut k: usize = 0;
    while k < 12
        invariant
            k <= 12,
            coords.has_normal(),
            cube_side_length > 0,
            diagonals@ == CartesianDirection::spec_diagonals(),
            output@ == spec_diagonals_upto(
                k as nat,
                coords,
                max_dist,
                max_edge_crossings,
                cube_side_length,
                units@,
            ),
            output@.no_duplicates(),
            forall|i: int| 0 <= i < output@.len() ==> (#[trigger] output@[i]).has_normal(),
            coords.on_cube(cube_side_length) ==> forall|i: int|
                0 <= i < output@.len() ==> (#[trigger] output@[i]).on_cube(cube_side_length),
        decreases 12 - k,
    {
        let diagonal = diagonals[k];
        let mut latest_cell = coords;
        let mut dist: u32 = 0;
        let mut edge_crossings: u32 = 0;
        let ghost before = output@;
        let ghost total = before + spec_diagonal_walk(
            coords,
            max_dist as nat,
            max_edge_crossings as nat,
            cube_side_length,
            units@,
            diagonal,
            before,
        );
        while dist < max_dist
            invariant_except_break
                total == output@ + spec_diagonal_walk(
                    latest_cell,
                    (max_dist - dist) as nat,
                    (max_edge_crossings - edge_crossings) as nat,
                    cube_side_length,
                    units@,
                    diagonal,
                    output@,
                ),
            invariant
                dist <= max_dist,
                edge_crossings <= max_edge_crossings,
                cube_side_length > 0,
                latest_cell.has_normal(),
                coords.on_cube(cube_side_length) ==> latest_cell.on_cube(cube_side_length),
                output@.no_duplicates(),
                forall|i: int| 0 <= i < output@.len() ==> (#[trigger] output@[i]).has_normal(),
                coords.on_cube(cube_side_length) ==> forall|i: int|
                    0 <= i < output@.len() ==> (#[trigger] output@[i]).on_cube(cube_side_length),
            ensures
                total == output@,
            decreases max_dist - dist,
        {
            let next_cell = match latest_cell.get_diagonal(diagonal, cube_side_length) {
                None => {
                    assert(output@ + Seq::<CellCoordinates>::empty() =~= output@);
                    break ;
                },
                Some(next_cell) => next_cell,
            };
            if contains_cell(&output, next_cell.0) {
                assert(output@ + Seq::<CellCoordinates>::empty() =~= output@);
                break ;
            }
            if next_cell.1 && edge_crossings >= max_edge_crossings {
                assert(output@ + Seq::<CellCoordinates>::empty() =~= output@);
                break ;
            }
            let ghost earlier = output@;
            output.push(next_cell.0);
            dist += 1;
            if next_cell.1 {
                edge_crossings += 1;
            }
            if units.is_unit_at(next_cell.0) {
                assert(earlier + seq![next_cell.0] =~= output@);
                break ;
            }
            proof {
                let rest = spec_diagonal_walk(
                    next_cell.0,
                    (max_dist - dist) as nat,
                    (max_edge_crossings - edge_crossings) as nat,
                    cube_side_length,
                    units@,
                    diagonal,
                    output@,
                );
                assert(earlier + (seq![next_cell.0] + rest) =~= output@ + rest);
            }
            latest_cell = next_cell.0;
        }
        proof {
            if dist >= max_dist {
                assert(output@ + Seq::<CellCoordinates>::empty() =~= output@);
            }
        }
        k += 1;
    }
    output
}

/// The landing cells of the knight's leaps that start along one walk round the cube: two
/// steps along the walk, then one step to either side, first up and then down the axis of
/// the rotation. A leap is left out if it crosses more edges than allowed.
pub open spec fn spec_knight_leaps(
    coords: CellCoordinates,
    max_edge_crossings: u32,
    cube_side_length: u32,
    radial_direction: RadialDirection,
) -> Seq<CellCoordinates> {
    match coords.spec_get_cell_in_radial_direction(radial_direction, cube_side_length) {
        None => Seq::empty(),
        Some((one, first_crossed)) => {
            let (two, second_crossed) = one.spec_get_cell_in_radial_direction(
                radial_direction,
                cube_side_length,
            ).unwrap();
            let edge_crossings = (if first_crossed {
                1int
            } else {
                0
            }) + (if second_crossed {
                1int
            } else {
                0
            });
            let side = radial_direction.spec_rotation_axis().spec_abs();
            if edge_crossings > max_edge_crossings {
                Seq::empty()
            } else {
                spec_knight_landing(two, side, edge_crossings, max_edge_crossings, cube_side_length)
                    + spec_knight_landing(
                    two,
                    side.spec_opposite(),
                    edge_crossings,
                    max_edge_crossings,
                    cube_side_length,
                )
            }
        },
    }
}

/// The cell one step to the side at the end of a knight's leap, unless that step crosses one
/// edge too many.
pub open spec fn spec_knight_landing(
    two: CellCoordinates,
    side: CartesianDirection,
    edge_crossings: int,
    max_edge_crossings: u32,
    cube_side_length: u32,
) -> Seq<CellCoordinates> {
    let (endpoint, crossed) = two.spec_get_cell_in_direction(side, cube_side_length).unwrap();
    if crossed && edge_crossings + 1 > max_edge_crossings {
        Seq::empty()
    } else {
        seq![endpoint]
    }
}

/// The landing cells of the leaps along the first `n` walks of `get_knight_moves`.
pub open spec fn spec_knight_moves_upto(
    n: nat,
    coords: CellCoordinates,
    max_edge_crossings: u32,
    cube_side_length: u32,
) -> Seq<CellCoordinates>
    decreases n,
{
    if n == 0 {
        Seq::empty()
    } else {
        spec_knight_moves_upto((n - 1) as nat, coords, max_edge_crossings, cube_side_length)
            + spec_knight_leaps(
            coords,
            max_edge_crossings,
            cube_side_length,
            RadialDirection::spec_directions()[n - 1],
        )
    }
}

/// The landing cells of all the knight's leaps from `coords`.
pub open spec fn spec_get_knight_moves(
    coords: CellCoordinates,
    max_edge_crossings: u32,
    cube_side_length: u32,
) -> Seq<CellCoordinates> {
    spec_knight_moves_upto(6, coords, max_edge_crossings, cube_side_length)
}

/// The cells a knight's leap away from `coords`: for each walk round the cube that passes
/// through the cell, two steps along it and one to either side, over at most
/// `max_edge_crossings` edges in all.
pub fn get_knight_moves(
    coords: CellCoordinates,
    max_edge_crossings: u32,
    cube_side_length: u32,
) -> (r: Vec<CellCoordinates>)
    requires
        coords.has_normal(),
        cube_side_length > 0,
    ensures
        r@ == spec_get_knight_moves(coords, max_edge_crossings, cube_side_length),
        r@.len() <= 8,
        forall|i: int| 0 <= i < r@.len() ==> (#[trigger] r@[i]).has_normal(),
        coords.on_cube(cube_side_length) ==> forall|i: int|
            0 <= i < r@.len() ==> (#[trigger] r@[i]).on_cube(cube_side_length),
{
    let mut output: Vec<CellCoordinates> = Vec::new();
    let directions = RadialDirection::directions();
    let mut k: usize = 0;
    let ghost mut walks: int = 0;
    while k < 6
        invariant
            k <= 6,
            coords.has_normal(),
            cube_side_length > 0,
            directions@ == RadialDirection::spec_directions(),
            output@ == spec_knight_moves_upto(
                k as nat,
                coords,
                max_edge_crossings,
                cube_side_length,
            ),
            walks == spec_walks_before(coords.spec_normal_direction(), k as int),
            output@.len() <= 2 * walks,
            forall|i: int| 0 <= i < output@.len() ==> (#[trigger] output@[i]).has_normal(),
            coords.on_cube(cube_side_length) ==> forall|i: int|
                0 <= i < output@.len() ==> (#[trigger] output@[i]).on_cube(cube_side_length),
        decreases 6 - k,
    {
        let radial_direction = directions[k];
        proof {
            lemma_walks_before(coords.spec_normal_direction(), k as int);
        }
        k += 1;
        let ghost before = output@;
        let one = match coords.get_cell_in_radial_direction(radial_direction, cube_side_length) {
            None => {
                assert(before + Seq::<CellCoordinates>::empty() =~= before);
                continue ;
            },
            Some(one) => one,
        };
        proof {
            walks = walks + 1;
            crate::cell::lemma_radial_step_stays_on_ring(
                coords,
                radial_direction,
                cube_side_length,
            );
        }
        let mut edge_crossings: u32 = 0;
        if one.1 {
            edge_crossings += 1;
        }
        let two = match one.0.get_cell_in_radial_direction(radial_direction, cube_side_length) {
            None => {
                assert(false);
                continue ;
            },
            Some(two) => two,
        };
        if two.1 {
            edge_crossings += 1;
        }
        let forward = match radial_direction.to_cartesian_direction(coords.normal_direction()) {
            None => {
                assert(false);
                continue ;
            },
            Some(forward) => forward,
        };
        let left_right_axis = match forward.get_perpendicular_axis(coords.normal_direction()) {
            None => {
                assert(false);
                continue ;
            },
            Some(axis) => axis,
        };
        assert(left_right_axis == radial_direction.spec_rotation_axis().spec_abs());
        if edge_crossings > max_edge_crossings {
            assert(before + Seq::<CellCoordinates>::empty() =~= before);
            continue ;
        }
        let sides = [left_right_axis, left_right_axis.opposite()];
        let mut s: usize = 0;
        while s < 2
            invariant
                s <= 2,
                cube_side_length > 0,
                edge_crossings <= 2,
                two.0.has_normal(),
                coords.on_cube(cube_side_length) ==> two.0.on_cube(cube_side_length),
                !radial_direction.spec_rotation_axis().spec_is_parallel_to(
                    two.0.spec_normal_direction(),
                ),
                left_right_axis == radial_direction.spec_rotation_axis().spec_abs(),
                sides@ =~= seq![left_right_axis, left_right_axis.spec_opposite()],
                output@ == before + (if s >= 1 {
                    spec_knight_landing(
                        two.0,
                        left_right_axis,
                        edge_crossings as int,
                        max_edge_crossings,
                        cube_side_length,
                    )
                } else {
                    Seq::empty()
                }) + (if s >= 2 {
                    spec_knight_landing(
                        two.0,
                        left_right_axis.spec_opposite(),
                        edge_crossings as int,
                        max_edge_crossings,
                        cube_side_length,
                    )
                } else {
                    Seq::empty()
                }),
                output@.len() <= before.len() + s,
                forall|i: int| 0 <= i < output@.len() ==> (#[trigger] output@[i]).has_normal(),
                coords.on_cube(cube_side_length) ==> forall|i: int|
                    0 <= i < output@.len() ==> (#[trigger] output@[i]).on_cube(cube_side_length),
            decreases 2 - s,
        {
            let direction_2 = sides[s];
            s += 1;
            let endpoint = match two.0.get_cell_in_direction(direction_2, cube_side_length) {
                None => {
                    assert(false);
                    continue ;
                },
                Some(endpoint) => endpoint,
            };
            if endpoint.1 && edge_crossings + 1 > max_edge_crossings {
                continue ;
            }
            output.push(endpoint.0);
        }
        proof {
            let first = spec_knight_landing(
                two.0,
                left_right_axis,
                edge_crossings as int,
                max_edge_crossings,
                cube_side_length,
            );
            let second = spec_knight_landing(
                two.0,
                left_right_axis.spec_opposite(),
                edge_crossings as int,
                max_edge_crossings,
                cube_side_length,
            );
            assert(before + first + second =~= before + (first + second));
        }
    }
    proof {
        lemma_walks_before(coords.spec_normal_direction(), 6);
    }
    output
}

/// How many of the first `k` walks of `RadialDirection::directions` pass through the face
/// with the given normal.
pub open spec fn spec_walks_before(normal: CartesianDirection, k: int) -> int {
    CellCoordinates::spec_face_directions_before(normal, k)
}

/// Four of the six walks round the cube pass through any one face.
proof fn lemma_walks_before(normal: CartesianDirection, k: int)
    ensures
        spec_walks_before(normal, 0) == 0,
        spec_walks_before(normal, 6) == 4,
        0 <= k < 6 ==> spec_walks_before(normal, k + 1) == spec_walks_before(normal, k) + (
        if RadialDirection::spec_directions()[k].spec_rotation_axis().spec_is_parallel_to(normal) {
            0int
        } else {
            1int
        }),
{
    let s = RadialDirection::spec_directions();
    assert(s[0] == RadialDirection::ClockwiseX && s[1] == RadialDirection::CounterX);
    assert(s[2] == RadialDirection::ClockwiseY && s[3] == RadialDirection::CounterY);
    assert(s[4] == RadialDirection::ClockwiseZ && s[5] == RadialDirection::CounterZ);
}

/// Whether `cell` can be reached from `start` in at most `dist` steps, each to a cell next
/// to the one before.
pub open spec fn spec_within_dist(
    start: CellCoordinates,
    cell: CellCoordinates,
    dist: nat,
    cube_side_length: u32,
) -> bool
    decreases dist,
{
    if dist == 0 {
        cell == start
    } else {
        spec_within_dist(start, cell, (dist - 1) as nat, cube_side_length) || exists|
            before: CellCoordinates,
        |
            spec_within_dist(start, before, (dist - 1) as nat, cube_side_length)
                && #[trigger] before.spec_get_adjacent(cube_side_length).contains(cell)
    }
}

/// Where one more step reaches no new cell, no number of further steps does.
pub proof fn lemma_within_dist_closed(
    start: CellCoordinates,
    cell: CellCoordinates,
    dist: nat,
    more: nat,
    cube_side_length: u32,
)
    requires
        forall|c: CellCoordinates|
            spec_within_dist(start, c, dist + 1, cube_side_length) ==> spec_within_dist(
                start,
                c,
                dist,
                cube_side_length,
            ),
        spec_within_dist(start, cell, dist + more, cube_side_length),
    ensures
        spec_within_dist(start, cell, dist, cube_side_length),
    decreases more,
{
    if more > 0 {
        if !spec_within_dist(start, cell, (dist + more - 1) as nat, cube_side_length) {
            let before = choose|before: CellCoordinates|
                spec_within_dist(start, before, (dist + more - 1) as nat, cube_side_length)
                    && #[trigger] before.spec_get_adjacent(cube_side_length).contains(cell);
            lemma_within_dist_closed(start, before, dist, (more - 1) as nat, cube_side_length);
            assert(spec_within_dist(start, cell, dist + 1, cube_side_length));
        } else {
            lemma_within_dist_closed(start, cell, dist, (more - 1) as nat, cube_side_length);
        }
    }
}

/// Whether the cells are listed nearer ones first: every cell is within each distance of
/// `start` that a later cell of the list is within.
pub open spec fn spec_nearer_first(
    cells: Seq<CellCoordinates>,
    start: CellCoordinates,
    cube_side_length: u32,
) -> bool {
    forall|i: int, j: int, dist: nat|
        #![trigger cells[i], spec_within_dist(start, cells[j], dist, cube_side_length)]
        0 <= i < j < cells.len() && spec_within_dist(start, cells[j], dist, cube_side_length)
            ==> spec_within_dist(start, cells[i], dist, cube_side_length)
}

/// The cells that can be reached from `coords` in at most `max_dist` steps over the
/// surface of the cube, each once, nearer cells before farther ones and `coords` itself
/// first.
pub fn get_cells_max_dist(coords: CellCoordinates, max_dist: u32, board: &Board) -> (r: Vec<
    CellCoordinates,
>)
    requires
        coords.has_normal(),
        board.cube_side_length() > 0,
    ensures
        r@.len() > 0,
        r@[0] == coords,
        r@.no_duplicates(),
        forall|cell: CellCoordinates|
            r@.contains(cell) <==> spec_within_dist(
                coords,
                cell,
                max_dist as nat,
                board.cube_side_length(),
            ),
        spec_nearer_first(r@, coords, board.cube_side_length()),
        forall|i: int| 0 <= i < r@.len() ==> (#[trigger] r@[i]).has_normal(),
{
    let cube_side_length = board.cube_side_length();
    let mut output: Vec<CellCoordinates> = Vec::new();
    output.push(coords);
    let mut level_start: usize = 0;
    let mut dist: u32 = 0;
    let ghost mut closed = false;
    assert forall|cell: CellCoordinates| output@.contains(cell) <==> spec_within_dist(
        coords,
        cell,
        0,
        cube_side_length,
    ) by {
        if cell == coords {
            assert(output@[0] == cell);
        }
    }
    while dist < max_dist
        invariant_except_break
            !closed,
        invariant
            dist <= max_dist,
            cube_side_length > 0,
            level_start <= output@.len(),
            output@.len() > 0,
            output@[0] == coords,
            output@.no_duplicates(),
            spec_nearer_first(output@, coords, cube_side_length),
            dist == 0 ==> level_start == 0,
            forall|i: int| 0 <= i < output@.len() ==> (#[trigger] output@[i]).has_normal(),
            forall|cell: CellCoordinates|
                output@.contains(cell) <==> spec_within_dist(
                    coords,
                    cell,
                    dist as nat,
                    cube_side_length,
                ),
            forall|i: int|
                0 <= i < level_start ==> spec_within_dist(
                    coords,
                    #[trigger] output@[i],
                    (dist - 1) as nat,
                    cube_side_length,
                ),
            closed ==> level_start == output@.len() && dist > 0,
        ensures
            closed || dist == max_dist,
        decreases max_dist - dist,
    {
        let level_end = output.len();
        if level_start == level_end {
            proof {
                closed = true;
            }
            break ;
        }
        let ghost reached = output@;
        proof {
            assert(output@.subrange(0, level_end as int) =~= reached);
            assert forall|i: int| 0 <= i < output@.len() implies spec_within_dist(
                coords,
                #[trigger] output@[i],
                (dist + 1) as nat,
                cube_side_length,
            ) by {
                assert(output@.contains(output@[i]));
            }
        }
        let mut index = level_start;
        while index < level_end
            invariant
                level_start <= index <= level_end,
                level_end == reached.len(),
                level_end <= output@.len(),
                cube_side_length > 0,
                dist < max_dist,
                output@.subrange(0, level_end as int) == reached,
                output@.no_duplicates(),
                spec_nearer_first(output@, coords, cube_side_length),
                forall|i: int| 0 <= i < output@.len() ==> (#[trigger] output@[i]).has_normal(),
                forall|cell: CellCoordinates|
                    reached.contains(cell) <==> spec_within_dist(
                        coords,
                        cell,
                        dist as nat,
                        cube_side_length,
                    ),
                forall|i: int|
                    0 <= i < output@.len() ==> spec_within_dist(
                        coords,
                        #[trigger] output@[i],
                        (dist + 1) as nat,
                        cube_side_length,
                    ),
                forall|i: int, cell: CellCoordinates|
                    level_start <= i < index && #[trigger] reached[i].spec_get_adjacent(
                        cube_side_length,
                    ).contains(cell) ==> output@.contains(cell),
            decreases level_end - index,
        {
            let from = output[index];
            assert(from == reached[index as int]) by {
                assert(output@.subrange(0, level_end as int)[index as int] == output@[index as int]);
            }
            assert(reached.contains(from));
            let adjacent = from.get_adjacent(cube_side_length);
            let mut a: usize = 0;
            while a < 4
                invariant
                    a <= 4,
                    index < level_end,
                    level_end == reached.len(),
                    level_end <= output@.len(),
                    from.has_normal(),
                    cube_side_length > 0,
                    adjacent@ == from.spec_get_adjacent(cube_side_length),
                    forall|i: int| 0 <= i < 4 ==> (#[trigger] adjacent@[i]).has_normal(),
                    spec_within_dist(coords, from, dist as nat, cube_side_length),
                    output@.subrange(0, level_end as int) == reached,
                    output@.no_duplicates(),
                    spec_nearer_first(output@, coords, cube_side_length),
                    forall|cell: CellCoordinates|
                        spec_within_dist(coords, cell, dist as nat, cube_side_length)
                            ==> reached.contains(cell),
                    forall|i: int| 0 <= i < output@.len() ==> (#[trigger] output@[i]).has_normal(),
                    forall|i: int|
                        0 <= i < output@.len() ==> spec_within_dist(
                            coords,
                            #[trigger] output@[i],
                            (dist + 1) as nat,
                            cube_side_length,
                        ),
                    forall|i: int, cell: CellCoordinates|
                        level_start <= i < index && #[trigger] reached[i].spec_get_adjacent(
                            cube_side_length,
                        ).contains(cell) ==> output@.contains(cell),
                    forall|i: int| 0 <= i < a ==> output@.contains(#[trigger] adjacent@[i]),
                decreases 4 - a,
            {
                let next = adjacent[a];
                let ghost before = output@;
                if !contains_cell(&output, next) {
                    output.push(next);
                    proof {
                        assert(from.spec_get_adjacent(cube_side_length).contains(next)) by {
                            assert(adjacent@[a as int] == next);
                        }
                        assert(spec_within_dist(
                            coords,
                            next,
                            (dist + 1) as nat,
                            cube_side_length,
                        ));
                        assert(output@.subrange(0, level_end as int) =~= before.subrange(
                            0,
                            level_end as int,
                        ));
                        assert forall|i: int, j: int, far: nat|
                            #![trigger output@[i], spec_within_dist(coords, output@[j], far, cube_side_length)]
                            0 <= i < j < output@.len() && spec_within_dist(
                                coords,
                                output@[j],
                                far,
                                cube_side_length,
                            ) implies spec_within_dist(coords, output@[i], far, cube_side_length) by {
                            if j < before.len() {
                                assert(output@[i] == before[i] && output@[j] == before[j]);
                                assert(spec_within_dist(coords, before[j], far, cube_side_length));
                            } else {
                                assert(output@[i] == before[i]);
                                if far <= dist {
                                    lemma_within_dist_grows(
                                        coords,
                                        next,
                                        far,
                                        (dist - far) as nat,
                                        cube_side_length,
                                    );
                                    assert(reached.contains(next));
                                    let w = choose|w: int| 0 <= w < reached.len() && reached[w] == next;
                                    assert(before.subrange(0, level_end as int)[w] == before[w]);
                                    assert(before.contains(next));
                                } else {
                                    lemma_within_dist_grows(
                                        coords,
                                        before[i],
                                        (dist + 1) as nat,
                                        (far - dist - 1) as nat,
                                        cube_side_length,
                                    );
                                }
                            }
                        }
                    }
                }
                proof {
                    assert forall|cell: CellCoordinates| before.contains(cell) implies output@.contains(
                        cell,
                    ) by {
                        let w = choose|w: int| 0 <= w < before.len() && before[w] == cell;
                        assert(output@[w] == cell);
                    }
                    assert(output@.contains(next)) by {
                        if !before.contains(next) {
                            assert(output@[output@.len() - 1] == next);
                        }
                    }
                }
                a += 1;
            }
            proof {
                assert forall|i: int, cell: CellCoordinates|
                    level_start <= i < index + 1 && #[trigger] reached[i].spec_get_adjacent(
                        cube_side_length,
                    ).contains(cell) implies output@.contains(cell) by {
                    if i == index {
                        let w = choose|w: int| 0 <= w < 4 && adjacent@[w] == cell;
                        assert(output@.contains(adjacent@[w]));
                    }
                }
            }
            index += 1;
        }
        proof {
            assert forall|cell: CellCoordinates| output@.contains(cell) <==> spec_within_dist(
                coords,
                cell,
                (dist + 1) as nat,
                cube_side_length,
            ) by {
                if output@.contains(cell) {
                    let w = choose|w: int| 0 <= w < output@.len() && output@[w] == cell;
                    assert(spec_within_dist(coords, output@[w], (dist + 1) as nat, cube_side_length));
                }
                if spec_within_dist(coords, cell, (dist + 1) as nat, cube_side_length) {
                    if spec_within_dist(coords, cell, dist as nat, cube_side_length) {
                        assert(reached.contains(cell));
                        let w = choose|w: int| 0 <= w < reached.len() && reached[w] == cell;
                        assert(output@.subrange(0, level_end as int)[w] == output@[w]);
                    } else {
                        let before = choose|before: CellCoordinates|
                            spec_within_dist(coords, before, dist as nat, cube_side_length)
                                && #[trigger] before.spec_get_adjacent(cube_side_length).contains(
                                cell,
                            );
                        assert(reached.contains(before));
                        let j = choose|j: int| 0 <= j < reached.len() && reached[j] == before;
                        if j < level_start {
                            assert(spec_within_dist(
                                coords,
                                reached[j],
                                (dist - 1) as nat,
                                cube_side_length,
                            ));
                            assert(spec_within_dist(coords, cell, dist as nat, cube_side_length));
                        }
                    }
                }
            }
            assert forall|i: int| 0 <= i < level_end implies spec_within_dist(
                coords,
                #[trigger] output@[i],
                dist as nat,
                cube_side_length,
            ) by {
                assert(output@.subrange(0, level_end as int)[i] == output@[i]);
                assert(reached.contains(reached[i]));
            }
        }
        level_start = level_end;
        dist += 1;
    }
    proof {
        if closed {
            assert forall|cell: CellCoordinates|
                spec_within_dist(coords, cell, max_dist as nat, cube_side_length) implies output@.contains(
                cell,
            ) by {
                let base = (dist - 1) as nat;
                assert forall|c: CellCoordinates|
                    spec_within_dist(coords, c, base + 1, cube_side_length) implies spec_within_dist(
                    coords,
                    c,
                    base,
                    cube_side_length,
                ) by {
                    assert(output@.contains(c));
                    let w = choose|w: int| 0 <= w < output@.len() && output@[w] == c;
                    assert(spec_within_dist(coords, output@[w], base, cube_side_length));
                }
                lemma_within_dist_closed(
                    coords,
                    cell,
                    base,
                    (max_dist - base) as nat,
                    cube_side_length,
                );
            }
            assert forall|cell: CellCoordinates| output@.contains(cell) implies spec_within_dist(
                coords,
                cell,
                max_dist as nat,
                cube_side_length,
            ) by {
                lemma_within_dist_grows(
                    coords,
                    cell,
                    dist as nat,
                    (max_dist - dist) as nat,
                    cube_side_length,
                );
            }
        }
    }
    output
}

/// A cell that can be reached in some number of steps can be reached in any greater number.
pub proof fn lemma_within_dist_grows(
    start: CellCoordinates,
    cell: CellCoordinates,
    dist: nat,
    more: nat,
    cube_side_length: u32,
)
    requires
        spec_within_dist(start, cell, dist, cube_side_length),
    ensures
        spec_within_dist(start, cell, dist + more, cube_side_length),
    decreases more,
{
    if more > 0 {
        lemma_within_dist_grows(start, cell, dist, (more - 1) as nat, cube_side_length);
    }
}

/// Whether the board holds a cell that names these coordinates as its own, on the face with
/// the given normal.
pub open spec fn spec_on_side(
    board: Map<CellCoordinates, crate::board::Cell>,
    normal: CartesianDirection,
    coords: CellCoordinates,
) -> bool {
    exists|cell: crate::board::Cell| #[trigger]
        crate::board::spec_has_cell(board, cell) && cell.coords == coords && coords.has_normal()
            && coords.spec_normal_direction() == normal
}

/// The coordinates of the cells of the board that lie on the same face as `coords`, as the
/// cells themselves give them.
pub fn all_cells_on_same_side(coords: CellCoordinates, board: &Board) -> (r: Vec<CellCoordinates>)
    requires
        coords.has_normal(),
    ensures
        forall|c: CellCoordinates|
            r@.contains(c) <==> spec_on_side(board@, coords.spec_normal_direction(), c),
{
    let mut output: Vec<CellCoordinates> = Vec::new();
    let cells = board.get_all_cells();
    let normal = coords.normal_direction();
    let mut i: usize = 0;
    while i < cells.len()
        invariant
            i <= cells.len(),
            normal == coords.spec_normal_direction(),
            forall|k: int|
                0 <= k < cells@.len() ==> crate::board::spec_has_cell(board@, *(#[trigger] cells@[k])),
            forall|c: CellCoordinates|
                output@.contains(c) <==> exists|k: int|
                    0 <= k < i && (#[trigger] cells@[k]).coords == c && c.has_normal()
                        && c.spec_normal_direction() == normal,
        decreases cells.len() - i,
    {
        let cell = cells[i];
        let ghost before = output@;
        if cell.coords.is_valid() && cell.coords.normal_direction() == normal {
            output.push(cell.coords);
        }
        i += 1;
        proof {
            assert forall|c: CellCoordinates| output@.contains(c) <==> exists|k: int|
                0 <= k < i && (#[trigger] cells@[k]).coords == c && c.has_normal()
                    && c.spec_normal_direction() == normal by {
                if output@.contains(c) {
                    let w = choose|w: int| 0 <= w < output@.len() && output@[w] == c;
                    if w < before.len() {
                        assert(before[w] == c);
                        assert(before.contains(c));
                    } else {
                        assert(cells@[i - 1].coords == c);
                    }
                }
                if exists|k: int|
                    0 <= k < i && (#[trigger] cells@[k]).coords == c && c.has_normal()
                        && c.spec_normal_direction() == normal {
                    let k = choose|k: int|
                        0 <= k < i && (#[trigger] cells@[k]).coords == c && c.has_normal()
                            && c.spec_normal_direction() == normal;
                    if k < i - 1 {
                        assert(before.contains(c));
                        let w = choose|w: int| 0 <= w < before.len() && before[w] == c;
                        assert(output@[w] == c);
                    } else {
                        assert(output@[output@.len() - 1] == c);
                    }
                }
            }
        }
    }
    proof {
        assert forall|c: CellCoordinates| output@.contains(c) <==> spec_on_side(
            board@,
            coords.spec_normal_direction(),
            c,
        ) by {
            if output@.contains(c) {
                let k = choose|k: int|
                    0 <= k < cells@.len() && (#[trigger] cells@[k]).coords == c && c.has_normal()
                        && c.spec_normal_direction() == normal;
                assert(crate::board::spec_has_cell(board@, *cells@[k]));
            }
            if spec_on_side(board@, coords.spec_normal_direction(), c) {
                let cell = choose|cell: crate::board::Cell| #[trigger]
                    crate::board::spec_has_cell(board@, cell) && cell.coords == c && c.has_normal()
                        && c.spec_normal_direction() == normal;
                let at = choose|at: CellCoordinates| #[trigger]
                    board@.contains_key(at) && board@[at] == cell;
                let k = choose|k: int| 0 <= k < cells@.len() && *(#[trigger] cells@[k]) == board@[at];
                assert(cells@[k].coords == c);
            }
        }
    }
    output
}

} // verus!
