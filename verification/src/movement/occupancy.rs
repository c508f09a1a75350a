//! The cells a unit can move to depend on which cells are occupied and by whom, and on
//! nothing else of the roster: not on the order in which it lists the units.

use crate::cell::CellCoordinates;
use crate::direction::{CartesianDirection, RadialDirection};
use crate::movement::parts::{
    spec_diagonal_walk, spec_diagonals_upto, spec_straight_upto, spec_walk,
};
use crate::movement::{
    spec_get_unit_moves, spec_may_move_to, spec_movement_pattern, spec_pawn_captures_upto,
};
use crate::units::{spec_get_unit, spec_is_unit_at, Unit};
use vstd::prelude::*;

verus! {

/// The two rosters have the same cells occupied, each by the same unit.
pub open spec fn same_occupancy(a: Seq<Unit>, b: Seq<Unit>) -> bool {
    forall|cell: CellCoordinates|
        #![trigger spec_is_unit_at(a, cell)]
        #![trigger spec_is_unit_at(b, cell)]
        #![trigger spec_get_unit(a, cell)]
        #![trigger spec_get_unit(b, cell)]
        spec_is_unit_at(a, cell) == spec_is_unit_at(b, cell) && spec_get_unit(a, cell)
            == spec_get_unit(b, cell)
}

/// A walk round the cube reaches the same cells on rosters with the same occupancy.
pub proof fn lemma_walk_same_occupancy(
    latest: CellCoordinates,
    dist_left: nat,
    crossings_left: nat,
    cube_side_length: u32,
    a: Seq<Unit>,
    b: Seq<Unit>,
    direction: RadialDirection,
    include_other_unit_cells: bool,
    visited: Seq<CellCoordinates>,
)
    requires
        same_occupancy(a, b),
    ensures
        spec_walk(
            latest,
            dist_left,
            crossings_left,
            cube_side_length,
            a,
            direction,
            include_other_unit_cells,
            visited,
        ) == spec_walk(
            latest,
            dist_left,
            crossings_left,
            cube_side_length,
            b,
            direction,
            include_other_unit_cells,
            visited,
        ),
    decreases dist_left,
{
    if dist_left > 0 {
        match latest.spec_get_cell_in_radial_direction(direction, cube_side_length) {
            None => {},
            Some((next, crossed)) => {
                assert(spec_is_unit_at(a, next) == spec_is_unit_at(b, next));
                lemma_walk_same_occupancy(
                    next,
                    (dist_left - 1) as nat,
                    if crossed {
                        (crossings_left - 1) as nat
                    } else {
                        crossings_left
                    },
                    cube_side_length,
                    a,
                    b,
                    direction,
                    include_other_unit_cells,
                    visited.push(next),
                );
            },
        }
    }
}

/// The straight walks reach the same cells on rosters with the same occupancy.
pub proof fn lemma_straight_same_occupancy(
    n: nat,
    coords: CellCoordinates,
    max_dist: u32,
    max_edge_crossings: u32,
    cube_side_length: u32,
    a: Seq<Unit>,
    b: Seq<Unit>,
)
    requires
        same_occupancy(a, b),
    ensures
        spec_straight_upto(n, coords, max_dist, max_edge_crossings, cube_side_length, a)
            == spec_straight_upto(n, coords, max_dist, max_edge_crossings, cube_side_length, b),
    decreases n,
{
    if n > 0 {
        lemma_straight_same_occupancy(
            (n - 1) as nat,
            coords,
            max_dist,
            max_edge_crossings,
            cube_side_length,
            a,
            b,
        );
        lemma_walk_same_occupancy(
            coords,
            max_dist as nat,
            max_edge_crossings as nat,
            cube_side_length,
            a,
            b,
            RadialDirection::spec_directions()[n - 1],
            true,
            Seq::empty(),
        );
    }
}

/// A diagonal walk reaches the same cells on rosters with the same occupancy.
pub proof fn lemma_diagonal_walk_same_occupancy(
    latest: CellCoordinates,
    dist_left: nat,
    crossings_left: nat,
    cube_side_length: u32,
    a: Seq<Unit>,
    b: Seq<Unit>,
    diagonal: (CartesianDirection, CartesianDirection),
    visited: Seq<CellCoordinates>,
)
    requires
        same_occupancy(a, b),
    ensures
        spec_diagonal_walk(
            latest,
            dist_left,
            crossings_left,
            cube_side_length,
            a,
            diagonal,
            visited,
        ) == spec_diagonal_walk(
            latest,
            dist_left,
            crossings_left,
            cube_side_length,
            b,
            diagonal,
            visited,
        ),
    decreases dist_left,
{
    if dist_left > 0 {
        match latest.spec_get_diagonal(diagonal, cube_side_length) {
            None => {},
            Some((next, crossed)) => {
                assert(spec_is_unit_at(a, next) == spec_is_unit_at(b, next));
                lemma_diagonal_walk_same_occupancy(
                    next,
                    (dist_left - 1) as nat,
                    if crossed {
                        (crossings_left - 1) as nat
                    } else {
                        crossings_left
                    },
                    cube_side_length,
                    a,
                    b,
                    diagonal,
                    visited.push(next),
                );
            },
        }
    }
}

/// The diagonal walks reach the same cells on rosters with the same occupancy.
pub proof fn lemma_diagonals_same_occupancy(
    n: nat,
    coords: CellCoordinates,
    max_dist: u32,
    max_edge_crossings: u32,
    cube_side_length: u32,
    a: Seq<Unit>,
    b: Seq<Unit>,
)
    requires
        same_occupancy(a, b),
    ensures
        spec_diagonals_upto(n, coords, max_dist, max_edge_crossings, cube_side_length, a)
            == spec_diagonals_upto(n, coords, max_dist, max_edge_crossings, cube_side_length, b),
    decreases n,
{
    if n > 0 {
        lemma_diagonals_same_occupancy(
            (n - 1) as nat,
            coords,
            max_dist,
            max_edge_crossings,
            cube_side_length,
            a,
            b,
        );
        lemma_diagonal_walk_same_occupancy(
            coords,
            max_dist as nat,
            max_edge_crossings as nat,
            cube_side_length,
            a,
            b,
            CartesianDirection::spec_diagonals()[n - 1],
            spec_diagonals_upto(
                (n - 1) as nat,
                coords,
                max_dist,
                max_edge_crossings,
                cube_side_length,
                a,
            ),
        );
    }
}

/// A pawn captures on the same cells on rosters with the same occupancy.
pub proof fn lemma_pawn_captures_same_occupancy(
    n: nat,
    unit_coords: CellCoordinates,
    cube_side_length: u32,
    a: Seq<Unit>,
    b: Seq<Unit>,
    forward: CartesianDirection,
)
    requires
        same_occupancy(a, b),
    ensures
        spec_pawn_captures_upto(n, unit_coords, cube_side_length, a, forward)
            == spec_pawn_captures_upto(n, unit_coords, cube_side_length, b, forward),
    decreases n,
{
    if n > 0 {
        lemma_pawn_captures_same_occupancy(
            (n - 1) as nat,
            unit_coords,
            cube_side_length,
            a,
            b,
            forward,
        );
        let diagonal = CartesianDirection::spec_diagonals()[n - 1];
        match unit_coords.spec_get_diagonal(diagonal, cube_side_length) {
            Some((cell, _)) => {
                assert(spec_is_unit_at(a, cell) == spec_is_unit_at(b, cell));
            },
            None => {},
        }
    }
}

/// Keeping the cells that pass a test gives the same cells for two tests that agree on
/// every cell.
pub proof fn lemma_filter_agrees(
    cells: Seq<CellCoordinates>,
    test_a: spec_fn(CellCoordinates) -> bool,
    test_b: spec_fn(CellCoordinates) -> bool,
)
    requires
        forall|cell: CellCoordinates| #[trigger] test_a(cell) == test_b(cell),
    ensures
        cells.filter(test_a) == cells.filter(test_b),
    decreases cells.len(),
{
    reveal(Seq::filter);
    if cells.len() > 0 {
        lemma_filter_agrees(cells.drop_last(), test_a, test_b);
        assert(test_a(cells.last()) == test_b(cells.last()));
    }
}

/// A unit can move to the same cells, in the same order, on rosters with the same occupancy.
pub proof fn lemma_unit_moves_same_occupancy(
    unit: Unit,
    cube_side_length: u32,
    a: Seq<Unit>,
    b: Seq<Unit>,
)
    requires
        same_occupancy(a, b),
    ensures
        spec_get_unit_moves(unit, cube_side_length, a) == spec_get_unit_moves(
            unit,
            cube_side_length,
            b,
        ),
{
    let side = cube_side_length;
    let at = unit.coords;
    lemma_straight_same_occupancy(6, at, 1, 0, side, a, b);
    lemma_straight_same_occupancy(6, at, u32::MAX, 1, side, a, b);
    lemma_diagonals_same_occupancy(12, at, 1, 0, side, a, b);
    lemma_diagonals_same_occupancy(12, at, u32::MAX, 1, side, a, b);
    match unit.unit_type {
        crate::units::UnitType::Pawn(direction, has_moved) => {
            lemma_walk_same_occupancy(
                at,
                if has_moved {
                    1
                } else {
                    2
                },
                2,
                side,
                a,
                b,
                direction,
                false,
                Seq::empty(),
            );
            match direction.spec_to_cartesian_direction(at.spec_normal_direction()) {
                Some(forward) => {
                    lemma_pawn_captures_same_occupancy(12, at, side, a, b, forward);
                },
                None => {},
            }
        },
        _ => {},
    }
    assert(spec_movement_pattern(unit, side, a) == spec_movement_pattern(unit, side, b));
    let test_a = |move_to: CellCoordinates| spec_may_move_to(unit, a, move_to);
    let test_b = |move_to: CellCoordinates| spec_may_move_to(unit, b, move_to);
    assert forall|cell: CellCoordinates| #[trigger] test_a(cell) == test_b(cell) by {
        assert(spec_is_unit_at(a, cell) == spec_is_unit_at(b, cell));
        assert(spec_get_unit(a, cell) == spec_get_unit(b, cell));
    }
    lemma_filter_agrees(spec_movement_pattern(unit, side, a), test_a, test_b);
}

} // verus!
