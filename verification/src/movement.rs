//! The cells that each kind of piece can move to.

use crate::board::Board;
use crate::cell::CellCoordinates;
use crate::direction::{CartesianDirection, RadialDirection};
use crate::units::{spec_get_unit, spec_is_unit_at, Unit, UnitType, Units};
use vstd::prelude::*;

pub mod occupancy;
pub mod parts;

verus! {

/// A move of the unit on one cell to another cell.
#[derive(Clone, Copy, Debug, PartialEq, Eq, Structural)]
pub struct GameMove {
    pub from: CellCoordinates,
    pub to: CellCoordinates,
}

/// The king's cells: one step in a straight line or along a diagonal, on its own face.
pub open spec fn spec_king_movement(
    unit_coords: CellCoordinates,
    cube_side_length: u32,
    units: Seq<Unit>,
) -> Seq<CellCoordinates> {
    parts::spec_get_straight(unit_coords, 1, 0, cube_side_length, units)
        + parts::spec_get_diagonals(unit_coords, 1, 0, cube_side_length, units)
}

/// The bishop's cells: along the diagonals, over one edge at most.
pub open spec fn spec_bishop_movement(
    unit_coords: CellCoordinates,
    cube_side_length: u32,
    units: Seq<Unit>,
) -> Seq<CellCoordinates> {
    parts::spec_get_diagonals(unit_coords, u32::MAX, 1, cube_side_length, units)
}

/// The rook's cells: in straight lines, over one edge at most.
pub open spec fn spec_rook_movement(
    unit_coords: CellCoordinates,
    cube_side_length: u32,
    units: Seq<Unit>,
) -> Seq<CellCoordinates> {
    parts::spec_get_straight(unit_coords, u32::MAX, 1, cube_side_length, units)
}

/// The queen's cells: the rook's and then the bishop's.
pub open spec fn spec_queen_movement(
    unit_coords: CellCoordinates,
    cube_side_length: u32,
    units: Seq<Unit>,
) -> Seq<CellCoordinates> {
    parts::spec_get_straight(unit_coords, u32::MAX, 1, cube_side_length, units)
        + parts::spec_get_diagonals(unit_coords, u32::MAX, 1, cube_side_length, units)
}

/// The knight's cells: its leaps over one edge at most.
pub open spec fn spec_knight_movement(
    unit_coords: CellCoordinates,
    cube_side_length: u32,
) -> Seq<CellCoordinates> {
    parts::spec_get_knight_moves(unit_coords, 1, cube_side_length)
}

/// The occupied cells among the pawn's forward diagonals, taken from the first `n` diagonals
/// of `CartesianDirection::diagonals`. A diagonal is a forward one if either of its two
/// steps is the forward step.
pub open spec fn spec_pawn_captures_upto(
    n: nat,
    unit_coords: CellCoordinates,
    cube_side_length: u32,
    units: Seq<Unit>,
    forward: CartesianDirection,
) -> Seq<CellCoordinates>
    decreases n,
{
    if n == 0 {
        Seq::empty()
    } else {
        let before = spec_pawn_captures_upto(
            (n - 1) as nat,
            unit_coords,
            cube_side_length,
            units,
            forward,
        );
        let diagonal = CartesianDirection::spec_diagonals()[n - 1];
        if diagonal.0 == forward || diagonal.1 == forward {
            match unit_coords.spec_get_diagonal(diagonal, cube_side_length) {
                Some((cell, _)) => if spec_is_unit_at(units, cell) {
                    before.push(cell)
                } else {
                    before
                },
                None => before,
            }
        } else {
            before
        }
    }
}

/// The pawn's cells: forward along its walk, two steps if it has not moved yet and one if it
/// has, as far as the cells are free; then the occupied cells among its forward diagonals.
/// A pawn whose walk does not pass through its face has none.
pub open spec fn spec_pawn_movement(
    unit_coords: CellCoordinates,
    cube_side_length: u32,
    units: Seq<Unit>,
    direction: RadialDirection,
    has_moved: bool,
) -> Seq<CellCoordinates> {
    match direction.spec_to_cartesian_direction(unit_coords.spec_normal_direction()) {
        None => Seq::empty(),
        Some(forward) => parts::spec_get_cells_in_direction(
            unit_coords,
            if has_moved {
                1
            } else {
                2
            },
            2,
            cube_side_length,
            units,
            direction,
            false,
        ) + spec_pawn_captures_upto(12, unit_coords, cube_side_length, units, forward),
    }
}

/// The cells that the unit's kind of piece reaches, before any is ruled out.
pub open spec fn spec_movement_pattern(
    unit: Unit,
    cube_side_length: u32,
    units: Seq<Unit>,
) -> Seq<CellCoordinates> {
    match unit.unit_type {
        UnitType::Rook => spec_rook_movement(unit.coords, cube_side_length, units),
        UnitType::Bishop => spec_bishop_movement(unit.coords, cube_side_length, units),
        UnitType::King => spec_king_movement(unit.coords, cube_side_length, units),
        UnitType::Pawn(direction, has_moved) => spec_pawn_movement(
            unit.coords,
            cube_side_length,
            units,
            direction,
            has_moved,
        ),
        UnitType::Knight => spec_knight_movement(unit.coords, cube_side_length),
        UnitType::Queen => spec_queen_movement(unit.coords, cube_side_length, units),
    }
}

/// Whether the unit may end its move on the cell. On its own face, and anywhere for a piece
/// that captures over edges, it may if the cell is free or an opponent stands on it. On
/// another face any other piece may only if the cell is free.
pub open spec fn spec_may_move_to(unit: Unit, units: Seq<Unit>, move_to: CellCoordinates) -> bool {
    if move_to.spec_normal_direction() == unit.coords.spec_normal_direction()
        || unit.unit_type.spec_can_capture_over_edge() {
        match spec_get_unit(units, move_to) {
            None => true,
            Some(other_unit) => other_unit.team != unit.team,
        }
    } else {
        !spec_is_unit_at(units, move_to)
    }
}

/// The cells the unit can move to: those of its movement pattern on which it may end.
pub open spec fn spec_get_unit_moves(unit: Unit, cube_side_length: u32, units: Seq<Unit>) -> Seq<
    CellCoordinates,
> {
    spec_movement_pattern(unit, cube_side_length, units).filter(
        |move_to: CellCoordinates| spec_may_move_to(unit, units, move_to),
    )
}

/// The cells the unit can move to, in the order in which its movement pattern reaches them.
pub fn get_unit_moves(unit: &Unit, board: &Board, units: &Units) -> (r: Vec<CellCoordinates>)
    requires
        unit.coords.has_normal(),
        board.cube_side_length() > 0,
    ensures
        r@ == spec_get_unit_moves(*unit, board.cube_side_length(), units@),
        forall|i: int|
            0 <= i < r@.len() ==> {
                &&& (#[trigger] r@[i]).has_normal()
                &&& spec_may_move_to(*unit, units@, r@[i])
                &&& spec_movement_pattern(*unit, board.cube_side_length(), units@).contains(r@[i])
            },
        unit.coords.on_cube(board.cube_side_length()) ==> forall|i: int|
            0 <= i < r@.len() ==> (#[trigger] r@[i]).on_cube(board.cube_side_length()),
{
    let moves = match unit.unit_type {
        UnitType::Rook => rook_movement(unit.coords, board, units),
        UnitType::Bishop => bishop_movement(unit.coords, board, units),
        UnitType::King => king_movement(unit.coords, board, units),
        UnitType::Pawn(direction, has_moved) => pawn_movement(
            unit.coords,
            board,
            units,
            direction,
            has_moved,
        ),
        UnitType::Knight => knight_movement(unit.coords, board, units),
        UnitType::Queen => queen_movement(unit.coords, board, units),
    };
    let ghost may = |move_to: CellCoordinates| spec_may_move_to(*unit, units@, move_to);
    let mut kept: Vec<CellCoordinates> = Vec::new();
    let mut i: usize = 0;
    proof {
        assert(moves@.subrange(0, 0) =~= Seq::<CellCoordinates>::empty());
        assert(Seq::<CellCoordinates>::empty().filter(may) =~= Seq::<CellCoordinates>::empty())
            by {
            reveal(Seq::filter);
        }
    }
    while i < moves.len()
        invariant
            i <= moves.len(),
            unit.coords.has_normal(),
            may == (|move_to: CellCoordinates| spec_may_move_to(*unit, units@, move_to)),
            moves@ == spec_movement_pattern(*unit, board.cube_side_length(), units@),
            forall|j: int| 0 <= j < moves@.len() ==> (#[trigger] moves@[j]).has_normal(),
            unit.coords.on_cube(board.cube_side_length()) ==> forall|j: int|
                0 <= j < moves@.len() ==> (#[trigger] moves@[j]).on_cube(board.cube_side_length()),
            kept@ == moves@.subrange(0, i as int).filter(may),
            forall|j: int|
                0 <= j < kept@.len() ==> {
                    &&& (#[trigger] kept@[j]).has_normal()
                    &&& spec_may_move_to(*unit, units@, kept@[j])
                    &&& moves@.contains(kept@[j])
                },
            unit.coords.on_cube(board.cube_side_length()) ==> forall|j: int|
                0 <= j < kept@.len() ==> (#[trigger] kept@[j]).on_cube(board.cube_side_length()),
        decreases moves.len() - i,
    {
        let move_to = moves[i];
        proof {
            assert(moves@.subrange(0, i + 1) =~= moves@.subrange(0, i as int).push(move_to));
            crate::direction::lemma_filter_push(moves@.subrange(0, i as int), move_to, may);
        }
        let keep = if move_to.normal_direction() == unit.coords.normal_direction()
            || unit.unit_type.can_capture_over_edge() {
            match units.get_unit(move_to) {
                None => true,
                Some(other_unit) => other_unit.team != unit.team,
            }
        } else {
            !units.is_unit_at(move_to)
        };
        if keep {
            kept.push(move_to);
        }
        i += 1;
    }
    proof {
        assert(moves@.subrange(0, moves@.len() as int) =~= moves@);
    }
    kept
}

fn king_movement(unit_coords: CellCoordinates, board: &Board, units: &Units) -> (r: Vec<
    CellCoordinates,
>)
    requires
        unit_coords.has_normal(),
        board.cube_side_length() > 0,
    ensures
        r@ == spec_king_movement(unit_coords, board.cube_side_length(), units@),
        forall|i: int| 0 <= i < r@.len() ==> (#[trigger] r@[i]).has_normal(),
        unit_coords.on_cube(board.cube_side_length()) ==> forall|i: int|
            0 <= i < r@.len() ==> (#[trigger] r@[i]).on_cube(board.cube_side_length()),
{
    let mut out = parts::get_straight(unit_coords, 1, 0, board.cube_side_length(), units);
    let mut diagonals = parts::get_diagonals(unit_coords, 1, 0, board.cube_side_length(), units);
    out.append(&mut diagonals);
    out
}

fn bishop_movement(unit_coords: CellCoordinates, board: &Board, units: &Units) -> (r: Vec<
    CellCoordinates,
>)
    requires
        unit_coords.has_normal(),
        board.cube_side_length() > 0,
    ensures
        r@ == spec_bishop_movement(unit_coords, board.cube_side_length(), units@),
        forall|i: int| 0 <= i < r@.len() ==> (#[trigger] r@[i]).has_normal(),
        unit_coords.on_cube(board.cube_side_length()) ==> forall|i: int|
            0 <= i < r@.len() ==> (#[trigger] r@[i]).on_cube(board.cube_side_length()),
{
    parts::get_diagonals(unit_coords, u32::MAX, 1, board.cube_side_length(), units)
}

fn rook_movement(unit_coords: CellCoordinates, board: &Board, units: &Units) -> (r: Vec<
    CellCoordinates,
>)
    requires
        unit_coords.has_normal(),
        board.cube_side_length() > 0,
    ensures
        r@ == spec_rook_movement(unit_coords, board.cube_side_length(), units@),
        forall|i: int| 0 <= i < r@.len() ==> (#[trigger] r@[i]).has_normal(),
        unit_coords.on_cube(board.cube_side_length()) ==> forall|i: int|
            0 <= i < r@.len() ==> (#[trigger] r@[i]).on_cube(board.cube_side_length()),
{
    parts::get_straight(unit_coords, u32::MAX, 1, board.cube_side_length(), units)
}

fn queen_movement(unit_coords: CellCoordinates, board: &Board, units: &Units) -> (r: Vec<
    CellCoordinates,
>)
    requires
        unit_coords.has_normal(),
        board.cube_side_length() > 0,
    ensures
        r@ == spec_queen_movement(unit_coords, board.cube_side_length(), units@),
        forall|i: int| 0 <= i < r@.len() ==> (#[trigger] r@[i]).has_normal(),
        unit_coords.on_cube(board.cube_side_length()) ==> forall|i: int|
            0 <= i < r@.len() ==> (#[trigger] r@[i]).on_cube(board.cube_side_length()),
{
    let mut out = parts::get_straight(unit_coords, u32::MAX, 1, board.cube_side_length(), units);
    let mut diagonals = parts::get_diagonals(
        unit_coords,
        u32::MAX,
        1,
        board.cube_side_length(),
        units,
    );
    out.append(&mut diagonals);
    out
}

fn pawn_movement(
    unit_coords: CellCoordinates,
    board: &Board,
    units: &Units,
    direction: RadialDirection,
    has_moved: bool,
) -> (r: Vec<CellCoordinates>)
    requires
        unit_coords.has_normal(),
        board.cube_side_length() > 0,
    ensures
        r@ == spec_pawn_movement(unit_coords, board.cube_side_length(), units@, direction, has_moved),
        forall|i: int| 0 <= i < r@.len() ==> (#[trigger] r@[i]).has_normal(),
        unit_coords.on_cube(board.cube_side_length()) ==> forall|i: int|
            0 <= i < r@.len() ==> (#[trigger] r@[i]).on_cube(board.cube_side_length()),
{
    let forward = match direction.to_cartesian_direction(unit_coords.normal_direction()) {
        None => {
            return Vec::new();
        },
        Some(forward) => forward,
    };
    let mut output = parts::get_cells_in_direction(
        unit_coords,
        if has_moved {
            1
        } else {
            2
        },
        2,
        board.cube_side_length(),
        units,
        direction,
        false,
    );
    let ghost walked = output@;
    let diagonals = CartesianDirection::diagonals();
    let mut k: usize = 0;
    assert(walked + Seq::<CellCoordinates>::empty() =~= walked);
    while k < 12
        invariant
            k <= 12,
            unit_coords.has_normal(),
            board.cube_side_length() > 0,
            diagonals@ == CartesianDirection::spec_diagonals(),
            output@ == walked + spec_pawn_captures_upto(
                k as nat,
                unit_coords,
                board.cube_side_length(),
                units@,
                forward,
            ),
            forall|i: int| 0 <= i < output@.len() ==> (#[trigger] output@[i]).has_normal(),
            unit_coords.on_cube(board.cube_side_length()) ==> forall|i: int|
                0 <= i < output@.len() ==> (#[trigger] output@[i]).on_cube(
                    board.cube_side_length(),
                ),
        decreases 12 - k,
    {
        let diagonal = diagonals[k];
        let ghost before = spec_pawn_captures_upto(
            k as nat,
            unit_coords,
            board.cube_side_length(),
            units@,
            forward,
        );
        k += 1;
        if diagonal.0 == forward || diagonal.1 == forward {
            match unit_coords.get_diagonal(diagonal, board.cube_side_length()) {
                None => {},
                Some(diagonal_coords) => {
                    if units.is_unit_at(diagonal_coords.0) {
                        output.push(diagonal_coords.0);
                        assert(walked + before.push(diagonal_coords.0) =~= (walked + before).push(
                            diagonal_coords.0,
                        ));
                    }
                },
            }
        }
    }
    output
}

fn knight_movement(unit_coords: CellCoordinates, board: &Board, _units: &Units) -> (r: Vec<
    CellCoordinates,
>)
    requires
        unit_coords.has_normal(),
        board.cube_side_length() > 0,
    ensures
        r@ == spec_knight_movement(unit_coords, board.cube_side_length()),
        forall|i: int| 0 <= i < r@.len() ==> (#[trigger] r@[i]).has_normal(),
        unit_coords.on_cube(board.cube_side_length()) ==> forall|i: int|
            0 <= i < r@.len() ==> (#[trigger] r@[i]).on_cube(board.cube_side_length()),
{
    parts::get_knight_moves(unit_coords, 1, board.cube_side_length())
}

/// A unit never ends its move on a cell where a unit of its own side stands, and only a
/// piece that captures over edges ends it on an occupied cell of another face.
pub proof fn lemma_destinations(
    unit: Unit,
    cube_side_length: u32,
    units: Seq<Unit>,
    move_to: CellCoordinates,
)
    requires
        spec_get_unit_moves(unit, cube_side_length, units).contains(move_to),
    ensures
        spec_movement_pattern(unit, cube_side_length, units).contains(move_to),
        spec_get_unit(units, move_to) matches Some(other_unit) ==> {
            &&& other_unit.team != unit.team
            &&& (move_to.spec_normal_direction() == unit.coords.spec_normal_direction()
                || unit.unit_type == UnitType::Knight)
        },
{
    let may = |move_to: CellCoordinates| spec_may_move_to(unit, units, move_to);
    spec_movement_pattern(unit, cube_side_length, units).lemma_filter_contains_rev(may, move_to);
    crate::units::lemma_position(units, move_to, 0);
}

/// The cells straight ahead of a pawn, as far as they are free.
pub open spec fn spec_pawn_advance(
    unit_coords: CellCoordinates,
    cube_side_length: u32,
    units: Seq<Unit>,
    direction: RadialDirection,
    has_moved: bool,
) -> Seq<CellCoordinates> {
    parts::spec_get_cells_in_direction(
        unit_coords,
        if has_moved {
            1
        } else {
            2
        },
        2,
        cube_side_length,
        units,
        direction,
        false,
    )
}

/// A pawn advances at most two cells before its first move and at most one after it; the
/// rest of its cells are the captures on its forward diagonals.
pub proof fn lemma_pawn_advance(
    unit_coords: CellCoordinates,
    cube_side_length: u32,
    units: Seq<Unit>,
    direction: RadialDirection,
    has_moved: bool,
)
    ensures
        spec_pawn_advance(unit_coords, cube_side_length, units, direction, has_moved).len() <= if has_moved {
            1int
        } else {
            2int
        },
        direction.spec_to_cartesian_direction(unit_coords.spec_normal_direction()) is Some
            ==> spec_pawn_movement(unit_coords, cube_side_length, units, direction, has_moved)
            == spec_pawn_advance(unit_coords, cube_side_length, units, direction, has_moved)
            + spec_pawn_captures_upto(
            12,
            unit_coords,
            cube_side_length,
            units,
            direction.spec_to_cartesian_direction(unit_coords.spec_normal_direction()).unwrap(),
        ),
{
    parts::lemma_walk_len(
        unit_coords,
        if has_moved {
            1
        } else {
            2
        },
        2,
        cube_side_length,
        units,
        direction,
        false,
        Seq::empty(),
    );
}

/// A pawn with the two cells ahead of it free advances to exactly those two before its first
/// move, and to exactly the first of them after it.
pub proof fn lemma_pawn_advance_unobstructed(
    unit_coords: CellCoordinates,
    cube_side_length: u32,
    units: Seq<Unit>,
    direction: RadialDirection,
    first: CellCoordinates,
    second: CellCoordinates,
)
    requires
        unit_coords.on_cube(cube_side_length),
        unit_coords.spec_get_cell_in_radial_direction(direction, cube_side_length) matches Some(
            (next, _),
        ) && next == first,
        first.spec_get_cell_in_radial_direction(direction, cube_side_length) matches Some(
            (next, _),
        ) && next == second,
        !spec_is_unit_at(units, first),
        !spec_is_unit_at(units, second),
    ensures
        spec_pawn_advance(unit_coords, cube_side_length, units, direction, false) == seq![
            first,
            second,
        ],
        spec_pawn_advance(unit_coords, cube_side_length, units, direction, true) == seq![first],
{
    reveal_with_fuel(parts::spec_walk, 3);
    let visited: Seq<CellCoordinates> = Seq::empty();
    assert(!visited.contains(first));
    assert(first != second);
    assert(!visited.push(first).contains(second)) by {
        assert(visited.push(first) =~= seq![first]);
    }
    assert(spec_pawn_advance(unit_coords, cube_side_length, units, direction, false) =~= seq![
        first,
        second,
    ]);
    assert(spec_pawn_advance(unit_coords, cube_side_length, units, direction, true) =~= seq![
        first,
    ]);
}

} // verus!
