//! The search that picks a move for the computer's side.

use crate::board::Board;
use crate::movement::GameMove;
use crate::team::Team;
use crate::units::{
    all_have_normal, distinct_cells, lemma_position, spec_get_unit, spec_is_unit_at, spec_position,
    spec_remove_unit, spec_swap_remove, Unit, Units,
};
use vstd::prelude::*;

pub mod candidates;
pub mod ordering;
pub mod pruning;
pub mod roster;
pub mod search;

pub use ordering::{get_possible_moves, sort_moves};
pub use search::{eval_exhaustive, eval_recursive, next_move};

verus! {

/// The best line that the last search found, kept as a hint for the next one. The moves stand
/// in reverse order: the last entry is the move to be played first.
pub struct AICache {
    last_variation: Vec<GameMove>,
}

impl View for AICache {
    type V = Seq<GameMove>;

    closed spec fn view(&self) -> Seq<GameMove> {
        self.last_variation@
    }
}

impl Default for AICache {
    fn default() -> (r: AICache)
        ensures
            r@ == Seq::<GameMove>::empty(),
    {
        AICache { last_variation: Vec::new() }
    }
}

impl AICache {
    /// A cache that holds no line.
    pub fn new() -> (r: AICache)
        ensures
            r@ == Seq::<GameMove>::empty(),
    {
        AICache { last_variation: Vec::new() }
    }

    /// The line that the cache holds.
    pub fn last_variation(&self) -> (r: &Vec<GameMove>)
        ensures
            r@ == self@,
    {
        &self.last_variation
    }

    /// Replaces the line that the cache holds.
    pub fn set_last_variation(&mut self, variation: Vec<GameMove>)
        ensures
            final(self)@ == variation@,
    {
        self.last_variation = variation;
    }
}

/// The material that a side has on the board, in half pawns.
pub open spec fn spec_material(units: Seq<Unit>, team: Team) -> int
    decreases units.len(),
{
    if units.len() == 0 {
        0
    } else {
        spec_material(units.drop_last(), team) + if units.last().team == team {
            units.last().unit_type.spec_material_value() as int
        } else {
            0
        }
    }
}

/// The worth of a position for White: White's material less Black's.
pub open spec fn spec_evaluation(units: Seq<Unit>) -> int {
    spec_material(units, Team::White) - spec_material(units, Team::Black)
}

/// A side's material is at most 2000 half pawns for each unit of the roster.
pub proof fn lemma_material_bounds(units: Seq<Unit>, team: Team)
    ensures
        0 <= spec_material(units, team) <= 2000 * units.len(),
    decreases units.len(),
{
    if units.len() > 0 {
        lemma_material_bounds(units.drop_last(), team);
    }
}

/// The worth of the position for White, in half pawns: the material of White's units less
/// that of Black's.
pub fn evaluation(_board: &Board, units: &Units, _ai_cache: &AICache) -> (score: i128)
    ensures
        score == spec_evaluation(units@),
        -2000 * units@.len() <= score <= 2000 * units@.len(),
{
    let mut white_material: i128 = 0;
    let mut black_material: i128 = 0;
    let all = units.all_units();
    let mut i: usize = 0;
    while i < all.len()
        invariant
            i <= all.len(),
            all@ == units@,
            white_material == spec_material(all@.subrange(0, i as int), Team::White),
            black_material == spec_material(all@.subrange(0, i as int), Team::Black),
        decreases all.len() - i,
    {
        proof {
            lemma_material_bounds(all@.subrange(0, i as int), Team::White);
            lemma_material_bounds(all@.subrange(0, i as int), Team::Black);
            assert(all@.subrange(0, i + 1).drop_last() =~= all@.subrange(0, i as int));
        }
        let unit = &all[i];
        match unit.team {
            Team::Black => {
                black_material += unit.unit_type.material_value() as i128;
            },
            Team::White => {
                white_material += unit.unit_type.material_value() as i128;
            },
        }
        i += 1;
    }
    proof {
        assert(all@.subrange(0, all@.len() as int) =~= all@);
        lemma_material_bounds(all@, Team::White);
        lemma_material_bounds(all@, Team::Black);
    }
    white_material - black_material
}

/// Whether the move can be made: once the unit on the destination is taken off the roster,
/// a unit stands on the cell the move starts from.
pub open spec fn spec_can_make_move(units: Seq<Unit>, game_move: GameMove) -> bool {
    spec_is_unit_at(spec_remove_unit(units, game_move.to), game_move.from)
}

/// The roster after the move: the first unit on the destination is taken off, and the first
/// unit on the cell the move starts from then stands on the destination. A move that cannot
/// be made leaves the roster as it is.
pub open spec fn spec_make_move(units: Seq<Unit>, game_move: GameMove) -> Seq<Unit> {
    let remaining = spec_remove_unit(units, game_move.to);
    match spec_position(remaining, game_move.from) {
        Some(i) => remaining.update(i, Unit { coords: game_move.to, ..remaining[i] }),
        None => units,
    }
}

/// The unit that the move captures.
pub open spec fn spec_captured(units: Seq<Unit>, game_move: GameMove) -> Option<Unit> {
    if spec_can_make_move(units, game_move) {
        spec_get_unit(units, game_move.to)
    } else {
        None
    }
}

/// Makes the move on the roster and tells whether it could be made, with the unit that it
/// captured. A move from a cell on which no unit stands cannot be made and changes nothing.
pub fn make_move(game_move: GameMove, units: &mut Units) -> (r: (bool, Option<Unit>))
    ensures
        r.0 == spec_can_make_move(old(units)@, game_move),
        r.1 == spec_captured(old(units)@, game_move),
        final(units)@ == spec_make_move(old(units)@, game_move),
{
    let ghost before = units@;
    let target = units.position(game_move.to);
    let captured_unit = units.remove_unit(game_move.to);
    match units.get_unit_mut(game_move.from) {
        Some(unit) => {
            unit.move_unit_to(game_move.to);
            return (true, captured_unit);
        },
        None => {},
    }
    proof {
        lemma_position(units@, game_move.from, 0);
    }
    match (target, captured_unit) {
        (Some(index), Some(unit)) => {
            units.add_unit(unit);
            let last = units.len() - 1;
            units.swap_units(index, last);
            assert(units@ =~= before);
        },
        _ => {},
    }
    (false, None)
}

/// The roster after the move is taken back: the first unit on the destination stands on the
/// cell the move started from again, and the captured unit is added at the end.
pub open spec fn spec_unmake_move(
    units: Seq<Unit>,
    game_move: GameMove,
    captured_unit: Option<Unit>,
) -> Seq<Unit> {
    let moved_back = match spec_position(units, game_move.to) {
        Some(i) => units.update(i, Unit { coords: game_move.from, ..units[i] }),
        None => units,
    };
    match captured_unit {
        Some(unit) => moved_back.push(unit),
        None => moved_back,
    }
}

/// Takes back a move that was made, given the unit that it captured.
pub fn unmake_move(game_move: GameMove, units: &mut Units, captured_unit: Option<Unit>)
    requires
        spec_is_unit_at(old(units)@, game_move.to),
    ensures
        final(units)@ == spec_unmake_move(old(units)@, game_move, captured_unit),
{
    proof {
        lemma_position(units@, game_move.to, 0);
    }
    match units.get_unit_mut(game_move.to) {
        Some(unit) => {
            unit.move_unit_to(game_move.from);
        },
        None => {
            assert(false);
        },
    }
    if let Some(captured_unit) = captured_unit {
        units.add_unit(captured_unit);
    }
}

/// Every cell on which a unit of `before` stands is a cell on which a unit of `after` stands.
pub open spec fn keeps_cells_occupied(before: Seq<Unit>, after: Seq<Unit>) -> bool {
    forall|cell: crate::cell::CellCoordinates|
        #![trigger spec_is_unit_at(before, cell)]
        #![trigger spec_is_unit_at(after, cell)]
        spec_is_unit_at(before, cell) ==> spec_is_unit_at(after, cell)
}

/// What a move that can be made does to any roster: a unit stood on the cell it starts from,
/// a unit stands on the destination afterwards, and every other cell that was occupied still
/// is. Where every unit stood on coordinates that name a face and the destination names one,
/// every unit does so afterwards.
pub proof fn lemma_make_move_cells(units: Seq<Unit>, game_move: GameMove)
    requires
        spec_can_make_move(units, game_move),
    ensures
        spec_is_unit_at(units, game_move.from),
        spec_is_unit_at(spec_make_move(units, game_move), game_move.to),
        forall|cell: crate::cell::CellCoordinates|
            #![trigger spec_is_unit_at(spec_make_move(units, game_move), cell)]
            cell != game_move.from && spec_is_unit_at(units, cell) ==> spec_is_unit_at(
                spec_make_move(units, game_move),
                cell,
            ),
        all_have_normal(units) && game_move.to.has_normal() ==> all_have_normal(
            spec_make_move(units, game_move),
        ),
{
    let remaining = spec_remove_unit(units, game_move.to);
    let made = spec_make_move(units, game_move);
    lemma_position(units, game_move.to, 0);
    lemma_position(remaining, game_move.from, 0);
    let i = spec_position(remaining, game_move.from).unwrap();
    assert(made[i].coords == game_move.to);
    assert forall|k: int| 0 <= k < remaining.len() implies exists|j: int|
        0 <= j < units.len() && units[j] == #[trigger] remaining[k] by {
        match spec_position(units, game_move.to) {
            Some(t) => {
                lemma_swap_remove_contains(units, t, remaining[k]);
                assert(remaining.contains(remaining[k]));
            },
            None => {},
        }
    }
    let w = choose|j: int| 0 <= j < units.len() && units[j] == remaining[i];
    assert(units[w].coords == game_move.from);
    assert forall|cell: crate::cell::CellCoordinates|
        #![trigger spec_is_unit_at(made, cell)]
        cell != game_move.from && spec_is_unit_at(units, cell) implies spec_is_unit_at(
        made,
        cell,
    ) by {
        if cell != game_move.to {
            let j = choose|j: int| 0 <= j < units.len() && (#[trigger] units[j]).coords == cell;
            match spec_position(units, game_move.to) {
                Some(t) => {
                    lemma_swap_remove_contains(units, t, units[j]);
                    assert(remaining.contains(units[j]));
                },
                None => {},
            }
            assert(remaining.contains(units[j]));
            let k = choose|k: int| 0 <= k < remaining.len() && remaining[k] == units[j];
            assert(k != i);
            assert(made[k].coords == cell);
        }
    }
    if all_have_normal(units) && game_move.to.has_normal() {
        assert forall|k: int| 0 <= k < made.len() implies (#[trigger] made[k]).coords.has_normal() by {
            if k != i {
                assert(made[k] == remaining[k]);
                let j = choose|j: int| 0 <= j < units.len() && units[j] == remaining[k];
                assert(units[j].coords.has_normal());
            }
        }
    }
}

/// What taking a move back does to any roster on whose destination a unit stands: a unit
/// stands on the cell the move started from afterwards, the captured unit is back, and every
/// cell but the destination that was occupied still is. Where every unit stood on
/// coordinates that name a face, and the cell the move started from and the captured unit's
/// name one, every unit does so afterwards.
pub proof fn lemma_unmake_move_cells(
    units: Seq<Unit>,
    game_move: GameMove,
    captured_unit: Option<Unit>,
)
    requires
        spec_is_unit_at(units, game_move.to),
    ensures
        spec_is_unit_at(spec_unmake_move(units, game_move, captured_unit), game_move.from),
        captured_unit matches Some(unit) ==> spec_is_unit_at(
            spec_unmake_move(units, game_move, captured_unit),
            unit.coords,
        ),
        forall|cell: crate::cell::CellCoordinates|
            #![trigger spec_is_unit_at(spec_unmake_move(units, game_move, captured_unit), cell)]
            cell != game_move.to && spec_is_unit_at(units, cell) ==> spec_is_unit_at(
                spec_unmake_move(units, game_move, captured_unit),
                cell,
            ),
        all_have_normal(units) && game_move.from.has_normal() && (captured_unit matches Some(unit)
            ==> unit.coords.has_normal()) ==> all_have_normal(
            spec_unmake_move(units, game_move, captured_unit),
        ),
{
    let unmade = spec_unmake_move(units, game_move, captured_unit);
    lemma_position(units, game_move.to, 0);
    let i = spec_position(units, game_move.to).unwrap();
    assert(unmade[i].coords == game_move.from);
    match captured_unit {
        Some(unit) => {
            assert(unmade[unmade.len() - 1] == unit);
        },
        None => {},
    }
    assert forall|cell: crate::cell::CellCoordinates|
        #![trigger spec_is_unit_at(unmade, cell)]
        cell != game_move.to && spec_is_unit_at(units, cell) implies spec_is_unit_at(
        unmade,
        cell,
    ) by {
        let j = choose|j: int| 0 <= j < units.len() && (#[trigger] units[j]).coords == cell;
        assert(j != i);
        assert(unmade[j].coords == cell);
    }
    if all_have_normal(units) && game_move.from.has_normal() && (captured_unit matches Some(unit)
        ==> unit.coords.has_normal()) {
        assert forall|k: int| 0 <= k < unmade.len() implies (
        #[trigger] unmade[k]).coords.has_normal() by {
            if k < units.len() && k != i {
                assert(unmade[k] == units[k]);
            }
        }
    }
}

/// Making a move and taking it back keeps every occupied cell occupied, whatever happened
/// to the roster in between, if that kept the cells occupied. Where every unit stood on
/// coordinates that name a face before the move and in between, and the destination names
/// one, every unit does so afterwards.
pub proof fn lemma_make_unmake_cells(units: Seq<Unit>, game_move: GameMove, between: Seq<Unit>)
    requires
        spec_can_make_move(units, game_move),
        keeps_cells_occupied(spec_make_move(units, game_move), between),
    ensures
        spec_is_unit_at(between, game_move.to),
        keeps_cells_occupied(
            units,
            spec_unmake_move(between, game_move, spec_captured(units, game_move)),
        ),
        all_have_normal(units) && all_have_normal(between) ==> all_have_normal(
            spec_unmake_move(between, game_move, spec_captured(units, game_move)),
        ),
{
    let made = spec_make_move(units, game_move);
    let captured_unit = spec_captured(units, game_move);
    let restored = spec_unmake_move(between, game_move, captured_unit);
    lemma_make_move_cells(units, game_move);
    assert(spec_is_unit_at(made, game_move.to));
    assert(spec_is_unit_at(between, game_move.to));
    lemma_unmake_move_cells(between, game_move, captured_unit);
    lemma_position(units, game_move.to, 0);
    lemma_position(units, game_move.from, 0);
    assert forall|cell: crate::cell::CellCoordinates|
        #![trigger spec_is_unit_at(units, cell)]
        #![trigger spec_is_unit_at(restored, cell)]
        spec_is_unit_at(units, cell) implies spec_is_unit_at(restored, cell) by {
        if cell == game_move.from {
        } else if cell == game_move.to {
            assert(captured_unit is Some);
            assert(captured_unit.unwrap().coords == game_move.to);
        } else {
            assert(spec_is_unit_at(made, cell));
            assert(spec_is_unit_at(between, cell));
        }
    }
    if all_have_normal(units) && all_have_normal(between) {
        let f = spec_position(units, game_move.from).unwrap();
        assert(units[f].coords.has_normal());
        match captured_unit {
            Some(unit) => {
                let t = spec_position(units, game_move.to).unwrap();
                assert(units[t].coords.has_normal());
            },
            None => {},
        }
    }
}

/// The roster without the unit at index `i` holds the other units and nothing else.
pub proof fn lemma_swap_remove_contains(units: Seq<Unit>, i: int, unit: Unit)
    requires
        0 <= i < units.len(),
    ensures
        spec_swap_remove(units, i).len() == units.len() - 1,
        spec_swap_remove(units, i).contains(unit) <==> exists|j: int|
            0 <= j < units.len() && j != i && units[j] == unit,
        distinct_cells(units) ==> distinct_cells(spec_swap_remove(units, i)),
{
    let rest = spec_swap_remove(units, i);
    let last = units.len() - 1;
    if rest.contains(unit) {
        let k = choose|k: int| 0 <= k < rest.len() && rest[k] == unit;
        if k == i {
            assert(units[last] == unit);
        } else {
            assert(units[k] == unit);
        }
    }
    if exists|j: int| 0 <= j < units.len() && j != i && units[j] == unit {
        let j = choose|j: int| 0 <= j < units.len() && j != i && units[j] == unit;
        if j == last {
            assert(rest[i] == unit);
        } else {
            assert(rest[j] == unit);
        }
    }
    if distinct_cells(units) {
        assert forall|a: int, b: int| 0 <= a < b < rest.len() implies (#[trigger] rest[a]).coords
            != (#[trigger] rest[b]).coords by {
            let a0 = if a == i {
                last
            } else {
                a
            };
            let b0 = if b == i {
                last
            } else {
                b
            };
            assert(rest[a] == units[a0] && rest[b] == units[b0]);
            if a0 < b0 {
                assert(units[a0].coords != units[b0].coords);
            } else {
                assert(units[b0].coords != units[a0].coords);
            }
        }
    }
}

/// In a roster where no two units share a cell, the unit on a cell is the same whatever the
/// order of the roster.
pub proof fn lemma_get_unit_distinct(units: Seq<Unit>, unit: Unit)
    requires
        distinct_cells(units),
        units.contains(unit),
    ensures
        spec_get_unit(units, unit.coords) == Some(unit),
{
    let k = choose|k: int| 0 <= k < units.len() && units[k] == unit;
    lemma_position(units, unit.coords, k);
    let p = spec_position(units, unit.coords).unwrap();
    if p < k {
        assert(units[p].coords != units[k].coords);
    }
    if k < p {
        assert(units[k].coords != units[p].coords);
    }
}

/// The unit that a move moves, as it stands on the roster before the move.
pub open spec fn spec_mover(units: Seq<Unit>, game_move: GameMove) -> Unit {
    spec_get_unit(spec_remove_unit(units, game_move.to), game_move.from).unwrap()
}

/// What a move that can be made does to a roster in which no two units share a cell: the
/// unit on the destination leaves, the moved unit stands on the destination, and every
/// other unit stays as it was. Afterwards no two units share a cell either.
pub proof fn lemma_make_move(units: Seq<Unit>, game_move: GameMove)
    requires
        distinct_cells(units),
        spec_can_make_move(units, game_move),
    ensures
        game_move.from != game_move.to,
        spec_get_unit(units, game_move.from) == Some(spec_mover(units, game_move)),
        distinct_cells(spec_make_move(units, game_move)),
        spec_make_move(units, game_move).len() == units.len() - if spec_is_unit_at(
            units,
            game_move.to,
        ) {
            1int
        } else {
            0int
        },
        forall|unit: Unit|
            #![trigger spec_make_move(units, game_move).contains(unit)]
            spec_make_move(units, game_move).contains(unit) <==> (unit == Unit {
                coords: game_move.to,
                ..spec_mover(units, game_move)
            } || (units.contains(unit) && unit.coords != game_move.from && unit.coords
                != game_move.to)),
{
    let remaining = spec_remove_unit(units, game_move.to);
    lemma_position(units, game_move.to, 0);
    lemma_position(remaining, game_move.from, 0);
    let i = spec_position(remaining, game_move.from).unwrap();
    let mover = remaining[i];
    let moved = Unit { coords: game_move.to, ..mover };
    let after = spec_make_move(units, game_move);
    assert(after == remaining.update(i, moved));
    match spec_position(units, game_move.to) {
        Some(t) => {
            lemma_swap_remove_contains(units, t, mover);
            assert forall|k: int| 0 <= k < remaining.len() implies (#[trigger] remaining[k]).coords
                != game_move.to by {
                lemma_swap_remove_contains(units, t, remaining[k]);
                let j = choose|j: int| 0 <= j < units.len() && j != t && units[j] == remaining[k];
                if j < t {
                    assert(units[j].coords != units[t].coords);
                } else {
                    assert(units[t].coords != units[j].coords);
                }
            }
            assert forall|unit: Unit|
                remaining.contains(unit) <==> (units.contains(unit) && unit.coords
                    != game_move.to) by {
                lemma_swap_remove_contains(units, t, unit);
                if units.contains(unit) && unit.coords != game_move.to {
                    let j = choose|j: int| 0 <= j < units.len() && units[j] == unit;
                    assert(j != t);
                }
                if remaining.contains(unit) {
                    let k = choose|k: int| 0 <= k < remaining.len() && remaining[k] == unit;
                    assert(remaining[k].coords != game_move.to);
                }
            }
        },
        None => {
            assert forall|k: int| 0 <= k < remaining.len() implies (#[trigger] remaining[k]).coords
                != game_move.to by {}
            assert forall|unit: Unit|
                remaining.contains(unit) <==> (units.contains(unit) && unit.coords
                    != game_move.to) by {
                if units.contains(unit) {
                    let j = choose|j: int| 0 <= j < units.len() && units[j] == unit;
                    assert(units[j].coords != game_move.to);
                }
            }
        },
    }
    assert(distinct_cells(remaining));
    assert(remaining[i].coords != game_move.to);
    assert(remaining.contains(mover));
    assert(units.contains(mover));
    lemma_get_unit_distinct(units, mover);
    assert forall|a: int, b: int| 0 <= a < b < after.len() implies (#[trigger] after[a]).coords != (
    #[trigger] after[b]).coords by {
        assert(remaining[a].coords != remaining[b].coords);
        assert(remaining[a].coords != game_move.to);
        assert(remaining[b].coords != game_move.to);
    }
    assert forall|unit: Unit|
        after.contains(unit) <==> (unit == moved || (units.contains(unit) && unit.coords
            != game_move.from && unit.coords != game_move.to)) by {
        if after.contains(unit) {
            let k = choose|k: int| 0 <= k < after.len() && after[k] == unit;
            if k != i {
                assert(remaining[k] == unit);
                assert(remaining.contains(unit));
                if k < i {
                    assert(remaining[k].coords != remaining[i].coords);
                } else {
                    assert(remaining[i].coords != remaining[k].coords);
                }
            }
        }
        if unit == moved {
            assert(after[i] == unit);
        }
        if units.contains(unit) && unit.coords != game_move.from && unit.coords != game_move.to {
            assert(remaining.contains(unit));
            let k = choose|k: int| 0 <= k < remaining.len() && remaining[k] == unit;
            assert(k != i);
            assert(after[k] == unit);
        }
    }
}

/// What taking a move back does to a roster in which no two units share a cell, when the
/// moved unit stands on the destination and nothing on the cell it came from: the moved unit
/// stands where it came from, the captured unit is back, and every other unit stays as it
/// was. Afterwards no two units share a cell either.
pub proof fn lemma_unmake_move(
    units: Seq<Unit>,
    game_move: GameMove,
    captured_unit: Option<Unit>,
)
    requires
        distinct_cells(units),
        game_move.from != game_move.to,
        spec_is_unit_at(units, game_move.to),
        !spec_is_unit_at(units, game_move.from),
        captured_unit matches Some(unit) ==> unit.coords == game_move.to,
    ensures
        distinct_cells(spec_unmake_move(units, game_move, captured_unit)),
        forall|unit: Unit|
            #![trigger spec_unmake_move(units, game_move, captured_unit).contains(unit)]
            spec_unmake_move(units, game_move, captured_unit).contains(unit) <==> (unit == Unit {
                coords: game_move.from,
                ..spec_get_unit(units, game_move.to).unwrap()
            } || captured_unit == Some(unit) || (units.contains(unit) && unit.coords
                != game_move.to)),
{
    lemma_position(units, game_move.to, 0);
    let i = spec_position(units, game_move.to).unwrap();
    let moved = units[i];
    let mover = Unit { coords: game_move.from, ..moved };
    let moved_back = units.update(i, mover);
    let after = spec_unmake_move(units, game_move, captured_unit);
    assert forall|k: int| 0 <= k < units.len() && k != i implies (#[trigger] units[k]).coords
        != game_move.to && units[k].coords != game_move.from by {
        if k < i {
            assert(units[k].coords != units[i].coords);
        } else {
            assert(units[i].coords != units[k].coords);
        }
    }
    assert forall|a: int, b: int| 0 <= a < b < moved_back.len() implies (
    #[trigger] moved_back[a]).coords != (#[trigger] moved_back[b]).coords by {
        assert(units[a].coords != units[b].coords);
        if a != i {
            assert(units[a].coords != game_move.from);
        }
        if b != i {
            assert(units[b].coords != game_move.from);
        }
    }
    assert forall|a: int, b: int| 0 <= a < b < after.len() implies (#[trigger] after[a]).coords != (
    #[trigger] after[b]).coords by {
        if b < moved_back.len() {
            assert(moved_back[a].coords != moved_back[b].coords);
        } else {
            if a != i {
                assert(units[a].coords != game_move.to);
            }
        }
    }
    assert forall|unit: Unit|
        after.contains(unit) <==> (unit == mover || captured_unit == Some(unit) || (units.contains(
            unit,
        ) && unit.coords != game_move.to)) by {
        if after.contains(unit) {
            let k = choose|k: int| 0 <= k < after.len() && after[k] == unit;
            if k < units.len() && k != i {
                assert(units[k] == unit);
            }
        }
        if unit == mover {
            assert(after[i] == unit);
        }
        if captured_unit == Some(unit) {
            assert(after[after.len() - 1] == unit);
        }
        if units.contains(unit) && unit.coords != game_move.to {
            let k = choose|k: int| 0 <= k < units.len() && units[k] == unit;
            assert(k != i);
            assert(after[k] == unit);
        }
    }
}

/// Taking back a move restores the roster. Where no two units share a cell and a move can be
/// made, making it and taking it back, whatever reordering of the roster happened in
/// between, leaves a roster that holds the same units as before the move, each where it
/// stood, and in which no two units share a cell.
pub proof fn lemma_make_unmake_restores(
    units: Seq<Unit>,
    game_move: GameMove,
    between: Seq<Unit>,
)
    requires
        distinct_cells(units),
        spec_can_make_move(units, game_move),
        distinct_cells(between),
        between.to_set() == spec_make_move(units, game_move).to_set(),
    ensures
        spec_is_unit_at(between, game_move.to),
        distinct_cells(spec_unmake_move(between, game_move, spec_captured(units, game_move))),
        spec_unmake_move(between, game_move, spec_captured(units, game_move)).to_set()
            == units.to_set(),
{
    let made = spec_make_move(units, game_move);
    let captured_unit = spec_captured(units, game_move);
    let mover = spec_mover(units, game_move);
    let moved = Unit { coords: game_move.to, ..mover };
    let restored = spec_unmake_move(between, game_move, captured_unit);
    lemma_make_move(units, game_move);
    assert forall|unit: Unit| between.contains(unit) <==> made.contains(unit) by {
        assert(between.to_set().contains(unit) <==> made.to_set().contains(unit));
    }
    assert(made.contains(moved));
    assert(between.contains(moved));
    lemma_get_unit_distinct(between, moved);
    lemma_position(between, game_move.to, 0);
    lemma_position(units, game_move.to, 0);
    lemma_position(units, game_move.from, 0);
    if spec_is_unit_at(between, game_move.from) {
        let k = choose|k: int|
            0 <= k < between.len() && (#[trigger] between[k]).coords == game_move.from;
        assert(between.contains(between[k]));
    }
    match captured_unit {
        Some(unit) => {
            let t = spec_position(units, game_move.to).unwrap();
            assert(units[t] == unit);
            assert(units.contains(unit));
        },
        None => {
            assert forall|unit: Unit| units.contains(unit) implies unit.coords
                != game_move.to by {
                let j = choose|j: int| 0 <= j < units.len() && units[j] == unit;
                assert(units[j].coords != game_move.to);
            }
        },
    }
    lemma_unmake_move(between, game_move, captured_unit);
    assert(units.contains(mover)) by {
        let f = spec_position(units, game_move.from).unwrap();
        assert(units[f] == mover);
    }
    assert forall|unit: Unit| restored.contains(unit) <==> units.contains(unit) by {
        if units.contains(unit) {
            lemma_get_unit_distinct(units, unit);
            if unit.coords == game_move.from {
                assert(unit == mover);
            } else if unit.coords == game_move.to {
                assert(captured_unit == Some(unit));
            } else {
                assert(made.contains(unit));
            }
        }
    }
    assert(restored.to_set() =~= units.to_set());
}

/// Making a move and taking it back at once leaves the roster holding the same units as
/// before, each where it stood.
pub proof fn lemma_make_unmake_round_trip(units: Seq<Unit>, game_move: GameMove)
    requires
        distinct_cells(units),
        spec_can_make_move(units, game_move),
    ensures
        spec_unmake_move(
            spec_make_move(units, game_move),
            game_move,
            spec_captured(units, game_move),
        ).to_set() == units.to_set(),
{
    lemma_make_move(units, game_move);
    lemma_make_unmake_restores(units, game_move, spec_make_move(units, game_move));
}

} // verus!
