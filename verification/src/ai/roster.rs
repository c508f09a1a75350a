//! Rosters that hold the same units in another order: what the search computes on one it
//! computes on the other.

use crate::ai::{
    lemma_get_unit_distinct, lemma_make_move, lemma_swap_remove_contains, spec_can_make_move,
    spec_captured, spec_evaluation, spec_make_move, spec_material,
};
use crate::cell::CellCoordinates;
use crate::movement::occupancy::same_occupancy;
use crate::movement::GameMove;
use crate::team::Team;
use crate::units::{
    distinct_cells, lemma_position, spec_get_unit, spec_is_unit_at, spec_position,
    spec_remove_unit, Unit,
};
use vstd::prelude::*;

verus! {

/// The two rosters hold the same units, and in neither do two units share a cell.
pub open spec fn same_units(a: Seq<Unit>, b: Seq<Unit>) -> bool {
    distinct_cells(a) && distinct_cells(b) && a.to_set() == b.to_set()
}

/// Holding the same units is an equivalence.
pub proof fn lemma_same_units_equivalence(a: Seq<Unit>, b: Seq<Unit>, c: Seq<Unit>)
    ensures
        distinct_cells(a) ==> same_units(a, a),
        same_units(a, b) ==> same_units(b, a),
        same_units(a, b) && same_units(b, c) ==> same_units(a, c),
{
}

/// A unit of one of two rosters that hold the same units is a unit of the other.
pub proof fn lemma_same_units_contains(a: Seq<Unit>, b: Seq<Unit>, unit: Unit)
    requires
        same_units(a, b),
    ensures
        a.contains(unit) == b.contains(unit),
{
    assert(a.to_set().contains(unit) == b.to_set().contains(unit));
}

/// Rosters that hold the same units have the same cells occupied, each by the same unit.
pub proof fn lemma_same_units_same_occupancy(a: Seq<Unit>, b: Seq<Unit>)
    requires
        same_units(a, b),
    ensures
        same_occupancy(a, b),
{
    assert forall|cell: CellCoordinates|
        #![trigger spec_is_unit_at(a, cell)]
        #![trigger spec_is_unit_at(b, cell)]
        #![trigger spec_get_unit(a, cell)]
        #![trigger spec_get_unit(b, cell)]
        spec_is_unit_at(a, cell) == spec_is_unit_at(b, cell) && spec_get_unit(a, cell)
            == spec_get_unit(b, cell) by {
        lemma_position(a, cell, 0);
        lemma_position(b, cell, 0);
        if spec_is_unit_at(a, cell) {
            let unit = spec_get_unit(a, cell).unwrap();
            assert(a.contains(unit));
            lemma_same_units_contains(a, b, unit);
            lemma_get_unit_distinct(b, unit);
        }
        if spec_is_unit_at(b, cell) {
            let unit = spec_get_unit(b, cell).unwrap();
            assert(b.contains(unit));
            lemma_same_units_contains(a, b, unit);
            lemma_get_unit_distinct(a, unit);
        }
    }
}

/// What the unit at one index adds to a side's material.
pub open spec fn spec_material_of(unit: Unit, team: Team) -> int {
    if unit.team == team {
        unit.unit_type.spec_material_value() as int
    } else {
        0
    }
}

/// A side's material is that of the roster without one unit, and that unit's.
pub proof fn lemma_material_remove(units: Seq<Unit>, i: int, team: Team)
    requires
        0 <= i < units.len(),
    ensures
        spec_material(units, team) == spec_material(units.remove(i), team) + spec_material_of(
            units[i],
            team,
        ),
    decreases units.len(),
{
    if i == units.len() - 1 {
        assert(units.remove(i) =~= units.drop_last());
    } else {
        lemma_material_remove(units.drop_last(), i, team);
        assert(units.remove(i).drop_last() =~= units.drop_last().remove(i));
        assert(units.remove(i).last() == units.last());
    }
}

/// Rosters that hold the same units list equally many, and give each side the same material.
pub proof fn lemma_same_units_material(a: Seq<Unit>, b: Seq<Unit>, team: Team)
    requires
        same_units(a, b),
    ensures
        a.len() == b.len(),
        spec_material(a, team) == spec_material(b, team),
    decreases a.len(),
{
    if a.len() == 0 {
        if b.len() > 0 {
            assert(b.to_set().contains(b[0]));
            assert(a.contains(b[0]));
        }
    } else {
        let unit = a.last();
        assert(a.to_set().contains(unit));
        assert(b.contains(unit));
        let j = choose|j: int| 0 <= j < b.len() && b[j] == unit;
        let shorter_a = a.drop_last();
        let shorter_b = b.remove(j);
        assert forall|other: Unit| shorter_a.contains(other) <==> shorter_b.contains(other) by {
            if shorter_a.contains(other) {
                let k = choose|k: int| 0 <= k < shorter_a.len() && shorter_a[k] == other;
                assert(a[k] == other);
                assert(a[k].coords != a[a.len() - 1].coords);
                assert(a.to_set().contains(other));
                assert(b.contains(other));
                let w = choose|w: int| 0 <= w < b.len() && b[w] == other;
                assert(w != j);
                if w < j {
                    assert(shorter_b[w] == other);
                } else {
                    assert(shorter_b[w - 1] == other);
                }
            }
            if shorter_b.contains(other) {
                let k = choose|k: int| 0 <= k < shorter_b.len() && shorter_b[k] == other;
                let w = if k < j {
                    k
                } else {
                    k + 1
                };
                assert(b[w] == other);
                if w < j {
                    assert(b[w].coords != b[j].coords);
                } else {
                    assert(b[j].coords != b[w].coords);
                }
                assert(b.to_set().contains(other));
                assert(a.contains(other));
                let v = choose|v: int| 0 <= v < a.len() && a[v] == other;
                assert(v != a.len() - 1);
                assert(shorter_a[v] == other);
            }
        }
        assert(shorter_a.to_set() =~= shorter_b.to_set());
        assert(distinct_cells(shorter_b)) by {
            assert forall|x: int, y: int| 0 <= x < y < shorter_b.len() implies (
            #[trigger] shorter_b[x]).coords != (#[trigger] shorter_b[y]).coords by {
                let x0 = if x < j {
                    x
                } else {
                    x + 1
                };
                let y0 = if y < j {
                    y
                } else {
                    y + 1
                };
                assert(b[x0].coords != b[y0].coords);
            }
        }
        lemma_same_units_material(shorter_a, shorter_b, team);
        lemma_material_remove(b, j, team);
    }
}

/// Rosters that hold the same units are worth the same.
pub proof fn lemma_same_units_evaluation(a: Seq<Unit>, b: Seq<Unit>)
    requires
        same_units(a, b),
    ensures
        a.len() == b.len(),
        spec_evaluation(a) == spec_evaluation(b),
{
    lemma_same_units_material(a, b, Team::White);
    lemma_same_units_material(a, b, Team::Black);
}

/// Where no two units share a cell, a move can be made if and only if it leads from an
/// occupied cell to another cell.
pub proof fn lemma_can_make_move(units: Seq<Unit>, game_move: GameMove)
    requires
        distinct_cells(units),
    ensures
        spec_can_make_move(units, game_move) == (spec_is_unit_at(units, game_move.from)
            && game_move.from != game_move.to),
{
    lemma_position(units, game_move.from, 0);
    lemma_position(units, game_move.to, 0);
    if spec_can_make_move(units, game_move) {
        lemma_make_move(units, game_move);
    }
    if spec_is_unit_at(units, game_move.from) && game_move.from != game_move.to {
        let j = choose|j: int|
            0 <= j < units.len() && (#[trigger] units[j]).coords == game_move.from;
        let remaining = spec_remove_unit(units, game_move.to);
        match spec_position(units, game_move.to) {
            Some(i) => {
                lemma_swap_remove_contains(units, i, units[j]);
                assert(remaining.contains(units[j]));
                let k = choose|k: int| 0 <= k < remaining.len() && remaining[k] == units[j];
                assert(remaining[k].coords == game_move.from);
            },
            None => {},
        }
    }
}

/// On rosters that hold the same units the same moves can be made, they capture the same
/// unit, and they lead to rosters that hold the same units again.
pub proof fn lemma_same_units_make_move(a: Seq<Unit>, b: Seq<Unit>, game_move: GameMove)
    requires
        same_units(a, b),
    ensures
        spec_can_make_move(a, game_move) == spec_can_make_move(b, game_move),
        spec_captured(a, game_move) == spec_captured(b, game_move),
        spec_can_make_move(a, game_move) ==> same_units(
            spec_make_move(a, game_move),
            spec_make_move(b, game_move),
        ),
{
    lemma_same_units_same_occupancy(a, b);
    lemma_can_make_move(a, game_move);
    lemma_can_make_move(b, game_move);
    assert(spec_is_unit_at(a, game_move.from) == spec_is_unit_at(b, game_move.from));
    assert(spec_get_unit(a, game_move.to) == spec_get_unit(b, game_move.to));
    if spec_can_make_move(a, game_move) {
        lemma_make_move(a, game_move);
        lemma_make_move(b, game_move);
        assert(spec_get_unit(a, game_move.from) == spec_get_unit(b, game_move.from));
        let made_a = spec_make_move(a, game_move);
        let made_b = spec_make_move(b, game_move);
        assert forall|unit: Unit| made_a.contains(unit) <==> made_b.contains(unit) by {
            lemma_same_units_contains(a, b, unit);
        }
        assert(made_a.to_set() =~= made_b.to_set());
    }
}

} // verus!
