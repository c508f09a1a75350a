//! Which moves the search tries in a position: the moves of the side's units that can be
//! made, whatever the order of the roster and whatever the cache holds.

use crate::ai::ordering::{
    lemma_order_moves, lemma_scored_upto, spec_get_possible_moves, spec_moves_of,
    spec_order_moves, spec_possible_moves_upto, spec_scored_upto, spec_sort_moves, ScoredMove,
};
use crate::ai::roster::{
    lemma_same_units_contains, lemma_same_units_make_move, lemma_same_units_same_occupancy,
    same_units,
};
use crate::ai::spec_can_make_move;
use crate::movement::occupancy::lemma_unit_moves_same_occupancy;
use crate::movement::{spec_get_unit_moves, GameMove};
use crate::team::Team;
use crate::units::{distinct_cells, Unit};
use vstd::prelude::*;

verus! {

/// Whether the move is a move of the unit: from its cell to a cell it can move to.
pub open spec fn spec_is_move_of(
    unit: Unit,
    cube_side_length: u32,
    units: Seq<Unit>,
    game_move: GameMove,
) -> bool {
    game_move.from == unit.coords && spec_get_unit_moves(unit, cube_side_length, units).contains(
        game_move.to,
    )
}

/// Whether the move is a move of one of the side's units.
pub open spec fn spec_is_move_of_side(
    cube_side_length: u32,
    units: Seq<Unit>,
    team: Team,
    game_move: GameMove,
) -> bool {
    exists|unit: Unit|
        #![trigger units.contains(unit)]
        units.contains(unit) && unit.team == team && spec_is_move_of(
            unit,
            cube_side_length,
            units,
            game_move,
        )
}

/// The moves listed for one unit are its moves.
pub proof fn lemma_moves_of(unit: Unit, cube_side_length: u32, units: Seq<Unit>, game_move: GameMove)
    ensures
        spec_moves_of(unit, cube_side_length, units).contains(game_move) <==> spec_is_move_of(
            unit,
            cube_side_length,
            units,
            game_move,
        ),
{
    let cells = spec_get_unit_moves(unit, cube_side_length, units);
    let moves = spec_moves_of(unit, cube_side_length, units);
    if moves.contains(game_move) {
        let i = choose|i: int| 0 <= i < moves.len() && moves[i] == game_move;
        assert(cells[i] == game_move.to);
    }
    if spec_is_move_of(unit, cube_side_length, units, game_move) {
        let i = choose|i: int| 0 <= i < cells.len() && cells[i] == game_move.to;
        assert(moves[i] == game_move);
    }
}

/// The moves listed for the first `n` units of the roster are the moves of those among them
/// that belong to the side.
pub proof fn lemma_possible_moves_upto(
    n: nat,
    cube_side_length: u32,
    units: Seq<Unit>,
    team: Team,
    game_move: GameMove,
)
    requires
        n <= units.len(),
    ensures
        spec_possible_moves_upto(n, cube_side_length, units, team).contains(game_move)
            <==> exists|i: int|
            0 <= i < n && (#[trigger] units[i]).team == team && spec_is_move_of(
                units[i],
                cube_side_length,
                units,
                game_move,
            ),
    decreases n,
{
    if n > 0 {
        let before = spec_possible_moves_upto((n - 1) as nat, cube_side_length, units, team);
        let added = spec_moves_of(units[n - 1], cube_side_length, units);
        let all = spec_possible_moves_upto(n, cube_side_length, units, team);
        lemma_possible_moves_upto((n - 1) as nat, cube_side_length, units, team, game_move);
        lemma_moves_of(units[n - 1], cube_side_length, units, game_move);
        if units[n - 1].team == team {
            assert(all == before + added);
            if all.contains(game_move) {
                let k = choose|k: int| 0 <= k < all.len() && all[k] == game_move;
                if k < before.len() {
                    assert(before[k] == game_move);
                } else {
                    assert(added[k - before.len()] == game_move);
                }
            }
            if before.contains(game_move) {
                let k = choose|k: int| 0 <= k < before.len() && before[k] == game_move;
                assert(all[k] == game_move);
            }
            if added.contains(game_move) {
                let k = choose|k: int| 0 <= k < added.len() && added[k] == game_move;
                assert(all[before.len() + k] == game_move);
            }
        }
    }
}

/// The moves listed for a side are the moves of its units.
pub proof fn lemma_possible_moves(
    cube_side_length: u32,
    units: Seq<Unit>,
    team: Team,
    game_move: GameMove,
)
    ensures
        spec_get_possible_moves(cube_side_length, units, team).contains(game_move)
            <==> spec_is_move_of_side(cube_side_length, units, team, game_move),
{
    lemma_possible_moves_upto(units.len(), cube_side_length, units, team, game_move);
    if spec_get_possible_moves(cube_side_length, units, team).contains(game_move) {
        let i = choose|i: int|
            0 <= i < units.len() && (#[trigger] units[i]).team == team && spec_is_move_of(
                units[i],
                cube_side_length,
                units,
                game_move,
            );
        assert(units.contains(units[i]));
    }
    if spec_is_move_of_side(cube_side_length, units, team, game_move) {
        let unit = choose|unit: Unit|
            #![trigger units.contains(unit)]
            units.contains(unit) && unit.team == team && spec_is_move_of(
                unit,
                cube_side_length,
                units,
                game_move,
            );
        let i = choose|i: int| 0 <= i < units.len() && units[i] == unit;
        assert(units[i].team == team);
    }
}

/// Rosters that hold the same units give a side the same moves.
pub proof fn lemma_same_units_possible_moves(
    cube_side_length: u32,
    a: Seq<Unit>,
    b: Seq<Unit>,
    team: Team,
    game_move: GameMove,
)
    requires
        same_units(a, b),
    ensures
        spec_get_possible_moves(cube_side_length, a, team).contains(game_move)
            == spec_get_possible_moves(cube_side_length, b, team).contains(game_move),
{
    lemma_possible_moves(cube_side_length, a, team, game_move);
    lemma_possible_moves(cube_side_length, b, team, game_move);
    lemma_same_units_same_occupancy(a, b);
    assert forall|unit: Unit|
        (#[trigger] a.contains(unit) && unit.team == team && spec_is_move_of(
            unit,
            cube_side_length,
            a,
            game_move,
        )) == (b.contains(unit) && unit.team == team && spec_is_move_of(
            unit,
            cube_side_length,
            b,
            game_move,
        )) by {
        lemma_same_units_contains(a, b, unit);
        lemma_unit_moves_same_occupancy(unit, cube_side_length, a, b);
    }
    if spec_is_move_of_side(cube_side_length, a, team, game_move) {
        let unit = choose|unit: Unit|
            #![trigger a.contains(unit)]
            a.contains(unit) && unit.team == team && spec_is_move_of(
                unit,
                cube_side_length,
                a,
                game_move,
            );
        assert(b.contains(unit));
    }
    if spec_is_move_of_side(cube_side_length, b, team, game_move) {
        let unit = choose|unit: Unit|
            #![trigger b.contains(unit)]
            b.contains(unit) && unit.team == team && spec_is_move_of(
                unit,
                cube_side_length,
                b,
                game_move,
            );
        lemma_same_units_contains(a, b, unit);
        assert(a.contains(unit));
    }
}

/// Whether the move is one of the moves of the list.
pub open spec fn spec_tries(sorted: Seq<ScoredMove>, game_move: GameMove) -> bool {
    exists|j: int| 0 <= j < sorted.len() && (#[trigger] sorted[j]).0 == game_move
}

/// Ranking the first `n` of the listed moves keeps those of them that can be made, and no
/// other move.
pub proof fn lemma_scored_upto_tries(
    n: nat,
    possible_moves: Seq<GameMove>,
    units: Seq<Unit>,
    team: Team,
    last_variation: Seq<GameMove>,
    game_move: GameMove,
)
    requires
        n <= possible_moves.len(),
        distinct_cells(units),
    ensures
        spec_tries(spec_scored_upto(n, possible_moves, units, team, last_variation).0, game_move)
            <==> (spec_can_make_move(units, game_move) && exists|i: int|
            0 <= i < n && #[trigger] possible_moves[i] == game_move),
    decreases n,
{
    if n > 0 {
        let (scored, roster) = spec_scored_upto(
            (n - 1) as nat,
            possible_moves,
            units,
            team,
            last_variation,
        );
        let all = spec_scored_upto(n, possible_moves, units, team, last_variation).0;
        let latest = possible_moves[n - 1];
        lemma_scored_upto_tries(
            (n - 1) as nat,
            possible_moves,
            units,
            team,
            last_variation,
            game_move,
        );
        lemma_scored_upto((n - 1) as nat, possible_moves, units, team, last_variation);
        lemma_same_units_make_move(units, roster, latest);
        if spec_tries(all, game_move) {
            let j = choose|j: int| 0 <= j < all.len() && (#[trigger] all[j]).0 == game_move;
            if j < scored.len() {
                assert(all[j] == scored[j]);
                assert(spec_tries(scored, game_move));
                let i = choose|i: int|
                    0 <= i < n - 1 && #[trigger] possible_moves[i] == game_move;
                assert(possible_moves[i] == game_move);
            } else {
                assert(possible_moves[n - 1] == game_move);
            }
        }
        if spec_can_make_move(units, game_move) && exists|i: int|
            0 <= i < n && #[trigger] possible_moves[i] == game_move {
            let i = choose|i: int| 0 <= i < n && #[trigger] possible_moves[i] == game_move;
            if i < n - 1 {
                assert(spec_tries(scored, game_move));
                let j = choose|j: int|
                    0 <= j < scored.len() && (#[trigger] scored[j]).0 == game_move;
                assert(all[j].0 == game_move);
            } else {
                assert(all[all.len() - 1].0 == game_move);
            }
        }
    } else {
        let none = spec_scored_upto(n, possible_moves, units, team, last_variation).0;
        assert(none.len() == 0);
    }
}

/// The search tries the listed moves that can be made, and no other move.
pub proof fn lemma_sort_moves_tries(
    possible_moves: Seq<GameMove>,
    units: Seq<Unit>,
    team: Team,
    last_variation: Seq<GameMove>,
    game_move: GameMove,
)
    requires
        distinct_cells(units),
    ensures
        spec_tries(spec_sort_moves(possible_moves, units, team, last_variation).0, game_move)
            <==> (spec_can_make_move(units, game_move) && possible_moves.contains(game_move)),
{
    broadcast use vstd::seq_lib::group_to_multiset_ensures;

    let scored = spec_scored_upto(
        possible_moves.len(),
        possible_moves,
        units,
        team,
        last_variation,
    ).0;
    let sorted = spec_order_moves(scored);
    lemma_scored_upto_tries(
        possible_moves.len(),
        possible_moves,
        units,
        team,
        last_variation,
        game_move,
    );
    lemma_order_moves(scored);
    if spec_tries(sorted, game_move) {
        let j = choose|j: int| 0 <= j < sorted.len() && (#[trigger] sorted[j]).0 == game_move;
        assert(sorted.contains(sorted[j]));
        assert(sorted.to_multiset().count(sorted[j]) > 0);
        assert(scored.contains(sorted[j]));
        let w = choose|w: int| 0 <= w < scored.len() && scored[w] == sorted[j];
        assert(scored[w].0 == game_move);
    }
    if spec_tries(scored, game_move) {
        let j = choose|j: int| 0 <= j < scored.len() && (#[trigger] scored[j]).0 == game_move;
        assert(scored.contains(scored[j]));
        assert(scored.to_multiset().count(scored[j]) > 0);
        assert(sorted.contains(scored[j]));
        let w = choose|w: int| 0 <= w < sorted.len() && sorted[w] == scored[j];
        assert(sorted[w].0 == game_move);
    }
    if possible_moves.contains(game_move) {
        let i = choose|i: int| 0 <= i < possible_moves.len() && possible_moves[i] == game_move;
        assert(possible_moves[i] == game_move);
    }
}

} // verus!
