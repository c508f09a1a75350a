//! The moves a side can make, and the order in which the search tries them.

use crate::ai::{
    evaluation, make_move, spec_can_make_move, spec_captured, spec_evaluation, spec_make_move,
    spec_unmake_move, unmake_move, AICache,
};
use crate::board::Board;
use crate::movement::{get_unit_moves, spec_get_unit_moves, GameMove};
use crate::team::Team;
use crate::units::{all_have_normal, spec_is_unit_at, Unit, Units};
use vstd::prelude::*;

verus! {

/// The moves of one unit: from its cell to each cell it can move to.
pub open spec fn spec_moves_of(unit: Unit, cube_side_length: u32, units: Seq<Unit>) -> Seq<
    GameMove,
> {
    spec_get_unit_moves(unit, cube_side_length, units).map_values(
        |to: crate::cell::CellCoordinates| GameMove { from: unit.coords, to },
    )
}

/// The moves of the first `n` units of the roster that belong to the side.
pub open spec fn spec_possible_moves_upto(
    n: nat,
    cube_side_length: u32,
    units: Seq<Unit>,
    team: Team,
) -> Seq<GameMove>
    decreases n,
{
    if n == 0 {
        Seq::empty()
    } else {
        let before = spec_possible_moves_upto((n - 1) as nat, cube_side_length, units, team);
        if units[n - 1].team == team {
            before + spec_moves_of(units[n - 1], cube_side_length, units)
        } else {
            before
        }
    }
}

/// All the moves of a side: those of each of its units, in the order of the roster.
pub open spec fn spec_get_possible_moves(cube_side_length: u32, units: Seq<Unit>, team: Team) -> Seq<
    GameMove,
> {
    spec_possible_moves_upto(units.len(), cube_side_length, units, team)
}

/// All the moves that the units of a side can make.
pub fn get_possible_moves(board: &Board, units: &Units, team: Team) -> (r: Vec<GameMove>)
    requires
        board.cube_side_length() > 0,
        all_have_normal(units@),
    ensures
        r@ == spec_get_possible_moves(board.cube_side_length(), units@, team),
        forall|i: int| 0 <= i < r@.len() ==> (#[trigger] r@[i]).to.has_normal(),
{
    let mut output: Vec<GameMove> = Vec::new();
    let all = units.all_units();
    let mut i: usize = 0;
    while i < all.len()
        invariant
            i <= all.len(),
            all@ == units@,
            board.cube_side_length() > 0,
            all_have_normal(units@),
            output@ == spec_possible_moves_upto(i as nat, board.cube_side_length(), units@, team),
            forall|k: int| 0 <= k < output@.len() ==> (#[trigger] output@[k]).to.has_normal(),
        decreases all.len() - i,
    {
        let unit = &all[i];
        i += 1;
        if unit.team != team {
            continue ;
        }
        let moves = get_unit_moves(unit, board, units);
        let ghost before = output@;
        let mut k: usize = 0;
        while k < moves.len()
            invariant
                k <= moves.len(),
                forall|j: int| 0 <= j < moves@.len() ==> (#[trigger] moves@[j]).has_normal(),
                output@ == before + spec_moves_of(
                    *unit,
                    board.cube_side_length(),
                    units@,
                ).subrange(0, k as int),
                moves@ == spec_get_unit_moves(*unit, board.cube_side_length(), units@),
                forall|j: int| 0 <= j < output@.len() ==> (#[trigger] output@[j]).to.has_normal(),
            decreases moves.len() - k,
        {
            output.push(GameMove { from: unit.coords, to: moves[k] });
            k += 1;
            assert(output@ =~= before + spec_moves_of(
                *unit,
                board.cube_side_length(),
                units@,
            ).subrange(0, k as int));
        }
        assert(spec_moves_of(*unit, board.cube_side_length(), units@).subrange(0, k as int)
            =~= spec_moves_of(*unit, board.cube_side_length(), units@));
    }
    output
}

/// A move with the rank it has in the search order and the worth, for the side that moves,
/// of the position it leads to.
pub type ScoredMove = (GameMove, i32, i128);

/// Whether the first move is tried strictly before the second: it has the higher rank, or
/// the same rank and the higher worth.
pub open spec fn spec_goes_before(a: ScoredMove, b: ScoredMove) -> bool {
    a.1 > b.1 || (a.1 == b.1 && a.2 > b.2)
}

/// Whether the first move is tried strictly before the second.
pub fn goes_before(a: &ScoredMove, b: &ScoredMove) -> (r: bool)
    ensures
        r == spec_goes_before(*a, *b),
{
    a.1 > b.1 || (a.1 == b.1 && a.2 > b.2)
}

/// The list with one more move put in its place: behind every move that it does not go
/// strictly before, counted from the end of the list.
pub open spec fn spec_insert_ordered(sorted: Seq<ScoredMove>, item: ScoredMove) -> Seq<ScoredMove>
    decreases sorted.len(),
{
    if sorted.len() > 0 && spec_goes_before(item, sorted.last()) {
        spec_insert_ordered(sorted.drop_last(), item).push(sorted.last())
    } else {
        sorted.push(item)
    }
}

/// The moves in the order of the search: higher rank first, within a rank higher worth
/// first, and moves that agree in both in the order in which they were listed.
pub open spec fn spec_order_moves(moves: Seq<ScoredMove>) -> Seq<ScoredMove>
    decreases moves.len(),
{
    if moves.len() == 0 {
        Seq::empty()
    } else {
        spec_insert_ordered(spec_order_moves(moves.drop_last()), moves.last())
    }
}

/// No move of the list goes strictly before a move that stands earlier in it.
pub open spec fn is_ordered(moves: Seq<ScoredMove>) -> bool {
    forall|i: int, j: int|
        0 <= i < j < moves.len() ==> !spec_goes_before(#[trigger] moves[j], #[trigger] moves[i])
}

/// Putting a move in its place keeps an ordered list ordered and adds that move and no other.
pub proof fn lemma_insert_ordered(sorted: Seq<ScoredMove>, item: ScoredMove)
    requires
        is_ordered(sorted),
    ensures
        is_ordered(spec_insert_ordered(sorted, item)),
        spec_insert_ordered(sorted, item).to_multiset() == sorted.to_multiset().insert(item),
        spec_insert_ordered(sorted, item).len() == sorted.len() + 1,
        forall|k: int|
            0 <= k < sorted.len() + 1 ==> (#[trigger] spec_insert_ordered(sorted, item)[k]) == item
                || sorted.contains(spec_insert_ordered(sorted, item)[k]),
    decreases sorted.len(),
{
    broadcast use vstd::seq_lib::group_to_multiset_ensures;

    let result = spec_insert_ordered(sorted, item);
    if sorted.len() > 0 && spec_goes_before(item, sorted.last()) {
        let front = sorted.drop_last();
        let last = sorted.last();
        assert(is_ordered(front)) by {
            assert forall|i: int, j: int| 0 <= i < j < front.len() implies !spec_goes_before(
                #[trigger] front[j],
                #[trigger] front[i],
            ) by {
                assert(front[i] == sorted[i] && front[j] == sorted[j]);
            }
        }
        lemma_insert_ordered(front, item);
        let inner = spec_insert_ordered(front, item);
        assert(sorted =~= front.push(last));
        assert(result.to_multiset() =~= sorted.to_multiset().insert(item));
        assert forall|i: int, j: int| 0 <= i < j < result.len() implies !spec_goes_before(
            #[trigger] result[j],
            #[trigger] result[i],
        ) by {
            if j < inner.len() {
                assert(result[i] == inner[i] && result[j] == inner[j]);
            } else {
                assert(result[j] == last);
                assert(result[i] == inner[i]);
                if inner[i] != item {
                    assert(front.contains(inner[i]));
                    let k = choose|k: int| 0 <= k < front.len() && front[k] == inner[i];
                    assert(sorted[k] == inner[i]);
                    assert(!spec_goes_before(sorted[sorted.len() - 1], sorted[k]));
                }
            }
        }
        assert forall|k: int| 0 <= k < sorted.len() + 1 implies (#[trigger] result[k]) == item
            || sorted.contains(result[k]) by {
            if k < inner.len() {
                assert(result[k] == inner[k]);
                if inner[k] != item {
                    let w = choose|w: int| 0 <= w < front.len() && front[w] == inner[k];
                    assert(sorted[w] == inner[k]);
                }
            } else {
                assert(sorted[sorted.len() - 1] == result[k]);
            }
        }
    } else {
        assert forall|i: int, j: int| 0 <= i < j < result.len() implies !spec_goes_before(
            #[trigger] result[j],
            #[trigger] result[i],
        ) by {
            if j < sorted.len() {
                assert(result[i] == sorted[i] && result[j] == sorted[j]);
            } else if sorted.len() > 0 {
                assert(result[i] == sorted[i]);
                assert(!spec_goes_before(sorted[sorted.len() - 1], sorted[i]));
            }
        }
        assert forall|k: int| 0 <= k < sorted.len() + 1 implies (#[trigger] result[k]) == item
            || sorted.contains(result[k]) by {
            if k < sorted.len() {
                assert(sorted[k] == result[k]);
            }
        }
    }
}

/// The search order holds the same moves as the list it was made from, each as often, and no
/// move of it goes strictly before an earlier one.
pub proof fn lemma_order_moves(moves: Seq<ScoredMove>)
    ensures
        is_ordered(spec_order_moves(moves)),
        spec_order_moves(moves).to_multiset() == moves.to_multiset(),
        spec_order_moves(moves).len() == moves.len(),
    decreases moves.len(),
{
    broadcast use vstd::seq_lib::group_to_multiset_ensures;

    if moves.len() > 0 {
        lemma_order_moves(moves.drop_last());
        lemma_insert_ordered(spec_order_moves(moves.drop_last()), moves.last());
        assert(moves =~= moves.drop_last().push(moves.last()));
    }
}

/// Puts the move in its place in an ordered list.
pub fn insert_ordered(sorted: &mut Vec<ScoredMove>, item: ScoredMove)
    ensures
        final(sorted)@ == spec_insert_ordered(old(sorted)@, item),
{
    let ghost initial = sorted@;
    let mut j: usize = sorted.len();
    proof {
        assert(initial.subrange(0, j as int) =~= initial);
        assert(spec_insert_ordered(initial, item) + initial.subrange(
            j as int,
            initial.len() as int,
        ) =~= spec_insert_ordered(initial, item));
    }
    while j > 0 && goes_before(&item, &sorted[j - 1])
        invariant
            j <= sorted.len(),
            sorted@ == initial,
            spec_insert_ordered(initial, item) == spec_insert_ordered(
                initial.subrange(0, j as int),
                item,
            ) + initial.subrange(j as int, initial.len() as int),
        decreases j,
    {
        proof {
            let front = initial.subrange(0, j as int);
            assert(front.drop_last() =~= initial.subrange(0, j - 1));
            assert(front.last() == initial[j - 1]);
            assert(spec_insert_ordered(front.drop_last(), item).push(front.last())
                + initial.subrange(j as int, initial.len() as int) =~= spec_insert_ordered(
                front.drop_last(),
                item,
            ) + initial.subrange(j - 1, initial.len() as int));
        }
        j -= 1;
    }
    proof {
        let front = initial.subrange(0, j as int);
        assert(spec_insert_ordered(front, item) == front.push(item));
        assert(front.push(item) + initial.subrange(j as int, initial.len() as int)
            =~= initial.insert(j as int, item));
    }
    sorted.insert(j, item);
}

/// The worth of the position for the given side: the worth for White, with the sign turned
/// for Black.
pub open spec fn spec_signed_evaluation(units: Seq<Unit>, team: Team) -> int {
    match team {
        Team::White => spec_evaluation(units),
        Team::Black => -spec_evaluation(units),
    }
}

/// The worth of the position for the given side, in half pawns.
pub fn signed_evaluation(board: &Board, units: &Units, team: Team, ai_cache: &AICache) -> (score:
    i128)
    ensures
        score == spec_signed_evaluation(units@, team),
        score == spec_evaluation(units@) * team.spec_sign(),
        -2000 * units@.len() <= score <= 2000 * units@.len(),
{
    let eval = evaluation(board, units, ai_cache);
    // The length of the roster fits a machine word, and so the score can be negated.
    let _count: usize = units.len();
    assert(eval * 1 == eval && eval * (-1) == -eval);
    match team {
        Team::White => eval,
        Team::Black => -eval,
    }
}

/// After a move that can be made, a unit stands on its destination.
pub proof fn lemma_moved_unit_arrives(units: Seq<Unit>, game_move: GameMove)
    requires
        spec_can_make_move(units, game_move),
    ensures
        spec_is_unit_at(spec_make_move(units, game_move), game_move.to),
{
    let remaining = crate::units::spec_remove_unit(units, game_move.to);
    crate::units::lemma_position(remaining, game_move.from, 0);
    let i = crate::units::spec_position(remaining, game_move.from).unwrap();
    assert(spec_make_move(units, game_move)[i].coords == game_move.to);
}

/// The rank of a move in the search order: 2 for the move that the cached line expects
/// next, 1 for a capture, 0 for any other move.
pub open spec fn spec_rank(units: Seq<Unit>, game_move: GameMove, last_variation: Seq<GameMove>) -> i32 {
    if last_variation.len() > 0 && last_variation.last() == game_move {
        2
    } else if spec_is_unit_at(units, game_move.to) {
        1
    } else {
        0
    }
}

/// The first `n` of the listed moves, each that can be made with its rank and the worth of
/// the position it leads to, and the roster as trying them one after the other leaves it.
pub open spec fn spec_scored_upto(
    n: nat,
    possible_moves: Seq<GameMove>,
    units: Seq<Unit>,
    team: Team,
    last_variation: Seq<GameMove>,
) -> (Seq<ScoredMove>, Seq<Unit>)
    decreases n,
{
    if n == 0 {
        (Seq::empty(), units)
    } else {
        let (scored, roster) = spec_scored_upto(
            (n - 1) as nat,
            possible_moves,
            units,
            team,
            last_variation,
        );
        let game_move = possible_moves[n - 1];
        if !spec_can_make_move(roster, game_move) {
            (scored, roster)
        } else {
            let moved = spec_make_move(roster, game_move);
            let restored = spec_unmake_move(moved, game_move, spec_captured(roster, game_move));
            (
                scored.push(
                    (
                        game_move,
                        spec_rank(restored, game_move, last_variation),
                        spec_signed_evaluation(moved, team) as i128,
                    ),
                ),
                restored,
            )
        }
    }
}

/// The moves in the order in which the search tries them, and the roster as ranking them
/// leaves it.
pub open spec fn spec_sort_moves(
    possible_moves: Seq<GameMove>,
    units: Seq<Unit>,
    team: Team,
    last_variation: Seq<GameMove>,
) -> (Seq<ScoredMove>, Seq<Unit>) {
    let (scored, roster) = spec_scored_upto(
        possible_moves.len(),
        possible_moves,
        units,
        team,
        last_variation,
    );
    (spec_order_moves(scored), roster)
}

/// Ranks the moves and puts them in the order in which the search tries them: first the move
/// that the cached line expects, then the captures, then the rest, and within each group the
/// moves that lead to the better position first. Each move is made and taken back once, which
/// may leave the units of the roster in another order.
pub fn sort_moves(
    possible_moves: Vec<GameMove>,
    board: &Board,
    units: &mut Units,
    team: Team,
    ai_cache: &AICache,
) -> (r: Vec<ScoredMove>)
    ensures
        r@ == spec_sort_moves(possible_moves@, old(units)@, team, ai_cache@).0,
        final(units)@ == spec_sort_moves(possible_moves@, old(units)@, team, ai_cache@).1,
{
    let mut output: Vec<ScoredMove> = Vec::new();
    let ghost start = units@;
    let ghost mut scored: Seq<ScoredMove> = Seq::empty();
    let mut i: usize = 0;
    while i < possible_moves.len()
        invariant
            i <= possible_moves.len(),
            (scored, units@) == spec_scored_upto(
                i as nat,
                possible_moves@,
                start,
                team,
                ai_cache@,
            ),
            output@ == spec_order_moves(scored),
        decreases possible_moves.len() - i,
    {
        let possible_move = possible_moves[i];
        i += 1;
        let ghost roster = units@;
        let (move_made, captured_unit) = make_move(possible_move, units);
        if !move_made {
            continue ;
        }
        proof {
            lemma_moved_unit_arrives(roster, possible_move);
        }
        let eval = signed_evaluation(board, units, team, ai_cache);
        unmake_move(possible_move, units, captured_unit);
        let last = ai_cache.last_variation();
        let expected = last.len() > 0 && last[last.len() - 1] == possible_move;
        let rank: i32 = if expected {
            2
        } else if units.is_unit_at(possible_move.to) {
            1
        } else {
            0
        };
        proof {
            let earlier = scored;
            scored = scored.push((possible_move, rank, eval));
            assert(scored.drop_last() =~= earlier);
        }
        insert_ordered(&mut output, (possible_move, rank, eval));
    }
    output
}

/// Every move that is ranked is one of the moves that were listed. Where no two units share
/// a cell, ranking the moves leaves a roster that holds the same units as before, each where
/// it stood, and in which no two units share a cell.
pub proof fn lemma_scored_upto(
    n: nat,
    possible_moves: Seq<GameMove>,
    units: Seq<Unit>,
    team: Team,
    last_variation: Seq<GameMove>,
)
    requires
        n <= possible_moves.len(),
    ensures
        crate::units::distinct_cells(units) ==> crate::units::distinct_cells(
            spec_scored_upto(n, possible_moves, units, team, last_variation).1,
        ) && spec_scored_upto(n, possible_moves, units, team, last_variation).1.to_set()
            == units.to_set(),
        forall|k: int|
            0 <= k < spec_scored_upto(n, possible_moves, units, team, last_variation).0.len()
                ==> possible_moves.contains(
                (#[trigger] spec_scored_upto(n, possible_moves, units, team, last_variation).0[k]).0,
            ),
    decreases n,
{
    if n > 0 {
        lemma_scored_upto((n - 1) as nat, possible_moves, units, team, last_variation);
        let (scored, roster) = spec_scored_upto(
            (n - 1) as nat,
            possible_moves,
            units,
            team,
            last_variation,
        );
        let game_move = possible_moves[n - 1];
        if spec_can_make_move(roster, game_move) {
            if crate::units::distinct_cells(units) {
                crate::ai::lemma_make_move(roster, game_move);
                crate::ai::lemma_make_unmake_restores(
                    roster,
                    game_move,
                    spec_make_move(roster, game_move),
                );
            }
            let result = spec_scored_upto(n, possible_moves, units, team, last_variation).0;
            assert forall|k: int| 0 <= k < result.len() implies possible_moves.contains(
                (#[trigger] result[k]).0,
            ) by {
                if k < scored.len() {
                    assert(result[k] == scored[k]);
                } else {
                    assert(result[k].0 == possible_moves[n - 1]);
                }
            }
        }
    }
}

/// Every move in the order of the search is one of the moves that were listed. Where no two
/// units share a cell, ordering the moves leaves a roster that holds the same units as
/// before, each where it stood, and in which no two units share a cell.
pub proof fn lemma_sort_moves(
    possible_moves: Seq<GameMove>,
    units: Seq<Unit>,
    team: Team,
    last_variation: Seq<GameMove>,
)
    ensures
        crate::units::distinct_cells(units) ==> crate::units::distinct_cells(
            spec_sort_moves(possible_moves, units, team, last_variation).1,
        ) && spec_sort_moves(possible_moves, units, team, last_variation).1.to_set()
            == units.to_set(),
        forall|k: int|
            0 <= k < spec_sort_moves(possible_moves, units, team, last_variation).0.len()
                ==> possible_moves.contains(
                (#[trigger] spec_sort_moves(possible_moves, units, team, last_variation).0[k]).0,
            ),
{
    broadcast use vstd::seq_lib::group_to_multiset_ensures;

    lemma_scored_upto(possible_moves.len(), possible_moves, units, team, last_variation);
    let scored = spec_scored_upto(
        possible_moves.len(),
        possible_moves,
        units,
        team,
        last_variation,
    ).0;
    lemma_order_moves(scored);
    let sorted = spec_order_moves(scored);
    assert forall|k: int| 0 <= k < sorted.len() implies possible_moves.contains(
        (#[trigger] sorted[k]).0,
    ) by {
        assert(sorted.contains(sorted[k]));
        assert(sorted.to_multiset().count(sorted[k]) > 0);
        assert(scored.contains(sorted[k]));
        let w = choose|w: int| 0 <= w < scored.len() && scored[w] == sorted[k];
        assert(possible_moves.contains(scored[w].0));
    }
}

/// Ranking the first `n` of the listed moves keeps every occupied cell occupied. Where every
/// unit stands on coordinates that name a face, and every listed move leads to such
/// coordinates, every unit does so afterwards.
pub proof fn lemma_scored_upto_cells(
    n: nat,
    possible_moves: Seq<GameMove>,
    units: Seq<Unit>,
    team: Team,
    last_variation: Seq<GameMove>,
)
    requires
        n <= possible_moves.len(),
        all_have_normal(units),
        forall|j: int|
            0 <= j < possible_moves.len() ==> (#[trigger] possible_moves[j]).to.has_normal(),
    ensures
        crate::ai::keeps_cells_occupied(
            units,
            spec_scored_upto(n, possible_moves, units, team, last_variation).1,
        ),
        all_have_normal(spec_scored_upto(n, possible_moves, units, team, last_variation).1),
    decreases n,
{
    if n > 0 {
        lemma_scored_upto_cells((n - 1) as nat, possible_moves, units, team, last_variation);
        let roster = spec_scored_upto(
            (n - 1) as nat,
            possible_moves,
            units,
            team,
            last_variation,
        ).1;
        let game_move = possible_moves[n - 1];
        if spec_can_make_move(roster, game_move) {
            let made = spec_make_move(roster, game_move);
            crate::ai::lemma_make_move_cells(roster, game_move);
            crate::ai::lemma_make_unmake_cells(roster, game_move, made);
            let restored = spec_unmake_move(made, game_move, spec_captured(roster, game_move));
            assert forall|cell: crate::cell::CellCoordinates|
                #![trigger spec_is_unit_at(units, cell)]
                #![trigger spec_is_unit_at(restored, cell)]
                spec_is_unit_at(units, cell) implies spec_is_unit_at(restored, cell) by {
                assert(spec_is_unit_at(roster, cell));
            }
        }
    }
}

/// Ordering the moves for the search keeps every occupied cell occupied. Where every unit
/// stands on coordinates that name a face, and every listed move leads to such coordinates,
/// every unit does so afterwards.
pub proof fn lemma_sort_moves_cells(
    possible_moves: Seq<GameMove>,
    units: Seq<Unit>,
    team: Team,
    last_variation: Seq<GameMove>,
)
    requires
        all_have_normal(units),
        forall|j: int|
            0 <= j < possible_moves.len() ==> (#[trigger] possible_moves[j]).to.has_normal(),
    ensures
        crate::ai::keeps_cells_occupied(
            units,
            spec_sort_moves(possible_moves, units, team, last_variation).1,
        ),
        all_have_normal(spec_sort_moves(possible_moves, units, team, last_variation).1),
{
    lemma_scored_upto_cells(possible_moves.len(), possible_moves, units, team, last_variation);
}

} // verus!
