//! Pruning does not change what the search finds: the score and the move to play are those
//! of the search that tries every move.

use crate::ai::candidates::{
    lemma_same_units_possible_moves, lemma_sort_moves_tries, spec_tries,
};
use crate::ai::ordering::{
    lemma_sort_moves, spec_get_possible_moves, spec_signed_evaluation, spec_sort_moves,
    ScoredMove,
};
use crate::ai::roster::{lemma_same_units_evaluation, lemma_same_units_make_move, same_units};
use crate::ai::search::{spec_eval_recursive, spec_search_moves, SCORE_MAX, SCORE_MIN};
use crate::ai::{
    lemma_make_move, lemma_make_unmake_restores, lemma_material_bounds, spec_can_make_move,
    spec_captured, spec_make_move, spec_unmake_move,
};
use crate::movement::GameMove;
use crate::team::Team;
use crate::units::{distinct_cells, Unit};
use vstd::prelude::*;

verus! {

/// The most units that a roster can list.
pub const ROSTER_LIMIT: u64 = u64::MAX;

/// The worth of a position for the side to move when the search looks `depth` moves ahead
/// and tries every move: what the search without pruning finds.
pub open spec fn spec_value(cube_side_length: u32, units: Seq<Unit>, team: Team, depth: nat) -> int {
    spec_eval_recursive(
        cube_side_length,
        units,
        team,
        depth,
        SCORE_MIN as int,
        SCORE_MAX as int,
        false,
        false,
        Seq::empty(),
    ).score
}

/// The worth of a move for the side that makes it, when the search looks `depth` moves ahead
/// from the position before the move: the worth of the position after it for the opponent,
/// with the sign turned.
pub open spec fn spec_move_value(
    cube_side_length: u32,
    units: Seq<Unit>,
    team: Team,
    depth: nat,
    game_move: GameMove,
) -> int {
    -spec_value(
        cube_side_length,
        spec_make_move(units, game_move),
        team.spec_opposite(),
        (depth - 1) as nat,
    )
}

/// No move of the list from index `k` on that can be made is worth more than `bound`.
#[verifier::opaque]
pub open spec fn spec_moves_at_most(
    sorted: Seq<ScoredMove>,
    k: nat,
    cube_side_length: u32,
    units: Seq<Unit>,
    team: Team,
    depth: nat,
    bound: int,
) -> bool {
    forall|j: int|
        k <= j < sorted.len() && spec_can_make_move(units, (#[trigger] sorted[j]).0)
            ==> spec_move_value(cube_side_length, units, team, depth, sorted[j].0) <= bound
}

/// Some move of the list from index `k` on that can be made is worth at least `low` and at
/// most `high`.
#[verifier::opaque]
pub open spec fn spec_some_move_between(
    sorted: Seq<ScoredMove>,
    k: nat,
    cube_side_length: u32,
    units: Seq<Unit>,
    team: Team,
    depth: nat,
    low: int,
    high: int,
) -> bool {
    exists|j: int|
        k <= j < sorted.len() && spec_can_make_move(units, (#[trigger] sorted[j]).0) && low
            <= spec_move_value(cube_side_length, units, team, depth, sorted[j].0) <= high
}

/// Where no move from index `k + 1` on is worth more than `bound`, and the move at index `k`
/// is not either or cannot be made, no move from index `k` on is worth more.
proof fn lemma_moves_at_most_from(
    sorted: Seq<ScoredMove>,
    k: nat,
    cube_side_length: u32,
    units: Seq<Unit>,
    team: Team,
    depth: nat,
    bound: int,
)
    requires
        k < sorted.len(),
        spec_moves_at_most(sorted, k + 1, cube_side_length, units, team, depth, bound),
        spec_can_make_move(units, sorted[k as int].0) ==> spec_move_value(
            cube_side_length,
            units,
            team,
            depth,
            sorted[k as int].0,
        ) <= bound,
    ensures
        spec_moves_at_most(sorted, k, cube_side_length, units, team, depth, bound),
{
    reveal(spec_moves_at_most);
    reveal(spec_some_move_between);
}

/// A move from index `k + 1` on is a move from index `k` on.
proof fn lemma_some_move_from(
    sorted: Seq<ScoredMove>,
    k: nat,
    cube_side_length: u32,
    units: Seq<Unit>,
    team: Team,
    depth: nat,
    low: int,
    high: int,
)
    requires
        spec_some_move_between(sorted, k + 1, cube_side_length, units, team, depth, low, high),
    ensures
        spec_some_move_between(sorted, k, cube_side_length, units, team, depth, low, high),
{
    reveal(spec_moves_at_most);
    reveal(spec_some_move_between);
    let j = choose|j: int|
        k + 1 <= j < sorted.len() && spec_can_make_move(units, (#[trigger] sorted[j]).0) && low
            <= spec_move_value(cube_side_length, units, team, depth, sorted[j].0) <= high;
    assert(spec_can_make_move(units, sorted[j].0));
}

/// The move at index `k` is a move from index `k` on.
proof fn lemma_some_move_at(
    sorted: Seq<ScoredMove>,
    k: nat,
    cube_side_length: u32,
    units: Seq<Unit>,
    team: Team,
    depth: nat,
    low: int,
    high: int,
)
    requires
        k < sorted.len(),
        spec_can_make_move(units, sorted[k as int].0),
        low <= spec_move_value(cube_side_length, units, team, depth, sorted[k as int].0) <= high,
    ensures
        spec_some_move_between(sorted, k, cube_side_length, units, team, depth, low, high),
{
    reveal(spec_moves_at_most);
    reveal(spec_some_move_between);
}

/// Past the end of the list there is no move.
proof fn lemma_no_move_left(
    sorted: Seq<ScoredMove>,
    k: nat,
    cube_side_length: u32,
    units: Seq<Unit>,
    team: Team,
    depth: nat,
    bound: int,
)
    requires
        k >= sorted.len(),
    ensures
        spec_moves_at_most(sorted, k, cube_side_length, units, team, depth, bound),
{
    reveal(spec_moves_at_most);
    reveal(spec_some_move_between);
}

/// Making a move on a roster that holds the units of `units`, searching on, and taking the
/// move back leaves a roster that holds the units of `units` again.
proof fn lemma_move_tried(
    units: Seq<Unit>,
    actual: Seq<Unit>,
    game_move: GameMove,
    searched: Seq<Unit>,
)
    requires
        same_units(units, actual),
        spec_can_make_move(actual, game_move),
        same_units(spec_make_move(units, game_move), searched),
    ensures
        same_units(
            units,
            spec_unmake_move(searched, game_move, spec_captured(actual, game_move)),
        ),
{
    lemma_same_units_make_move(units, actual, game_move);
    lemma_make_unmake_restores(actual, game_move, searched);
}

/// A move that can be made leads to a roster that lists no more units, and in which no two
/// units share a cell, on every roster that holds the same units.
proof fn lemma_move_made(units: Seq<Unit>, actual: Seq<Unit>, game_move: GameMove)
    requires
        same_units(units, actual),
        spec_can_make_move(actual, game_move),
    ensures
        spec_can_make_move(units, game_move),
        same_units(spec_make_move(units, game_move), spec_make_move(actual, game_move)),
        spec_make_move(units, game_move).len() <= units.len(),
{
    lemma_same_units_make_move(units, actual, game_move);
    lemma_make_move(units, game_move);
}

/// What the search of the moves from index `k` on finds, on a roster `actual` that holds the
/// units of `units`.
///
/// Without pruning the score is the best so far or the worth of the best move, whichever is
/// more. With pruning and a window from `alpha` to `beta` that holds the best so far, a
/// score below `beta` is at least the worth of every move, a score inside the window is the
/// worth of some move, and a score of `beta` or more is reached by the worth of some move.
pub proof fn lemma_search_moves(
    sorted: Seq<ScoredMove>,
    k: nat,
    cube_side_length: u32,
    units: Seq<Unit>,
    actual: Seq<Unit>,
    team: Team,
    depth: nat,
    alpha: int,
    beta: int,
    og: bool,
    prune: bool,
    last_variation: Seq<GameMove>,
    eval: int,
    best_variation: Seq<GameMove>,
)
    requires
        depth > 0,
        same_units(units, actual),
        units.len() <= ROSTER_LIMIT,
        SCORE_MIN <= eval <= SCORE_MAX,
        prune ==> SCORE_MIN <= alpha < beta <= SCORE_MAX && eval <= alpha,
    ensures
        ({
            let found = spec_search_moves(
                sorted,
                k,
                cube_side_length,
                actual,
                team,
                depth,
                alpha,
                beta,
                og,
                prune,
                last_variation,
                eval,
                best_variation,
            );
            &&& same_units(units, found.units)
            &&& eval <= found.score <= SCORE_MAX
            &&& !prune ==> spec_moves_at_most(
                sorted,
                k,
                cube_side_length,
                units,
                team,
                depth,
                found.score,
            ) && (found.score == eval || spec_some_move_between(
                sorted,
                k,
                cube_side_length,
                units,
                team,
                depth,
                found.score,
                found.score,
            ))
            &&& prune && found.score < beta ==> spec_moves_at_most(
                sorted,
                k,
                cube_side_length,
                units,
                team,
                depth,
                found.score,
            )
            &&& prune && alpha < found.score < beta ==> spec_some_move_between(
                sorted,
                k,
                cube_side_length,
                units,
                team,
                depth,
                found.score,
                found.score,
            )
            &&& prune && found.score >= beta ==> spec_some_move_between(
                sorted,
                k,
                cube_side_length,
                units,
                team,
                depth,
                found.score,
                SCORE_MAX as int,
            )
        }),
    decreases depth, 0nat, sorted.len() - k,
{
    let side = cube_side_length;
    let found = spec_search_moves(
        sorted,
        k,
        side,
        actual,
        team,
        depth,
        alpha,
        beta,
        og,
        prune,
        last_variation,
        eval,
        best_variation,
    );
    let score = found.score;
    let top = SCORE_MAX as int;
    if k >= sorted.len() {
        lemma_no_move_left(sorted, k, side, units, team, depth, score);
    } else {
        let game_move = sorted[k as int].0;
        lemma_same_units_make_move(units, actual, game_move);
        if !spec_can_make_move(actual, game_move) {
            lemma_search_moves(
                sorted,
                k + 1,
                side,
                units,
                actual,
                team,
                depth,
                alpha,
                beta,
                og,
                prune,
                last_variation,
                eval,
                best_variation,
            );
            if spec_moves_at_most(sorted, k + 1, side, units, team, depth, score) {
                lemma_moves_at_most_from(sorted, k, side, units, team, depth, score);
            }
            if spec_some_move_between(sorted, k + 1, side, units, team, depth, score, score) {
                lemma_some_move_from(sorted, k, side, units, team, depth, score, score);
            }
            if spec_some_move_between(sorted, k + 1, side, units, team, depth, score, top) {
                lemma_some_move_from(sorted, k, side, units, team, depth, score, top);
            }
        } else {
            lemma_move_made(units, actual, game_move);
            let opponent = team.spec_opposite();
            let made = spec_make_move(units, game_move);
            let child = spec_eval_recursive(
                side,
                spec_make_move(actual, game_move),
                opponent,
                (depth - 1) as nat,
                -beta,
                -alpha,
                false,
                prune,
                last_variation,
            );
            lemma_search(
                side,
                made,
                spec_make_move(actual, game_move),
                opponent,
                (depth - 1) as nat,
                -beta,
                -alpha,
                false,
                prune,
                last_variation,
            );
            lemma_move_tried(units, actual, game_move, child.units);
            let restored = spec_unmake_move(
                child.units,
                game_move,
                spec_captured(actual, game_move),
            );
            let worth = spec_move_value(side, units, team, depth, game_move);
            let reply = -child.score;
            assert(worth == -spec_value(side, made, opponent, (depth - 1) as nat));
            let improved = reply > eval;
            let new_eval = if improved {
                reply
            } else {
                eval
            };
            let new_best = if improved {
                child.variation.push(game_move)
            } else {
                best_variation
            };
            let new_last = if improved && og {
                child.variation
            } else {
                child.last_variation
            };
            let new_alpha = if new_eval > alpha {
                new_eval
            } else {
                alpha
            };
            if prune && new_alpha >= beta {
                assert(score == new_eval);
                assert(found.units == restored);
                assert(reply >= beta);
                assert(worth >= reply);
                lemma_some_move_at(sorted, k, side, units, team, depth, score, top);
            } else {
                lemma_search_moves(
                    sorted,
                    k + 1,
                    side,
                    units,
                    restored,
                    team,
                    depth,
                    new_alpha,
                    beta,
                    og,
                    prune,
                    new_last,
                    new_eval,
                    new_best,
                );
                assert(found == spec_search_moves(
                    sorted,
                    k + 1,
                    side,
                    restored,
                    team,
                    depth,
                    new_alpha,
                    beta,
                    og,
                    prune,
                    new_last,
                    new_eval,
                    new_best,
                ));
                if spec_some_move_between(sorted, k + 1, side, units, team, depth, score, score) {
                    lemma_some_move_from(sorted, k, side, units, team, depth, score, score);
                }
                if spec_some_move_between(sorted, k + 1, side, units, team, depth, score, top) {
                    lemma_some_move_from(sorted, k, side, units, team, depth, score, top);
                }
                if !prune {
                    assert(worth == reply);
                    assert(worth <= score);
                    lemma_moves_at_most_from(sorted, k, side, units, team, depth, score);
                    if score == new_eval && score != eval {
                        lemma_some_move_at(sorted, k, side, units, team, depth, score, score);
                    }
                } else {
                    if score < beta {
                        assert(worth <= new_eval);
                        lemma_moves_at_most_from(sorted, k, side, units, team, depth, score);
                    }
                    if alpha < score < beta && score <= new_alpha {
                        assert(worth == score);
                        lemma_some_move_at(sorted, k, side, units, team, depth, score, score);
                    }
                }
            }
        }
    }
}

/// What the search finds on a roster `actual` that holds the units of `units`.
///
/// Without pruning the score is the worth of the position, whatever the window, the cache and
/// the order of the roster. With pruning and a window from `alpha` to `beta`, a score of
/// `alpha` or less is at least the worth, a score inside the window is the worth, and a
/// score of `beta` or more is at most the worth.
pub proof fn lemma_search(
    cube_side_length: u32,
    units: Seq<Unit>,
    actual: Seq<Unit>,
    team: Team,
    depth: nat,
    alpha: int,
    beta: int,
    og: bool,
    prune: bool,
    last_variation: Seq<GameMove>,
)
    requires
        same_units(units, actual),
        units.len() <= ROSTER_LIMIT,
        prune ==> SCORE_MIN <= alpha < beta <= SCORE_MAX,
    ensures
        ({
            let found = spec_eval_recursive(
                cube_side_length,
                actual,
                team,
                depth,
                alpha,
                beta,
                og,
                prune,
                last_variation,
            );
            let worth = spec_value(cube_side_length, units, team, depth);
            &&& same_units(units, found.units)
            &&& SCORE_MIN <= worth <= SCORE_MAX
            &&& SCORE_MIN <= found.score <= SCORE_MAX
            &&& !prune ==> found.score == worth
            &&& prune && found.score <= alpha ==> worth <= found.score
            &&& prune && alpha < found.score < beta ==> worth == found.score
            &&& prune && found.score >= beta ==> worth >= found.score
        }),
    decreases depth, 1nat, 0nat,
{
    let side = cube_side_length;
    let found = spec_eval_recursive(
        side,
        actual,
        team,
        depth,
        alpha,
        beta,
        og,
        prune,
        last_variation,
    );
    let worth = spec_value(side, units, team, depth);
    if depth == 0 {
        lemma_same_units_evaluation(units, actual);
        lemma_material_bounds(units, Team::White);
        lemma_material_bounds(units, Team::Black);
        assert(found.score == spec_signed_evaluation(actual, team));
        assert(worth == spec_signed_evaluation(units, team));
    } else {
        let none: Seq<GameMove> = Seq::empty();
        let listed = spec_get_possible_moves(side, units, team);
        let (sorted, roster) = spec_sort_moves(listed, units, team, none);
        lemma_sort_moves(listed, units, team, none);
        lemma_search_moves(
            sorted,
            0,
            side,
            units,
            roster,
            team,
            depth,
            SCORE_MIN as int,
            SCORE_MAX as int,
            false,
            false,
            none,
            SCORE_MIN as int,
            none,
        );
        let actual_listed = spec_get_possible_moves(side, actual, team);
        let (actual_sorted, actual_roster) = spec_sort_moves(
            actual_listed,
            actual,
            team,
            last_variation,
        );
        lemma_sort_moves(actual_listed, actual, team, last_variation);
        lemma_search_moves(
            actual_sorted,
            0,
            side,
            units,
            actual_roster,
            team,
            depth,
            alpha,
            beta,
            og,
            prune,
            last_variation,
            SCORE_MIN as int,
            none,
        );
        assert forall|game_move: GameMove|
            spec_tries(sorted, game_move) == spec_tries(actual_sorted, game_move) by {
            lemma_sort_moves_tries(listed, units, team, none, game_move);
            lemma_sort_moves_tries(actual_listed, actual, team, last_variation, game_move);
            lemma_same_units_possible_moves(side, units, actual, team, game_move);
            lemma_same_units_make_move(units, actual, game_move);
        }
        lemma_same_moves_tried(sorted, actual_sorted, side, units, team, depth, worth);
        lemma_same_moves_tried(sorted, actual_sorted, side, units, team, depth, found.score);
        lemma_same_moves_tried(actual_sorted, sorted, side, units, team, depth, worth);
        lemma_same_moves_tried(actual_sorted, sorted, side, units, team, depth, found.score);
        reveal(spec_moves_at_most);
        reveal(spec_some_move_between);
    }
}

/// Where two lists try the same moves, what holds of the worth of the moves of one holds of
/// the worth of the moves of the other.
proof fn lemma_same_moves_tried(
    first: Seq<ScoredMove>,
    second: Seq<ScoredMove>,
    cube_side_length: u32,
    units: Seq<Unit>,
    team: Team,
    depth: nat,
    score: int,
)
    requires
        forall|game_move: GameMove| spec_tries(first, game_move) == spec_tries(second, game_move),
    ensures
        spec_moves_at_most(first, 0, cube_side_length, units, team, depth, score)
            ==> spec_moves_at_most(second, 0, cube_side_length, units, team, depth, score),
        forall|low: int|
            spec_some_move_between(first, 0, cube_side_length, units, team, depth, low, score)
                ==> #[trigger] spec_some_move_between(
                second,
                0,
                cube_side_length,
                units,
                team,
                depth,
                low,
                score,
            ),
        forall|high: int|
            spec_some_move_between(first, 0, cube_side_length, units, team, depth, score, high)
                ==> #[trigger] spec_some_move_between(
                second,
                0,
                cube_side_length,
                units,
                team,
                depth,
                score,
                high,
            ),
{
    reveal(spec_moves_at_most);
    reveal(spec_some_move_between);
    let side = cube_side_length;
    if spec_moves_at_most(first, 0, side, units, team, depth, score) {
        assert forall|j: int|
            0 <= j < second.len() && spec_can_make_move(
                units,
                (#[trigger] second[j]).0,
            ) implies spec_move_value(side, units, team, depth, second[j].0) <= score by {
            assert(spec_tries(second, second[j].0));
            assert(spec_tries(first, second[j].0));
            let i = choose|i: int| 0 <= i < first.len() && (#[trigger] first[i]).0 == second[j].0;
            assert(spec_can_make_move(units, first[i].0));
        }
    }
    assert forall|low: int, high: int|
        spec_some_move_between(
            first,
            0,
            side,
            units,
            team,
            depth,
            low,
            high,
        ) implies #[trigger] spec_some_move_between(
        second,
        0,
        side,
        units,
        team,
        depth,
        low,
        high,
    ) by {
        let i = choose|i: int|
            0 <= i < first.len() && spec_can_make_move(units, (#[trigger] first[i]).0) && low
                <= spec_move_value(side, units, team, depth, first[i].0) <= high;
        assert(spec_tries(first, first[i].0));
        assert(spec_tries(second, first[i].0));
        let j = choose|j: int| 0 <= j < second.len() && (#[trigger] second[j]).0 == first[i].0;
        assert(spec_can_make_move(units, second[j].0));
    }
}

/// Whether two lines name the same move to play: both are empty, or both end with the same
/// move.
pub open spec fn same_first_move(a: Seq<GameMove>, b: Seq<GameMove>) -> bool {
    (a.len() > 0) == (b.len() > 0) && (a.len() > 0 ==> a.last() == b.last())
}

/// Once the best score is the highest there is, the search without pruning keeps it and the
/// line that led to it.
pub proof fn lemma_search_moves_at_top(
    sorted: Seq<ScoredMove>,
    k: nat,
    cube_side_length: u32,
    units: Seq<Unit>,
    actual: Seq<Unit>,
    team: Team,
    depth: nat,
    alpha: int,
    beta: int,
    og: bool,
    last_variation: Seq<GameMove>,
    best_variation: Seq<GameMove>,
)
    requires
        depth > 0,
        same_units(units, actual),
        units.len() <= ROSTER_LIMIT,
    ensures
        ({
            let found = spec_search_moves(
                sorted,
                k,
                cube_side_length,
                actual,
                team,
                depth,
                alpha,
                beta,
                og,
                false,
                last_variation,
                SCORE_MAX as int,
                best_variation,
            );
            found.score == SCORE_MAX && found.variation == best_variation
        }),
    decreases sorted.len() - k,
{
    let side = cube_side_length;
    let top = SCORE_MAX as int;
    if k < sorted.len() {
        let game_move = sorted[k as int].0;
        if !spec_can_make_move(actual, game_move) {
            lemma_search_moves_at_top(
                sorted,
                k + 1,
                side,
                units,
                actual,
                team,
                depth,
                alpha,
                beta,
                og,
                last_variation,
                best_variation,
            );
        } else {
            lemma_move_made(units, actual, game_move);
            let opponent = team.spec_opposite();
            let child = spec_eval_recursive(
                side,
                spec_make_move(actual, game_move),
                opponent,
                (depth - 1) as nat,
                -beta,
                -alpha,
                false,
                false,
                last_variation,
            );
            lemma_search(
                side,
                spec_make_move(units, game_move),
                spec_make_move(actual, game_move),
                opponent,
                (depth - 1) as nat,
                -beta,
                -alpha,
                false,
                false,
                last_variation,
            );
            lemma_move_tried(units, actual, game_move, child.units);
            let restored = spec_unmake_move(
                child.units,
                game_move,
                spec_captured(actual, game_move),
            );
            let new_alpha = if top > alpha {
                top
            } else {
                alpha
            };
            lemma_search_moves_at_top(
                sorted,
                k + 1,
                side,
                units,
                restored,
                team,
                depth,
                new_alpha,
                beta,
                og,
                child.last_variation,
                best_variation,
            );
        }
    }
}

/// At the root, where the window is as wide as can be, the search with pruning and the
/// search without find the same score and the same move to play, from any move of the list
/// on: with the same best score so far, the same move to play so far, and rosters that hold
/// the same units, whatever their caches hold.
pub proof fn lemma_root_moves(
    sorted: Seq<ScoredMove>,
    k: nat,
    cube_side_length: u32,
    units: Seq<Unit>,
    pruned_roster: Seq<Unit>,
    full_roster: Seq<Unit>,
    team: Team,
    depth: nat,
    og: bool,
    pruned_cache: Seq<GameMove>,
    full_cache: Seq<GameMove>,
    eval: int,
    pruned_best: Seq<GameMove>,
    full_best: Seq<GameMove>,
    full_alpha: int,
    full_beta: int,
)
    requires
        depth > 0,
        same_units(units, pruned_roster),
        same_units(units, full_roster),
        units.len() <= ROSTER_LIMIT,
        SCORE_MIN <= eval < SCORE_MAX,
        same_first_move(pruned_best, full_best),
    ensures
        ({
            let pruned = spec_search_moves(
                sorted,
                k,
                cube_side_length,
                pruned_roster,
                team,
                depth,
                eval,
                SCORE_MAX as int,
                og,
                true,
                pruned_cache,
                eval,
                pruned_best,
            );
            let full = spec_search_moves(
                sorted,
                k,
                cube_side_length,
                full_roster,
                team,
                depth,
                full_alpha,
                full_beta,
                og,
                false,
                full_cache,
                eval,
                full_best,
            );
            pruned.score == full.score && same_first_move(pruned.variation, full.variation)
        }),
    decreases sorted.len() - k,
{
    let side = cube_side_length;
    let top = SCORE_MAX as int;
    if k < sorted.len() {
        let game_move = sorted[k as int].0;
        lemma_same_units_make_move(units, pruned_roster, game_move);
        lemma_same_units_make_move(units, full_roster, game_move);
        if !spec_can_make_move(units, game_move) {
            lemma_root_moves(
                sorted,
                k + 1,
                side,
                units,
                pruned_roster,
                full_roster,
                team,
                depth,
                og,
                pruned_cache,
                full_cache,
                eval,
                pruned_best,
                full_best,
                full_alpha,
                full_beta,
            );
        } else {
            lemma_move_made(units, pruned_roster, game_move);
            lemma_move_made(units, full_roster, game_move);
            let opponent = team.spec_opposite();
            let made = spec_make_move(units, game_move);
            let pruned_child = spec_eval_recursive(
                side,
                spec_make_move(pruned_roster, game_move),
                opponent,
                (depth - 1) as nat,
                -top,
                -eval,
                false,
                true,
                pruned_cache,
            );
            lemma_search(
                side,
                made,
                spec_make_move(pruned_roster, game_move),
                opponent,
                (depth - 1) as nat,
                -top,
                -eval,
                false,
                true,
                pruned_cache,
            );
            let full_child = spec_eval_recursive(
                side,
                spec_make_move(full_roster, game_move),
                opponent,
                (depth - 1) as nat,
                -full_beta,
                -full_alpha,
                false,
                false,
                full_cache,
            );
            lemma_search(
                side,
                made,
                spec_make_move(full_roster, game_move),
                opponent,
                (depth - 1) as nat,
                -full_beta,
                -full_alpha,
                false,
                false,
                full_cache,
            );
            lemma_move_tried(units, pruned_roster, game_move, pruned_child.units);
            lemma_move_tried(units, full_roster, game_move, full_child.units);
            let pruned_restored = spec_unmake_move(
                pruned_child.units,
                game_move,
                spec_captured(pruned_roster, game_move),
            );
            let full_restored = spec_unmake_move(
                full_child.units,
                game_move,
                spec_captured(full_roster, game_move),
            );
            let pruned_reply = -pruned_child.score;
            let full_reply = -full_child.score;
            let improved = full_reply > eval;
            assert((pruned_reply > eval) == improved);
            assert(improved ==> pruned_reply == full_reply || (pruned_reply == top && full_reply
                == top));
            let new_eval = if improved {
                full_reply
            } else {
                eval
            };
            let new_pruned_best = if improved {
                pruned_child.variation.push(game_move)
            } else {
                pruned_best
            };
            let new_full_best = if improved {
                full_child.variation.push(game_move)
            } else {
                full_best
            };
            let new_pruned_cache = if improved && og {
                pruned_child.variation
            } else {
                pruned_child.last_variation
            };
            let new_full_cache = if improved && og {
                full_child.variation
            } else {
                full_child.last_variation
            };
            let new_full_alpha = if new_eval > full_alpha {
                new_eval
            } else {
                full_alpha
            };
            if new_eval >= top {
                lemma_search_moves_at_top(
                    sorted,
                    k + 1,
                    side,
                    units,
                    full_restored,
                    team,
                    depth,
                    new_full_alpha,
                    full_beta,
                    og,
                    new_full_cache,
                    new_full_best,
                );
            } else {
                lemma_root_moves(
                    sorted,
                    k + 1,
                    side,
                    units,
                    pruned_restored,
                    full_restored,
                    team,
                    depth,
                    og,
                    new_pruned_cache,
                    new_full_cache,
                    new_eval,
                    new_pruned_best,
                    new_full_best,
                    new_full_alpha,
                    full_beta,
                );
            }
        }
    }
}

/// Pruning changes neither the score that the search finds nor the move that it picks. On a
/// roster in which no two units share a cell, the search with pruning and the search that
/// tries every move, both started with the widest window, find the same score, and lines that
/// end with the same move to play or are both empty.
pub proof fn lemma_pruning_keeps_result(
    cube_side_length: u32,
    units: Seq<Unit>,
    team: Team,
    depth: nat,
    og: bool,
    last_variation: Seq<GameMove>,
)
    requires
        distinct_cells(units),
        units.len() <= ROSTER_LIMIT,
    ensures
        ({
            let pruned = spec_eval_recursive(
                cube_side_length,
                units,
                team,
                depth,
                SCORE_MIN as int,
                SCORE_MAX as int,
                og,
                true,
                last_variation,
            );
            let full = spec_eval_recursive(
                cube_side_length,
                units,
                team,
                depth,
                SCORE_MIN as int,
                SCORE_MAX as int,
                og,
                false,
                last_variation,
            );
            pruned.score == full.score && same_first_move(pruned.variation, full.variation)
        }),
{
    if depth > 0 {
        let listed = spec_get_possible_moves(cube_side_length, units, team);
        let (sorted, roster) = spec_sort_moves(listed, units, team, last_variation);
        lemma_sort_moves(listed, units, team, last_variation);
        lemma_root_moves(
            sorted,
            0,
            cube_side_length,
            units,
            roster,
            roster,
            team,
            depth,
            og,
            last_variation,
            last_variation,
            SCORE_MIN as int,
            Seq::empty(),
            Seq::empty(),
            SCORE_MIN as int,
            SCORE_MAX as int,
        );
    }
}

} // verus!
