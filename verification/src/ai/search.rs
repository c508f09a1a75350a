//! The depth-limited search for the best move.

use crate::ai::ordering::{
    get_possible_moves, signed_evaluation, sort_moves, spec_get_possible_moves,
    spec_signed_evaluation, spec_sort_moves, ScoredMove,
};
use crate::ai::{
    keeps_cells_occupied, lemma_make_move, lemma_make_move_cells, lemma_make_unmake_cells,
    lemma_make_unmake_restores, make_move, spec_can_make_move, spec_captured, spec_make_move,
    spec_unmake_move, unmake_move, AICache,
};
use crate::board::Board;
use crate::movement::GameMove;
use crate::team::Team;
use crate::units::{all_have_normal, distinct_cells, spec_is_unit_at, Unit, Units};
use vstd::prelude::*;

verus! {

/// The highest score: what a side has when its opponent is left without a move.
pub const SCORE_MAX: i128 = i128::MAX;

/// The lowest score: what a side has that is left without a move.
pub const SCORE_MIN: i128 = -i128::MAX;

/// What a search of a position gives: the score for the side to move, the line that leads to
/// it with the move to be played first at the end, and the roster and the cached line as the
/// search leaves them.
pub struct SearchOutcome {
    pub score: int,
    pub variation: Seq<GameMove>,
    pub units: Seq<Unit>,
    pub last_variation: Seq<GameMove>,
}

/// The search of a position to the given depth.
///
/// At depth zero the score is the worth of the position for the side to move. Otherwise the
/// moves of that side are ordered and tried in turn, as `spec_search_moves` says.
pub open spec fn spec_eval_recursive(
    cube_side_length: u32,
    units: Seq<Unit>,
    team: Team,
    depth: nat,
    alpha: int,
    beta: int,
    og: bool,
    prune: bool,
    last_variation: Seq<GameMove>,
) -> SearchOutcome
    decreases depth, 1nat, 0nat,
{
    if depth == 0 {
        SearchOutcome {
            score: spec_signed_evaluation(units, team),
            variation: Seq::empty(),
            units,
            last_variation,
        }
    } else {
        let possible_moves = spec_get_possible_moves(cube_side_length, units, team);
        let (sorted, roster) = spec_sort_moves(possible_moves, units, team, last_variation);
        spec_search_moves(
            sorted,
            0,
            cube_side_length,
            roster,
            team,
            depth,
            alpha,
            beta,
            og,
            prune,
            last_variation,
            SCORE_MIN as int,
            Seq::empty(),
        )
    }
}

/// The search of the moves from index `k` on, when the best score so far is `eval` and the
/// line that leads to it is `best_variation`.
///
/// A move that cannot be made is passed over. Any other move is made, the position is
/// searched for the opponent one level less deep with the window turned round, and the move
/// is taken back. The score of the move is the opponent's score with the sign turned. A move
/// that scores strictly more than the best so far becomes the best, and its line is the
/// opponent's line with the move added; at the root the opponent's line is also put in the
/// cache. With pruning, the search of the moves ends as soon as the best score, or `alpha`
/// if that is more, reaches `beta`.
pub open spec fn spec_search_moves(
    sorted: Seq<ScoredMove>,
    k: nat,
    cube_side_length: u32,
    units: Seq<Unit>,
    team: Team,
    depth: nat,
    alpha: int,
    beta: int,
    og: bool,
    prune: bool,
    last_variation: Seq<GameMove>,
    eval: int,
    best_variation: Seq<GameMove>,
) -> SearchOutcome
    decreases depth, 0nat, sorted.len() - k,
{
    if k >= sorted.len() || depth == 0 {
        SearchOutcome { score: eval, variation: best_variation, units, last_variation }
    } else {
        let game_move = sorted[k as int].0;
        if !spec_can_make_move(units, game_move) {
            spec_search_moves(
                sorted,
                k + 1,
                cube_side_length,
                units,
                team,
                depth,
                alpha,
                beta,
                og,
                prune,
                last_variation,
                eval,
                best_variation,
            )
        } else {
            let child = spec_eval_recursive(
                cube_side_length,
                spec_make_move(units, game_move),
                team.spec_opposite(),
                (depth - 1) as nat,
                -beta,
                -alpha,
                false,
                prune,
                last_variation,
            );
            let restored = spec_unmake_move(child.units, game_move, spec_captured(units, game_move));
            let improved = -child.score > eval;
            let new_eval = if improved {
                -child.score
            } else {
                eval
            };
            let new_best = if improved {
                child.variation.push(game_move)
            } else {
                best_variation
            };
            let new_last = if improved && og {
                child.variation
            } else {
                child.last_variation
            };
            let new_alpha = if new_eval > alpha {
                new_eval
            } else {
                alpha
            };
            if prune && new_alpha >= beta {
                SearchOutcome {
                    score: new_eval,
                    variation: new_best,
                    units: restored,
                    last_variation: new_last,
                }
            } else {
                spec_search_moves(
                    sorted,
                    k + 1,
                    cube_side_length,
                    restored,
                    team,
                    depth,
                    new_alpha,
                    beta,
                    og,
                    prune,
                    new_last,
                    new_eval,
                    new_best,
                )
            }
        }
    }
}

/// A copy of the list of moves.
fn copy_moves(moves: &Vec<GameMove>) -> (r: Vec<GameMove>)
    ensures
        r@ == moves@,
{
    let mut output: Vec<GameMove> = Vec::new();
    let mut i: usize = 0;
    while i < moves.len()
        invariant
            i <= moves.len(),
            output@ == moves@.subrange(0, i as int),
        decreases moves.len() - i,
    {
        output.push(moves[i]);
        i += 1;
        assert(output@ =~= moves@.subrange(0, i as int));
    }
    assert(output@ =~= moves@);
    output
}

/// Searches the position to the given depth, with or without pruning.
fn search(
    board: &Board,
    units: &mut Units,
    team: Team,
    depth: u32,
    alpha: i128,
    beta: i128,
    og: bool,
    prune: bool,
    ai_cache: &mut AICache,
) -> (r: (i128, Vec<GameMove>))
    requires
        board.cube_side_length() > 0,
        all_have_normal(old(units)@),
        alpha > i128::MIN,
        beta > i128::MIN,
    ensures
        ({
            let outcome = spec_eval_recursive(
                board.cube_side_length(),
                old(units)@,
                team,
                depth as nat,
                alpha as int,
                beta as int,
                og,
                prune,
                old(ai_cache)@,
            );
            &&& r.0 == outcome.score
            &&& r.1@ == outcome.variation
            &&& final(units)@ == outcome.units
            &&& final(ai_cache)@ == outcome.last_variation
        }),
        SCORE_MIN <= r.0 <= SCORE_MAX,
        all_have_normal(final(units)@),
        keeps_cells_occupied(old(units)@, final(units)@),
        distinct_cells(old(units)@) ==> distinct_cells(final(units)@) && final(units)@.to_set()
            == old(units)@.to_set(),
        r.1@.len() <= depth,
        depth == 0 ==> r.1@.len() == 0,
        r.1@.len() > 0 ==> spec_get_possible_moves(
            board.cube_side_length(),
            old(units)@,
            team,
        ).contains(r.1@.last()),
    decreases depth,
{
    if depth == 0 {
        let eval = signed_evaluation(board, units, team, ai_cache);
        // The length of the roster fits a machine word, and so the score is in range.
        let _count: usize = units.len();
        return (eval, Vec::new());
    }
    let ghost entry = units@;
    let ghost goal = spec_eval_recursive(
        board.cube_side_length(),
        entry,
        team,
        depth as nat,
        alpha as int,
        beta as int,
        og,
        prune,
        ai_cache@,
    );
    let mut alpha = alpha;
    let mut eval: i128 = SCORE_MIN;
    let mut best_variation: Vec<GameMove> = Vec::new();
    let possible_moves = get_possible_moves(board, units, team);
    let ghost possible = possible_moves@;
    let ghost cached_at_entry = ai_cache@;
    let possible_moves = sort_moves(possible_moves, board, units, team, ai_cache);
    proof {
        crate::ai::ordering::lemma_sort_moves(possible, entry, team, cached_at_entry);
        crate::ai::ordering::lemma_sort_moves_cells(possible, entry, team, cached_at_entry);
        assert forall|j: int| 0 <= j < possible_moves@.len() implies (
        #[trigger] possible_moves@[j]).0.to.has_normal() by {
            assert(possible.contains(possible_moves@[j].0));
            let w = choose|w: int| 0 <= w < possible.len() && possible[w] == possible_moves@[j].0;
            assert(possible[w].to.has_normal());
        }
    }
    let mut k: usize = 0;
    while k < possible_moves.len()
        invariant_except_break
            goal == spec_search_moves(
                possible_moves@,
                k as nat,
                board.cube_side_length(),
                units@,
                team,
                depth as nat,
                alpha as int,
                beta as int,
                og,
                prune,
                ai_cache@,
                eval as int,
                best_variation@,
            ),
        invariant
            k <= possible_moves.len(),
            depth > 0,
            board.cube_side_length() > 0,
            all_have_normal(units@),
            keeps_cells_occupied(entry, units@),
            distinct_cells(entry) ==> distinct_cells(units@) && units@.to_set() == entry.to_set(),
            alpha > i128::MIN,
            beta > i128::MIN,
            SCORE_MIN <= eval <= SCORE_MAX,
            best_variation@.len() <= depth,
            best_variation@.len() > 0 ==> possible.contains(best_variation@.last()),
            forall|j: int|
                0 <= j < possible_moves@.len() ==> (#[trigger] possible_moves@[j]).0.to.has_normal()
                    && possible.contains(possible_moves@[j].0),
        ensures
            goal == (SearchOutcome {
                score: eval as int,
                variation: best_variation@,
                units: units@,
                last_variation: ai_cache@,
            }),
        decreases possible_moves.len() - k,
    {
        let game_move = possible_moves[k].0;
        k += 1;
        let ghost roster = units@;
        let ghost cached = ai_cache@;
        let (made_move, captured_unit) = make_move(game_move, units);
        if !made_move {
            continue ;
        }
        proof {
            lemma_make_move_cells(roster, game_move);
            if distinct_cells(roster) {
                lemma_make_move(roster, game_move);
            }
        }
        let (eval_next, best_variation_returned) = search(
            board,
            units,
            team.opposite(),
            depth - 1,
            -beta,
            -alpha,
            false,
            prune,
            ai_cache,
        );
        proof {
            lemma_make_unmake_cells(roster, game_move, units@);
            if distinct_cells(roster) {
                lemma_make_unmake_restores(roster, game_move, units@);
            }
        }
        unmake_move(game_move, units, captured_unit);
        proof {
            assert forall|cell: crate::cell::CellCoordinates|
                #![trigger spec_is_unit_at(entry, cell)]
                #![trigger spec_is_unit_at(units@, cell)]
                spec_is_unit_at(entry, cell) implies spec_is_unit_at(units@, cell) by {
                assert(spec_is_unit_at(roster, cell));
            }
        }
        let score = -eval_next;
        if score > eval {
            eval = score;
            best_variation = copy_moves(&best_variation_returned);
            if og {
                ai_cache.set_last_variation(best_variation_returned);
            }
            best_variation.push(game_move);
        }
        if eval > alpha {
            alpha = eval;
        }
        if prune && alpha >= beta {
            break ;
        }
    }
    (eval, best_variation)
}

/// Searches the position to the given depth for the side to move and gives the score of the
/// best line found, with that line. The move to play stands at the end of the line.
///
/// The search prunes: at each position it stops trying moves once the best score found
/// there, or `alpha` if that is more, reaches `beta`. The roster is changed in place
/// while the search runs. Afterwards every cell that was occupied still is; and where no two
/// units shared a cell, the roster holds the same units as before, though maybe in another
/// order. With `og` set the search is the root, and puts the reply it expects in the cache.
pub fn eval_recursive(
    board: &Board,
    units: &mut Units,
    team: Team,
    depth: u32,
    alpha: i128,
    beta: i128,
    og: bool,
    ai_cache: &mut AICache,
) -> (r: (i128, Vec<GameMove>))
    requires
        board.cube_side_length() > 0,
        all_have_normal(old(units)@),
        alpha > i128::MIN,
        beta > i128::MIN,
    ensures
        ({
            let outcome = spec_eval_recursive(
                board.cube_side_length(),
                old(units)@,
                team,
                depth as nat,
                alpha as int,
                beta as int,
                og,
                true,
                old(ai_cache)@,
            );
            &&& r.0 == outcome.score
            &&& r.1@ == outcome.variation
            &&& final(units)@ == outcome.units
            &&& final(ai_cache)@ == outcome.last_variation
        }),
        SCORE_MIN <= r.0 <= SCORE_MAX,
        all_have_normal(final(units)@),
        keeps_cells_occupied(old(units)@, final(units)@),
        distinct_cells(old(units)@) ==> distinct_cells(final(units)@) && final(units)@.to_set()
            == old(units)@.to_set(),
        r.1@.len() <= depth,
        r.1@.len() > 0 ==> spec_get_possible_moves(
            board.cube_side_length(),
            old(units)@,
            team,
        ).contains(r.1@.last()),
{
    search(board, units, team, depth, alpha, beta, og, true, ai_cache)
}

/// Searches the position to the given depth as `eval_recursive` does, but tries every move
/// at every position: nothing is pruned.
pub fn eval_exhaustive(
    board: &Board,
    units: &mut Units,
    team: Team,
    depth: u32,
    og: bool,
    ai_cache: &mut AICache,
) -> (r: (i128, Vec<GameMove>))
    requires
        board.cube_side_length() > 0,
        all_have_normal(old(units)@),
    ensures
        ({
            let outcome = spec_eval_recursive(
                board.cube_side_length(),
                old(units)@,
                team,
                depth as nat,
                SCORE_MIN as int,
                SCORE_MAX as int,
                og,
                false,
                old(ai_cache)@,
            );
            &&& r.0 == outcome.score
            &&& r.1@ == outcome.variation
            &&& final(units)@ == outcome.units
            &&& final(ai_cache)@ == outcome.last_variation
        }),
        SCORE_MIN <= r.0 <= SCORE_MAX,
        all_have_normal(final(units)@),
        keeps_cells_occupied(old(units)@, final(units)@),
        distinct_cells(old(units)@) ==> distinct_cells(final(units)@) && final(units)@.to_set()
            == old(units)@.to_set(),
        r.1@.len() <= depth,
        r.1@.len() > 0 ==> spec_get_possible_moves(
            board.cube_side_length(),
            old(units)@,
            team,
        ).contains(r.1@.last()),
{
    search(board, units, team, depth, SCORE_MIN, SCORE_MAX, og, false, ai_cache)
}

/// The move that the search picks: the last of the line it finds, if it finds one.
pub open spec fn spec_next_move(
    cube_side_length: u32,
    units: Seq<Unit>,
    team: Team,
    depth: nat,
    last_variation: Seq<GameMove>,
) -> Option<GameMove> {
    let outcome = spec_eval_recursive(
        cube_side_length,
        units,
        team,
        depth,
        SCORE_MIN as int,
        SCORE_MAX as int,
        true,
        true,
        last_variation,
    );
    if outcome.variation.len() > 0 {
        Some(outcome.variation.last())
    } else {
        None
    }
}

/// The move that the search without pruning picks: the last of the line it finds, if it
/// finds one.
pub open spec fn spec_exhaustive_move(
    cube_side_length: u32,
    units: Seq<Unit>,
    team: Team,
    depth: nat,
    last_variation: Seq<GameMove>,
) -> Option<GameMove> {
    let outcome = spec_eval_recursive(
        cube_side_length,
        units,
        team,
        depth,
        SCORE_MIN as int,
        SCORE_MAX as int,
        true,
        false,
        last_variation,
    );
    if outcome.variation.len() > 0 {
        Some(outcome.variation.last())
    } else {
        None
    }
}

/// The best move for the side, found by a search to the given depth on a copy of the
/// roster; `None` if the search finds no line, as at depth zero or where the side cannot
/// move. The move is one of the side's moves in the position, and where no two units share
/// a cell it is the move that the search would pick if it pruned nothing. The caller's
/// roster is not touched; the cache takes the reply that the search expects.
pub fn next_move(board: &Board, units: &Units, team: Team, depth: u32, ai_cache: &mut AICache) -> (r:
    Option<GameMove>)
    requires
        board.cube_side_length() > 0,
        all_have_normal(units@),
    ensures
        r == spec_next_move(board.cube_side_length(), units@, team, depth as nat, old(ai_cache)@),
        distinct_cells(units@) ==> r == spec_exhaustive_move(
            board.cube_side_length(),
            units@,
            team,
            depth as nat,
            old(ai_cache)@,
        ),
        final(ai_cache)@ == spec_eval_recursive(
            board.cube_side_length(),
            units@,
            team,
            depth as nat,
            SCORE_MIN as int,
            SCORE_MAX as int,
            true,
            true,
            old(ai_cache)@,
        ).last_variation,
        depth == 0 ==> r is None,
        r matches Some(game_move) ==> spec_get_possible_moves(
            board.cube_side_length(),
            units@,
            team,
        ).contains(game_move),
{
    let mut copy = units.clone();
    next_move_internal(board, &mut copy, team, depth, ai_cache)
}

fn next_move_internal(
    board: &Board,
    units: &mut Units,
    team: Team,
    depth: u32,
    ai_cache: &mut AICache,
) -> (r: Option<GameMove>)
    requires
        board.cube_side_length() > 0,
        all_have_normal(old(units)@),
    ensures
        r == spec_next_move(
            board.cube_side_length(),
            old(units)@,
            team,
            depth as nat,
            old(ai_cache)@,
        ),
        distinct_cells(old(units)@) ==> r == spec_exhaustive_move(
            board.cube_side_length(),
            old(units)@,
            team,
            depth as nat,
            old(ai_cache)@,
        ),
        final(ai_cache)@ == spec_eval_recursive(
            board.cube_side_length(),
            old(units)@,
            team,
            depth as nat,
            SCORE_MIN as int,
            SCORE_MAX as int,
            true,
            true,
            old(ai_cache)@,
        ).last_variation,
        depth == 0 ==> r is None,
        r matches Some(game_move) ==> spec_get_possible_moves(
            board.cube_side_length(),
            old(units)@,
            team,
        ).contains(game_move),
{
    // The length of the roster fits a machine word, as the law on pruning asks.
    let _count: usize = units.len();
    proof {
        if distinct_cells(units@) {
            crate::ai::pruning::lemma_pruning_keeps_result(
                board.cube_side_length(),
                units@,
                team,
                depth as nat,
                true,
                ai_cache@,
            );
        }
    }
    let mut variation = eval_recursive(
        board,
        units,
        team,
        depth,
        SCORE_MIN,
        SCORE_MAX,
        true,
        ai_cache,
    );
    variation.1.pop()
}

} // verus!
