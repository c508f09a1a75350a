use cube_chess::ai::ordering::{insert_ordered, signed_evaluation};
use cube_chess::ai::search::{SCORE_MAX, SCORE_MIN};
use cube_chess::ai::{
    eval_exhaustive, eval_recursive, evaluation, get_possible_moves, make_move, next_move, sort_moves,
    unmake_move, AICache,
};
use cube_chess::board::Board;
use cube_chess::cell::CellCoordinates;
use cube_chess::direction::RadialDirection;
use cube_chess::movement::GameMove;
use cube_chess::team::Team;
use cube_chess::units::{Unit, UnitType, Units};

fn c(x: u32, y: u32, z: u32, positive: bool) -> CellCoordinates {
    CellCoordinates::new(x, y, z, positive)
}

fn roster(list: &[(UnitType, Team, CellCoordinates)]) -> Units {
    let mut units = Units::new();
    for (unit_type, team, coords) in list {
        units.add_unit(Unit::new(*unit_type, *team, *coords));
    }
    units
}

fn snapshot(units: &Units) -> Vec<(CellCoordinates, UnitType, Team, bool)> {
    let mut all: Vec<(CellCoordinates, UnitType, Team, bool)> =
        units.all_units().iter().map(|u| (u.coords, u.unit_type, u.team, u.dead)).collect();
    all.sort_by_key(|entry| entry.0);
    all
}

fn small_position() -> Units {
    roster(&[
        (UnitType::King, Team::White, c(1, 0, 1, true)),
        (UnitType::Rook, Team::White, c(2, 0, 2, true)),
        (UnitType::King, Team::Black, c(4, 0, 4, true)),
        (UnitType::Knight, Team::Black, c(2, 0, 4, true)),
        (UnitType::Pawn(RadialDirection::ClockwiseX, false), Team::Black, c(3, 0, 3, true)),
    ])
}

#[test]
fn evaluation_counts_material() {
    let board = Board::new(4);
    let cache = AICache::new();
    assert_eq!(evaluation(&board, &Units::new(), &cache), 0);
    assert_eq!(evaluation(&board, &Units::game_starting_configuration(4), &cache), 0);
    let units = small_position();
    assert_eq!(evaluation(&board, &units, &cache), 2010 - 2008);
    assert_eq!(signed_evaluation(&board, &units, Team::White, &cache), 2);
    assert_eq!(signed_evaluation(&board, &units, Team::Black, &cache), -2);
}

#[test]
fn make_move_without_capture() {
    let mut units = small_position();
    let game_move = GameMove { from: c(2, 0, 2, true), to: c(2, 0, 3, true) };
    let (made, captured) = make_move(game_move, &mut units);
    assert!(made);
    assert!(captured.is_none());
    assert_eq!(units.len(), 5);
    assert_eq!(units.get_unit(c(2, 0, 3, true)).unwrap().unit_type, UnitType::Rook);
    assert!(!units.is_unit_at(c(2, 0, 2, true)));
}

#[test]
fn make_move_with_capture_and_back() {
    let mut units = small_position();
    let before = snapshot(&units);
    let game_move = GameMove { from: c(2, 0, 2, true), to: c(2, 0, 4, true) };
    let (made, captured) = make_move(game_move, &mut units);
    assert!(made);
    assert_eq!(captured.unwrap().unit_type, UnitType::Knight);
    assert_eq!(units.len(), 4);
    assert_eq!(units.get_unit(c(2, 0, 4, true)).unwrap().unit_type, UnitType::Rook);
    unmake_move(game_move, &mut units, captured);
    assert_eq!(snapshot(&units), before);
}

#[test]
fn make_move_from_an_empty_cell_changes_nothing() {
    let mut units = small_position();
    let game_move = GameMove { from: c(3, 0, 1, true), to: c(2, 0, 4, true) };
    let (made, captured) = make_move(game_move, &mut units);
    assert!(!made);
    assert!(captured.is_none());
    let unchanged = small_position();
    assert_eq!(units.len(), 5);
    for i in 0..5 {
        assert_eq!(units.all_units()[i].coords, unchanged.all_units()[i].coords);
        assert_eq!(units.all_units()[i].unit_type, unchanged.all_units()[i].unit_type);
    }
    let onto_itself = GameMove { from: c(2, 0, 2, true), to: c(2, 0, 2, true) };
    assert_eq!(make_move(onto_itself, &mut units).0, false);
    assert_eq!(units.len(), 5);
    assert_eq!(units.all_units()[1].coords, c(2, 0, 2, true));
}

#[test]
fn every_move_of_the_start_position_can_be_taken_back() {
    let board = Board::new(4);
    for team in [Team::White, Team::Black] {
        let mut units = Units::game_starting_configuration(4);
        let before = snapshot(&units);
        let moves = get_possible_moves(&board, &units, team);
        assert!(!moves.is_empty());
        for game_move in moves {
            let (made, captured) = make_move(game_move, &mut units);
            assert!(made);
            unmake_move(game_move, &mut units, captured);
            assert_eq!(snapshot(&units), before);
        }
    }
}

#[test]
fn possible_moves_follow_the_roster() {
    let board = Board::new(4);
    let units = roster(&[
        (UnitType::Pawn(RadialDirection::CounterX, true), Team::White, c(2, 0, 1, true)),
        (UnitType::King, Team::Black, c(4, 0, 4, true)),
        (UnitType::Pawn(RadialDirection::CounterX, false), Team::White, c(3, 0, 1, true)),
    ]);
    let moves = get_possible_moves(&board, &units, Team::White);
    assert_eq!(
        moves,
        vec![
            GameMove { from: c(2, 0, 1, true), to: c(2, 0, 2, true) },
            GameMove { from: c(3, 0, 1, true), to: c(3, 0, 2, true) },
            GameMove { from: c(3, 0, 1, true), to: c(3, 0, 3, true) },
        ]
    );
}

#[test]
fn insert_keeps_rank_then_worth_then_arrival() {
    let m = |z: u32| GameMove { from: c(1, 0, 1, true), to: c(1, 0, z, true) };
    let mut list = Vec::new();
    for item in [(m(1), 0, 5), (m(2), 1, -3), (m(3), 0, 9), (m(4), 0, 5), (m(5), 2, -100), (m(6), 1, -3)] {
        insert_ordered(&mut list, item);
    }
    assert_eq!(
        list,
        vec![(m(5), 2, -100), (m(2), 1, -3), (m(6), 1, -3), (m(3), 0, 9), (m(1), 0, 5), (m(4), 0, 5)]
    );
}

#[test]
fn sort_moves_puts_hint_then_captures_first() {
    let board = Board::new(4);
    let mut units = small_position();
    let before = snapshot(&units);
    let cache = AICache::new();
    let moves = get_possible_moves(&board, &units, Team::White);
    let count = moves.len();
    let sorted = sort_moves(moves, &board, &mut units, Team::White, &cache);
    assert_eq!(sorted.len(), count);
    assert_eq!(sorted[0].0, GameMove { from: c(2, 0, 2, true), to: c(2, 0, 4, true) });
    assert_eq!(sorted[0].1, 1);
    assert_eq!(sorted[0].2, 2 + 6);
    for pair in sorted.windows(2) {
        assert!(pair[0].1 > pair[1].1 || (pair[0].1 == pair[1].1 && pair[0].2 >= pair[1].2));
    }
    assert_eq!(snapshot(&units), before);
}

#[test]
fn depth_zero_is_the_static_worth() {
    let board = Board::new(4);
    let mut units = small_position();
    let mut cache = AICache::new();
    let (score, line) = eval_recursive(&board, &mut units, Team::Black, 0, SCORE_MIN, SCORE_MAX, true, &mut cache);
    assert_eq!(score, -2);
    assert!(line.is_empty());
    assert_eq!(next_move(&board, &units, Team::Black, 0, &mut cache), None);
}

#[test]
fn depth_one_takes_the_best_capture() {
    let board = Board::new(4);
    let mut units = small_position();
    let mut cache = AICache::new();
    let (score, line) = eval_recursive(&board, &mut units, Team::White, 1, SCORE_MIN, SCORE_MAX, true, &mut cache);
    assert_eq!(score, 8);
    assert_eq!(line, vec![GameMove { from: c(2, 0, 2, true), to: c(2, 0, 4, true) }]);
    let chosen = next_move(&board, &small_position(), Team::White, 1, &mut cache);
    assert_eq!(chosen, Some(GameMove { from: c(2, 0, 2, true), to: c(2, 0, 4, true) }));
}

#[test]
fn side_without_units_has_the_lowest_score() {
    let board = Board::new(4);
    let mut units = roster(&[(UnitType::King, Team::White, c(1, 0, 1, true))]);
    let mut cache = AICache::new();
    let (score, line) = eval_recursive(&board, &mut units, Team::Black, 2, SCORE_MIN, SCORE_MAX, true, &mut cache);
    assert_eq!(score, SCORE_MIN);
    assert!(line.is_empty());
    assert_eq!(next_move(&board, &units, Team::Black, 2, &mut cache), None);
    let (white, white_line) =
        eval_recursive(&board, &mut units, Team::White, 1, SCORE_MIN, SCORE_MAX, true, &mut cache);
    assert_eq!(white, 2000);
    assert_eq!(white_line.len(), 1);
}

#[test]
fn pruned_search_agrees_with_exhaustive_search() {
    let board = Board::new(4);
    for depth in 1..=3u32 {
        for team in [Team::White, Team::Black] {
            for start in [small_position(), Units::game_starting_configuration(4)] {
                let mut pruned_units = start.clone();
                let mut full_units = start.clone();
                let before = snapshot(&start);
                let mut pruned_cache = AICache::new();
                let mut full_cache = AICache::new();
                let pruned = eval_recursive(
                    &board,
                    &mut pruned_units,
                    team,
                    depth,
                    SCORE_MIN,
                    SCORE_MAX,
                    true,
                    &mut pruned_cache,
                );
                let full = eval_exhaustive(&board, &mut full_units, team, depth, true, &mut full_cache);
                assert_eq!(pruned.0, full.0);
                assert_eq!(pruned.1.last(), full.1.last());
                assert_eq!(snapshot(&pruned_units), before);
                assert_eq!(snapshot(&full_units), before);
            }
        }
    }
}

#[test]
fn next_move_is_a_move_of_the_side_and_leaves_the_roster() {
    let board = Board::new(4);
    let units = Units::game_starting_configuration(4);
    let before = snapshot(&units);
    let mut cache = AICache::new();
    let chosen = next_move(&board, &units, Team::Black, 2, &mut cache).unwrap();
    assert!(get_possible_moves(&board, &units, Team::Black).contains(&chosen));
    assert_eq!(snapshot(&units), before);
    for i in 0..20 {
        assert_eq!(units.all_units()[i].coords, Units::game_starting_configuration(4).all_units()[i].coords);
    }
    assert_eq!(cache.last_variation().len(), 1);
}

#[test]
fn score_does_not_depend_on_the_order_of_the_roster() {
    let board = Board::new(4);
    let listed = small_position();
    let mut reversed = Units::new();
    for unit in listed.all_units().iter().rev() {
        reversed.add_unit(*unit);
    }
    for depth in 0..=3u32 {
        for team in [Team::White, Team::Black] {
            let mut first = listed.clone();
            let mut second = reversed.clone();
            let mut first_cache = AICache::new();
            let mut second_cache = AICache::new();
            second_cache.set_last_variation(vec![GameMove { from: c(2, 0, 2, true), to: c(2, 0, 3, true) }]);
            let full = eval_exhaustive(&board, &mut first, team, depth, true, &mut first_cache);
            let pruned = eval_recursive(
                &board,
                &mut second,
                team,
                depth,
                SCORE_MIN,
                SCORE_MAX,
                true,
                &mut second_cache,
            );
            assert_eq!(full.0, pruned.0);
        }
    }
}

#[test]
fn search_on_a_roster_with_two_units_on_one_cell() {
    let board = Board::new(4);
    let mut units = roster(&[
        (UnitType::King, Team::White, c(1, 0, 1, true)),
        (UnitType::Rook, Team::White, c(1, 0, 1, true)),
        (UnitType::King, Team::Black, c(4, 0, 4, true)),
    ]);
    let mut cache = AICache::new();
    let (score, line) =
        eval_recursive(&board, &mut units, Team::White, 2, SCORE_MIN, SCORE_MAX, true, &mut cache);
    assert_eq!(score, 10);
    assert_eq!(line.len(), 2);
    assert!(units.is_unit_at(c(1, 0, 1, true)));
    assert!(units.is_unit_at(c(4, 0, 4, true)));
    assert_eq!(units.len(), 3);
    assert!(next_move(&board, &units, Team::White, 2, &mut cache).is_some());
}

#[test]
fn taking_back_with_two_units_on_the_destination_moves_the_first() {
    let mut units = roster(&[
        (UnitType::Knight, Team::Black, c(2, 0, 1, true)),
        (UnitType::Rook, Team::Black, c(2, 0, 1, true)),
        (UnitType::King, Team::White, c(1, 0, 1, true)),
        (UnitType::Bishop, Team::White, c(3, 0, 3, true)),
    ]);
    let before = snapshot(&units);
    let game_move = GameMove { from: c(1, 0, 1, true), to: c(2, 0, 1, true) };
    let (made, captured) = make_move(game_move, &mut units);
    assert!(made);
    assert_eq!(captured.map(|unit| unit.unit_type), Some(UnitType::Knight));
    unmake_move(game_move, &mut units, captured);
    assert_eq!(units.len(), 4);
    assert_ne!(snapshot(&units), before);
    assert_eq!(units.get_unit(c(1, 0, 1, true)).map(|unit| unit.unit_type), Some(UnitType::Rook));
}

#[test]
fn pruning_may_change_the_result_where_two_units_share_a_cell() {
    let board = Board::new(3);
    let start = roster(&[
        (UnitType::Rook, Team::White, c(2, 0, 2, true)),
        (UnitType::King, Team::Black, c(2, 0, 1, false)),
        (UnitType::Knight, Team::White, c(3, 0, 1, false)),
        (UnitType::King, Team::Black, c(1, 0, 2, true)),
        (UnitType::King, Team::Black, c(2, 0, 2, true)),
    ]);
    let mut pruned_units = start.clone();
    let mut full_units = start.clone();
    let mut pruned_cache = AICache::new();
    let mut full_cache = AICache::new();
    let pruned = eval_recursive(
        &board,
        &mut pruned_units,
        Team::Black,
        3,
        SCORE_MIN,
        SCORE_MAX,
        true,
        &mut pruned_cache,
    );
    let full = eval_exhaustive(&board, &mut full_units, Team::Black, 3, true, &mut full_cache);
    assert_eq!(pruned.0, 5990);
    assert_eq!(full.0, 5984);
}
