use cube_chess::board::Board;
use cube_chess::cell::CellCoordinates;
use cube_chess::direction::RadialDirection;
use cube_chess::movement::parts::{get_cells_in_direction, get_diagonals, get_knight_moves, get_straight};
use cube_chess::movement::get_unit_moves;
use cube_chess::team::Team;
use cube_chess::units::{Unit, UnitType, Units};

fn c(x: u32, y: u32, z: u32, positive: bool) -> CellCoordinates {
    CellCoordinates::new(x, y, z, positive)
}

fn roster(list: &[(UnitType, Team, CellCoordinates)]) -> Units {
    let mut units = Units::new();
    for (unit_type, team, coords) in list {
        units.add_unit(Unit::new(*unit_type, *team, *coords));
    }
    units
}

#[test]
fn walk_stops_at_distance() {
    let units = Units::new();
    let cells = get_cells_in_direction(c(2, 0, 1, true), 2, 2, 4, &units, RadialDirection::CounterX, true);
    assert_eq!(cells, vec![c(2, 0, 2, true), c(2, 0, 3, true)]);
    let none = get_cells_in_direction(c(2, 0, 1, true), 0, 2, 4, &units, RadialDirection::CounterX, true);
    assert_eq!(none, vec![]);
}

#[test]
fn walk_stops_at_edge_budget() {
    let units = Units::new();
    let cells = get_cells_in_direction(c(2, 0, 3, true), u32::MAX, 0, 4, &units, RadialDirection::CounterX, true);
    assert_eq!(cells, vec![c(2, 0, 4, true)]);
    let over = get_cells_in_direction(c(2, 0, 3, true), u32::MAX, 1, 4, &units, RadialDirection::CounterX, true);
    assert_eq!(
        over,
        vec![c(2, 0, 4, true), c(2, 4, 0, true), c(2, 3, 0, true), c(2, 2, 0, true), c(2, 1, 0, true)]
    );
}

#[test]
fn walk_round_the_whole_ring_ends_at_the_first_repeat() {
    let units = Units::new();
    let cells = get_cells_in_direction(c(1, 0, 1, true), u32::MAX, u32::MAX, 2, &units, RadialDirection::CounterX, true);
    assert_eq!(cells.len(), 8);
    assert_eq!(cells[7], c(1, 0, 1, true));
    assert_eq!(cells[0], c(1, 0, 2, true));
}

#[test]
fn walk_meets_a_unit() {
    let units = roster(&[(UnitType::Rook, Team::Black, c(2, 0, 3, true))]);
    let with = get_cells_in_direction(c(2, 0, 1, true), 9, 2, 4, &units, RadialDirection::CounterX, true);
    assert_eq!(with, vec![c(2, 0, 2, true), c(2, 0, 3, true)]);
    let without = get_cells_in_direction(c(2, 0, 1, true), 9, 2, 4, &units, RadialDirection::CounterX, false);
    assert_eq!(without, vec![c(2, 0, 2, true)]);
    let off_ring = get_cells_in_direction(c(2, 0, 1, true), 9, 2, 4, &units, RadialDirection::ClockwiseY, true);
    assert_eq!(off_ring, vec![]);
}

#[test]
fn straight_lines_from_the_middle() {
    let units = Units::new();
    let cells = get_straight(c(2, 0, 2, true), 1, 0, 4, &units);
    assert_eq!(cells, vec![c(2, 0, 1, true), c(2, 0, 3, true), c(3, 0, 2, true), c(1, 0, 2, true)]);
}

#[test]
fn diagonals_from_the_middle() {
    let units = Units::new();
    let cells = get_diagonals(c(2, 0, 2, true), 1, 0, 4, &units);
    assert_eq!(cells, vec![c(3, 0, 3, true), c(3, 0, 1, true), c(1, 0, 3, true), c(1, 0, 1, true)]);
}

#[test]
fn knight_leaps_from_the_middle_of_a_large_face() {
    let mut leaps = get_knight_moves(c(3, 0, 3, true), 1, 5);
    assert_eq!(leaps.len(), 8);
    leaps.sort();
    let mut expected = vec![
        c(2, 0, 1, true),
        c(4, 0, 1, true),
        c(2, 0, 5, true),
        c(4, 0, 5, true),
        c(1, 0, 2, true),
        c(1, 0, 4, true),
        c(5, 0, 2, true),
        c(5, 0, 4, true),
    ];
    expected.sort();
    assert_eq!(leaps, expected);
}

#[test]
fn knight_leaps_over_an_edge() {
    let leaps = get_knight_moves(c(4, 0, 2, true), 1, 4);
    assert!(leaps.contains(&c(0, 3, 3, true)));
    assert!(leaps.contains(&c(0, 3, 1, true)));
    assert!(leaps.contains(&c(2, 0, 3, true)));
    assert!(leaps.contains(&c(2, 0, 1, true)));
    let none = get_knight_moves(c(4, 0, 2, true), 0, 4);
    assert_eq!(none, vec![c(3, 0, 4, true), c(2, 0, 3, true), c(2, 0, 1, true)]);
}

#[test]
fn rook_on_an_empty_board_reaches_its_lines() {
    let board = Board::new(4);
    let units = Units::new();
    let rook = Unit::new(UnitType::Rook, Team::White, c(2, 0, 2, true));
    let moves = get_unit_moves(&rook, &board, &units);
    let expected = vec![
        c(2, 0, 1, true),
        c(2, 4, 0, false),
        c(2, 3, 0, false),
        c(2, 2, 0, false),
        c(2, 1, 0, false),
        c(2, 0, 3, true),
        c(2, 0, 4, true),
        c(2, 4, 0, true),
        c(2, 3, 0, true),
        c(2, 2, 0, true),
        c(2, 1, 0, true),
        c(3, 0, 2, true),
        c(4, 0, 2, true),
        c(0, 4, 2, true),
        c(0, 3, 2, true),
        c(0, 2, 2, true),
        c(0, 1, 2, true),
        c(1, 0, 2, true),
        c(0, 4, 2, false),
        c(0, 3, 2, false),
        c(0, 2, 2, false),
        c(0, 1, 2, false),
    ];
    assert_eq!(moves, expected);
    let on_own_face = moves.iter().filter(|m| m.normal_direction() == rook.coords.normal_direction()).count();
    assert_eq!(on_own_face, 6);
}

#[test]
fn bishop_and_queen_on_an_empty_board() {
    let board = Board::new(4);
    let units = Units::new();
    let bishop = Unit::new(UnitType::Bishop, Team::White, c(2, 0, 2, true));
    let bishop_moves = get_unit_moves(&bishop, &board, &units);
    for cell in [c(3, 0, 3, true), c(4, 0, 4, true), c(1, 0, 1, true), c(3, 0, 1, true), c(1, 0, 3, true)] {
        assert!(bishop_moves.contains(&cell));
    }
    let mut unique = bishop_moves.clone();
    unique.sort();
    unique.dedup();
    assert_eq!(unique.len(), bishop_moves.len());
    let rook = Unit::new(UnitType::Rook, Team::White, c(2, 0, 2, true));
    let queen = Unit::new(UnitType::Queen, Team::White, c(2, 0, 2, true));
    let mut both = get_unit_moves(&rook, &board, &units);
    both.extend(bishop_moves);
    assert_eq!(get_unit_moves(&queen, &board, &units), both);
}

#[test]
fn pawn_moves_two_cells_only_before_its_first_move() {
    let board = Board::new(4);
    let units = roster(&[(UnitType::Pawn(RadialDirection::CounterX, false), Team::White, c(2, 0, 1, true))]);
    let fresh = Unit::new(UnitType::Pawn(RadialDirection::CounterX, false), Team::White, c(2, 0, 1, true));
    assert_eq!(get_unit_moves(&fresh, &board, &units), vec![c(2, 0, 2, true), c(2, 0, 3, true)]);
    let moved = Unit::new(UnitType::Pawn(RadialDirection::CounterX, true), Team::White, c(2, 0, 1, true));
    assert_eq!(get_unit_moves(&moved, &board, &units), vec![c(2, 0, 2, true)]);
}

#[test]
fn pawn_is_blocked_and_captures_on_the_diagonal() {
    let board = Board::new(4);
    let pawn = Unit::new(UnitType::Pawn(RadialDirection::CounterX, false), Team::White, c(2, 0, 1, true));
    let blocked = roster(&[(UnitType::Rook, Team::Black, c(2, 0, 2, true))]);
    assert_eq!(get_unit_moves(&pawn, &board, &blocked), vec![]);
    let enemy = roster(&[(UnitType::Rook, Team::Black, c(3, 0, 2, true))]);
    assert_eq!(
        get_unit_moves(&pawn, &board, &enemy),
        vec![c(2, 0, 2, true), c(2, 0, 3, true), c(3, 0, 2, true)]
    );
    let friend = roster(&[(UnitType::Rook, Team::White, c(1, 0, 2, true))]);
    assert_eq!(get_unit_moves(&pawn, &board, &friend), vec![c(2, 0, 2, true), c(2, 0, 3, true)]);
}

#[test]
fn pawn_whose_walk_misses_its_face_cannot_move() {
    let board = Board::new(4);
    let units = Units::new();
    let pawn = Unit::new(UnitType::Pawn(RadialDirection::ClockwiseY, false), Team::White, c(2, 0, 1, true));
    assert_eq!(get_unit_moves(&pawn, &board, &units), vec![]);
}

#[test]
fn only_the_knight_captures_over_an_edge() {
    let board = Board::new(4);
    let enemy_across = roster(&[(UnitType::Pawn(RadialDirection::CounterX, false), Team::Black, c(0, 4, 2, true))]);
    let friend_across = roster(&[(UnitType::Pawn(RadialDirection::CounterX, false), Team::White, c(0, 4, 2, true))]);
    let rook = Unit::new(UnitType::Rook, Team::White, c(4, 0, 2, true));
    assert!(!get_unit_moves(&rook, &board, &enemy_across).contains(&c(0, 4, 2, true)));
    assert!(!get_unit_moves(&rook, &board, &friend_across).contains(&c(0, 4, 2, true)));
    assert!(get_unit_moves(&rook, &board, &Units::new()).contains(&c(0, 4, 2, true)));

    let enemy_at_leap = roster(&[(UnitType::Rook, Team::Black, c(0, 3, 3, true))]);
    let friend_at_leap = roster(&[(UnitType::Rook, Team::White, c(0, 3, 3, true))]);
    let knight = Unit::new(UnitType::Knight, Team::White, c(4, 0, 2, true));
    assert!(get_unit_moves(&knight, &board, &enemy_at_leap).contains(&c(0, 3, 3, true)));
    assert!(!get_unit_moves(&knight, &board, &friend_at_leap).contains(&c(0, 3, 3, true)));
}

#[test]
fn same_face_capture_and_block() {
    let board = Board::new(4);
    let units = roster(&[
        (UnitType::Pawn(RadialDirection::CounterX, false), Team::Black, c(2, 0, 3, true)),
        (UnitType::Pawn(RadialDirection::CounterX, false), Team::White, c(3, 0, 2, true)),
    ]);
    let rook = Unit::new(UnitType::Rook, Team::White, c(2, 0, 2, true));
    let moves = get_unit_moves(&rook, &board, &units);
    assert!(moves.contains(&c(2, 0, 3, true)));
    assert!(!moves.contains(&c(2, 0, 4, true)));
    assert!(!moves.contains(&c(3, 0, 2, true)));
    assert!(!moves.contains(&c(4, 0, 2, true)));
}

#[test]
fn king_at_the_start_has_no_free_neighbour_on_its_face() {
    let board = Board::new(4);
    let units = Units::game_starting_configuration(4);
    let king = *units.get_unit(c(4, 0, 4, true)).unwrap();
    assert_eq!(king.unit_type, UnitType::King);
    assert_eq!(king.team, Team::White);
    let moves = get_unit_moves(&king, &board, &units);
    assert!(moves.len() <= 8);
    assert_eq!(moves, vec![]);
}

#[test]
fn king_in_the_open_has_eight_moves() {
    let board = Board::new(4);
    let units = roster(&[(UnitType::Pawn(RadialDirection::CounterX, false), Team::White, c(3, 0, 3, true))]);
    let king = Unit::new(UnitType::King, Team::White, c(2, 0, 2, true));
    let moves = get_unit_moves(&king, &board, &units);
    assert_eq!(
        moves,
        vec![
            c(2, 0, 1, true),
            c(2, 0, 3, true),
            c(3, 0, 2, true),
            c(1, 0, 2, true),
            c(3, 0, 1, true),
            c(1, 0, 3, true),
            c(1, 0, 1, true),
        ]
    );
    let alone = get_unit_moves(&king, &board, &Units::new());
    assert_eq!(alone.len(), 8);
    let mut unique = alone.clone();
    unique.sort();
    unique.dedup();
    assert_eq!(unique.len(), 8);
}

#[test]
fn cells_within_distance() {
    let board = Board::new(4);
    let start = c(2, 0, 2, true);
    assert_eq!(cube_chess::movement::parts::get_cells_max_dist(start, 0, &board), vec![start]);
    assert_eq!(
        cube_chess::movement::parts::get_cells_max_dist(start, 1, &board),
        vec![start, c(3, 0, 2, true), c(1, 0, 2, true), c(2, 0, 3, true), c(2, 0, 1, true)]
    );
    let two = cube_chess::movement::parts::get_cells_max_dist(start, 2, &board);
    assert_eq!(two.len(), 13);
    assert_eq!(two[..5], cube_chess::movement::parts::get_cells_max_dist(start, 1, &board)[..]);
    assert!(two.contains(&c(0, 4, 2, false)));
    assert!(two.contains(&c(3, 0, 3, true)));
    let all = cube_chess::movement::parts::get_cells_max_dist(start, u32::MAX, &board);
    assert_eq!(all.len(), 96);
    let mut unique = all.clone();
    unique.sort();
    unique.dedup();
    assert_eq!(unique.len(), 96);
}

#[test]
fn cells_on_the_same_face() {
    let mut board = Board::new(2);
    for (i, (coords, color)) in cube_chess::scene::surface_cells(2).into_iter().enumerate() {
        board.new_cell(coords, cube_chess::board::Cell::new(bevy::ecs::entity::Entity::from_raw(i as u32), coords, color));
    }
    let mut cells = cube_chess::movement::parts::all_cells_on_same_side(c(1, 0, 1, false), &board);
    cells.sort();
    assert_eq!(cells, vec![c(1, 0, 1, false), c(1, 0, 2, false), c(2, 0, 1, false), c(2, 0, 2, false)]);
}
