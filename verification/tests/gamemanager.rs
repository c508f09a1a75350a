use bevy::ecs::entity::Entity;
use cube_chess::ai::AICache;
use cube_chess::board::{Cell, CellColor};
use cube_chess::cell::CellCoordinates;
use cube_chess::direction::RadialDirection;
use cube_chess::gamemanager::{ai_play, make_move, on_cell_clicked, reset_cells_new_selection, Game, Palette};
use cube_chess::movement::GameMove;
use cube_chess::scene::surface_cells;
use cube_chess::team::Team;
use cube_chess::units::{Unit, UnitType, Units};

fn c(x: u32, y: u32, z: u32, positive: bool) -> CellCoordinates {
    CellCoordinates::new(x, y, z, positive)
}

fn game_with_board() -> Game {
    let mut game = Game::new(4);
    for (i, (coords, color)) in surface_cells(4).into_iter().enumerate() {
        game.board.new_cell(coords, Cell::new(Entity::from_raw(1000 + i as u32), coords, color));
    }
    game
}

fn marked(game: &Game) -> Vec<CellCoordinates> {
    game.board.get_all_cells().iter().filter(|cell| cell.selected_unit_can_move_to).map(|cell| cell.coords).collect()
}

#[test]
fn new_game() {
    let game = Game::new(4);
    assert_eq!(game.turn, Team::White);
    assert_eq!(game.ai_playing, Some(Team::Black));
    assert_eq!(game.selected_cell, None);
    assert_eq!(game.palette, Palette::Pinkish);
    assert_eq!(game.units.len(), 20);
    assert_eq!(game.board.cube_side_length(), 4);
    assert!(game.board.get_all_cells().is_empty());
    assert!(game.entities_to_move.is_empty());
}

#[test]
fn palettes_and_shades() {
    assert_eq!(Palette::Filippa.get_colors_str(), ["473A2A", "A7805E", "ECC998"]);
    assert_eq!(Palette::Pinkish.get_colors_str(), ["B23A48", "FB9489", "FCB8B0"]);
    assert_eq!(CellColor::Bright.palette_index(), 0);
    assert_eq!(CellColor::Dark.palette_index(), 2);
    assert_eq!(CellColor::Mid.base_color_str(Palette::Pinkish), "FB9489");
    assert_eq!(CellColor::Dark.base_color_str(Palette::Filippa), "ECC998");
}

#[test]
fn turn_passes_back_and_forth() {
    let mut game = Game::new(4);
    game.next_player_turn();
    assert_eq!(game.turn, Team::Black);
    game.next_player_turn();
    assert_eq!(game.turn, Team::White);
}

#[test]
fn commit_moves_a_pawn_and_marks_it_moved() {
    let mut game = Game::new(4);
    game.units.get_unit_mut(c(4, 0, 3, true)).unwrap().set_entity(Entity::from_raw(5));
    let (made, captured) = make_move(GameMove { from: c(4, 0, 3, true), to: c(4, 0, 2, true) }, &mut game);
    assert!(made);
    assert!(captured.is_none());
    let pawn = game.units.get_unit(c(4, 0, 2, true)).unwrap();
    assert_eq!(pawn.unit_type, UnitType::Pawn(RadialDirection::ClockwiseX, true));
    assert_eq!(game.entities_to_move, vec![(Entity::from_raw(5), c(4, 0, 2, true))]);
    assert_eq!(game.turn, Team::White);
    assert_eq!(game.units.len(), 20);
}

#[test]
fn commit_without_entity_still_moves() {
    let mut game = Game::new(4);
    let (made, _) = make_move(GameMove { from: c(3, 0, 3, true), to: c(2, 0, 1, true) }, &mut game);
    assert!(made);
    assert_eq!(game.units.get_unit(c(2, 0, 1, true)).unwrap().unit_type, UnitType::Knight);
    assert!(game.entities_to_move.is_empty());
}

#[test]
fn commit_captures_an_opponent() {
    let mut game = Game::new(4);
    game.units = Units::new();
    game.units.add_unit(Unit::new(UnitType::Rook, Team::White, c(2, 0, 2, true)));
    game.units.add_unit(Unit::new(UnitType::Knight, Team::Black, c(2, 0, 4, true)));
    game.units.add_unit(Unit::new(UnitType::King, Team::Black, c(1, 0, 1, true)));
    let (made, captured) = make_move(GameMove { from: c(2, 0, 2, true), to: c(2, 0, 4, true) }, &mut game);
    assert!(made);
    assert_eq!(captured.unwrap().unit_type, UnitType::Knight);
    assert_eq!(game.units.len(), 2);
    assert_eq!(game.units.all_units()[0].coords, c(2, 0, 4, true));
    assert_eq!(game.units.all_units()[1].unit_type, UnitType::King);
}

#[test]
fn commit_refuses_illegal_moves_and_changes_nothing() {
    let mut game = Game::new(4);
    let attempts = [
        GameMove { from: c(2, 0, 2, true), to: c(2, 0, 3, true) },
        GameMove { from: c(4, 0, 1, false), to: c(4, 0, 2, false) },
        GameMove { from: c(4, 0, 4, true), to: c(4, 0, 3, true) },
        GameMove { from: c(2, 0, 2, true), to: c(1, 0, 1, false) },
        GameMove { from: c(4, 0, 4, true), to: c(4, 0, 4, true) },
        GameMove { from: c(4, 0, 4, true), to: c(1, 2, 3, true) },
    ];
    for attempt in attempts {
        let (made, captured) = make_move(attempt, &mut game);
        assert!(!made);
        assert!(captured.is_none());
        let fresh = Units::game_starting_configuration(4);
        assert_eq!(game.units.len(), 20);
        for i in 0..20 {
            assert_eq!(game.units.all_units()[i].coords, fresh.all_units()[i].coords);
            assert_eq!(game.units.all_units()[i].unit_type, fresh.all_units()[i].unit_type);
            assert!(!game.units.all_units()[i].dead);
        }
    }
}

#[test]
fn click_selects_marks_and_moves() {
    let mut game = game_with_board();
    assert!(on_cell_clicked(&mut game, Some(c(3, 0, 3, true))).is_none());
    assert_eq!(game.selected_cell, Some(c(3, 0, 3, true)));
    let destinations = marked(&game);
    assert!(destinations.contains(&c(2, 0, 1, true)));
    assert!(destinations.contains(&c(1, 0, 2, true)));
    assert!(!destinations.contains(&c(4, 0, 4, true)));
    assert!(on_cell_clicked(&mut game, Some(c(2, 0, 1, true))).is_none());
    assert_eq!(game.turn, Team::Black);
    assert_eq!(game.units.get_unit(c(2, 0, 1, true)).unwrap().unit_type, UnitType::Knight);
    assert!(!game.units.is_unit_at(c(3, 0, 3, true)));
    assert_eq!(game.selected_cell, Some(c(2, 0, 1, true)));
    assert_eq!(marked(&game), Vec::<CellCoordinates>::new());
}

#[test]
fn click_on_an_unmarked_cell_only_selects() {
    let mut game = game_with_board();
    on_cell_clicked(&mut game, Some(c(3, 0, 3, true)));
    on_cell_clicked(&mut game, Some(c(1, 0, 1, true)));
    assert_eq!(game.turn, Team::White);
    assert!(game.units.is_unit_at(c(3, 0, 3, true)));
    assert_eq!(marked(&game), Vec::<CellCoordinates>::new());
    on_cell_clicked(&mut game, Some(c(1, 0, 1, false)));
    assert_eq!(marked(&game), Vec::<CellCoordinates>::new());
}

#[test]
fn click_beside_the_cube_clears() {
    let mut game = game_with_board();
    on_cell_clicked(&mut game, Some(c(3, 0, 3, true)));
    assert!(!marked(&game).is_empty());
    on_cell_clicked(&mut game, None);
    assert_eq!(game.selected_cell, None);
    assert_eq!(marked(&game), Vec::<CellCoordinates>::new());
    on_cell_clicked(&mut game, Some(c(3, 0, 3, true)));
    reset_cells_new_selection(&mut game);
    assert_eq!(marked(&game), Vec::<CellCoordinates>::new());
    assert_eq!(game.board.get_all_cells().len(), 96);
}

#[test]
fn click_without_a_board_does_not_fail() {
    let mut game = Game::new(4);
    assert!(on_cell_clicked(&mut game, Some(c(3, 0, 3, true))).is_none());
    assert!(on_cell_clicked(&mut game, Some(c(2, 0, 1, true))).is_none());
    assert_eq!(game.turn, Team::White);
    assert!(game.units.is_unit_at(c(3, 0, 3, true)));
}

#[test]
fn computer_plays_only_on_its_turn() {
    let mut game = Game::new(4);
    let mut cache = AICache::new();
    assert_eq!(ai_play(&mut game, &mut cache).0, false);
    assert_eq!(game.turn, Team::White);
    game.next_player_turn();
    let (played, _) = ai_play(&mut game, &mut cache);
    assert!(played);
    assert_eq!(game.turn, Team::White);
    let fresh = Units::game_starting_configuration(4);
    let moved = (0..20).filter(|i| game.units.all_units()[*i].coords != fresh.all_units()[*i].coords).count();
    assert_eq!(moved, 1);
    game.ai_playing = None;
    game.next_player_turn();
    assert_eq!(ai_play(&mut game, &mut cache).0, false);
}
