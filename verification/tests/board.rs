use bevy::ecs::entity::Entity;
use cube_chess::board::{key, Board, Cell, CellColor};
use cube_chess::cell::CellCoordinates;

fn c(x: u32, y: u32, z: u32, positive: bool) -> CellCoordinates {
    CellCoordinates::new(x, y, z, positive)
}

#[test]
fn new_cell_is_unmarked() {
    let cell = Cell::new(Entity::from_raw(9), c(1, 0, 2, true), CellColor::Mid);
    assert_eq!(cell.plane, Entity::from_raw(9));
    assert_eq!(cell.coords, c(1, 0, 2, true));
    assert_eq!(cell.color, CellColor::Mid);
    assert!(!cell.selected_unit_can_move_to);
}

#[test]
fn keys_follow_the_order_of_coordinates() {
    assert_eq!(key(c(0, 0, 0, false)), 0);
    assert_eq!(key(c(0, 0, 0, true)), 1);
    assert_eq!(key(c(0, 0, 3, false)), 6);
    assert_eq!(key(c(0, 1, 0, false)), 1u128 << 33);
    assert_eq!(key(c(1, 0, 0, false)), 1u128 << 65);
    assert_eq!(key(c(u32::MAX, u32::MAX, u32::MAX, true)), (1u128 << 97) - 1);
    let cells = [c(0, 4, 4, true), c(1, 0, 1, false), c(1, 0, 1, true), c(1, 0, 2, false), c(2, 0, 0, false)];
    for pair in cells.windows(2) {
        assert!(pair[0] < pair[1]);
        assert!(key(pair[0]) < key(pair[1]));
    }
}

#[test]
fn board_files_cells_by_coordinates() {
    let mut board = Board::new(4);
    assert_eq!(board.cube_side_length(), 4);
    assert!(board.get_cell(c(1, 0, 2, true)).is_none());
    assert!(board.get_all_cells().is_empty());
    board.new_cell(c(1, 0, 2, true), Cell::new(Entity::from_raw(1), c(1, 0, 2, true), CellColor::Mid));
    board.new_cell(c(0, 3, 2, true), Cell::new(Entity::from_raw(2), c(0, 3, 2, true), CellColor::Dark));
    board.new_cell(c(1, 0, 2, false), Cell::new(Entity::from_raw(3), c(1, 0, 2, false), CellColor::Bright));
    assert_eq!(board.get_cell(c(1, 0, 2, true)).unwrap().plane, Entity::from_raw(1));
    assert_eq!(board.get_cell(c(1, 0, 2, false)).unwrap().plane, Entity::from_raw(3));
    assert!(board.get_cell(c(2, 0, 2, true)).is_none());
    let planes: Vec<Entity> = board.get_all_cells().iter().map(|cell| cell.plane).collect();
    assert_eq!(planes, vec![Entity::from_raw(2), Entity::from_raw(3), Entity::from_raw(1)]);
    board.new_cell(c(1, 0, 2, true), Cell::new(Entity::from_raw(8), c(1, 0, 2, true), CellColor::Mid));
    assert_eq!(board.get_all_cells().len(), 3);
    assert_eq!(board.get_cell(c(1, 0, 2, true)).unwrap().plane, Entity::from_raw(8));
}

#[test]
fn marking_and_clearing_destinations() {
    let mut board = Board::new(4);
    board.new_cell(c(1, 0, 2, true), Cell::new(Entity::from_raw(1), c(1, 0, 2, true), CellColor::Mid));
    board.new_cell(c(0, 3, 2, true), Cell::new(Entity::from_raw(2), c(0, 3, 2, true), CellColor::Dark));
    assert!(board.set_selected_unit_can_move_to(c(1, 0, 2, true), true));
    assert!(!board.set_selected_unit_can_move_to(c(4, 0, 2, true), true));
    assert!(board.get_cell(c(1, 0, 2, true)).unwrap().selected_unit_can_move_to);
    assert!(!board.get_cell(c(0, 3, 2, true)).unwrap().selected_unit_can_move_to);
    assert_eq!(board.get_all_cells().len(), 2);
    board.clear_selected_unit_can_move_to();
    assert!(!board.get_cell(c(1, 0, 2, true)).unwrap().selected_unit_can_move_to);
    assert_eq!(board.get_cell(c(1, 0, 2, true)).unwrap().plane, Entity::from_raw(1));
    assert_eq!(board.get_cell(c(0, 3, 2, true)).unwrap().color, CellColor::Dark);
    assert_eq!(board.get_all_cells().len(), 2);
}
