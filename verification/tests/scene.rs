use cube_chess::board::CellColor;
use cube_chess::cell::CellCoordinates;
use cube_chess::scene::{choose_color, surface_cell, surface_cells};

fn c(x: u32, y: u32, z: u32, positive: bool) -> CellCoordinates {
    CellCoordinates::new(x, y, z, positive)
}

#[test]
fn chequer_on_even_and_odd_sides() {
    let row: Vec<CellColor> = (0..8).map(|i| choose_color(4, i, CellColor::Bright, CellColor::Mid, false)).collect();
    assert_eq!(
        row,
        vec![
            CellColor::Bright,
            CellColor::Mid,
            CellColor::Bright,
            CellColor::Mid,
            CellColor::Mid,
            CellColor::Bright,
            CellColor::Mid,
            CellColor::Bright,
        ]
    );
    assert_eq!(choose_color(4, 0, CellColor::Bright, CellColor::Mid, true), CellColor::Mid);
    let odd: Vec<CellColor> = (0..4).map(|i| choose_color(3, i, CellColor::Dark, CellColor::Bright, false)).collect();
    assert_eq!(odd, vec![CellColor::Dark, CellColor::Bright, CellColor::Dark, CellColor::Bright]);
}

#[test]
fn cells_of_each_face() {
    assert_eq!(surface_cell(4, 0, 0), (c(1, 0, 1, true), CellColor::Mid));
    assert_eq!(surface_cell(4, 0, 5), (c(2, 0, 2, true), CellColor::Mid));
    assert_eq!(surface_cell(4, 1, 7), (c(4, 0, 2, false), CellColor::Bright));
    assert_eq!(surface_cell(4, 2, 6), (c(3, 2, 0, false), CellColor::Bright));
    assert_eq!(surface_cell(4, 3, 15), (c(4, 4, 0, true), CellColor::Bright));
    assert_eq!(surface_cell(4, 4, 1), (c(0, 1, 2, true), CellColor::Mid));
    assert_eq!(surface_cell(4, 5, 4), (c(0, 2, 1, false), CellColor::Dark));
}

#[test]
fn surface_has_each_cell_once() {
    for side in 1..=5u32 {
        let cells = surface_cells(side);
        assert_eq!(cells.len() as u32, 6 * side * side);
        let mut coords: Vec<CellCoordinates> = cells.iter().map(|cell| cell.0).collect();
        for cell in &coords {
            assert!(cell.is_on_cube(side));
        }
        coords.sort();
        coords.dedup();
        assert_eq!(coords.len() as u32, 6 * side * side);
    }
    let cells = surface_cells(4);
    assert_eq!(cells[0], surface_cell(4, 0, 0));
    assert_eq!(cells[16 + 7], surface_cell(4, 1, 7));
    assert_eq!(cells[95], surface_cell(4, 5, 15));
}
