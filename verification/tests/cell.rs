use cube_chess::cell::CellCoordinates;
use cube_chess::direction::CartesianDirection::{NegY, X, Y, Z};
use cube_chess::direction::{CartesianDirection, RadialDiagonal, RadialDirection};

fn c(x: u32, y: u32, z: u32, positive: bool) -> CellCoordinates {
    CellCoordinates::new(x, y, z, positive)
}

fn all_cells(side: u32) -> Vec<CellCoordinates> {
    let mut cells = Vec::new();
    for positive in [true, false] {
        for a in 1..=side {
            for b in 1..=side {
                cells.push(c(0, a, b, positive));
                cells.push(c(a, 0, b, positive));
                cells.push(c(a, b, 0, positive));
            }
        }
    }
    cells
}

#[test]
fn normal_direction_of_each_face() {
    assert_eq!(c(0, 1, 1, true).normal_direction(), CartesianDirection::X);
    assert_eq!(c(0, 1, 1, false).normal_direction(), CartesianDirection::NegX);
    assert_eq!(c(2, 0, 3, true).normal_direction(), CartesianDirection::Y);
    assert_eq!(c(2, 0, 3, false).normal_direction(), CartesianDirection::NegY);
    assert_eq!(c(2, 3, 0, true).normal_direction(), CartesianDirection::Z);
    assert_eq!(c(2, 3, 0, false).normal_direction(), CartesianDirection::NegZ);
}

#[test]
fn validity_checks() {
    assert!(c(0, 1, 4, true).is_valid());
    assert!(!c(0, 0, 4, true).is_valid());
    assert!(!c(1, 2, 3, true).is_valid());
    assert!(!CellCoordinates::default().is_valid());
    assert!(c(0, 1, 4, true).is_on_cube(4));
    assert!(!c(0, 1, 5, true).is_on_cube(4));
}

#[test]
fn step_within_face() {
    assert_eq!(
        c(2, 0, 2, true).get_cell_in_direction(CartesianDirection::X, 4),
        Some((c(3, 0, 2, true), false))
    );
    assert_eq!(
        c(2, 0, 2, true).get_cell_in_direction(CartesianDirection::NegZ, 4),
        Some((c(2, 0, 1, true), false))
    );
}

#[test]
fn step_along_normal_is_none() {
    assert_eq!(c(2, 0, 2, true).get_cell_in_direction(CartesianDirection::Y, 4), None);
    assert_eq!(c(2, 0, 2, true).get_cell_in_direction(CartesianDirection::NegY, 4), None);
}

#[test]
fn step_folds_over_edges() {
    // off the top face over its +x edge onto the +x face, at the top row
    assert_eq!(
        c(4, 0, 2, true).get_cell_in_direction(CartesianDirection::X, 4),
        Some((c(0, 4, 2, true), true))
    );
    // off the top face over its -x edge onto the -x face
    assert_eq!(
        c(1, 0, 2, true).get_cell_in_direction(CartesianDirection::NegX, 4),
        Some((c(0, 4, 2, false), true))
    );
    // off the bottom face over its +z edge onto the +z face, at the bottom row
    assert_eq!(
        c(3, 0, 4, false).get_cell_in_direction(CartesianDirection::Z, 4),
        Some((c(3, 1, 0, true), true))
    );
}

#[test]
fn steps_keep_one_zero_axis_and_can_be_taken_back() {
    for side in 1..=4u32 {
        for cell in all_cells(side) {
            for direction in CartesianDirection::directions() {
                match cell.get_cell_in_direction(direction, side) {
                    None => assert!(direction.is_parallel_to(cell.normal_direction())),
                    Some((next, crossed)) => {
                        assert!(next.is_on_cube(side));
                        let back = if crossed { cell.normal_direction() } else { direction.opposite() };
                        if crossed {
                            assert_eq!(next.normal_direction(), direction);
                        }
                        assert_eq!(next.get_cell_in_direction(back, side), Some((cell, crossed)));
                    }
                }
            }
        }
    }
}

#[test]
fn opposite_is_an_involution() {
    assert_eq!(c(4, 0, 4, true).opposite(4), c(1, 0, 1, false));
    assert_eq!(c(3, 4, 0, true).opposite(4), c(2, 1, 0, false));
    for side in 1..=5u32 {
        for cell in all_cells(side) {
            let mirrored = cell.opposite(side);
            assert!(mirrored.is_on_cube(side));
            assert_eq!(mirrored.opposite(side), cell);
        }
    }
}

#[test]
fn diagonal_inside_and_over_an_edge() {
    assert_eq!(c(2, 0, 2, true).get_diagonal((X, Z), 4), Some((c(3, 0, 3, true), false)));
    assert_eq!(c(2, 0, 2, true).get_diagonal((X, Y), 4), None);
    assert_eq!(c(4, 0, 2, true).get_diagonal((X, Z), 4), Some((c(0, 4, 3, true), true)));
    assert_eq!(c(4, 0, 2, true).get_diagonal((X, NegY), 4), Some((c(0, 3, 2, true), true)));
}

#[test]
fn diagonal_round_a_corner_is_none() {
    // both steps cross an edge at the corner of the top face
    assert_eq!(c(4, 0, 4, true).get_diagonal((X, Y), 4), None);
    for side in 1..=4u32 {
        for cell in all_cells(side) {
            for diagonal in CartesianDirection::diagonals() {
                let first = cell.get_cell_in_direction(diagonal.0, side);
                let second = first.and_then(|f| f.0.get_cell_in_direction(diagonal.1, side));
                let expected = match (first, second) {
                    (Some((_, true)), Some((_, true))) => None,
                    (Some((_, a)), Some((next, b))) => Some((next, a || b)),
                    _ => None,
                };
                assert_eq!(cell.get_diagonal(diagonal, side), expected);
            }
        }
    }
}

#[test]
fn radial_steps() {
    assert_eq!(
        c(2, 0, 2, true).get_cell_in_radial_direction(RadialDirection::ClockwiseX, 4),
        Some((c(2, 0, 1, true), false))
    );
    assert_eq!(
        c(2, 0, 2, true).get_cell_in_radial_direction(RadialDirection::CounterX, 4),
        Some((c(2, 0, 3, true), false))
    );
    assert_eq!(c(2, 0, 2, true).get_cell_in_radial_direction(RadialDirection::ClockwiseY, 4), None);
}

#[test]
fn radial_walk_goes_round_the_cube() {
    for side in 1..=4u32 {
        for cell in all_cells(side) {
            for radial in RadialDirection::directions() {
                if radial.rotation_axis().is_parallel_to(cell.normal_direction()) {
                    assert_eq!(cell.get_cell_in_radial_direction(radial, side), None);
                    continue;
                }
                let mut at = cell;
                let mut crossings = 0;
                for _ in 0..4 * side {
                    let (next, crossed) = at.get_cell_in_radial_direction(radial, side).unwrap();
                    if crossed {
                        crossings += 1;
                    }
                    at = next;
                }
                assert_eq!(at, cell);
                assert_eq!(crossings, 4);
            }
        }
    }
}

#[test]
fn adjacent_cells() {
    assert_eq!(
        c(2, 0, 2, true).get_adjacent(4),
        [c(3, 0, 2, true), c(1, 0, 2, true), c(2, 0, 3, true), c(2, 0, 1, true)]
    );
    assert_eq!(
        c(0, 1, 1, false).get_adjacent(4),
        [c(0, 2, 1, false), c(1, 0, 1, false), c(0, 1, 2, false), c(1, 1, 0, false)]
    );
}

#[test]
fn diagonal_by_signs() {
    assert_eq!(
        c(2, 0, 2, true).get_diagonal_radial(RadialDiagonal(true, false, false), 4),
        Some((c(3, 0, 1, true), false))
    );
    assert_eq!(
        c(0, 2, 2, true).get_diagonal_radial(RadialDiagonal(true, false, true), 4),
        Some((c(0, 1, 3, true), false))
    );
    assert_eq!(c(0, 0, 2, true).get_diagonal_radial(RadialDiagonal(true, true, true), 4), None);
}

#[test]
fn get_and_set_by_axis() {
    let mut cell = c(1, 0, 3, true);
    assert_eq!(cell.get(0), 1);
    assert_eq!(cell.get(2), 3);
    cell.set(1, 4);
    cell.set(0, 0);
    assert_eq!(cell, c(0, 4, 3, true));
}

#[test]
fn coordinates_order_lexicographically() {
    assert!(c(0, 4, 4, true) < c(1, 0, 1, false));
    assert!(c(1, 0, 1, false) < c(1, 0, 1, true));
    assert!(c(1, 0, 2, false) > c(1, 0, 1, true));
}

#[test]
fn cell_names() {
    assert_eq!(c(2, 0, 3, true).display(), "Yb3");
    assert_eq!(c(0, 4, 1, false).display(), "xd1");
    assert_eq!(c(1, 12, 0, true).display(), "Za12");
    assert_eq!(cube_chess::cell::decimal(0), "0");
    assert_eq!(cube_chess::cell::decimal(4294967295), "4294967295");
    assert_eq!(cube_chess::cell::decimal(1070), "1070");
}

#[test]
fn opposite_of_a_value_one_past_the_side() {
    let beyond = c(5, 0, 1, true);
    assert_eq!(beyond.opposite(4), c(0, 0, 4, false));
    assert_eq!(beyond.opposite(4).opposite(4), c(0, 0, 1, true));
}
