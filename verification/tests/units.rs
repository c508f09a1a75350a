use bevy::ecs::entity::Entity;
use cube_chess::cell::CellCoordinates;
use cube_chess::direction::RadialDirection;
use cube_chess::team::Team;
use cube_chess::units::{Unit, UnitType, Units};

fn c(x: u32, y: u32, z: u32, positive: bool) -> CellCoordinates {
    CellCoordinates::new(x, y, z, positive)
}

#[test]
fn team_opposite_and_sign() {
    assert_eq!(Team::White.opposite(), Team::Black);
    assert_eq!(Team::Black.opposite(), Team::White);
    assert_eq!(Team::White.sign(), 1);
    assert_eq!(Team::Black.sign(), -1);
}

#[test]
fn unit_type_tables() {
    assert_eq!(UnitType::Rook.material_value(), 10);
    assert_eq!(UnitType::Bishop.material_value(), 7);
    assert_eq!(UnitType::King.material_value(), 2000);
    assert_eq!(UnitType::Pawn(RadialDirection::ClockwiseX, true).material_value(), 2);
    assert_eq!(UnitType::Knight.material_value(), 6);
    assert_eq!(UnitType::Queen.material_value(), 18);
    assert_eq!(UnitType::Rook.model_name(), "rook");
    assert_eq!(UnitType::Pawn(RadialDirection::CounterZ, false).model_name(), "pawn");
    assert_eq!(UnitType::Queen.model_name(), "queen");
    assert_eq!(UnitType::King.symbol(), '\u{2654}');
    assert_eq!(UnitType::Knight.symbol(), '\u{2658}');
    assert!(UnitType::Knight.can_capture_over_edge());
    assert!(!UnitType::Queen.can_capture_over_edge());
    assert!(!UnitType::Pawn(RadialDirection::CounterZ, false).can_capture_over_edge());
}

#[test]
fn new_unit_is_alive_and_unshown() {
    let mut unit = Unit::new(UnitType::Bishop, Team::Black, c(1, 0, 2, true));
    assert_eq!(unit.unit_type, UnitType::Bishop);
    assert_eq!(unit.team, Team::Black);
    assert_eq!(unit.coords, c(1, 0, 2, true));
    assert_eq!(unit.entity, None);
    assert!(!unit.dead);
    unit.set_entity(Entity::from_raw(7));
    assert_eq!(unit.entity, Some(Entity::from_raw(7)));
    unit.move_unit_to(c(0, 3, 3, false));
    assert_eq!(unit.coords, c(0, 3, 3, false));
}

#[test]
fn roster_lookup_by_cell() {
    let mut units = Units::new();
    assert_eq!(units.len(), 0);
    units.add_unit(Unit::new(UnitType::Rook, Team::White, c(1, 0, 1, true)));
    units.add_unit(Unit::new(UnitType::King, Team::Black, c(2, 0, 1, true)));
    units.add_unit(Unit::new(UnitType::Queen, Team::Black, c(1, 0, 1, true)));
    assert_eq!(units.len(), 3);
    assert!(units.is_unit_at(c(2, 0, 1, true)));
    assert!(!units.is_unit_at(c(2, 0, 1, false)));
    assert_eq!(units.position(c(1, 0, 1, true)), Some(0));
    assert_eq!(units.position(c(2, 0, 1, true)), Some(1));
    assert_eq!(units.position(c(3, 0, 1, true)), None);
    assert_eq!(units.get_unit(c(1, 0, 1, true)).unwrap().unit_type, UnitType::Rook);
    assert!(units.get_unit(c(3, 0, 1, true)).is_none());
    units.get_unit_mut(c(2, 0, 1, true)).unwrap().move_unit_to(c(3, 0, 1, true));
    assert_eq!(units.position(c(3, 0, 1, true)), Some(1));
    assert!(units.get_unit_mut(c(2, 0, 1, true)).is_none());
}

#[test]
fn roster_lookup_by_entity() {
    let mut units = Units::new();
    let mut first = Unit::new(UnitType::Rook, Team::White, c(1, 0, 1, true));
    first.set_entity(Entity::from_raw(3));
    let mut second = Unit::new(UnitType::King, Team::Black, c(2, 0, 1, true));
    second.set_entity(Entity::from_raw(4));
    units.add_unit(first);
    units.add_unit(Unit::new(UnitType::Queen, Team::White, c(3, 0, 1, true)));
    units.add_unit(second);
    assert_eq!(units.get_unit_from_entity(Entity::from_raw(4)).unwrap().unit_type, UnitType::King);
    assert_eq!(units.get_unit_from_entity(Entity::from_raw(3)).unwrap().unit_type, UnitType::Rook);
    assert!(units.get_unit_from_entity(Entity::from_raw(5)).is_none());
}

#[test]
fn remove_unit_puts_last_in_its_place() {
    let mut units = Units::new();
    units.add_unit(Unit::new(UnitType::Rook, Team::White, c(1, 0, 1, true)));
    units.add_unit(Unit::new(UnitType::King, Team::Black, c(2, 0, 1, true)));
    units.add_unit(Unit::new(UnitType::Queen, Team::Black, c(3, 0, 1, true)));
    let removed = units.remove_unit(c(1, 0, 1, true)).unwrap();
    assert_eq!(removed.unit_type, UnitType::Rook);
    assert_eq!(units.len(), 2);
    assert_eq!(units.all_units()[0].unit_type, UnitType::Queen);
    assert_eq!(units.all_units()[1].unit_type, UnitType::King);
    assert!(units.remove_unit(c(1, 0, 1, true)).is_none());
    assert_eq!(units.len(), 2);
}

#[test]
fn remove_dead_units_keeps_order() {
    let mut units = Units::new();
    let mut dead = Unit::new(UnitType::Rook, Team::White, c(1, 0, 1, true));
    dead.dead = true;
    units.add_unit(Unit::new(UnitType::King, Team::Black, c(2, 0, 1, true)));
    units.add_unit(dead);
    units.add_unit(Unit::new(UnitType::Queen, Team::Black, c(3, 0, 1, true)));
    units.remove_dead_units();
    assert_eq!(units.len(), 2);
    assert_eq!(units.all_units()[0].unit_type, UnitType::King);
    assert_eq!(units.all_units()[1].unit_type, UnitType::Queen);
}

#[test]
fn clone_holds_the_same_units() {
    let units = Units::game_starting_configuration(4);
    let copy = units.clone();
    assert_eq!(copy.len(), units.len());
    for i in 0..units.len() {
        assert_eq!(copy.all_units()[i].coords, units.all_units()[i].coords);
        assert_eq!(copy.all_units()[i].unit_type, units.all_units()[i].unit_type);
        assert_eq!(copy.all_units()[i].team, units.all_units()[i].team);
    }
}

#[test]
fn starting_configuration() {
    let units = Units::game_starting_configuration(4);
    assert_eq!(units.len(), 20);
    let all = units.all_units();
    assert_eq!(all[0].unit_type, UnitType::King);
    assert_eq!(all[0].team, Team::White);
    assert_eq!(all[0].coords, c(4, 0, 4, true));
    assert_eq!(all[1].unit_type, UnitType::King);
    assert_eq!(all[1].team, Team::Black);
    assert_eq!(all[1].coords, c(1, 0, 1, false));
    assert_eq!(all[2].unit_type, UnitType::Knight);
    assert_eq!(all[2].coords, c(3, 0, 3, true));
    assert_eq!(all[4].unit_type, UnitType::Queen);
    assert_eq!(all[5].coords, c(1, 1, 0, false));
    assert_eq!(all[6].unit_type, UnitType::Rook);
    assert_eq!(all[6].coords, c(0, 4, 4, true));
    assert_eq!(all[8].unit_type, UnitType::Pawn(RadialDirection::ClockwiseY, false));
    assert_eq!(all[8].coords, c(3, 4, 0, true));
    assert_eq!(all[9].unit_type, UnitType::Pawn(RadialDirection::ClockwiseY, false));
    assert_eq!(all[9].team, Team::Black);
    assert_eq!(all[9].coords, c(2, 1, 0, false));
    assert_eq!(all[18].unit_type, UnitType::Pawn(RadialDirection::CounterZ, false));
    assert_eq!(all[19].coords, c(2, 0, 1, false));
    for (i, unit) in all.iter().enumerate() {
        assert_eq!(unit.team, if i % 2 == 0 { Team::White } else { Team::Black });
        assert!(unit.coords.is_on_cube(4));
        assert!(!unit.dead);
        for other in &all[i + 1..] {
            assert_ne!(unit.coords, other.coords);
        }
    }
}

#[test]
fn starting_configuration_on_a_larger_cube() {
    let units = Units::game_starting_configuration(7);
    assert_eq!(units.all_units()[1].coords, c(4, 0, 4, false));
    assert_eq!(units.all_units()[7].coords, c(0, 4, 4, false));
    for unit in units.all_units() {
        assert!(unit.coords.is_on_cube(7));
    }
}

#[test]
fn units_on_faces() {
    let mut units = Units::game_starting_configuration(4);
    assert!(units.stand_on_faces());
    units.add_unit(Unit::new(UnitType::Rook, Team::White, c(1, 1, 1, true)));
    assert!(!units.stand_on_faces());
    assert!(Units::new().stand_on_faces());
}

#[test]
fn starting_configuration_on_a_cube_too_small() {
    let units = Units::game_starting_configuration(3);
    assert_eq!(units.len(), 20);
    assert_eq!(units.all_units()[0].coords, c(4, 0, 4, true));
    assert_eq!(units.all_units()[1].coords, c(0, 0, 0, false));
    assert!(!units.stand_on_faces());
}
