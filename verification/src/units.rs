//! The pieces and the roster that holds them.

use crate::cell::CellCoordinates;
use crate::direction::RadialDirection;
use crate::entity::same_entity;
use crate::team::Team;
use bevy::ecs::entity::Entity;
use vstd::prelude::*;

verus! {

/// What kind of piece a unit is. A pawn carries the walk it advances along and whether it
/// has moved yet.
#[derive(Copy, Clone, Debug, PartialEq, Eq, Structural)]
pub enum UnitType {
    Rook,
    Bishop,
    King,
    Pawn(RadialDirection, bool),
    Knight,
    Queen,
}

impl UnitType {
    /// Name of the model that shows the piece.
    pub open spec fn spec_model_name(&self) -> &'static str {
        match self {
            UnitType::Rook => "rook",
            UnitType::Bishop => "bishop",
            UnitType::King => "king",
            UnitType::Pawn(_, _) => "pawn",
            UnitType::Knight => "knight",
            UnitType::Queen => "queen",
        }
    }

    /// Name of the model that shows the piece.
    pub fn model_name(&self) -> (name: &'static str)
        ensures
            name == self.spec_model_name(),
    {
        match self {
            UnitType::Rook => "rook",
            UnitType::Bishop => "bishop",
            UnitType::King => "king",
            UnitType::Pawn(_, _) => "pawn",
            UnitType::Knight => "knight",
            UnitType::Queen => "queen",
        }
    }

    /// Whether the piece may capture on another face than its own: only the knight may.
    pub open spec fn spec_can_capture_over_edge(&self) -> bool {
        self == UnitType::Knight
    }

    /// Whether the piece may capture on another face than its own: only the knight may.
    #[verifier::when_used_as_spec(spec_can_capture_over_edge)]
    pub fn can_capture_over_edge(&self) -> (b: bool)
        ensures
            b == self.spec_can_capture_over_edge(),
    {
        matches!(self, Self::Knight)
    }

    /// Worth of the piece in half pawns.
    pub open spec fn spec_material_value(&self) -> i32 {
        match self {
            UnitType::Rook => 10,
            UnitType::Bishop => 7,
            UnitType::King => 2000,
            UnitType::Pawn(_, _) => 2,
            UnitType::Knight => 6,
            UnitType::Queen => 18,
        }
    }

    /// Worth of the piece, counted in half pawns so that the bishop's three and a half pawns
    /// is a whole number: rook 10, bishop 7, pawn 2, knight 6, queen 18, and 2000 for the
    /// king, more than everything else on the board together.
    #[verifier::when_used_as_spec(spec_material_value)]
    pub fn material_value(&self) -> (v: i32)
        ensures
            v == self.spec_material_value(),
            0 < v <= 2000,
    {
        match self {
            UnitType::Rook => 10,
            UnitType::Bishop => 7,
            UnitType::King => 2000,
            UnitType::Pawn(_, _) => 2,
            UnitType::Knight => 6,
            UnitType::Queen => 18,
        }
    }

    /// The chess symbol of the piece.
    pub open spec fn spec_symbol(&self) -> char {
        match self {
            UnitType::Rook => '\u{2656}',
            UnitType::Bishop => '\u{2657}',
            UnitType::King => '\u{2654}',
            UnitType::Pawn(_, _) => '\u{2659}',
            UnitType::Knight => '\u{2658}',
            UnitType::Queen => '\u{2655}',
        }
    }

    /// The chess symbol of the piece.
    #[verifier::when_used_as_spec(spec_symbol)]
    pub fn symbol(&self) -> (c: char)
        ensures
            c == self.spec_symbol(),
    {
        match self {
            UnitType::Rook => '\u{2656}',
            UnitType::Bishop => '\u{2657}',
            UnitType::King => '\u{2654}',
            UnitType::Pawn(_, _) => '\u{2659}',
            UnitType::Knight => '\u{2658}',
            UnitType::Queen => '\u{2655}',
        }
    }
}

/// One piece on the board.
#[derive(Clone, Copy, Debug)]
pub struct Unit {
    pub unit_type: UnitType,
    pub coords: CellCoordinates,
    /// The object that shows the unit on the board, once there is one.
    pub entity: Option<Entity>,
    pub team: Team,
    pub dead: bool,
}

impl Unit {
    /// A live unit that nothing shows yet.
    pub fn new(unit_type: UnitType, team: Team, coords: CellCoordinates) -> (u: Self)
        ensures
            u == (Unit { unit_type, coords, entity: None, team, dead: false }),
    {
        Unit { unit_type, coords, entity: None, team, dead: false }
    }

    pub fn set_entity(&mut self, entity: Entity)
        ensures
            *final(self) == (Unit { entity: Some(entity), ..*old(self) }),
    {
        self.entity = Some(entity);
    }

    pub fn move_unit_to(&mut self, coords: CellCoordinates)
        ensures
            *final(self) == (Unit { coords, ..*old(self) }),
    {
        self.coords = coords
    }
}

/// Index `i` holds the first unit of the roster that stands on `coords`.
pub open spec fn is_first_at(units: Seq<Unit>, coords: CellCoordinates, i: int) -> bool {
    &&& 0 <= i < units.len()
    &&& units[i].coords == coords
    &&& forall|j: int| 0 <= j < i ==> (#[trigger] units[j]).coords != coords
}

/// Some unit of the roster stands on `coords`.
pub open spec fn spec_is_unit_at(units: Seq<Unit>, coords: CellCoordinates) -> bool {
    exists|i: int| 0 <= i < units.len() && (#[trigger] units[i]).coords == coords
}

/// Index of the first unit of the roster that stands on `coords`.
pub open spec fn spec_position(units: Seq<Unit>, coords: CellCoordinates) -> Option<int> {
    if exists|i: int| is_first_at(units, coords, i) {
        Some(choose|i: int| is_first_at(units, coords, i))
    } else {
        None
    }
}

/// The first unit of the roster that stands on `coords`.
pub open spec fn spec_get_unit(units: Seq<Unit>, coords: CellCoordinates) -> Option<Unit> {
    match spec_position(units, coords) {
        Some(i) => Some(units[i]),
        None => None,
    }
}

/// The roster without the unit at index `i`: the last unit takes its place.
pub open spec fn spec_swap_remove(units: Seq<Unit>, i: int) -> Seq<Unit> {
    units.update(i, units.last()).drop_last()
}

/// The roster without the first unit that stands on `coords`.
pub open spec fn spec_remove_unit(units: Seq<Unit>, coords: CellCoordinates) -> Seq<Unit> {
    match spec_position(units, coords) {
        Some(i) => spec_swap_remove(units, i),
        None => units,
    }
}

/// Index `i` holds the first unit of the roster that the given object shows.
pub open spec fn is_first_shown_by(units: Seq<Unit>, entity: Entity, i: int) -> bool {
    &&& 0 <= i < units.len()
    &&& units[i].entity == Some(entity)
    &&& forall|j: int| 0 <= j < i ==> (#[trigger] units[j]).entity != Some(entity)
}

/// No two units of the roster stand on the same cell.
pub open spec fn distinct_cells(units: Seq<Unit>) -> bool {
    forall|i: int, j: int|
        0 <= i < j < units.len() ==> (#[trigger] units[i]).coords != (#[trigger] units[j]).coords
}

/// Every unit of the roster stands on coordinates that name a face.
pub open spec fn all_have_normal(units: Seq<Unit>) -> bool {
    forall|i: int| 0 <= i < units.len() ==> (#[trigger] units[i]).coords.has_normal()
}

/// Every unit of the roster stands on a cell of the cube.
pub open spec fn all_on_cube(units: Seq<Unit>, cube_side_length: u32) -> bool {
    forall|i: int| 0 <= i < units.len() ==> (#[trigger] units[i]).coords.on_cube(cube_side_length)
}

/// The first unit on a cell is found at one index only, and a cell on which no unit stands
/// has none.
pub proof fn lemma_position(units: Seq<Unit>, coords: CellCoordinates, i: int)
    ensures
        is_first_at(units, coords, i) ==> spec_position(units, coords) == Some(i),
        spec_position(units, coords) is Some <==> spec_is_unit_at(units, coords),
        spec_position(units, coords) matches Some(k) ==> is_first_at(units, coords, k),
{
    if is_first_at(units, coords, i) {
        let k = choose|k: int| is_first_at(units, coords, k);
        assert(is_first_at(units, coords, k));
        if k < i {
            assert(units[k].coords != coords);
        }
        if i < k {
            assert(units[i].coords != coords);
        }
    }
    if spec_is_unit_at(units, coords) {
        let w = choose|w: int| 0 <= w < units.len() && (#[trigger] units[w]).coords == coords;
        lemma_first_exists(units, coords, w);
    }
}

/// Where a unit stands on `coords` at index `w`, a first such unit exists at or before `w`.
proof fn lemma_first_exists(units: Seq<Unit>, coords: CellCoordinates, w: int)
    requires
        0 <= w < units.len(),
        units[w].coords == coords,
    ensures
        exists|i: int| is_first_at(units, coords, i) && i <= w,
    decreases w,
{
    if exists|j: int| 0 <= j < w && (#[trigger] units[j]).coords == coords {
        let j = choose|j: int| 0 <= j < w && (#[trigger] units[j]).coords == coords;
        lemma_first_exists(units, coords, j);
    } else {
        assert(is_first_at(units, coords, w));
    }
}

/// A white unit on the given cell and a black unit of the same kind on the cell at the far
/// end of the line through the centre of the cube.
pub open spec fn spec_mirrored(
    unit_type: UnitType,
    coords: CellCoordinates,
    cube_side_length: u32,
) -> Seq<Unit> {
    seq![
        Unit { unit_type, coords, entity: None, team: Team::White, dead: false },
        Unit {
            unit_type,
            coords: coords.spec_opposite(cube_side_length),
            entity: None,
            team: Team::Black,
            dead: false,
        },
    ]
}

/// The units at the start of a game: White's king, knight, queen, rook and six pawns round
/// one corner of the cube, and Black's round the corner opposite.
pub open spec fn spec_game_starting_configuration(cube_side_length: u32) -> Seq<Unit> {
    spec_mirrored(
        UnitType::King,
        CellCoordinates { x: 4, y: 0, z: 4, normal_is_positive: true },
        cube_side_length,
    ) + spec_mirrored(
        UnitType::Knight,
        CellCoordinates { x: 3, y: 0, z: 3, normal_is_positive: true },
        cube_side_length,
    ) + spec_mirrored(
        UnitType::Queen,
        CellCoordinates { x: 4, y: 4, z: 0, normal_is_positive: true },
        cube_side_length,
    ) + spec_mirrored(
        UnitType::Rook,
        CellCoordinates { x: 0, y: 4, z: 4, normal_is_positive: true },
        cube_side_length,
    ) + spec_mirrored(
        UnitType::Pawn(RadialDirection::ClockwiseY, false),
        CellCoordinates { x: 3, y: 4, z: 0, normal_is_positive: true },
        cube_side_length,
    ) + spec_mirrored(
        UnitType::Pawn(RadialDirection::CounterX, false),
        CellCoordinates { x: 4, y: 3, z: 0, normal_is_positive: true },
        cube_side_length,
    ) + spec_mirrored(
        UnitType::Pawn(RadialDirection::ClockwiseZ, false),
        CellCoordinates { x: 0, y: 3, z: 4, normal_is_positive: true },
        cube_side_length,
    ) + spec_mirrored(
        UnitType::Pawn(RadialDirection::CounterY, false),
        CellCoordinates { x: 0, y: 4, z: 3, normal_is_positive: true },
        cube_side_length,
    ) + spec_mirrored(
        UnitType::Pawn(RadialDirection::ClockwiseX, false),
        CellCoordinates { x: 4, y: 0, z: 3, normal_is_positive: true },
        cube_side_length,
    ) + spec_mirrored(
        UnitType::Pawn(RadialDirection::CounterZ, false),
        CellCoordinates { x: 3, y: 0, z: 4, normal_is_positive: true },
        cube_side_length,
    )
}

/// At the start of a game there are twenty units, each on a cell of the cube, and no two on
/// the same cell.
pub proof fn lemma_game_starting_configuration(cube_side_length: u32)
    requires
        cube_side_length >= 4,
    ensures
        spec_game_starting_configuration(cube_side_length).len() == 20,
        distinct_cells(spec_game_starting_configuration(cube_side_length)),
        all_on_cube(spec_game_starting_configuration(cube_side_length), cube_side_length),
{
    let s = spec_game_starting_configuration(cube_side_length);
    assert(s.len() == 20);
    assert(s[0].coords == (CellCoordinates { x: 4, y: 0, z: 4, normal_is_positive: true }));
    assert(s[1].coords == (CellCoordinates { x: (cube_side_length - 3) as u32, y: 0, z: (cube_side_length - 3) as u32, normal_is_positive: false }));
    assert(s[2].coords == (CellCoordinates { x: 3, y: 0, z: 3, normal_is_positive: true }));
    assert(s[3].coords == (CellCoordinates { x: (cube_side_length - 2) as u32, y: 0, z: (cube_side_length - 2) as u32, normal_is_positive: false }));
    assert(s[4].coords == (CellCoordinates { x: 4, y: 4, z: 0, normal_is_positive: true }));
    assert(s[5].coords == (CellCoordinates { x: (cube_side_length - 3) as u32, y: (cube_side_length - 3) as u32, z: 0, normal_is_positive: false }));
    assert(s[6].coords == (CellCoordinates { x: 0, y: 4, z: 4, normal_is_positive: true }));
    assert(s[7].coords == (CellCoordinates { x: 0, y: (cube_side_length - 3) as u32, z: (cube_side_length - 3) as u32, normal_is_positive: false }));
    assert(s[8].coords == (CellCoordinates { x: 3, y: 4, z: 0, normal_is_positive: true }));
    assert(s[9].coords == (CellCoordinates { x: (cube_side_length - 2) as u32, y: (cube_side_length - 3) as u32, z: 0, normal_is_positive: false }));
    assert(s[10].coords == (CellCoordinates { x: 4, y: 3, z: 0, normal_is_positive: true }));
    assert(s[11].coords == (CellCoordinates { x: (cube_side_length - 3) as u32, y: (cube_side_length - 2) as u32, z: 0, normal_is_positive: false }));
    assert(s[12].coords == (CellCoordinates { x: 0, y: 3, z: 4, normal_is_positive: true }));
    assert(s[13].coords == (CellCoordinates { x: 0, y: (cube_side_length - 2) as u32, z: (cube_side_length - 3) as u32, normal_is_positive: false }));
    assert(s[14].coords == (CellCoordinates { x: 0, y: 4, z: 3, normal_is_positive: true }));
    assert(s[15].coords == (CellCoordinates { x: 0, y: (cube_side_length - 3) as u32, z: (cube_side_length - 2) as u32, normal_is_positive: false }));
    assert(s[16].coords == (CellCoordinates { x: 4, y: 0, z: 3, normal_is_positive: true }));
    assert(s[17].coords == (CellCoordinates { x: (cube_side_length - 3) as u32, y: 0, z: (cube_side_length - 2) as u32, normal_is_positive: false }));
    assert(s[18].coords == (CellCoordinates { x: 3, y: 0, z: 4, normal_is_positive: true }));
    assert(s[19].coords == (CellCoordinates { x: (cube_side_length - 2) as u32, y: 0, z: (cube_side_length - 3) as u32, normal_is_positive: false }));
}

/// The roster of units in play.
#[derive(Debug)]
pub struct Units {
    units: Vec<Unit>,
}

impl View for Units {
    type V = Seq<Unit>;

    closed spec fn view(&self) -> Seq<Unit> {
        self.units@
    }
}

impl Default for Units {
    fn default() -> (r: Units)
        ensures
            r@ == Seq::<Unit>::empty(),
    {
        Units { units: Vec::new() }
    }
}

impl Clone for Units {
    fn clone(&self) -> (r: Units)
        ensures
            r@ == self@,
    {
        let mut units: Vec<Unit> = Vec::new();
        let mut i: usize = 0;
        while i < self.units.len()
            invariant
                i <= self.units.len(),
                units@ == self.units@.subrange(0, i as int),
            decreases self.units.len() - i,
        {
            units.push(self.units[i]);
            assert(units@ =~= self.units@.subrange(0, i + 1));
            i += 1;
        }
        assert(units@ =~= self.units@);
        Units { units }
    }
}

impl Units {
    /// An empty roster.
    pub fn new() -> (r: Units)
        ensures
            r@ == Seq::<Unit>::empty(),
    {
        Units { units: Vec::new() }
    }

    /// All units, in the order the roster holds them.
    pub fn all_units(&self) -> (r: &Vec<Unit>)
        ensures
            r@ == self@,
    {
        &self.units
    }

    /// How many units the roster holds.
    pub fn len(&self) -> (n: usize)
        ensures
            n == self@.len(),
    {
        self.units.len()
    }

    /// Index of the first unit that stands on `coords`.
    pub fn position(&self, coords: CellCoordinates) -> (r: Option<usize>)
        ensures
            match r {
                Some(i) => spec_position(self@, coords) == Some(i as int),
                None => spec_position(self@, coords) is None,
            },
            r matches Some(i) ==> is_first_at(self@, coords, i as int),
            r is Some <==> spec_is_unit_at(self@, coords),
    {
        let mut i: usize = 0;
        while i < self.units.len()
            invariant
                i <= self.units.len(),
                forall|j: int| 0 <= j < i ==> (#[trigger] self.units@[j]).coords != coords,
            decreases self.units.len() - i,
        {
            if self.units[i].coords == coords {
                proof {
                    lemma_position(self@, coords, i as int);
                }
                return Some(i);
            }
            i += 1;
        }
        proof {
            lemma_position(self@, coords, 0);
        }
        None
    }

    /// The first unit that stands on `coords`.
    pub fn get_unit(&self, coords: CellCoordinates) -> (r: Option<&Unit>)
        ensures
            match r {
                Some(unit) => spec_get_unit(self@, coords) == Some(*unit),
                None => spec_get_unit(self@, coords) is None,
            },
            r is Some <==> spec_is_unit_at(self@, coords),
            r matches Some(unit) ==> unit.coords == coords,
    {
        match self.position(coords) {
            Some(i) => Some(&self.units[i]),
            None => None,
        }
    }

    /// The first unit that stands on `coords`, to be changed in place.
    pub fn get_unit_mut(&mut self, coords: CellCoordinates) -> (r: Option<&mut Unit>)
        ensures
            match r {
                Some(unit) => {
                    &&& spec_position(old(self)@, coords) matches Some(i)
                    &&& *unit == old(self)@[i]
                    &&& final(self)@ == old(self)@.update(i, *final(unit))
                },
                None => spec_position(old(self)@, coords) is None && final(self)@ == old(self)@,
            },
    {
        match self.position(coords) {
            Some(i) => Some(&mut self.units[i]),
            None => None,
        }
    }

    /// The first unit that the given object shows.
    pub fn get_unit_from_entity(&self, entity: Entity) -> (r: Option<&Unit>)
        ensures
            match r {
                Some(unit) => exists|i: int|
                    is_first_shown_by(self@, entity, i) && self@[i] == *unit,
                None => forall|i: int|
                    0 <= i < self@.len() ==> (#[trigger] self@[i]).entity != Some(entity),
            },
    {
        let mut i: usize = 0;
        while i < self.units.len()
            invariant
                i <= self.units.len(),
                forall|j: int| 0 <= j < i ==> (#[trigger] self.units@[j]).entity != Some(entity),
            decreases self.units.len() - i,
        {
            let shown = match self.units[i].entity {
                Some(unit_entity) => same_entity(unit_entity, entity),
                None => false,
            };
            if shown {
                assert(is_first_shown_by(self@, entity, i as int));
                return Some(&self.units[i]);
            }
            i += 1;
        }
        None
    }

    /// Whether a unit stands on `coords`.
    pub fn is_unit_at(&self, coords: CellCoordinates) -> (b: bool)
        ensures
            b == spec_is_unit_at(self@, coords),
    {
        self.position(coords).is_some()
    }

    /// Drops every unit that is marked dead; the others keep their order.
    pub fn remove_dead_units(&mut self)
        ensures
            final(self)@ == old(self)@.filter(|unit: Unit| !unit.dead),
    {
        let mut kept: Vec<Unit> = Vec::new();
        let ghost alive = |unit: Unit| !unit.dead;
        let mut i: usize = 0;
        proof {
            assert(self.units@.subrange(0, 0) =~= Seq::<Unit>::empty());
            assert(Seq::<Unit>::empty().filter(alive) =~= Seq::<Unit>::empty()) by {
                reveal(Seq::filter);
            }
        }
        while i < self.units.len()
            invariant
                i <= self.units.len(),
                alive == (|unit: Unit| !unit.dead),
                kept@ == self.units@.subrange(0, i as int).filter(alive),
            decreases self.units.len() - i,
        {
            proof {
                assert(self.units@.subrange(0, i + 1) =~= self.units@.subrange(0, i as int).push(
                    self.units@[i as int],
                ));
                crate::direction::lemma_filter_push(
                    self.units@.subrange(0, i as int),
                    self.units@[i as int],
                    alive,
                );
            }
            if !self.units[i].dead {
                kept.push(self.units[i]);
            }
            i += 1;
        }
        proof {
            assert(self.units@.subrange(0, self.units@.len() as int) =~= self.units@);
        }
        self.units = kept;
    }

    /// Adds a unit at the end of the roster.
    pub fn add_unit(&mut self, unit: Unit)
        ensures
            final(self)@ == old(self)@.push(unit),
    {
        self.units.push(unit)
    }

    /// Takes the first unit that stands on `coords` out of the roster and hands it back. The
    /// last unit of the roster takes its place.
    pub fn remove_unit(&mut self, coords: CellCoordinates) -> (r: Option<Unit>)
        ensures
            r == spec_get_unit(old(self)@, coords),
            final(self)@ == spec_remove_unit(old(self)@, coords),
    {
        match self.position(coords) {
            None => None,
            Some(index) => Some(self.units.swap_remove(index)),
        }
    }

    /// Exchanges the units at the two indices.
    pub fn swap_units(&mut self, i: usize, j: usize)
        requires
            i < old(self)@.len(),
            j < old(self)@.len(),
        ensures
            final(self)@ == old(self)@.update(i as int, old(self)@[j as int]).update(
                j as int,
                old(self)@[i as int],
            ),
    {
        let first = self.units[i];
        let second = self.units[j];
        self.units[i] = second;
        self.units[j] = first;
    }

    /// Adds a white unit on the given cell and a black unit of the same kind on the cell
    /// opposite.
    fn add_mirrored(&mut self, unit_type: UnitType, coords: CellCoordinates, cube_side_length: u32)
        requires
            coords.x <= cube_side_length + 1,
            coords.y <= cube_side_length + 1,
            coords.z <= cube_side_length + 1,
        ensures
            final(self)@ == old(self)@ + spec_mirrored(unit_type, coords, cube_side_length),
    {
        let unit = Unit::new(unit_type, Team::White, coords);
        let mut unit2 = unit;
        unit2.coords = unit2.coords.opposite(cube_side_length);
        unit2.team = unit.team.opposite();
        self.add_unit(unit);
        self.add_unit(unit2);
        assert(self@ =~= old(self)@ + spec_mirrored(unit_type, coords, cube_side_length));
    }

    /// The units at the start of a game. They stand on cells of the cube, no two on the same
    /// cell, if the cube has at least four cells along each edge; with three, some of the
    /// coordinates name no cell.
    pub fn game_starting_configuration(cube_side_length: u32) -> (r: Units)
        requires
            cube_side_length >= 3,
        ensures
            r@ == spec_game_starting_configuration(cube_side_length),
            r@.len() == 20,
            cube_side_length >= 4 ==> distinct_cells(r@) && all_on_cube(r@, cube_side_length),
    {
        let mut output = Units::new();
        output.add_mirrored(UnitType::King, CellCoordinates::new(4, 0, 4, true), cube_side_length);
        output.add_mirrored(UnitType::Knight, CellCoordinates::new(3, 0, 3, true), cube_side_length);
        output.add_mirrored(UnitType::Queen, CellCoordinates::new(4, 4, 0, true), cube_side_length);
        output.add_mirrored(UnitType::Rook, CellCoordinates::new(0, 4, 4, true), cube_side_length);
        output.add_mirrored(UnitType::Pawn(RadialDirection::ClockwiseY, false), CellCoordinates::new(3, 4, 0, true), cube_side_length);
        output.add_mirrored(UnitType::Pawn(RadialDirection::CounterX, false), CellCoordinates::new(4, 3, 0, true), cube_side_length);
        output.add_mirrored(UnitType::Pawn(RadialDirection::ClockwiseZ, false), CellCoordinates::new(0, 3, 4, true), cube_side_length);
        output.add_mirrored(UnitType::Pawn(RadialDirection::CounterY, false), CellCoordinates::new(0, 4, 3, true), cube_side_length);
        output.add_mirrored(UnitType::Pawn(RadialDirection::ClockwiseX, false), CellCoordinates::new(4, 0, 3, true), cube_side_length);
        output.add_mirrored(UnitType::Pawn(RadialDirection::CounterZ, false), CellCoordinates::new(3, 0, 4, true), cube_side_length);
        proof {
            if cube_side_length >= 4 {
                lemma_game_starting_configuration(cube_side_length);
            }
            assert(output@ =~= spec_game_starting_configuration(cube_side_length));
        }
        output
    }

    /// Whether every unit stands on coordinates that name a face.
    pub fn stand_on_faces(&self) -> (b: bool)
        ensures
            b == all_have_normal(self@),
    {
        let mut i: usize = 0;
        while i < self.units.len()
            invariant
                i <= self.units.len(),
                forall|a: int| 0 <= a < i ==> (#[trigger] self.units@[a]).coords.has_normal(),
            decreases self.units.len() - i,
        {
            if !self.units[i].coords.is_valid() {
                return false;
            }
            i += 1;
        }
        true
    }
}

} // verus!
