//! The cells of the board and what is known of each.

use crate::cell::CellCoordinates;
use bevy::ecs::entity::Entity;
use std::collections::BTreeMap;
use vstd::std_specs::cmp::OrdSpec;
use vstd::std_specs::iter::IteratorSpec;
use vstd::prelude::*;

verus! {

/// The shade of a cell.
#[derive(Clone, Debug, Copy, PartialEq, Eq, Structural)]
pub enum CellColor {
    Bright,
    Mid,
    Dark,
}

/// One cell of the board.
#[derive(Clone, Copy, Debug)]
pub struct Cell {
    /// The object that shows the cell.
    pub plane: Entity,
    /// Whether the unit that is selected at the moment can move here.
    pub selected_unit_can_move_to: bool,
    pub coords: CellCoordinates,
    pub color: CellColor,
}

impl Cell {
    /// A cell that is not marked as a destination.
    pub fn new(plane: Entity, coords: CellCoordinates, cell_color: CellColor) -> (c: Self)
        ensures
            c == (Cell { plane, coords, selected_unit_can_move_to: false, color: cell_color }),
    {
        Cell { plane, coords, selected_unit_can_move_to: false, color: cell_color }
    }
}

/// The number under which the board files a cell: the three axis values and the flag, one
/// after the other, so that cells are filed in the order of their coordinates.
pub open spec fn spec_key(coords: CellCoordinates) -> u128 {
    (coords.x * 0x2_0000_0000_0000_0000 + coords.y * 0x2_0000_0000 + coords.z * 2
        + if coords.normal_is_positive {
        1int
    } else {
        0int
    }) as u128
}

/// The number under which the board files a cell.
pub fn key(coords: CellCoordinates) -> (k: u128)
    ensures
        k == spec_key(coords),
{
    let x: u128 = coords.x as u128;
    let y: u128 = coords.y as u128;
    let z: u128 = coords.z as u128;
    let flag: u128 = if coords.normal_is_positive {
        1
    } else {
        0
    };
    x * 0x2_0000_0000_0000_0000 + y * 0x2_0000_0000 + z * 2 + flag
}

/// Different cells are filed under different numbers, and the numbers are in the order of
/// the coordinates: by x, then y, then z, then the flag.
pub proof fn lemma_key_order(a: CellCoordinates, b: CellCoordinates)
    ensures
        spec_key(a) == spec_key(b) <==> a == b,
        spec_key(a) < spec_key(b) <==> (a.x < b.x || (a.x == b.x && (a.y < b.y || (a.y == b.y && (
        a.z < b.z || (a.z == b.z && !a.normal_is_positive && b.normal_is_positive)))))),
{
}

/// The board: the cells of the cube's surface, each filed under its coordinates, and the
/// cube's side length.
pub struct Board {
    board: BTreeMap<u128, Cell>,
    cube_side_length: u32,
}

impl View for Board {
    type V = Map<CellCoordinates, Cell>;

    closed spec fn view(&self) -> Map<CellCoordinates, Cell> {
        Map::new(
            |coords: CellCoordinates| self.board@.contains_key(spec_key(coords)),
            |coords: CellCoordinates| self.board@[spec_key(coords)],
        )
    }
}

impl Board {
    /// How many cells lie along an edge of the cube.
    pub closed spec fn spec_cube_side_length(&self) -> u32 {
        self.cube_side_length
    }

    /// How many cells lie along an edge of the cube.
    #[verifier::when_used_as_spec(spec_cube_side_length)]
    pub fn cube_side_length(&self) -> (n: u32)
        ensures
            n == self.spec_cube_side_length(),
    {
        self.cube_side_length
    }

    /// A board without cells for a cube of the given side length.
    pub fn new(cube_side_length: u32) -> (r: Self)
        ensures
            r@ == Map::<CellCoordinates, Cell>::empty(),
            r.spec_cube_side_length() == cube_side_length,
    {
        let r = Board { board: BTreeMap::new(), cube_side_length };
        assert(r@ =~= Map::<CellCoordinates, Cell>::empty());
        r
    }

    /// The cell with the given coordinates, if the board has it.
    pub fn get_cell(&self, coords: CellCoordinates) -> (r: Option<&Cell>)
        ensures
            match r {
                Some(cell) => self@.contains_key(coords) && self@[coords] == *cell,
                None => !self@.contains_key(coords),
            },
    {
        let k = key(coords);
        self.board.get(&k)
    }

    /// Files the cell under the given coordinates, in place of any cell that was there.
    pub fn new_cell(&mut self, coords: CellCoordinates, cell: Cell)
        ensures
            final(self)@ == old(self)@.insert(coords, cell),
            final(self).spec_cube_side_length() == old(self).spec_cube_side_length(),
    {
        let k = key(coords);
        proof {
            use_type_invariant(&*self);
        }
        let mut filed: BTreeMap<u128, Cell> = BTreeMap::new();
        std::mem::swap(&mut self.board, &mut filed);
        filed.insert(k, cell);
        std::mem::swap(&mut self.board, &mut filed);
        proof {
            assert forall|c: CellCoordinates| spec_key(c) == spec_key(coords) <==> c == coords by {
                lemma_key_order(c, coords);
            }
            assert(self@ =~= old(self)@.insert(coords, cell));
        }
    }

    /// Marks the cell as one that the selected unit can move to, or as one that it cannot.
    /// Tells whether the board has the cell; a board without it is left as it is.
    pub fn set_selected_unit_can_move_to(&mut self, coords: CellCoordinates, can_move_to: bool) -> (r:
        bool)
        ensures
            r == old(self)@.contains_key(coords),
            final(self).spec_cube_side_length() == old(self).spec_cube_side_length(),
            final(self)@ == if r {
                old(self)@.insert(
                    coords,
                    Cell { selected_unit_can_move_to: can_move_to, ..old(self)@[coords] },
                )
            } else {
                old(self)@
            },
    {
        let found = match self.get_cell(coords) {
            Some(cell) => Some(*cell),
            None => None,
        };
        match found {
            Some(cell) => {
                self.new_cell(coords, Cell { selected_unit_can_move_to: can_move_to, ..cell });
                true
            },
            None => false,
        }
    }
}

/// The cell is filed on the board under some coordinates.
pub open spec fn spec_has_cell(board: Map<CellCoordinates, Cell>, cell: Cell) -> bool {
    exists|coords: CellCoordinates| #[trigger] board.contains_key(coords) && board[coords] == cell
}

/// The first cell is filed on the board under coordinates that come before those of the
/// second.
pub open spec fn spec_filed_before(
    board: Map<CellCoordinates, Cell>,
    first: Cell,
    second: Cell,
) -> bool {
    exists|a: CellCoordinates, b: CellCoordinates|
        #![trigger board[a], board[b]]
        board.contains_key(a) && board.contains_key(b) && board[a] == first && board[b] == second
            && spec_key(a) < spec_key(b)
}

/// The coordinates that are filed under a number.
pub open spec fn spec_unkey(k: u128) -> CellCoordinates {
    CellCoordinates {
        x: (k / 0x2_0000_0000_0000_0000) as u32,
        y: ((k % 0x2_0000_0000_0000_0000) / 0x2_0000_0000) as u32,
        z: (((k % 0x2_0000_0000_0000_0000) % 0x2_0000_0000) / 2) as u32,
        normal_is_positive: ((k % 0x2_0000_0000_0000_0000) % 0x2_0000_0000) % 2 == 1,
    }
}

/// Every number below two to the power of 97 files exactly one cell.
pub proof fn lemma_unkey(k: u128)
    requires
        k < 0x2_0000_0000_0000_0000_0000_0000,
    ensures
        spec_key(spec_unkey(k)) == k,
{
}

impl Board {
    #[verifier::type_invariant]
    spec fn keys_file_cells(&self) -> bool {
        forall|k: u128| #[trigger]
            self.board@.contains_key(k) ==> k < 0x2_0000_0000_0000_0000_0000_0000
    }

    /// Every cell of the board, in the order of the coordinates.
    pub fn get_all_cells(&self) -> (r: Vec<&Cell>)
        ensures
            r@.len() == self.spec_len(),
            forall|i: int| 0 <= i < r@.len() ==> spec_has_cell(self@, *(#[trigger] r@[i])),
            forall|i: int, j: int|
                0 <= i < j < r@.len() ==> spec_filed_before(
                    self@,
                    *(#[trigger] r@[i]),
                    *(#[trigger] r@[j]),
                ),
            forall|coords: CellCoordinates|
                self@.contains_key(coords) ==> exists|i: int|
                    0 <= i < r@.len() && *(#[trigger] r@[i]) == self@[coords],
    {
        let mut output: Vec<&Cell> = Vec::new();
        let values = self.board.values();
        let ghost filed = self.board@;
        let ghost key_seq = choose|key_seq: Seq<u128>|
            vstd::std_specs::btree::increasing_seq(key_seq) && key_seq.to_set() == filed.dom()
                && key_seq.no_duplicates() && values.remaining() == key_seq.map(
                |i: int, k: u128| &filed[k],
            );
        for cell in it: values
            invariant
                output@.len() == it.index(),
                forall|i: int| 0 <= i < output@.len() ==> output@[i] == it.seq()[i],
                it.seq() == key_seq.map(|i: int, k: u128| &filed[k]),
        {
            output.push(cell);
        }
        proof {
            use_type_invariant(self);
            assert forall|i: int| 0 <= i < output@.len() implies spec_has_cell(
                self@,
                *(#[trigger] output@[i]),
            ) by {
                let k = key_seq[i];
                assert(key_seq.to_set().contains(k));
                assert(filed.contains_key(k));
                lemma_unkey(k);
                let coords = spec_unkey(k);
                assert(self@.contains_key(coords) && self@[coords] == *output@[i]);
            }
            vstd::std_specs::btree::axiom_increasing_seq_meaning(key_seq);
            assert forall|i: int, j: int| 0 <= i < j < output@.len() implies spec_filed_before(
                self@,
                *(#[trigger] output@[i]),
                *(#[trigger] output@[j]),
            ) by {
                let ka = key_seq[i];
                let kb = key_seq[j];
                assert(key_seq.to_set().contains(ka) && key_seq.to_set().contains(kb));
                lemma_unkey(ka);
                lemma_unkey(kb);
                let a = spec_unkey(ka);
                let b = spec_unkey(kb);
                assert(ka.cmp_spec(&kb) is Less);
                assert(ka < kb);
                assert(self@.contains_key(a) && self@.contains_key(b) && self@[a] == *output@[i]
                    && self@[b] == *output@[j] && spec_key(a) < spec_key(b));
            }
            assert forall|coords: CellCoordinates| self@.contains_key(coords) implies exists|i: int|
                0 <= i < output@.len() && *(#[trigger] output@[i]) == self@[coords] by {
                let k = spec_key(coords);
                assert(key_seq.to_set().contains(k));
                assert(key_seq.contains(k));
                let i = choose|i: int| 0 <= i < key_seq.len() && key_seq[i] == k;
                assert(*output@[i] == self@[coords]);
            }
        }
        output
    }

    /// Marks every cell as one that the selected unit cannot move to.
    pub fn clear_selected_unit_can_move_to(&mut self)
        ensures
            final(self).spec_cube_side_length() == old(self).spec_cube_side_length(),
            final(self)@.dom() == old(self)@.dom(),
            forall|coords: CellCoordinates| #[trigger]
                old(self)@.contains_key(coords) ==> final(self)@[coords] == (Cell {
                    selected_unit_can_move_to: false,
                    ..old(self)@[coords]
                }),
    {
        proof {
            use_type_invariant(&*self);
        }
        let mut cleared: BTreeMap<u128, Cell> = BTreeMap::new();
        let ghost filed = self.board@;
        let entries = self.board.iter();
        let ghost pairs = entries.remaining();
        for entry in it: entries
            invariant
                it.seq() == pairs,
                forall|i: int|
                    0 <= i < pairs.len() ==> filed.contains_key(*(#[trigger] pairs[i]).0)
                        && filed[*pairs[i].0] == *pairs[i].1,
                forall|k: u128| #[trigger]
                    cleared@.contains_key(k) <==> exists|i: int|
                        0 <= i < it.index() && *(#[trigger] pairs[i]).0 == k,
                forall|k: u128| #[trigger]
                    cleared@.contains_key(k) ==> cleared@[k] == (Cell {
                        selected_unit_can_move_to: false,
                        ..filed[k]
                    }),
        {
            let (k, cell) = entry;
            let ghost seen = it.index();
            cleared.insert(*k, Cell { selected_unit_can_move_to: false, ..*cell });
            proof {
                assert(*pairs[seen].0 == *k);
            }
        }
        proof {
            assert forall|k: u128| #[trigger] cleared@.contains_key(k) <==> filed.contains_key(
                k,
            ) by {
                if filed.contains_key(k) {
                    assert(pairs.contains((&k, &filed[k])));
                    let i = choose|i: int| 0 <= i < pairs.len() && pairs[i] == (&k, &filed[k]);
                    assert(*pairs[i].0 == k);
                }
            }
        }
        std::mem::swap(&mut self.board, &mut cleared);
        proof {
            assert(self@.dom() =~= old(self)@.dom());
        }
    }

    /// How many cells the board has.
    pub closed spec fn spec_len(&self) -> nat {
        self.board@.dom().len()
    }
}

} // verus!
