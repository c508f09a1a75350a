//! The state of a game and the moves that the players commit.

use crate::ai::search::{spec_eval_recursive, spec_next_move, SCORE_MAX, SCORE_MIN};
use crate::ai::{next_move, AICache};
use crate::board::{Board, Cell, CellColor};
use crate::cell::CellCoordinates;
use crate::movement::{get_unit_moves, spec_get_unit_moves, GameMove};
use crate::team::Team;
use crate::units::{
    all_have_normal, spec_get_unit, spec_position, Unit, UnitType, Units,
};
use bevy::ecs::entity::Entity;
use vstd::prelude::*;

verus! {

/// How deep the computer's side searches for its move.
pub const AI_DEPTH: u32 = 3;

/// A set of three colours for the three shades of cells.
#[derive(Debug, Clone, Copy, PartialEq, Eq, Structural)]
pub enum Palette {
    Filippa,
    Pinkish,
}

impl Palette {
    /// The colours of the palette as hexadecimal strings: the bright shade, the middle one
    /// and the dark one.
    pub open spec fn spec_get_colors_str(&self) -> Seq<&'static str> {
        match self {
            Self::Filippa => seq!["473A2A", "A7805E", "ECC998"],
            Self::Pinkish => seq!["B23A48", "FB9489", "FCB8B0"],
        }
    }

    /// The colours of the palette as hexadecimal strings: the bright shade, the middle one
    /// and the dark one.
    pub fn get_colors_str(&self) -> (r: [&'static str; 3])
        ensures
            r@ == self.spec_get_colors_str(),
    {
        let r = match self {
            Self::Filippa => ["473A2A", "A7805E", "ECC998"],
            Self::Pinkish => ["B23A48", "FB9489", "FCB8B0"],
        };
        assert(r@ =~= self.spec_get_colors_str());
        r
    }
}

impl CellColor {
    /// The place of the shade in a palette.
    pub open spec fn spec_palette_index(&self) -> usize {
        match self {
            Self::Bright => 0,
            Self::Mid => 1,
            Self::Dark => 2,
        }
    }

    /// The place of the shade in a palette.
    #[verifier::when_used_as_spec(spec_palette_index)]
    pub fn palette_index(&self) -> (i: usize)
        ensures
            i == self.spec_palette_index(),
            i < 3,
    {
        match self {
            Self::Bright => 0,
            Self::Mid => 1,
            Self::Dark => 2,
        }
    }

    /// The colour of the shade in the palette, as a hexadecimal string.
    pub fn base_color_str(&self, palette: Palette) -> (r: &'static str)
        ensures
            r == palette.spec_get_colors_str()[self.spec_palette_index() as int],
    {
        palette.get_colors_str()[self.palette_index()]
    }
}

/// A game in progress.
pub struct Game {
    pub board: Board,
    pub units: Units,
    pub selected_cell: Option<CellCoordinates>,
    pub turn: Team,
    /// The shown objects that have not been put on their new cell yet, each with that cell.
    pub entities_to_move: Vec<(Entity, CellCoordinates)>,
    pub palette: Palette,
    pub ai_playing: Option<Team>,
}

/// The roster once the unit on the destination is marked dead and the dead are dropped.
pub open spec fn spec_after_capture(units: Seq<Unit>, to: CellCoordinates) -> Seq<Unit> {
    match spec_position(units, to) {
        Some(i) => units.update(i, Unit { dead: true, ..units[i] }).filter(|unit: Unit| !unit.dead),
        None => units,
    }
}

/// Whether the side whose turn it is may commit the move: the destination names a face, no
/// unit of that side stands on it, and once the unit on it is taken, a unit of that side
/// stands on the cell the move starts from.
pub open spec fn spec_move_allowed(units: Seq<Unit>, turn: Team, game_move: GameMove) -> bool {
    &&& game_move.to.has_normal()
    &&& (spec_get_unit(units, game_move.to) matches Some(target) ==> target.team != turn)
    &&& spec_get_unit(spec_after_capture(units, game_move.to), game_move.from) matches Some(unit)
    &&& unit.team == turn
}

/// The unit as it stands after its move: on the destination, and if it is a pawn, marked as
/// having moved.
pub open spec fn spec_moved_unit(unit: Unit, to: CellCoordinates) -> Unit {
    Unit {
        coords: to,
        unit_type: match unit.unit_type {
            UnitType::Pawn(direction, _) => UnitType::Pawn(direction, true),
            other => other,
        },
        ..unit
    }
}

/// The roster after the move is committed.
pub open spec fn spec_committed(units: Seq<Unit>, game_move: GameMove) -> Seq<Unit> {
    let remaining = spec_after_capture(units, game_move.to);
    match spec_position(remaining, game_move.from) {
        Some(i) => remaining.update(i, spec_moved_unit(remaining[i], game_move.to)),
        None => units,
    }
}

/// What the move adds to the list of objects to be put on a new cell: the object that shows
/// the moved unit, if there is one.
pub open spec fn spec_entity_to_move(units: Seq<Unit>, game_move: GameMove) -> Seq<
    (Entity, CellCoordinates),
> {
    match spec_get_unit(spec_after_capture(units, game_move.to), game_move.from) {
        Some(unit) => match unit.entity {
            Some(entity) => seq![(entity, game_move.to)],
            None => Seq::empty(),
        },
        None => Seq::empty(),
    }
}

impl Game {
    /// A game at its start: White to move, the computer playing Black, and a board that has
    /// no cells yet. The units stand on cells of the cube if it has at least four cells along
    /// each edge.
    pub fn new(cube_side_length: u32) -> (game: Self)
        requires
            cube_side_length >= 3,
        ensures
            game.board@ == Map::<CellCoordinates, Cell>::empty(),
            game.board.spec_cube_side_length() == cube_side_length,
            game.units@ == crate::units::spec_game_starting_configuration(cube_side_length),
            game.selected_cell is None,
            game.turn == Team::White,
            game.entities_to_move@ == Seq::<(Entity, CellCoordinates)>::empty(),
            game.palette == Palette::Pinkish,
            game.ai_playing == Some(Team::Black),
    {
        Game {
            board: Board::new(cube_side_length),
            units: Units::game_starting_configuration(cube_side_length),
            selected_cell: None,
            turn: Team::White,
            entities_to_move: Vec::new(),
            palette: Palette::Pinkish,
            ai_playing: Some(Team::Black),
        }
    }

    /// Hands the turn to the other side.
    pub fn next_player_turn(&mut self)
        ensures
            final(self).turn == old(self).turn.spec_opposite(),
            final(self).units@ == old(self).units@,
            final(self).board@ == old(self).board@,
            final(self).board.spec_cube_side_length() == old(self).board.spec_cube_side_length(),
            final(self).selected_cell == old(self).selected_cell,
            final(self).entities_to_move@ == old(self).entities_to_move@,
            final(self).palette == old(self).palette,
            final(self).ai_playing == old(self).ai_playing,
    {
        self.turn = self.turn.opposite()
    }
}

/// Commits a move for the side whose turn it is and tells whether it was allowed, with the
/// unit that it captured. A move that is not allowed changes nothing: one from a cell where
/// no unit of that side stands, or onto a unit of that side. The turn stays as it is.
pub fn make_move(game_move: GameMove, game: &mut Game) -> (r: (bool, Option<Unit>))
    ensures
        r.0 == spec_move_allowed(old(game).units@, old(game).turn, game_move),
        r.0 ==> {
            &&& r.1 == spec_get_unit(old(game).units@, game_move.to)
            &&& final(game).units@ == spec_committed(old(game).units@, game_move)
            &&& final(game).entities_to_move@ == old(game).entities_to_move@ + spec_entity_to_move(
                old(game).units@,
                game_move,
            )
        },
        !r.0 ==> {
            &&& r.1 is None
            &&& final(game).units@ == old(game).units@
            &&& final(game).entities_to_move@ == old(game).entities_to_move@
        },
        final(game).turn == old(game).turn,
        final(game).board@ == old(game).board@,
        final(game).board.spec_cube_side_length() == old(game).board.spec_cube_side_length(),
        final(game).selected_cell == old(game).selected_cell,
        final(game).palette == old(game).palette,
        final(game).ai_playing == old(game).ai_playing,
{
    if !game_move.to.is_valid() {
        return (false, None);
    }
    let target = match game.units.get_unit(game_move.to) {
        Some(unit) => Some(*unit),
        None => None,
    };
    if let Some(unit) = target {
        if unit.team == game.turn {
            return (false, None);
        }
    }
    let mut remaining = game.units.clone();
    proof {
        crate::units::lemma_position(remaining@, game_move.to, 0);
    }
    match remaining.get_unit_mut(game_move.to) {
        Some(captured_unit) => {
            captured_unit.dead = true;
        },
        None => {},
    }
    if target.is_some() {
        remaining.remove_dead_units();
    }
    assert(remaining@ == spec_after_capture(old(game).units@, game_move.to));
    proof {
        crate::units::lemma_position(remaining@, game_move.from, 0);
    }
    let entity;
    match remaining.get_unit_mut(game_move.from) {
        None => {
            return (false, None);
        },
        Some(unit) => {
            if unit.team != game.turn {
                return (false, None);
            }
            unit.move_unit_to(game_move.to);
            if let UnitType::Pawn(direction, _) = unit.unit_type {
                unit.unit_type = UnitType::Pawn(direction, true);
            }
            entity = unit.entity;
        },
    }
    game.units = remaining;
    if let Some(entity) = entity {
        game.entities_to_move.push((entity, game_move.to));
        assert(game.entities_to_move@ =~= old(game).entities_to_move@ + seq![
            (entity, game_move.to),
        ]);
    } else {
        assert(game.entities_to_move@ =~= old(game).entities_to_move@ + Seq::<
            (Entity, CellCoordinates),
        >::empty());
    }
    (true, target)
}

/// The cells to be marked after a click on `coords`: those that the unit on it can move to,
/// if that unit belongs to the side whose turn it is. There is none if no such unit stands
/// there, if its coordinates name no face, or if the cube has no cells.
pub open spec fn spec_destinations(
    units: Seq<Unit>,
    turn: Team,
    coords: CellCoordinates,
    cube_side_length: u32,
) -> Seq<CellCoordinates> {
    match spec_get_unit(units, coords) {
        Some(unit) => if unit.team == turn && unit.coords.has_normal() && cube_side_length > 0 {
            spec_get_unit_moves(unit, cube_side_length, units)
        } else {
            Seq::empty()
        },
        None => Seq::empty(),
    }
}

/// Whether a click on `coords` commits a move: a cell was selected before, the clicked cell
/// is on the board and marked as a destination, and the move from the one to the other is
/// allowed.
pub open spec fn spec_click_moves(game: Game, coords: CellCoordinates) -> bool {
    &&& game.selected_cell is Some
    &&& game.board@.contains_key(coords)
    &&& game.board@[coords].selected_unit_can_move_to
    &&& spec_move_allowed(
        game.units@,
        game.turn,
        GameMove { from: game.selected_cell.unwrap(), to: coords },
    )
}

/// Handles a click on a cell of the cube, or beside the cube if `clicked` is `None`, and
/// hands back the unit that was captured, if one was.
///
/// A click beside the cube clears the selection and the marks. A click on a cell selects
/// it. If the cell was marked as a destination of the unit on the cell selected before,
/// that unit moves there and the turn passes to the other side. Then the marks are set
/// anew: on the cells that the unit on the clicked cell can move to, if that unit belongs
/// to the side whose turn it now is.
pub fn on_cell_clicked(game: &mut Game, clicked: Option<CellCoordinates>) -> (captured: Option<
    Unit,
>)
    ensures
        final(game).board.spec_cube_side_length() == old(game).board.spec_cube_side_length(),
        final(game).board@.dom() == old(game).board@.dom(),
        final(game).palette == old(game).palette,
        final(game).ai_playing == old(game).ai_playing,
        final(game).selected_cell == clicked,
        match clicked {
            None => {
                &&& captured is None
                &&& final(game).units@ == old(game).units@
                &&& final(game).turn == old(game).turn
                &&& final(game).entities_to_move@ == old(game).entities_to_move@
                &&& forall|cell: CellCoordinates| #[trigger]
                    old(game).board@.contains_key(cell) ==> final(game).board@[cell] == (Cell {
                        selected_unit_can_move_to: false,
                        ..old(game).board@[cell]
                    })
            },
            Some(coords) => {
                let game_move = GameMove { from: old(game).selected_cell.unwrap(), to: coords };
                let moves = spec_click_moves(*old(game), coords);
                &&& captured == if moves {
                    spec_get_unit(old(game).units@, coords)
                } else {
                    None
                }
                &&& final(game).units@ == if moves {
                    spec_committed(old(game).units@, game_move)
                } else {
                    old(game).units@
                }
                &&& final(game).turn == if moves {
                    old(game).turn.spec_opposite()
                } else {
                    old(game).turn
                }
                &&& final(game).entities_to_move@ == if moves {
                    old(game).entities_to_move@ + spec_entity_to_move(old(game).units@, game_move)
                } else {
                    old(game).entities_to_move@
                }
                &&& forall|cell: CellCoordinates| #[trigger]
                    old(game).board@.contains_key(cell) ==> final(game).board@[cell] == (Cell {
                        selected_unit_can_move_to: spec_destinations(
                            final(game).units@,
                            final(game).turn,
                            coords,
                            old(game).board.spec_cube_side_length(),
                        ).contains(cell),
                        ..old(game).board@[cell]
                    })
            },
        },
{
    let clicked_coords = match clicked {
        None => {
            game.selected_cell = None;
            reset_cells_new_selection(game);
            return None;
        },
        Some(clicked_coords) => clicked_coords,
    };
    let old_selected_cell = game.selected_cell;
    game.selected_cell = Some(clicked_coords);
    let can_move_to = match game.board.get_cell(clicked_coords) {
        Some(cell) => cell.selected_unit_can_move_to,
        None => false,
    };
    let mut captured: Option<Unit> = None;
    if can_move_to {
        if let Some(from) = old_selected_cell {
            let (moved, captured_unit) = make_move(GameMove { from, to: clicked_coords }, game);
            if moved {
                captured = captured_unit;
                game.next_player_turn();
            }
        }
    }
    reset_cells_new_selection(game);
    let ghost cleared = game.board@;
    let ghost destinations = spec_destinations(
        game.units@,
        game.turn,
        clicked_coords,
        game.board.spec_cube_side_length(),
    );
    let unit = match game.units.get_unit(clicked_coords) {
        None => {
            return captured;
        },
        Some(unit) => *unit,
    };
    if unit.team != game.turn || !unit.coords.is_valid() || game.board.cube_side_length() == 0 {
        return captured;
    }
    let unit_moves = get_unit_moves(&unit, &game.board, &game.units);
    let mut k: usize = 0;
    while k < unit_moves.len()
        invariant
            k <= unit_moves.len(),
            unit_moves@ == destinations,
            game.units@ == spec_committed_or_same(*old(game), clicked),
            game.turn == spec_turn_after(*old(game), clicked),
            game.entities_to_move@ == spec_entities_after(*old(game), clicked),
            game.selected_cell == clicked,
            game.palette == old(game).palette,
            game.ai_playing == old(game).ai_playing,
            game.board.spec_cube_side_length() == old(game).board.spec_cube_side_length(),
            game.board@.dom() == cleared.dom(),
            forall|cell: CellCoordinates| #[trigger]
                cleared.contains_key(cell) ==> game.board@[cell] == (Cell {
                    selected_unit_can_move_to: destinations.subrange(0, k as int).contains(cell),
                    ..cleared[cell]
                }),
        decreases unit_moves.len() - k,
    {
        let unit_move = unit_moves[k];
        let ghost before = game.board@;
        let ghost marked = destinations.subrange(0, k as int);
        game.board.set_selected_unit_can_move_to(unit_move, true);
        k += 1;
        proof {
            let now = destinations.subrange(0, k as int);
            assert(now =~= marked.push(unit_move));
            assert forall|cell: CellCoordinates| #[trigger] cleared.contains_key(cell) implies game.board@[cell]
                == (Cell { selected_unit_can_move_to: now.contains(cell), ..cleared[cell] }) by {
                if cell == unit_move {
                    assert(now[now.len() - 1] == cell);
                } else {
                    if marked.contains(cell) {
                        let w = choose|w: int| 0 <= w < marked.len() && marked[w] == cell;
                        assert(now[w] == cell);
                    }
                    if now.contains(cell) {
                        let w = choose|w: int| 0 <= w < now.len() && now[w] == cell;
                        assert(marked[w] == cell);
                    }
                }
            }
            assert(game.board@.dom() =~= cleared.dom());
        }
    }
    proof {
        assert(destinations.subrange(0, k as int) =~= destinations);
    }
    captured
}

/// The roster after a click, as `on_cell_clicked` leaves it.
pub open spec fn spec_committed_or_same(game: Game, clicked: Option<CellCoordinates>) -> Seq<Unit> {
    match clicked {
        Some(coords) => if spec_click_moves(game, coords) {
            spec_committed(game.units@, GameMove { from: game.selected_cell.unwrap(), to: coords })
        } else {
            game.units@
        },
        None => game.units@,
    }
}

/// The side to move after a click, as `on_cell_clicked` leaves it.
pub open spec fn spec_turn_after(game: Game, clicked: Option<CellCoordinates>) -> Team {
    match clicked {
        Some(coords) => if spec_click_moves(game, coords) {
            game.turn.spec_opposite()
        } else {
            game.turn
        },
        None => game.turn,
    }
}

/// The objects to be put on a new cell after a click, as `on_cell_clicked` leaves them.
pub open spec fn spec_entities_after(game: Game, clicked: Option<CellCoordinates>) -> Seq<
    (Entity, CellCoordinates),
> {
    match clicked {
        Some(coords) => if spec_click_moves(game, coords) {
            game.entities_to_move@ + spec_entity_to_move(
                game.units@,
                GameMove { from: game.selected_cell.unwrap(), to: coords },
            )
        } else {
            game.entities_to_move@
        },
        None => game.entities_to_move@,
    }
}

/// Takes the marks off all cells.
pub fn reset_cells_new_selection(game: &mut Game)
    ensures
        final(game).board.spec_cube_side_length() == old(game).board.spec_cube_side_length(),
        final(game).board@.dom() == old(game).board@.dom(),
        forall|cell: CellCoordinates| #[trigger]
            old(game).board@.contains_key(cell) ==> final(game).board@[cell] == (Cell {
                selected_unit_can_move_to: false,
                ..old(game).board@[cell]
            }),
        final(game).units@ == old(game).units@,
        final(game).turn == old(game).turn,
        final(game).selected_cell == old(game).selected_cell,
        final(game).entities_to_move@ == old(game).entities_to_move@,
        final(game).palette == old(game).palette,
        final(game).ai_playing == old(game).ai_playing,
{
    game.board.clear_selected_unit_can_move_to();
}

/// The move that the computer picks for the side to move: none unless the cube has cells
/// and every unit stands on coordinates that name a face.
pub open spec fn spec_ai_choice(game: Game, last_variation: Seq<GameMove>) -> Option<GameMove> {
    if game.board.spec_cube_side_length() > 0 && all_have_normal(game.units@) {
        spec_next_move(
            game.board.spec_cube_side_length(),
            game.units@,
            game.turn,
            AI_DEPTH as nat,
            last_variation,
        )
    } else {
        None
    }
}

/// Lets the computer play if it is the turn of its side, and tells whether it was, with the
/// unit that its move captured. The computer searches for its move, commits it and hands
/// the turn to the other side; it hands the turn on also where it finds no move.
pub fn ai_play(game: &mut Game, ai_cache: &mut AICache) -> (r: (bool, Option<Unit>))
    ensures
        r.0 == (old(game).ai_playing == Some(old(game).turn)),
        final(game).board@ == old(game).board@,
        final(game).board.spec_cube_side_length() == old(game).board.spec_cube_side_length(),
        final(game).selected_cell == old(game).selected_cell,
        final(game).palette == old(game).palette,
        final(game).ai_playing == old(game).ai_playing,
        !r.0 ==> {
            &&& r.1 is None
            &&& final(game).units@ == old(game).units@
            &&& final(game).turn == old(game).turn
            &&& final(game).entities_to_move@ == old(game).entities_to_move@
            &&& final(ai_cache)@ == old(ai_cache)@
        },
        r.0 ==> {
            let choice = spec_ai_choice(*old(game), old(ai_cache)@);
            let committed = choice matches Some(game_move) && spec_move_allowed(
                old(game).units@,
                old(game).turn,
                game_move,
            );
            &&& final(game).turn == old(game).turn.spec_opposite()
            &&& final(ai_cache)@ == if old(game).board.spec_cube_side_length() > 0
                && all_have_normal(old(game).units@) {
                spec_eval_recursive(
                    old(game).board.spec_cube_side_length(),
                    old(game).units@,
                    old(game).turn,
                    AI_DEPTH as nat,
                    SCORE_MIN as int,
                    SCORE_MAX as int,
                    true,
                    true,
                    old(ai_cache)@,
                ).last_variation
            } else {
                old(ai_cache)@
            }
            &&& final(game).units@ == if committed {
                spec_committed(old(game).units@, choice.unwrap())
            } else {
                old(game).units@
            }
            &&& r.1 == if committed {
                spec_get_unit(old(game).units@, choice.unwrap().to)
            } else {
                None
            }
            &&& final(game).entities_to_move@ == if committed {
                old(game).entities_to_move@ + spec_entity_to_move(
                    old(game).units@,
                    choice.unwrap(),
                )
            } else {
                old(game).entities_to_move@
            }
        },
{
    let its_turn = match game.ai_playing {
        Some(ai_playing) => ai_playing == game.turn,
        None => false,
    };
    if !its_turn {
        return (false, None);
    }
    let choice = if game.board.cube_side_length() > 0 && game.units.stand_on_faces() {
        next_move(&game.board, &game.units, game.turn, AI_DEPTH, ai_cache)
    } else {
        None
    };
    let captured = match choice {
        Some(game_move) => make_move(game_move, game).1,
        None => None,
    };
    game.next_player_turn();
    (true, captured)
}

} // verus!
