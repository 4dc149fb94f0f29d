use vstd::prelude::*;
use crate::tile::{Tile, TileType};
use crate::board::Board;
use crate::game_event::{GameEvent, GuiMessage};
use crate::event_loop::{Handler, Payload};
use crate::move_unit::{MoveError, move_request, move_unit};

verus! {

/// The two states of the click protocol: nothing chosen, or a friendly unit
/// chosen on the tile at the given index.
#[derive(Clone, Copy, Debug, PartialEq, Eq, Structural)]
pub enum Selection {
    Idle,
    UnitSelected(usize),
}

/// What a click on the tile `cell` (or off the board, `None`) does: the next
/// selection and the feedback to send, if any.
pub open spec fn click_outcome(sel: Selection, tiles: Seq<Tile>, cell: Option<int>) -> (
    Selection,
    Result<Option<GuiMessage>, MoveError>,
) {
    match cell {
        None => (sel, Ok(None)),
        Some(i) => {
            let kind = tiles[i].tile_type;
            if kind == TileType::MyUnit {
                (Selection::UnitSelected(i as usize), Ok(Some(GuiMessage::BackLightTile { index: i as usize })))
            } else if kind == TileType::Empty {
                match sel {
                    Selection::UnitSelected(s) => (
                        Selection::Idle,
                        match move_request(tiles, i, s as int) {
                            Ok(m) => Ok(Some(m)),
                            Err(e) => Err(e),
                        },
                    ),
                    Selection::Idle => (Selection::Idle, Ok(None)),
                }
            } else {
                (sel, Ok(None))
            }
        },
    }
}

/// Turns clicks on the board into selections and move requests.
pub struct MouseClickHandler {
    pub selection: Selection,
}

impl MouseClickHandler {
    pub fn new() -> (h: MouseClickHandler)
        ensures
            h.selection == Selection::Idle,
    {
        MouseClickHandler { selection: Selection::Idle }
    }

    fn back_light_tile(&mut self, index: usize) -> (m: GuiMessage)
        ensures
            final(self).selection == Selection::UnitSelected(index),
            m == (GuiMessage::BackLightTile { index }),
    {
        self.selection = Selection::UnitSelected(index);
        GuiMessage::BackLightTile { index }
    }

    /// Reacts to a click at a pixel: a friendly unit is selected and lit; an
    /// empty tile, while a unit is selected, receives that unit; any other
    /// click changes nothing.
    pub fn handle_click_in_area(&mut self, board: &Board, mouse_x: i64, mouse_y: i64) -> (r: Result<
        Option<GuiMessage>,
        MoveError,
    >)
        requires
            board.wf(),
        ensures
            (final(self).selection, r) == click_outcome(
                old(self).selection,
                board.game_state.tiles@,
                board.tile_index_at(mouse_x as int, mouse_y as int),
            ),
    {
        let index = match board.get_tile_index(mouse_x, mouse_y) {
            Some(i) => i,
            None => {
                return Ok(None);
            },
        };
        let tile_type = board.game_state.tiles[index].tile_type;
        match tile_type {
            TileType::MyUnit => Ok(Some(self.back_light_tile(index))),
            TileType::Empty => {
                let selected = self.selection;
                self.selection = Selection::Idle;
                match selected {
                    Selection::UnitSelected(last_selected_index) => {
                        match move_unit(&board.game_state, index, last_selected_index) {
                            Ok(m) => Ok(Some(m)),
                            Err(e) => Err(e),
                        }
                    },
                    Selection::Idle => Ok(None),
                }
            },
            _ => Ok(None),
        }
    }

    /// Reacts to a click at a pixel; a click off the board is ignored.
    pub fn handle_click(&mut self, board: &Board, mouse_x: i64, mouse_y: i64) -> (r: Result<
        Option<GuiMessage>,
        MoveError,
    >)
        requires
            board.wf(),
        ensures
            (final(self).selection, r) == click_outcome(
                old(self).selection,
                board.game_state.tiles@,
                board.tile_index_at(mouse_x as int, mouse_y as int),
            ),
    {
        if board.check_if_is_in_boundries(mouse_x, mouse_y) {
            self.handle_click_in_area(board, mouse_x, mouse_y)
        } else {
            Ok(None)
        }
    }
}

/// Handles window resizes on the event loop. The board itself follows the
/// window on the render side, so nothing is left to do here.
pub struct WindowResizeHandler {}

impl Handler for WindowResizeHandler {
    fn handle(&mut self, _event: &GameEvent, _payload: &Payload) {
    }
}

} // verus!
