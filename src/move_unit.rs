use vstd::prelude::*;
use crate::tile::{GameState, Tile};
use crate::game_event::GuiMessage;

verus! {

/// Why a move could not be requested.
#[derive(Clone, Copy, Debug, PartialEq, Eq, Structural)]
pub enum MoveError {
    /// The selected index is not a cell of the board.
    SelectedTileMissing,
    /// The selected tile holds no unit, so the selection is stale.
    NoUnitSelected,
    /// The destination index is not a cell of the board.
    DestinationMissing,
}

/// The request to move the unit on tile `selected` to tile `index`.
pub open spec fn move_request(tiles: Seq<Tile>, index: int, selected: int) -> Result<GuiMessage, MoveError> {
    if !(0 <= selected < tiles.len()) {
        Err(MoveError::SelectedTileMissing)
    } else if tiles[selected].unit is None {
        Err(MoveError::NoUnitSelected)
    } else if !(0 <= index < tiles.len()) {
        Err(MoveError::DestinationMissing)
    } else {
        Ok(GuiMessage::MoveUnit { index: index as usize, unit_id: tiles[selected].unit->0.id })
    }
}

/// Builds the request to move the unit on the previously selected tile to
/// the tile at `index`; the grid itself is changed when the request is
/// applied.
pub fn move_unit(game_state: &GameState, index: usize, last_selected_index: usize) -> (r: Result<
    GuiMessage,
    MoveError,
>)
    ensures
        r == move_request(game_state.tiles@, index as int, last_selected_index as int),
{
    if last_selected_index >= game_state.tiles.len() {
        return Err(MoveError::SelectedTileMissing);
    }
    let last_tile = &game_state.tiles[last_selected_index];
    let unit = match last_tile.get_unit() {
        Some(u) => *u,
        None => {
            return Err(MoveError::NoUnitSelected);
        },
    };
    if index >= game_state.tiles.len() {
        return Err(MoveError::DestinationMissing);
    }
    Ok(GuiMessage::MoveUnit { index, unit_id: unit.id })
}

} // verus!
