use vstd::prelude::*;

verus! {

/// Kinds of input event delivered to the event loop.
#[derive(Clone, Copy, Debug, PartialEq, Eq, Hash, Structural)]
pub enum GameEvent {
    TileClicked,
    WindowResized,
    MouseClicked,
}

/// Kinds of feedback event sent back to the render side.
#[derive(Clone, Copy, Debug, PartialEq, Eq, Hash, Structural)]
pub enum GuiEvent {
    BackLightTile,
    MoveUnit,
}

/// A feedback event with its contents.
#[derive(Clone, Copy, Debug, PartialEq, Eq, Structural)]
pub enum GuiMessage {
    /// Light the tile at `index` and the squares its unit can reach.
    BackLightTile { index: usize },
    /// Move the unit with id `unit_id` to the tile at `index`.
    MoveUnit { index: usize, unit_id: usize },
}

impl GuiMessage {
    pub open spec fn kind(&self) -> GuiEvent {
        match self {
            GuiMessage::BackLightTile { .. } => GuiEvent::BackLightTile,
            GuiMessage::MoveUnit { .. } => GuiEvent::MoveUnit,
        }
    }
}

} // verus!
