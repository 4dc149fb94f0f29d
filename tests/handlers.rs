use grid_tactics::board::Board;
use grid_tactics::codec::CodecError;
use grid_tactics::event_loop::Handler;
use grid_tactics::game_event::{GameEvent, GuiEvent, GuiMessage};
use grid_tactics::handlers::{MouseClickHandler, Selection, WindowResizeHandler};
use grid_tactics::move_unit::MoveError;
use grid_tactics::tile::{TileType, Unit};

// With a 600 x 800 window the grid starts at (0, 100) with squares of 50.
fn centre_of(index: usize) -> (i64, i64) {
    let (row, col) = ((index / 12) as i64, (index % 12) as i64);
    (col * 50 + 25, 100 + row * 50 + 25)
}

fn board_with_unit() -> Board {
    let mut board = Board::new(600, 800);
    board.add_unit(0, 0, Unit { id: 0, move_range: 2 });
    board
}

#[test]
fn select_then_move_relocates_the_unit() {
    let mut board = board_with_unit();
    let mut handler = MouseClickHandler::new();

    let (x, y) = centre_of(0);
    let m = handler.handle_click(&board, x, y).unwrap().unwrap();
    assert_eq!(m, GuiMessage::BackLightTile { index: 0 });
    assert_eq!(handler.selection, Selection::UnitSelected(0));
    let (kind, bytes) = m.encode().unwrap();
    board.apply_gui_event(kind, &bytes).unwrap();
    let lit: Vec<usize> = (0..144).filter(|&i| board.game_state.tiles[i].back_light).collect();
    assert_eq!(lit, vec![0, 1, 2, 12, 13, 14, 24, 25, 26]);

    let (x, y) = centre_of(26);
    let m = handler.handle_click(&board, x, y).unwrap().unwrap();
    assert_eq!(m, GuiMessage::MoveUnit { index: 26, unit_id: 0 });
    assert_eq!(handler.selection, Selection::Idle);
    let (kind, bytes) = m.encode().unwrap();
    board.apply_gui_event(kind, &bytes).unwrap();

    let tiles = &board.game_state.tiles;
    assert_eq!(tiles[26].unit, Some(Unit { id: 0, move_range: 2 }));
    assert_eq!(tiles[26].tile_type, TileType::MyUnit);
    assert_eq!(tiles[0].unit, None);
    assert_eq!(tiles[0].tile_type, TileType::Empty);
    assert!(tiles.iter().all(|t| !t.back_light));
}

#[test]
fn empty_click_without_selection_changes_nothing() {
    let board = board_with_unit();
    let before = board.game_state.tiles.clone();
    let mut handler = MouseClickHandler::new();
    let (x, y) = centre_of(5);
    assert_eq!(handler.handle_click(&board, x, y), Ok(None));
    assert_eq!(handler.selection, Selection::Idle);
    assert_eq!(board.game_state.tiles, before);
}

#[test]
fn stale_selection_is_reported_and_cleared() {
    let board = Board::new(600, 800);
    let mut handler = MouseClickHandler { selection: Selection::UnitSelected(7) };
    let (x, y) = centre_of(8);
    assert_eq!(handler.handle_click(&board, x, y), Err(MoveError::NoUnitSelected));
    assert_eq!(handler.selection, Selection::Idle);
}

#[test]
fn clicks_off_the_board_or_on_other_tiles_are_ignored() {
    let mut board = board_with_unit();
    board.game_state.tiles[3].tile_type = TileType::Obstacle;
    let mut handler = MouseClickHandler { selection: Selection::UnitSelected(0) };
    assert_eq!(handler.handle_click(&board, 10, 50), Ok(None));
    let (x, y) = centre_of(3);
    assert_eq!(handler.handle_click_in_area(&board, x, y), Ok(None));
    assert_eq!(handler.selection, Selection::UnitSelected(0));
}

#[test]
fn reselecting_moves_the_selection() {
    let mut board = board_with_unit();
    board.add_unit(5, 5, Unit { id: 1, move_range: 1 });
    let mut handler = MouseClickHandler::new();
    let (x, y) = centre_of(0);
    handler.handle_click(&board, x, y).unwrap();
    let (x, y) = centre_of(65);
    let m = handler.handle_click(&board, x, y).unwrap();
    assert_eq!(m, Some(GuiMessage::BackLightTile { index: 65 }));
    assert_eq!(handler.selection, Selection::UnitSelected(65));
}

#[test]
fn move_onto_an_occupied_tile_is_not_applied() {
    let mut board = board_with_unit();
    board.add_unit(0, 1, Unit { id: 1, move_range: 1 });
    assert!(!board.apply_move(1, 0));
    assert_eq!(board.game_state.tiles[0].unit, Some(Unit { id: 0, move_range: 2 }));
    assert_eq!(board.game_state.tiles[1].unit, Some(Unit { id: 1, move_range: 1 }));
    assert!(!board.move_unit(5, 99));
    assert!(!board.move_unit(144, 0));
    assert!(board.move_unit(0, 0));
    assert_eq!(board.game_state.tiles[0].tile_type, TileType::MyUnit);
}

#[test]
fn undecodable_feedback_leaves_the_board() {
    let mut board = board_with_unit();
    board.apply_back_light(0);
    let before = board.game_state.tiles.clone();
    assert_eq!(board.apply_gui_event(GuiEvent::MoveUnit, &vec![]), Err(CodecError::Decode));
    assert_eq!(board.game_state.tiles, before);
    board.reset_back_light_all_tiles();
    assert!(board.game_state.tiles.iter().all(|t| !t.back_light));
}

#[test]
fn resize_handler_accepts_any_payload() {
    let mut handler = WindowResizeHandler {};
    handler.handle(&GameEvent::WindowResized, &vec![1, 2, 3]);
}
