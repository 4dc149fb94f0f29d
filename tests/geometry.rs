use grid_tactics::board::{Board, WindowSize};
use grid_tactics::tile::{GRID_SIZE, TILE_COUNT, TileType, Unit};

#[test]
fn new_board_is_centred() {
    let board = Board::new(600, 800);
    assert_eq!(board.square_size, 50);
    assert_eq!(board.window_size, WindowSize::new(600, 800));
    assert_eq!(board.cell_to_pixel(0, 0), (0, 100));
    assert_eq!(board.cell_to_pixel(2, 3), (150, 200));
    assert_eq!(board.game_state.tiles.len(), TILE_COUNT);
}

#[test]
fn pixels_inside_map_to_cells() {
    let board = Board::new(600, 800);
    assert_eq!(board.pixel_to_cell(0, 100), Some((0, 0)));
    assert_eq!(board.pixel_to_cell(599, 699), Some((11, 11)));
    assert_eq!(board.pixel_to_cell(75, 160), Some((1, 1)));
    assert_eq!(board.get_tile_index(75, 160), Some(13));
    assert!(board.check_if_is_in_boundries(300, 400));
}

#[test]
fn pixels_outside_map_to_none() {
    let board = Board::new(600, 800);
    for (x, y) in [(-1, 100), (10, 99), (600, 100), (10, 700), (i64::MIN, i64::MAX), (i64::MAX, 300)] {
        assert_eq!(board.pixel_to_cell(x, y), None);
        assert_eq!(board.get_tile_index(x, y), None);
        assert!(!board.check_if_is_in_boundries(x, y));
    }
}

#[test]
fn cell_corners_round_trip() {
    let mut board = Board::new(1000, 700);
    board.update_screen_size(1001, 777);
    for row in 0..GRID_SIZE {
        for col in 0..GRID_SIZE {
            let (x, y) = board.cell_to_pixel(row, col);
            assert_eq!(board.pixel_to_cell(x, y), Some((row, col)));
        }
    }
}

#[test]
fn resize_uses_four_fifths_of_the_smaller_side() {
    let mut board = Board::new(600, 800);
    board.update_screen_size(1000, 800);
    assert_eq!(board.square_size, 53);
    assert_eq!(board.window_size, WindowSize::new(1000, 800));
    assert_eq!(board.cell_to_pixel(0, 0), (182, 82));
}

#[test]
fn grid_wider_than_window_rounds_offset_down() {
    let board = Board::new(501, 800);
    assert_eq!(board.cell_to_pixel(0, 0), (-50, 100));
    assert_eq!(board.pixel_to_cell(-50, 100), Some((0, 0)));
    assert_eq!(board.pixel_to_cell(-51, 100), None);
}

#[test]
fn tiny_window_has_no_cells() {
    let mut board = Board::new(600, 800);
    board.update_screen_size(10, 10);
    assert_eq!(board.square_size, 0);
    assert_eq!(board.pixel_to_cell(5, 5), None);
}

#[test]
fn tile_lookup_by_row_and_column() {
    let mut board = Board::new(600, 800);
    board.add_unit(1, 2, Unit { id: 7, move_range: 2 });
    let tile = board.get_tile_by_index(1, 2).unwrap();
    assert_eq!(tile.tile_type, TileType::MyUnit);
    assert_eq!(tile.get_unit(), Some(&Unit { id: 7, move_range: 2 }));
    assert_eq!(board.get_tile_by_index(12, 0), None);
    assert_eq!(board.get_tile_by_index(0, 12), None);
}

#[test]
fn unit_ids_stay_unique_on_placement() {
    let mut board = Board::new(600, 800);
    assert!(board.can_add_unit(0, 0, 3));
    board.add_unit(0, 0, Unit { id: 3, move_range: 1 });
    assert!(board.can_add_unit(0, 0, 3));
    assert!(!board.can_add_unit(4, 4, 3));
    assert!(board.can_add_unit(4, 4, 5));
    assert!(!board.can_add_unit(12, 0, 5));
}
