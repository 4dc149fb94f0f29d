use grid_tactics::reach::{back_light_tiles, neighbor, reachable_mask};
use grid_tactics::tile::{GameState, TILE_COUNT};

fn lit(tiles: &[grid_tactics::tile::Tile]) -> Vec<usize> {
    (0..tiles.len()).filter(|&i| tiles[i].back_light).collect()
}

#[test]
fn corner_with_range_one_lights_three_neighbours() {
    let mut game_state = GameState::new();
    back_light_tiles(1, 0, &mut game_state.tiles);
    assert_eq!(lit(&game_state.tiles), vec![1, 12, 13]);
}

#[test]
fn right_edge_does_not_wrap() {
    let mut game_state = GameState::new();
    back_light_tiles(1, 11, &mut game_state.tiles);
    assert_eq!(lit(&game_state.tiles), vec![10, 22, 23]);
    let mut game_state = GameState::new();
    back_light_tiles(1, 12, &mut game_state.tiles);
    assert_eq!(lit(&game_state.tiles), vec![0, 1, 13, 24, 25]);
}

#[test]
fn range_two_lights_the_square_ring() {
    let mut game_state = GameState::new();
    back_light_tiles(2, 65, &mut game_state.tiles);
    let expected: Vec<usize> = (3..8)
        .flat_map(|r| (3..8).map(move |c| r * 12 + c))
        .filter(|&i| i != 65)
        .collect();
    assert_eq!(lit(&game_state.tiles), expected);
}

#[test]
fn range_zero_lights_nothing() {
    let mut game_state = GameState::new();
    back_light_tiles(0, 40, &mut game_state.tiles);
    assert!(lit(&game_state.tiles).is_empty());
}

#[test]
fn huge_range_lights_everything_but_the_origin() {
    let mut game_state = GameState::new();
    back_light_tiles(usize::MAX, 0, &mut game_state.tiles);
    assert_eq!(lit(&game_state.tiles), (1..TILE_COUNT).collect::<Vec<_>>());
}

#[test]
fn mask_includes_origin() {
    let mask = reachable_mask(143, 1);
    let cells: Vec<usize> = (0..TILE_COUNT).filter(|&i| mask[i]).collect();
    assert_eq!(cells, vec![130, 131, 142, 143]);
}

#[test]
fn neighbours_stop_at_edges() {
    assert_eq!(neighbor(12, 0), None);
    assert_eq!(neighbor(12, 3), None);
    assert_eq!(neighbor(12, 4), Some(13));
    assert_eq!(neighbor(12, 1), Some(0));
    assert_eq!(neighbor(0, 1), None);
    assert_eq!(neighbor(143, 7), None);
    assert_eq!(neighbor(143, 0), Some(130));
    let all: Vec<Option<usize>> = (0..8).map(|d| neighbor(65, d)).collect();
    assert_eq!(
        all,
        vec![Some(52), Some(53), Some(54), Some(64), Some(66), Some(76), Some(77), Some(78)]
    );
}
