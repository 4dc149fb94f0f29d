use vstd::prelude::*;
use crate::tile::{GRID_SIZE, TILE_COUNT, Tile, TileType, Unit, GameState, tiles_wf, chebyshev};
use crate::reach::back_light_tiles;
use crate::game_event::{GuiEvent, GuiMessage};
use crate::codec::{CodecError, message_from};

verus! {

/// The size of the window the board is drawn in, in whole pixels.
#[derive(Clone, Copy, Debug, PartialEq, Eq, Structural)]
pub struct WindowSize {
    pub screen_width: u32,
    pub screen_height: u32,
}

impl WindowSize {
    pub fn new(screen_width: u32, screen_height: u32) -> (w: WindowSize)
        ensures
            w.screen_width == screen_width,
            w.screen_height == screen_height,
    {
        WindowSize { screen_width, screen_height }
    }
}

/// The board as drawn: its window, the side of one square in pixels, and the
/// grid of tiles. The grid is centred in the window.
pub struct Board {
    pub window_size: WindowSize,
    pub square_size: u32,
    pub game_state: GameState,
}

/// `t` with its highlight switched off.
pub open spec fn unlit(t: Tile) -> Tile {
    Tile { back_light: false, ..t }
}

/// Whether `t` holds the unit with the given id.
pub open spec fn holds_unit(t: Tile, id: usize) -> bool {
    t.unit matches Some(u) && u.id == id
}

pub open spec fn unit_present(tiles: Seq<Tile>, id: usize) -> bool {
    exists|s: int| 0 <= s < tiles.len() && holds_unit(#[trigger] tiles[s], id)
}

/// The cell holding the unit with the given id (meaningful when it is present).
pub open spec fn unit_position(tiles: Seq<Tile>, id: usize) -> int {
    choose|s: int| 0 <= s < tiles.len() && holds_unit(#[trigger] tiles[s], id)
}

/// Whether the unit with the given id can be relocated to `dest`: it is on
/// the board, and `dest` is a cell that is empty or is where the unit stands.
pub open spec fn can_move(tiles: Seq<Tile>, dest: int, id: usize) -> bool {
    &&& unit_present(tiles, id)
    &&& 0 <= dest < tiles.len()
    &&& (dest == unit_position(tiles, id) || tiles[dest].tile_type == TileType::Empty)
}

/// The grid after the occupant of `src` and its kind have moved to `dest`,
/// leaving `src` empty.
pub open spec fn moved(tiles: Seq<Tile>, src: int, dest: int) -> Seq<Tile> {
    tiles.update(src, Tile { tile_type: TileType::Empty, unit: None, ..tiles[src] }).update(
        dest,
        Tile { tile_type: tiles[src].tile_type, unit: tiles[src].unit, ..tiles[dest] },
    )
}

/// The grid after a move request for unit `id` to `dest`.
pub open spec fn move_result(tiles: Seq<Tile>, dest: int, id: usize) -> Seq<Tile> {
    if can_move(tiles, dest, id) {
        moved(tiles, unit_position(tiles, id), dest)
    } else {
        tiles
    }
}

/// Whether cell `c` is lit after the tile at `index` has been selected: the
/// tile itself and, if it holds a unit, every cell within the unit's range.
pub open spec fn lit_after_select(tiles: Seq<Tile>, index: int, c: int) -> bool {
    &&& 0 <= index < tiles.len()
    &&& (c == index || (tiles[index].unit matches Some(u) && chebyshev(c, index) <= u.move_range))
}

/// The grid after the render side has applied a feedback message.
pub open spec fn applied(tiles: Seq<Tile>, m: GuiMessage) -> Seq<Tile> {
    match m {
        GuiMessage::BackLightTile { index } => Seq::new(
            tiles.len(),
            |c: int| Tile { back_light: lit_after_select(tiles, index as int, c), ..tiles[c] },
        ),
        GuiMessage::MoveUnit { index, unit_id } => move_result(
            tiles.map_values(|t: Tile| unlit(t)),
            index as int,
            unit_id,
        ),
    }
}

impl Board {
    /// Side of the whole grid in pixels.
    pub open spec fn extent(&self) -> int {
        GRID_SIZE * self.square_size
    }

    /// Left edge of the grid; the grid is centred, rounding down.
    pub open spec fn offset_x(&self) -> int {
        (self.window_size.screen_width - self.extent()) / 2
    }

    /// Top edge of the grid.
    pub open spec fn offset_y(&self) -> int {
        (self.window_size.screen_height - self.extent()) / 2
    }

    /// Whether the pixel lies on the grid (left and top edges included,
    /// right and bottom edges excluded).
    pub open spec fn in_bounds(&self, x: int, y: int) -> bool {
        &&& self.offset_x() <= x < self.offset_x() + self.extent()
        &&& self.offset_y() <= y < self.offset_y() + self.extent()
    }

    /// The (row, column) of the square under a pixel, if any.
    pub open spec fn cell_at(&self, x: int, y: int) -> Option<(int, int)> {
        if self.in_bounds(x, y) {
            Some(((y - self.offset_y()) / self.square_size as int, (x - self.offset_x()) / self.square_size as int))
        } else {
            None
        }
    }

    /// Index of the tile under a pixel, if any.
    pub open spec fn tile_index_at(&self, x: int, y: int) -> Option<int> {
        match self.cell_at(x, y) {
            Some((row, col)) => Some(row * GRID_SIZE + col),
            None => None,
        }
    }

    /// Top left pixel of the square at (row, column).
    pub open spec fn cell_corner(&self, row: int, col: int) -> (int, int) {
        (self.offset_x() + col * self.square_size, self.offset_y() + row * self.square_size)
    }

    pub open spec fn wf(&self) -> bool {
        self.game_state.wf()
    }

    /// A board of empty tiles in a window of the given size, with squares of
    /// fifty pixels.
    pub fn new(width: u32, height: u32) -> (b: Board)
        ensures
            b.wf(),
            b.window_size == (WindowSize { screen_width: width, screen_height: height }),
            b.square_size == 50,
            forall|i: int| 0 <= i < TILE_COUNT ==> #[trigger] b.game_state.tiles@[i] == Tile::blank(),
    {
        Board {
            window_size: WindowSize::new(width, height),
            square_size: 50,
            game_state: GameState::new(),
        }
    }

    fn calculate_grid_size(&self) -> (r: i64)
        ensures
            r == self.extent(),
    {
        assert(GRID_SIZE * self.square_size <= GRID_SIZE * u32::MAX) by (nonlinear_arith)
            requires self.square_size <= u32::MAX;
        GRID_SIZE as i64 * self.square_size as i64
    }

    /// Half of `total - extent`, rounded down.
    fn centre(total: u32, extent: i64) -> (r: i64)
        requires
            0 <= extent <= GRID_SIZE * u32::MAX,
        ensures
            r == (total - extent) / 2,
    {
        let d: i64 = total as i64 - extent;
        if d >= 0 {
            d / 2
        } else {
            -((-d + 1) / 2)
        }
    }

    fn calculate_offset(&self, grid_size: i64) -> (r: (i64, i64))
        requires
            grid_size == self.extent(),
        ensures
            r.0 == self.offset_x(),
            r.1 == self.offset_y(),
    {
        (
            Self::centre(self.window_size.screen_width, grid_size),
            Self::centre(self.window_size.screen_height, grid_size),
        )
    }

    pub fn check_if_is_in_boundries(&self, x: i64, y: i64) -> (r: bool)
        ensures
            r == self.in_bounds(x as int, y as int),
    {
        let grid_size = self.calculate_grid_size();
        let (offset_x, offset_y) = self.calculate_offset(grid_size);
        offset_x <= x && x < offset_x + grid_size && offset_y <= y && y < offset_y + grid_size
    }

    /// The (row, column) of the square under a pixel; `None` off the grid.
    pub fn pixel_to_cell(&self, x: i64, y: i64) -> (r: Option<(usize, usize)>)
        ensures
            r is None <==> !self.in_bounds(x as int, y as int),
            r matches Some((row, col)) ==> row < GRID_SIZE && col < GRID_SIZE && self.cell_at(
                x as int,
                y as int,
            ) == Some((row as int, col as int)),
    {
        let grid_size = self.calculate_grid_size();
        let (offset_x, offset_y) = self.calculate_offset(grid_size);
        if !(offset_x <= x && x < offset_x + grid_size && offset_y <= y && y < offset_y + grid_size) {
            return None;
        }
        let s = self.square_size as u64;
        let dx = (x - offset_x) as u64;
        let dy = (y - offset_y) as u64;
        proof {
            vstd::arithmetic::div_mod::lemma_multiply_divide_lt(dx as int, s as int, GRID_SIZE as int);
            vstd::arithmetic::div_mod::lemma_multiply_divide_lt(dy as int, s as int, GRID_SIZE as int);
            vstd::arithmetic::div_mod::lemma_div_pos_is_pos(dx as int, s as int);
            vstd::arithmetic::div_mod::lemma_div_pos_is_pos(dy as int, s as int);
        }
        let col = (dx / s) as usize;
        let row = (dy / s) as usize;
        Some((row, col))
    }

    /// Index of the tile under a pixel; `None` off the grid.
    pub fn get_tile_index(&self, x: i64, y: i64) -> (r: Option<usize>)
        ensures
            r is None <==> !self.in_bounds(x as int, y as int),
            r is None ==> self.tile_index_at(x as int, y as int) is None,
            r matches Some(i) ==> i < TILE_COUNT && self.tile_index_at(x as int, y as int) == Some(
                i as int,
            ),
    {
        match self.pixel_to_cell(x, y) {
            Some((row, col)) => Some(row * GRID_SIZE + col),
            None => None,
        }
    }

    /// Top left pixel of the square at (row, column).
    pub fn cell_to_pixel(&self, row: usize, col: usize) -> (r: (i64, i64))
        requires
            row < GRID_SIZE,
            col < GRID_SIZE,
        ensures
            (r.0 as int, r.1 as int) == self.cell_corner(row as int, col as int),
    {
        let grid_size = self.calculate_grid_size();
        let (offset_x, offset_y) = self.calculate_offset(grid_size);
        proof {
            vstd::arithmetic::mul::lemma_mul_inequality(col as int, GRID_SIZE as int, self.square_size as int);
            vstd::arithmetic::mul::lemma_mul_inequality(row as int, GRID_SIZE as int, self.square_size as int);
        }
        let s = self.square_size as i64;
        (offset_x + col as i64 * s, offset_y + row as i64 * s)
    }

    /// The tile at (row, column), if that square is on the board.
    pub fn get_tile_by_index(&self, row: usize, col: usize) -> (r: Option<Tile>)
        requires
            self.wf(),
        ensures
            r is Some <==> row < GRID_SIZE && col < GRID_SIZE,
            r matches Some(t) ==> t == self.game_state.tiles@[row * GRID_SIZE + col],
    {
        if row < GRID_SIZE && col < GRID_SIZE {
            Some(self.game_state.tiles[row * GRID_SIZE + col])
        } else {
            None
        }
    }

    /// Follows a new window size: the grid takes four fifths of the smaller
    /// side.
    pub fn update_screen_size(&mut self, width: u32, height: u32)
        ensures
            final(self).window_size == (WindowSize { screen_width: width, screen_height: height }),
            final(self).square_size == (if width <= height { width } else { height }) * 8 / 10
                / GRID_SIZE as int,
            final(self).game_state == old(self).game_state,
    {
        self.window_size = WindowSize::new(width, height);
        let smaller = if width <= height { width } else { height };
        let target_grid_size = smaller as u64 * 8 / 10;
        self.square_size = (target_grid_size / GRID_SIZE as u64) as u32;
    }

    /// Switches every highlight off and changes nothing else.
    pub fn reset_back_light_all_tiles(&mut self)
        ensures
            final(self).window_size == old(self).window_size,
            final(self).square_size == old(self).square_size,
            final(self).game_state.tiles@ == old(self).game_state.tiles@.map_values(|t: Tile| unlit(t)),
    {
        let ghost before = self.game_state.tiles@;
        let ghost window = self.window_size;
        let ghost square = self.square_size;
        let n = self.game_state.tiles.len();
        let mut i: usize = 0;
        while i < n
            invariant
                self.window_size == window,
                self.square_size == square,
                i <= n,
                n == before.len(),
                self.game_state.tiles@.len() == n,
                forall|j: int| 0 <= j < i ==> #[trigger] self.game_state.tiles@[j] == unlit(before[j]),
                forall|j: int| i <= j < n ==> #[trigger] self.game_state.tiles@[j] == before[j],
            decreases n - i,
        {
            let mut t = self.game_state.tiles[i];
            t.back_light = false;
            self.game_state.tiles.set(i, t);
            i = i + 1;
        }
        assert(self.game_state.tiles@ =~= before.map_values(|t: Tile| unlit(t)));
    }

    /// Whether `add_unit` may place the unit with id `unit_id` at (row,
    /// column): the square is on the board and no other square holds a unit
    /// with that id.
    pub fn can_add_unit(&self, row: usize, col: usize, unit_id: usize) -> (r: bool)
        requires
            self.wf(),
        ensures
            r == (row < GRID_SIZE && col < GRID_SIZE && forall|i: int|
                0 <= i < TILE_COUNT && i != row * GRID_SIZE + col ==> !holds_unit(
                    #[trigger] self.game_state.tiles@[i],
                    unit_id,
                )),
    {
        if row >= GRID_SIZE || col >= GRID_SIZE {
            return false;
        }
        let target = row * GRID_SIZE + col;
        let mut i: usize = 0;
        while i < TILE_COUNT
            invariant
                i <= TILE_COUNT,
                target < TILE_COUNT,
                target == row * GRID_SIZE + col,
                self.wf(),
                forall|j: int| 0 <= j < i && j != target ==> !holds_unit(#[trigger] self.game_state.tiles@[j], unit_id),
            decreases TILE_COUNT - i,
        {
            if i != target {
                let taken = match self.game_state.tiles[i].unit {
                    Some(u) => u.id == unit_id,
                    None => false,
                };
                if taken {
                    return false;
                }
            }
            i = i + 1;
        }
        true
    }

    /// Places a friendly unit on the square at (row, column), replacing what
    /// was there.
    pub fn add_unit(&mut self, row: usize, col: usize, unit: Unit)
        requires
            old(self).wf(),
            row < GRID_SIZE,
            col < GRID_SIZE,
            forall|i: int|
                0 <= i < TILE_COUNT && i != row * GRID_SIZE + col ==> !holds_unit(
                    #[trigger] old(self).game_state.tiles@[i],
                    unit.id,
                ),
        ensures
            final(self).wf(),
            final(self).window_size == old(self).window_size,
            final(self).square_size == old(self).square_size,
            final(self).game_state.tiles@ == old(self).game_state.tiles@.update(
                row * GRID_SIZE + col,
                Tile {
                    tile_type: TileType::MyUnit,
                    unit: Some(unit),
                    ..old(self).game_state.tiles@[row * GRID_SIZE + col]
                },
            ),
    {
        let index = row * GRID_SIZE + col;
        let mut t = self.game_state.tiles[index];
        t.set_unit(unit, TileType::MyUnit);
        self.game_state.tiles.set(index, t);
        proof {
            let tiles = self.game_state.tiles@;
            assert forall|i: int, j: int|
                0 <= i < tiles.len() && 0 <= j < tiles.len() && i != j && (#[trigger] tiles[i]).unit is Some
                    && (#[trigger] tiles[j]).unit is Some implies tiles[i].unit->0.id != tiles[j].unit->0.id by {
                if i == index {
                    assert(!holds_unit(old(self).game_state.tiles@[j], unit.id));
                } else if j == index {
                    assert(!holds_unit(old(self).game_state.tiles@[i], unit.id));
                }
            }
        }
    }

    /// Relocates the unit with the given id to `index`, if it is on the board
    /// and `index` is an empty square (or where the unit already stands). The
    /// unit's square becomes empty; the destination takes its kind and unit.
    pub fn move_unit(&mut self, index: usize, unit_id: usize) -> (r: bool)
        requires
            old(self).wf(),
        ensures
            final(self).wf(),
            r == can_move(old(self).game_state.tiles@, index as int, unit_id),
            final(self).game_state.tiles@ == move_result(old(self).game_state.tiles@, index as int, unit_id),
            final(self).window_size == old(self).window_size,
            final(self).square_size == old(self).square_size,
    {
        let ghost before = self.game_state.tiles@;
        let mut s: usize = 0;
        let mut found = false;
        while s < TILE_COUNT && !found
            invariant
                s <= TILE_COUNT,
                self.game_state.tiles@ == before,
                before.len() == TILE_COUNT,
                found ==> s < TILE_COUNT && holds_unit(before[s as int], unit_id),
                forall|j: int| 0 <= j < s ==> !holds_unit(#[trigger] before[j], unit_id),
            decreases TILE_COUNT - s + (if found { 0int } else { 1int }),
        {
            let t = self.game_state.tiles[s];
            let here = match t.unit {
                Some(u) => u.id == unit_id,
                None => false,
            };
            if here {
                found = true;
            } else {
                s = s + 1;
            }
        }
        if !found {
            assert(!unit_present(before, unit_id));
            return false;
        }
        proof {
            let p = unit_position(before, unit_id);
            assert(holds_unit(before[s as int], unit_id));
            assert(p == s);
        }
        if index >= TILE_COUNT {
            return false;
        }
        let dest = self.game_state.tiles[index];
        if index != s && dest.tile_type != TileType::Empty {
            return false;
        }
        let from = self.game_state.tiles[s];
        let mut emptied = from;
        emptied.tile_type = TileType::Empty;
        emptied.unit = None;
        self.game_state.tiles.set(s, emptied);
        let mut filled = self.game_state.tiles[index];
        filled.tile_type = from.tile_type;
        filled.unit = from.unit;
        self.game_state.tiles.set(index, filled);
        proof {
            let after = self.game_state.tiles@;
            assert(after =~= moved(before, s as int, index as int));
            assert forall|i: int, j: int|
                0 <= i < after.len() && 0 <= j < after.len() && i != j && (#[trigger] after[i]).unit is Some
                    && (#[trigger] after[j]).unit is Some implies after[i].unit->0.id != after[j].unit->0.id by {
                if i == index {
                    assert(before[s as int].unit is Some);
                } else if j == index {
                    assert(before[s as int].unit is Some);
                }
            }
        }
        true
    }

    /// Shows the selection of the tile at `index`: all highlights are
    /// cleared, then the tile and, if it holds a unit, every square within
    /// the unit's move range are lit.
    pub fn apply_back_light(&mut self, index: usize)
        requires
            old(self).wf(),
        ensures
            final(self).wf(),
            final(self).window_size == old(self).window_size,
            final(self).square_size == old(self).square_size,
            final(self).game_state.tiles@.len() == TILE_COUNT,
            forall|c: int|
                0 <= c < TILE_COUNT ==> #[trigger] final(self).game_state.tiles@[c] == (Tile {
                    back_light: lit_after_select(old(self).game_state.tiles@, index as int, c),
                    ..old(self).game_state.tiles@[c]
                }),
    {
        let ghost before = self.game_state.tiles@;
        self.reset_back_light_all_tiles();
        if index < TILE_COUNT {
            let mut t = self.game_state.tiles[index];
            t.back_light = true;
            self.game_state.tiles.set(index, t);
            match t.unit {
                Some(u) => {
                    back_light_tiles(u.move_range, index, &mut self.game_state.tiles);
                    proof {
                        assert forall|c: int| 0 <= c < TILE_COUNT implies #[trigger] self.game_state.tiles@[c] == (Tile {
                            back_light: lit_after_select(before, index as int, c),
                            ..before[c]
                        }) by {
                            if c == index {
                                assert(chebyshev(c, c) == 0);
                            }
                        }
                    }
                },
                None => {},
            }
        }
        proof {
            let after = self.game_state.tiles@;
            assert forall|i: int| 0 <= i < after.len() implies (#[trigger] after[i]).wf() by {
                assert(before[i].wf());
            }
            assert forall|i: int, j: int|
                0 <= i < after.len() && 0 <= j < after.len() && i != j && (#[trigger] after[i]).unit is Some
                    && (#[trigger] after[j]).unit is Some implies after[i].unit->0.id != after[j].unit->0.id by {
                assert(before[i].unit == after[i].unit);
                assert(before[j].unit == after[j].unit);
            }
        }
    }

    /// Applies a move request: all highlights are cleared, then the unit with
    /// the given id is relocated as `move_unit` does.
    pub fn apply_move(&mut self, index: usize, unit_id: usize) -> (r: bool)
        requires
            old(self).wf(),
        ensures
            final(self).wf(),
            final(self).window_size == old(self).window_size,
            final(self).square_size == old(self).square_size,
            r == can_move(old(self).game_state.tiles@, index as int, unit_id),
            final(self).game_state.tiles@ == move_result(
                old(self).game_state.tiles@.map_values(|t: Tile| unlit(t)),
                index as int,
                unit_id,
            ),
    {
        let ghost before = self.game_state.tiles@;
        self.reset_back_light_all_tiles();
        proof {
            let cleared = self.game_state.tiles@;
            assert forall|i: int| 0 <= i < cleared.len() implies (#[trigger] cleared[i]).wf() by {
                assert(before[i].wf());
            }
            assert forall|i: int, j: int|
                0 <= i < cleared.len() && 0 <= j < cleared.len() && i != j && (#[trigger] cleared[i]).unit is Some
                    && (#[trigger] cleared[j]).unit is Some implies cleared[i].unit->0.id != cleared[j].unit->0.id by {
                assert(before[i].unit == cleared[i].unit);
                assert(before[j].unit == cleared[j].unit);
            }
            assert(unit_present(cleared, unit_id) == unit_present(before, unit_id)) by {
                if unit_present(before, unit_id) {
                    let s = choose|s: int| 0 <= s < before.len() && holds_unit(#[trigger] before[s], unit_id);
                    assert(holds_unit(cleared[s], unit_id));
                }
                if unit_present(cleared, unit_id) {
                    let s = choose|s: int| 0 <= s < cleared.len() && holds_unit(#[trigger] cleared[s], unit_id);
                    assert(holds_unit(before[s], unit_id));
                }
            }
            if unit_present(before, unit_id) {
                let p = unit_position(before, unit_id);
                let q = unit_position(cleared, unit_id);
                assert(holds_unit(cleared[p], unit_id));
                assert(holds_unit(before[q], unit_id));
                assert(p == q) by {
                    if p != q {
                        assert(before[p].unit is Some && before[q].unit is Some);
                    }
                }
            }
        }
        self.move_unit(index, unit_id)
    }

    /// Applies a feedback message to the grid.
    pub fn apply_gui_message(&mut self, m: GuiMessage)
        requires
            old(self).wf(),
        ensures
            final(self).wf(),
            final(self).window_size == old(self).window_size,
            final(self).square_size == old(self).square_size,
            final(self).game_state.tiles@ == applied(old(self).game_state.tiles@, m),
    {
        match m {
            GuiMessage::BackLightTile { index } => {
                let ghost before = self.game_state.tiles@;
                self.apply_back_light(index);
                assert(self.game_state.tiles@ =~= applied(before, m));
            },
            GuiMessage::MoveUnit { index, unit_id } => {
                self.apply_move(index, unit_id);
            },
        }
    }

    /// Decodes a feedback event and applies it; a payload that cannot be
    /// decoded leaves the board as it was.
    pub fn apply_gui_event(&mut self, kind: GuiEvent, payload: &Vec<u8>) -> (r: Result<(), CodecError>)
        requires
            old(self).wf(),
        ensures
            final(self).wf(),
            final(self).window_size == old(self).window_size,
            final(self).square_size == old(self).square_size,
            match message_from(kind, payload@) {
                Some(m) => r is Ok && final(self).game_state.tiles@ == applied(old(self).game_state.tiles@, m),
                None => r == Err::<(), CodecError>(CodecError::Decode) && final(self).game_state.tiles@
                    == old(self).game_state.tiles@,
            },
    {
        match GuiMessage::decode(kind, payload) {
            Ok(m) => {
                self.apply_gui_message(m);
                Ok(())
            },
            Err(e) => Err(e),
        }
    }
}

} // verus!
