use vstd::prelude::*;

verus! {

/// Number of cells on one side of the square board.
pub const GRID_SIZE: usize = 12;

/// Number of cells on the board.
pub const TILE_COUNT: usize = 144;

/// Row of the cell with the given index.
pub open spec fn row_of(i: int) -> int {
    i / GRID_SIZE as int
}

/// Column of the cell with the given index.
pub open spec fn col_of(i: int) -> int {
    i % GRID_SIZE as int
}

pub open spec fn abs_diff(a: int, b: int) -> int {
    if a >= b {
        a - b
    } else {
        b - a
    }
}

/// Number of king moves (8-directional steps) between two cells.
pub open spec fn chebyshev(a: int, b: int) -> int {
    let dr = abs_diff(row_of(a), row_of(b));
    let dc = abs_diff(col_of(a), col_of(b));
    if dr >= dc {
        dr
    } else {
        dc
    }
}

#[derive(Clone, Copy, Debug, PartialEq, Eq, Structural)]
pub struct Unit {
    pub id: usize,
    pub move_range: usize,
}

#[derive(Clone, Copy, Debug, PartialEq, Eq, Hash, Structural)]
pub enum TileType {
    Empty,
    Obstacle,
    SpawnPoint,
    MyUnit,
    EnemyUnit,
}

/// The kinds of tile that carry a unit.
pub open spec fn is_unit_kind(k: TileType) -> bool {
    k == TileType::MyUnit || k == TileType::EnemyUnit
}

#[derive(Clone, Copy, Debug, PartialEq, Eq, Structural)]
pub struct Tile {
    pub tile_type: TileType,
    pub back_light: bool,
    pub unit: Option<Unit>,
}

impl Tile {
    /// A tile holds a unit exactly when its kind is a unit kind.
    pub open spec fn wf(&self) -> bool {
        is_unit_kind(self.tile_type) <==> self.unit.is_some()
    }

    pub fn new(tile_type: TileType) -> (t: Tile)
        ensures
            t.tile_type == tile_type,
            !t.back_light,
            t.unit.is_none(),
    {
        Tile { tile_type, back_light: false, unit: None }
    }

    pub fn set_unit(&mut self, unit: Unit, tile_type: TileType)
        ensures
            final(self).unit == Some(unit),
            final(self).tile_type == tile_type,
            final(self).back_light == old(self).back_light,
    {
        self.unit = Some(unit);
        self.tile_type = tile_type;
    }

    pub fn get_unit(&self) -> (r: Option<&Unit>)
        ensures
            r matches Some(u) ==> self.unit == Some(*u),
            r is None <==> self.unit is None,
    {
        self.unit.as_ref()
    }
}

/// The shared board contents: one tile per cell, addressed by
/// `row * GRID_SIZE + col`.
pub struct GameState {
    pub tiles: Vec<Tile>,
}

/// Every tile is consistent and no unit id appears on two tiles.
pub open spec fn tiles_wf(tiles: Seq<Tile>) -> bool {
    &&& tiles.len() == TILE_COUNT
    &&& forall|i: int| 0 <= i < tiles.len() ==> (#[trigger] tiles[i]).wf()
    &&& forall|i: int, j: int|
        0 <= i < tiles.len() && 0 <= j < tiles.len() && i != j && (#[trigger] tiles[i]).unit is Some
            && (#[trigger] tiles[j]).unit is Some ==> tiles[i].unit->0.id != tiles[j].unit->0.id
}

impl GameState {
    pub open spec fn wf(&self) -> bool {
        tiles_wf(self.tiles@)
    }

    /// A board of empty, unlit tiles.
    pub fn new() -> (g: GameState)
        ensures
            g.wf(),
            forall|i: int| 0 <= i < TILE_COUNT ==> #[trigger] g.tiles@[i] == Tile::blank(),
    {
        let mut tiles: Vec<Tile> = Vec::new();
        let mut i: usize = 0;
        while i < TILE_COUNT
            invariant
                i <= TILE_COUNT,
                tiles@.len() == i,
                forall|j: int| 0 <= j < i ==> #[trigger] tiles@[j] == Tile::blank(),
            decreases TILE_COUNT - i,
        {
            tiles.push(Tile::new(TileType::Empty));
            i = i + 1;
        }
        GameState { tiles }
    }
}

impl Tile {
    pub open spec fn blank() -> Tile {
        Tile { tile_type: TileType::Empty, back_light: false, unit: None }
    }
}

} // verus!
