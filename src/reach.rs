use vstd::prelude::*;
use crate::tile::{GRID_SIZE, TILE_COUNT, Tile, row_of, col_of, chebyshev};

verus! {

/// A cell index is determined by its row and column.
pub proof fn lemma_cell_parts(i: int)
    requires
        0 <= i < TILE_COUNT,
    ensures
        0 <= row_of(i) < GRID_SIZE,
        0 <= col_of(i) < GRID_SIZE,
        i == row_of(i) * GRID_SIZE + col_of(i),
{
    assert(i == row_of(i) * 12 + col_of(i)) by (nonlinear_arith)
        requires row_of(i) == i / 12, col_of(i) == i % 12;
}

/// The cell at a given row and column.
pub proof fn lemma_cell_of(r: int, c: int)
    requires
        0 <= r < GRID_SIZE,
        0 <= c < GRID_SIZE,
    ensures
        0 <= r * GRID_SIZE + c < TILE_COUNT,
        row_of(r * GRID_SIZE + c) == r,
        col_of(r * GRID_SIZE + c) == c,
{
    vstd::arithmetic::div_mod::lemma_fundamental_div_mod_converse(r * 12 + c, 12, r, c);
}

proof fn lemma_cheb_zero(a: int, b: int)
    requires
        0 <= a < TILE_COUNT,
        0 <= b < TILE_COUNT,
        chebyshev(a, b) <= 0,
    ensures
        a == b,
{
    lemma_cell_parts(a);
    lemma_cell_parts(b);
}

proof fn lemma_cheb_zero_iff(a: int, b: int)
    requires
        0 <= a < TILE_COUNT,
        0 <= b < TILE_COUNT,
        a != b,
    ensures
        chebyshev(a, b) >= 1,
{
    if chebyshev(a, b) <= 0 {
        lemma_cheb_zero(a, b);
    }
}

proof fn lemma_cheb_triangle(a: int, b: int, c: int)
    ensures
        chebyshev(a, c) <= chebyshev(a, b) + chebyshev(b, c),
{
}

proof fn lemma_cheb_bound(a: int, b: int)
    requires
        0 <= a < TILE_COUNT,
        0 <= b < TILE_COUNT,
    ensures
        chebyshev(a, b) < GRID_SIZE,
{
    lemma_cell_parts(a);
    lemma_cell_parts(b);
}

/// A cell at distance `d >= 1` from `o` has a king-move neighbour at
/// distance `d - 1`.
proof fn lemma_step_toward(c: int, o: int) -> (p: int)
    requires
        0 <= c < TILE_COUNT,
        0 <= o < TILE_COUNT,
        chebyshev(c, o) >= 1,
    ensures
        0 <= p < TILE_COUNT,
        chebyshev(p, o) == chebyshev(c, o) - 1,
        chebyshev(c, p) == 1,
{
    lemma_cell_parts(c);
    lemma_cell_parts(o);
    let (rc, cc, ro, co) = (row_of(c), col_of(c), row_of(o), col_of(o));
    let pr = if rc > ro { rc - 1 } else if rc < ro { rc + 1 } else { rc };
    let pc = if cc > co { cc - 1 } else if cc < co { cc + 1 } else { cc };
    lemma_cell_of(pr, pc);
    pr * GRID_SIZE + pc
}

/// Row step of the direction `dir`. The eight directions are numbered in
/// reading order: 0 to 2 the row above (left to right), 3 left, 4 right, and
/// 5 to 7 the row below.
pub open spec fn dir_row(dir: int) -> int {
    if dir < 3 {
        -1
    } else if dir < 5 {
        0
    } else {
        1
    }
}

/// Column step of the direction `dir`.
pub open spec fn dir_col(dir: int) -> int {
    if dir == 0 || dir == 3 || dir == 5 {
        -1
    } else if dir == 1 || dir == 6 {
        0
    } else {
        1
    }
}

/// The cell one step from `index` in direction `dir`, if it lies on the board.
pub open spec fn neighbor_cell(index: int, dir: int) -> Option<int> {
    let r = row_of(index) + dir_row(dir);
    let c = col_of(index) + dir_col(dir);
    if 0 <= r < GRID_SIZE && 0 <= c < GRID_SIZE {
        Some(r * GRID_SIZE + c)
    } else {
        None
    }
}

/// Every king-move neighbour on the board is reached by one of the eight
/// directions.
proof fn lemma_neighbor_direction(p: int, c: int) -> (dir: int)
    requires
        0 <= p < TILE_COUNT,
        0 <= c < TILE_COUNT,
        chebyshev(c, p) == 1,
    ensures
        0 <= dir < 8,
        neighbor_cell(p, dir) == Some(c),
{
    lemma_cell_parts(p);
    lemma_cell_parts(c);
    let dr = row_of(c) - row_of(p);
    let dc = col_of(c) - col_of(p);
    let dir = if dr == -1 {
        dc + 1
    } else if dr == 0 {
        if dc == -1 { 3 } else { 4 }
    } else {
        dc + 6
    };
    dir
}

/// The neighbour of `index` in direction `dir`; `None` past an edge of the
/// board, so that no step wraps around to the opposite side.
pub fn neighbor(index: usize, dir: usize) -> (r: Option<usize>)
    requires
        index < TILE_COUNT,
        dir < 8,
    ensures
        r matches Some(c) ==> neighbor_cell(index as int, dir as int) == Some(c as int),
        r is None ==> neighbor_cell(index as int, dir as int) is None,
        r matches Some(c) ==> c < TILE_COUNT && chebyshev(c as int, index as int) == 1,
{
    proof {
        lemma_cell_parts(index as int);
    }
    let row = index / GRID_SIZE;
    let col = index % GRID_SIZE;
    let r_ok = if dir < 3 { row > 0 } else if dir < 5 { true } else { row + 1 < GRID_SIZE };
    let left = dir == 0 || dir == 3 || dir == 5;
    let middle = dir == 1 || dir == 6;
    let c_ok = if left { col > 0 } else if middle { true } else { col + 1 < GRID_SIZE };
    if !(r_ok && c_ok) {
        return None;
    }
    let nr = if dir < 3 { row - 1 } else if dir < 5 { row } else { row + 1 };
    let nc = if left { col - 1 } else if middle { col } else { col + 1 };
    proof {
        lemma_cell_of(nr as int, nc as int);
    }
    Some(nr * GRID_SIZE + nc)
}

/// Cells within `move_range` king moves of `origin`, as a mask over the
/// board, found by expanding a frontier one ring at a time.
pub fn reachable_mask(origin: usize, move_range: usize) -> (mask: Vec<bool>)
    requires
        origin < TILE_COUNT,
    ensures
        mask@.len() == TILE_COUNT,
        forall|c: int|
            0 <= c < TILE_COUNT ==> #[trigger] mask@[c] == (chebyshev(c, origin as int)
                <= move_range),
{
    let ghost o = origin as int;
    let mut visited: Vec<bool> = Vec::new();
    let mut i: usize = 0;
    while i < TILE_COUNT
        invariant
            o == origin,
            i <= TILE_COUNT,
            visited@.len() == i,
            forall|c: int| 0 <= c < i ==> #[trigger] visited@[c] == (c == o),
        decreases TILE_COUNT - i,
    {
        visited.push(i == origin);
        i = i + 1;
    }
    proof {
        assert forall|c: int| 0 <= c < TILE_COUNT implies #[trigger] visited@[c] == (chebyshev(c, o)
            <= 0) by {
            if chebyshev(c, o) <= 0 {
                lemma_cheb_zero(c, o);
            }
        }
    }
    let mut frontier: Vec<usize> = Vec::new();
    frontier.push(origin);
    proof {
        assert forall|c: int| 0 <= c < TILE_COUNT && chebyshev(c, o) == 0 implies #[trigger] frontier@.contains(
            c as usize,
        ) by {
            lemma_cheb_zero(c, o);
            assert(frontier@[0] == c);
        }
    }
    let mut step: usize = 0;
    while step < move_range && step < GRID_SIZE
        invariant
            o == origin,
            origin < TILE_COUNT,
            step <= GRID_SIZE,
            step <= move_range,
            visited@.len() == TILE_COUNT,
            forall|c: int|
                0 <= c < TILE_COUNT ==> #[trigger] visited@[c] == (chebyshev(c, o) <= step),
            forall|k: int|
                0 <= k < frontier@.len() ==> #[trigger] frontier@[k] < TILE_COUNT && chebyshev(
                    frontier@[k] as int,
                    o,
                ) == step,
            forall|c: int|
                0 <= c < TILE_COUNT && chebyshev(c, o) == step ==> #[trigger] frontier@.contains(
                    c as usize,
                ),
        decreases GRID_SIZE - step,
    {
        let mut next: Vec<usize> = Vec::new();
        let mut j: usize = 0;
        while j < frontier.len()
            invariant
                o == origin,
                origin < TILE_COUNT,
                step < GRID_SIZE,
                j <= frontier@.len(),
                visited@.len() == TILE_COUNT,
                forall|k: int|
                    0 <= k < frontier@.len() ==> #[trigger] frontier@[k] < TILE_COUNT && chebyshev(
                        frontier@[k] as int,
                        o,
                    ) == step,
                forall|c: int|
                    0 <= c < TILE_COUNT ==> #[trigger] visited@[c] == (chebyshev(c, o) <= step
                        || next@.contains(c as usize)),
                forall|k: int|
                    0 <= k < next@.len() ==> #[trigger] next@[k] < TILE_COUNT && chebyshev(
                        next@[k] as int,
                        o,
                    ) == step + 1,
                forall|k: int, c: int|
                    0 <= k < j && 0 <= c < TILE_COUNT && #[trigger] chebyshev(
                        c,
                        frontier@[k] as int,
                    ) == 1 ==> visited@[c],
            decreases frontier@.len() - j,
        {
            let p = frontier[j];
            let mut dir: usize = 0;
            while dir < 8
                invariant
                    o == origin,
                    origin < TILE_COUNT,
                    step < GRID_SIZE,
                    j < frontier@.len(),
                    p == frontier@[j as int],
                    p < TILE_COUNT,
                    chebyshev(p as int, o) == step,
                    dir <= 8,
                    visited@.len() == TILE_COUNT,
                    forall|c: int|
                        0 <= c < TILE_COUNT ==> #[trigger] visited@[c] == (chebyshev(c, o) <= step
                            || next@.contains(c as usize)),
                    forall|k: int|
                        0 <= k < next@.len() ==> #[trigger] next@[k] < TILE_COUNT && chebyshev(
                            next@[k] as int,
                            o,
                        ) == step + 1,
                    forall|k: int, c: int|
                        0 <= k < j && 0 <= c < TILE_COUNT && #[trigger] chebyshev(
                            c,
                            frontier@[k] as int,
                        ) == 1 ==> visited@[c],
                    forall|d: int|
                        0 <= d < dir ==> (#[trigger] neighbor_cell(p as int, d) matches Some(c)
                            ==> 0 <= c < TILE_COUNT && visited@[c]),
                decreases 8 - dir,
            {
                if let Some(c) = neighbor(p, dir) {
                    if !visited[c] {
                        proof {
                            lemma_cheb_triangle(c as int, p as int, o);
                        }
                        let ghost old_next = next@;
                        visited.set(c, true);
                        next.push(c);
                        proof {
                            assert forall|x: int| 0 <= x < TILE_COUNT implies #[trigger] visited@[x] == (
                            chebyshev(x, o) <= step || next@.contains(x as usize)) by {
                                if x != c {
                                    if old_next.contains(x as usize) {
                                        let w = choose|w: int| 0 <= w < old_next.len() && old_next[w] == x as usize;
                                        assert(next@[w] == x as usize);
                                    }
                                } else {
                                    assert(next@[next@.len() - 1] == c);
                                }
                            }
                        }
                    }
                }
                dir = dir + 1;
            }
            proof {
                assert forall|k: int, c: int|
                    0 <= k < j + 1 && 0 <= c < TILE_COUNT && #[trigger] chebyshev(
                        c,
                        frontier@[k] as int,
                    ) == 1 implies visited@[c] by {
                    if k == j {
                        let d = lemma_neighbor_direction(p as int, c);
                        assert(neighbor_cell(p as int, d) == Some(c));
                    }
                }
            }
            j = j + 1;
        }
        proof {
            assert forall|c: int| 0 <= c < TILE_COUNT implies #[trigger] visited@[c] == (chebyshev(c, o)
                <= step + 1) by {
                if chebyshev(c, o) == step + 1 {
                    let p = lemma_step_toward(c, o);
                    assert(frontier@.contains(p as usize));
                    let k = choose|k: int| 0 <= k < frontier@.len() && frontier@[k] == p as usize;
                    assert(chebyshev(c, frontier@[k] as int) == 1);
                }
                if next@.contains(c as usize) {
                    let k = choose|k: int| 0 <= k < next@.len() && next@[k] == c as usize;
                    assert(chebyshev(next@[k] as int, o) == step + 1);
                }
            }
            assert forall|c: int| 0 <= c < TILE_COUNT && chebyshev(c, o) == step + 1 implies #[trigger] next@.contains(
                c as usize,
            ) by {
                assert(visited@[c]);
            }
        }
        frontier = next;
        step = step + 1;
    }
    proof {
        assert forall|c: int| 0 <= c < TILE_COUNT implies #[trigger] visited@[c] == (chebyshev(c, o)
            <= move_range) by {
            lemma_cheb_bound(c, o);
        }
    }
    visited
}

/// Cells that a unit at `origin` can reach in `move_range` king moves,
/// other than `origin` itself.
pub open spec fn in_ring(c: int, origin: int, move_range: int) -> bool {
    1 <= chebyshev(c, origin) <= move_range
}

/// Lights every tile reachable from `tile_index` within `move_range` king
/// moves (not the origin itself), leaving everything else as it was.
pub fn back_light_tiles(move_range: usize, tile_index: usize, tiles: &mut Vec<Tile>)
    requires
        old(tiles)@.len() == TILE_COUNT,
        tile_index < TILE_COUNT,
    ensures
        final(tiles)@.len() == TILE_COUNT,
        forall|c: int|
            0 <= c < TILE_COUNT ==> #[trigger] final(tiles)@[c] == (Tile {
                back_light: old(tiles)@[c].back_light || in_ring(c, tile_index as int, move_range as int),
                ..old(tiles)@[c]
            }),
{
    let mask = reachable_mask(tile_index, move_range);
    let ghost before = tiles@;
    let mut c: usize = 0;
    while c < TILE_COUNT
        invariant
            c <= TILE_COUNT,
            tile_index < TILE_COUNT,
            before.len() == TILE_COUNT,
            tiles@.len() == TILE_COUNT,
            mask@.len() == TILE_COUNT,
            forall|x: int|
                0 <= x < TILE_COUNT ==> #[trigger] mask@[x] == (chebyshev(x, tile_index as int)
                    <= move_range),
            forall|x: int|
                0 <= x < c ==> #[trigger] tiles@[x] == (Tile {
                    back_light: before[x].back_light || in_ring(x, tile_index as int, move_range as int),
                    ..before[x]
                }),
            forall|x: int| c <= x < TILE_COUNT ==> #[trigger] tiles@[x] == before[x],
        decreases TILE_COUNT - c,
    {
        if mask[c] && c != tile_index {
            let mut t = tiles[c];
            t.back_light = true;
            tiles.set(c, t);
        }
        proof {
            if c != tile_index {
                lemma_cheb_zero_iff(c as int, tile_index as int);
            } else {
                assert(chebyshev(c as int, c as int) == 0);
            }
        }
        c = c + 1;
    }
}

} // verus!
