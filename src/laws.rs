use vstd::prelude::*;
use crate::tile::{GRID_SIZE, TILE_COUNT, Tile, TileType, tiles_wf};
use crate::board::{Board, applied, holds_unit, unit_position, unlit, moved};
use crate::game_event::GuiMessage;
use crate::event_loop::{Registration, handlers_for, lemma_matching_positions_prefix};
use crate::handlers::{Selection, click_outcome};

verus! {

/// The top left pixel of any square lies in that same square.
pub proof fn lemma_cell_pixel_round_trip(board: Board, row: int, col: int)
    requires
        0 <= row < GRID_SIZE,
        0 <= col < GRID_SIZE,
        board.square_size > 0,
    ensures
        ({
            let (x, y) = board.cell_corner(row, col);
            board.cell_at(x, y) == Some((row, col))
        }),
{
    let s = board.square_size as int;
    vstd::arithmetic::mul::lemma_mul_strict_inequality(col, GRID_SIZE as int, s);
    vstd::arithmetic::mul::lemma_mul_strict_inequality(row, GRID_SIZE as int, s);
    vstd::arithmetic::mul::lemma_mul_nonnegative(col, s);
    vstd::arithmetic::mul::lemma_mul_nonnegative(row, s);
    vstd::arithmetic::div_mod::lemma_div_multiples_vanish(col, s);
    vstd::arithmetic::div_mod::lemma_div_multiples_vanish(row, s);
    assert(col * s == s * col) by (nonlinear_arith);
    assert(row * s == s * row) by (nonlinear_arith);
}

/// Two handlers registered for one kind both run when an event of that kind
/// is delivered, after the handlers registered before them and in the order
/// they were registered.
pub proof fn lemma_two_handlers_in_order<H>(regs: Seq<Registration<H>>, r1: Registration<H>, r2: Registration<H>)
    requires
        r1.event == r2.event,
        regs.len() + 2 <= usize::MAX,
    ensures
        handlers_for(regs.push(r1).push(r2), r1.event) == handlers_for(regs, r1.event).push(
            regs.len() as usize,
        ).push((regs.len() + 1) as usize),
{
    let longer = regs.push(r1).push(r2);
    let n = regs.len();
    lemma_matching_positions_prefix(regs, longer, r1.event, n);
    assert(longer[n as int] == r1);
    assert(longer[n + 1int] == r2);
    assert(crate::event_loop::matching_positions(longer, r1.event, (n + 1) as nat) == crate::event_loop::matching_positions(
        longer,
        r1.event,
        n,
    ).push(n as usize));
}

/// Selecting a friendly unit on tile `a` and then clicking the empty tile
/// `b`, with the feedback of each click applied in turn, leaves the unit on
/// `b`, `a` empty, and no tile lit; nothing else changes.
pub proof fn lemma_select_then_move(tiles: Seq<Tile>, sel: Selection, a: int, b: int)
    requires
        tiles_wf(tiles),
        0 <= a < TILE_COUNT,
        0 <= b < TILE_COUNT,
        tiles[a].tile_type == TileType::MyUnit,
        tiles[b].tile_type == TileType::Empty,
    ensures
        ({
            let (sel1, r1) = click_outcome(sel, tiles, Some(a));
            let tiles1 = applied(tiles, r1->Ok_0->Some_0);
            let (sel2, r2) = click_outcome(sel1, tiles1, Some(b));
            let tiles2 = applied(tiles1, r2->Ok_0->Some_0);
            &&& r1 == Ok::<Option<GuiMessage>, crate::move_unit::MoveError>(
                Some(GuiMessage::BackLightTile { index: a as usize }),
            )
            &&& r2 == Ok::<Option<GuiMessage>, crate::move_unit::MoveError>(
                Some(GuiMessage::MoveUnit { index: b as usize, unit_id: tiles[a].unit->0.id }),
            )
            &&& sel2 == Selection::Idle
            &&& tiles2.len() == TILE_COUNT
            &&& tiles2[b].unit == tiles[a].unit
            &&& tiles2[b].tile_type == TileType::MyUnit
            &&& tiles2[a].unit is None
            &&& tiles2[a].tile_type == TileType::Empty
            &&& forall|c: int| 0 <= c < TILE_COUNT ==> !(#[trigger] tiles2[c]).back_light
            &&& forall|c: int|
                0 <= c < TILE_COUNT && c != a && c != b ==> #[trigger] tiles2[c] == unlit(tiles[c])
        }),
{
    assert(tiles[a].wf());
    assert(tiles[b].wf());
    let id = tiles[a].unit->0.id;
    let tiles1 = applied(tiles, GuiMessage::BackLightTile { index: a as usize });
    let cleared = tiles1.map_values(|t: Tile| unlit(t));
    assert(holds_unit(cleared[a], id));
    let p = unit_position(cleared, id);
    assert(holds_unit(cleared[p], id));
    assert(p == a) by {
        if p != a {
            assert(tiles[p].unit is Some && tiles[a].unit is Some);
        }
    }
    let tiles2 = moved(cleared, a, b);
    assert forall|c: int| 0 <= c < TILE_COUNT implies !(#[trigger] tiles2[c]).back_light by {
    }
}

/// A click on an empty tile while no unit is selected, or while the
/// selection points at a tile that no longer holds a unit, sends no
/// feedback and leaves nothing selected.
pub proof fn lemma_move_without_selection(tiles: Seq<Tile>, sel: Selection, b: int)
    requires
        tiles.len() == TILE_COUNT,
        0 <= b < TILE_COUNT,
        tiles[b].tile_type == TileType::Empty,
        sel matches Selection::UnitSelected(s) ==> s < TILE_COUNT && tiles[s as int].unit is None,
    ensures
        click_outcome(sel, tiles, Some(b)).0 == Selection::Idle,
        !(click_outcome(sel, tiles, Some(b)).1 matches Ok(Some(_))),
{
}

} // verus!
