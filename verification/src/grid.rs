//! Slot-grid geometry and frame planning: the fixed layout constants, the
//! slot-index to row/column mapping, each slot's cell rectangle on screen,
//! and the draw commands one frame consists of.
//!
//! The library plans a frame as a sequence of [`DrawCmd`] values; the host
//! executes them in order with its own drawing primitives.

use vstd::prelude::*;

use crate::catalog::lookup;
use crate::inventory::ItemModel;

verus! {

/// Number of slot columns in one row of the grid.
pub const GRID_COLUMNS: usize = 9;

/// Number of slots the grid displays (and the inventory capacity).
pub const GRID_CAPACITY: usize = 36;

/// Side length of one square slot cell, in screen units.
pub const CELL_SIZE: i32 = 64;

/// Gap between adjacent cells, in screen units.
pub const CELL_PADDING: i32 = 2;

/// Screen x coordinate of the grid's top-left cell.
pub const GRID_ORIGIN_X: i32 = 120;

/// Screen y coordinate of the grid's top-left cell.
pub const GRID_ORIGIN_Y: i32 = 275;

/// Inset applied on each side when an item sprite is drawn inside a cell.
pub const SPRITE_INSET: i32 = 8;

/// Row of a slot index: slots are laid out row-major, left to right,
/// top to bottom, `GRID_COLUMNS` to a row.
pub fn slot_row(slot: usize) -> (r: usize)
    ensures
        r == slot as int / GRID_COLUMNS as int,
{
    slot / GRID_COLUMNS
}

/// Column of a slot index.
pub fn slot_col(slot: usize) -> (c: usize)
    ensures
        c == slot as int % GRID_COLUMNS as int,
{
    slot % GRID_COLUMNS
}

/// Screen x coordinate of the top-left corner of a slot's cell.
pub open spec fn spec_cell_x(slot: int) -> int {
    GRID_ORIGIN_X + (slot % GRID_COLUMNS as int) * (CELL_SIZE + CELL_PADDING)
}

/// Screen y coordinate of the top-left corner of a slot's cell.
pub open spec fn spec_cell_y(slot: int) -> int {
    GRID_ORIGIN_Y + (slot / GRID_COLUMNS as int) * (CELL_SIZE + CELL_PADDING)
}

/// Top-left x of the cell of `slot`.
pub fn cell_x(slot: usize) -> (x: i32)
    requires
        slot < GRID_CAPACITY,
    ensures
        x == spec_cell_x(slot as int),
{
    let col = slot % GRID_COLUMNS;
    GRID_ORIGIN_X + (col as i32) * (CELL_SIZE + CELL_PADDING)
}

/// Top-left y of the cell of `slot`.
pub fn cell_y(slot: usize) -> (y: i32)
    requires
        slot < GRID_CAPACITY,
    ensures
        y == spec_cell_y(slot as int),
{
    let row = slot / GRID_COLUMNS;
    GRID_ORIGIN_Y + (row as i32) * (CELL_SIZE + CELL_PADDING)
}

/// One drawing instruction of a planned frame, in screen units.
#[derive(Clone, Copy, Debug, PartialEq, Eq, Structural)]
pub enum DrawCmd {
    /// An empty placeholder square at a slot's cell.
    Slot { x: i32, y: i32, size: i32 },
    /// An item texture, scaled to `size` by `size`, by catalog handle.
    Sprite { texture: usize, x: i32, y: i32, size: i32 },
    /// A quantity label showing `amount` in decimal.
    Amount { amount: i32, x: i32, y: i32, font_size: i32 },
}

/// The placeholder square drawn for `slot`.
pub open spec fn slot_cmd(slot: int) -> DrawCmd {
    DrawCmd::Slot { x: spec_cell_x(slot) as i32, y: spec_cell_y(slot) as i32, size: CELL_SIZE }
}

/// First draw pass: one placeholder square per slot of the grid, occupied
/// or not.
pub open spec fn placeholder_cmds() -> Seq<DrawCmd> {
    Seq::new(GRID_CAPACITY as nat, |slot: int| slot_cmd(slot))
}

/// Second-pass draws for the item occupying `slot`: when the catalog has a
/// texture of exactly the item's name, its sprite inset into the cell and
/// a quantity label; in every case a second, smaller quantity label at the
/// cell's bottom-right corner when more than one is stacked.
pub open spec fn item_cmds(slot: int, it: ItemModel, entries: Seq<(Seq<char>, usize)>) -> Seq<
    DrawCmd,
> {
    let x = spec_cell_x(slot);
    let y = spec_cell_y(slot);
    let textured = match lookup(entries, it.name) {
        Some(id) => seq![
            (DrawCmd::Sprite {
                texture: id,
                x: (x + SPRITE_INSET) as i32,
                y: (y + SPRITE_INSET) as i32,
                size: (CELL_SIZE - 2 * SPRITE_INSET) as i32,
            }),
            (DrawCmd::Amount {
                amount: it.amount as i32,
                x: (x + SPRITE_INSET) as i32,
                y: (y + CELL_SIZE) as i32,
                font_size: 24,
            }),
        ],
        None => Seq::<DrawCmd>::empty(),
    };
    textured + if it.amount > 1 {
        seq![
            (DrawCmd::Amount {
                amount: it.amount as i32,
                x: (x + CELL_SIZE - 16) as i32,
                y: (y + CELL_SIZE - 8) as i32,
                font_size: 16,
            }),
        ]
    } else {
        Seq::<DrawCmd>::empty()
    }
}

/// Second-pass draws of the first `upto` items, in slot order.
pub open spec fn items_cmds(
    items: Seq<ItemModel>,
    entries: Seq<(Seq<char>, usize)>,
    upto: int,
) -> Seq<DrawCmd>
    decreases upto,
{
    if upto <= 0 {
        Seq::<DrawCmd>::empty()
    } else {
        items_cmds(items, entries, upto - 1) + item_cmds(upto - 1, items[upto - 1], entries)
    }
}

/// Everything one frame draws: all placeholder squares, then the occupied
/// slots' sprites and labels in slot order.
pub open spec fn render_plan(items: Seq<ItemModel>, entries: Seq<(Seq<char>, usize)>) -> Seq<
    DrawCmd,
> {
    placeholder_cmds() + items_cmds(items, entries, items.len() as int)
}

/// Rendering with no stored items plans exactly the placeholder squares of
/// all `GRID_CAPACITY` slots — no sprite and no label — whatever the
/// catalog holds.
pub proof fn lemma_render_empty(entries: Seq<(Seq<char>, usize)>)
    ensures
        render_plan(Seq::<ItemModel>::empty(), entries).len() == GRID_CAPACITY,
        forall|s: int|
            0 <= s < GRID_CAPACITY ==> #[trigger] render_plan(Seq::<ItemModel>::empty(), entries)[s]
                == slot_cmd(s),
{
    assert(render_plan(Seq::<ItemModel>::empty(), entries) =~= placeholder_cmds());
}

/// The pointer position `(x, y)` lies inside the cell of `slot` (both
/// edges inclusive, as the hit test checks them).
pub open spec fn in_cell(slot: int, x: int, y: int) -> bool {
    &&& spec_cell_x(slot) <= x <= spec_cell_x(slot) + CELL_SIZE
    &&& spec_cell_y(slot) <= y <= spec_cell_y(slot) + CELL_SIZE
}

/// Cells never overlap: a pointer position inside one slot's cell lies in
/// no other slot's cell, so at most one slot can report a press.
pub proof fn lemma_cells_disjoint(s1: int, s2: int, x: int, y: int)
    requires
        0 <= s1 < GRID_CAPACITY,
        0 <= s2 < GRID_CAPACITY,
        s1 != s2,
        in_cell(s1, x, y),
    ensures
        !in_cell(s2, x, y),
{
    let cols = GRID_COLUMNS as int;
    assert(s1 == cols * (s1 / cols) + s1 % cols);
    assert(s2 == cols * (s2 / cols) + s2 % cols);
    assert(s1 % cols != s2 % cols || s1 / cols != s2 / cols);
}

/// What a pointer press over the grid resolves to: the hit slot, and the
/// occupying item's name and amount when that slot is occupied.
pub struct ClickReport {
    pub slot: usize,
    pub occupant: Option<(String, i32)>,
}

} // verus!
