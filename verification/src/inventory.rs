//! Named, stacked inventory items in insertion order, up to a fixed
//! capacity of [`crate::grid::GRID_CAPACITY`] slots.
//!
//! Adding an item whose name exactly matches a stored one merges the two by
//! summing amounts (saturating at `i32::MAX`); a new name is appended as a
//! new slot. Appending past capacity is rejected with [`CapacityError`]:
//! the grid has nowhere to draw such a slot.

use vstd::prelude::*;

use crate::catalog::TextureState;
use crate::grid::{
    cell_x, cell_y, in_cell, items_cmds, placeholder_cmds, render_plan, ClickReport, DrawCmd,
    CELL_SIZE, GRID_CAPACITY, SPRITE_INSET,
};
use crate::text::{seq_contains, str_eq, str_contains};

verus! {

/// Mathematical model of one stored item: its name and stack amount.
pub ghost struct ItemModel {
    pub name: Seq<char>,
    pub amount: int,
}

/// One inventory entry: a display name and how many of it are stacked.
pub struct Item {
    pub(crate) display_name: String,
    pub(crate) amount: i32,
}

impl View for Item {
    type V = ItemModel;

    closed spec fn view(&self) -> ItemModel {
        ItemModel { name: self.display_name@, amount: self.amount as int }
    }
}

impl Item {
    /// A fresh single item with the given display name.
    pub fn new(name: &str) -> (r: Item)
        ensures
            r@.name == name@,
            r@.amount == 1,
    {
        Item { display_name: name.to_owned(), amount: 1 }
    }

    /// An item carrying a stack of `amount` (at least one).
    pub fn with_amount(name: &str, amount: i32) -> (r: Item)
        requires
            amount >= 1,
        ensures
            r@.name == name@,
            r@.amount == amount,
    {
        Item { display_name: name.to_owned(), amount }
    }

    /// The item's display name.
    pub fn name(&self) -> (r: &str)
        ensures
            r@ == self@.name,
    {
        self.display_name.as_str()
    }

    /// How many of this item are stacked in its slot.
    pub fn amount(&self) -> (r: i32)
        ensures
            r == self@.amount,
    {
        self.amount
    }
}

/// Returned by [`Inventory::add_item`] when a new name would not fit:
/// every slot of the grid already holds a distinct item.
#[derive(Clone, Copy, Debug, PartialEq, Eq, Structural)]
pub struct CapacityError;

/// Index of the first model in `items` whose name is exactly `name`.
pub open spec fn first_match(items: Seq<ItemModel>, name: Seq<char>) -> Option<int>
    decreases items.len(),
{
    if items.len() == 0 {
        None
    } else if items[0].name == name {
        Some(0)
    } else {
        match first_match(items.drop_first(), name) {
            Some(j) => Some(j + 1),
            None => None,
        }
    }
}

/// `first_match` finds exactly the first index bearing `name`, if any.
pub proof fn lemma_first_match(items: Seq<ItemModel>, name: Seq<char>)
    ensures
        match first_match(items, name) {
            Some(j) => 0 <= j < items.len() && items[j].name == name && (forall|k: int|
                0 <= k < j ==> items[k].name != name),
            None => forall|k: int| 0 <= k < items.len() ==> items[k].name != name,
        },
    decreases items.len(),
{
    if items.len() > 0 && items[0].name != name {
        lemma_first_match(items.drop_first(), name);
        assert(forall|k: int|
            1 <= k < items.len() ==> #[trigger] items[k] == items.drop_first()[k - 1]);
    }
}

/// Amount that results from merging two stacks, saturating at `i32::MAX`.
pub open spec fn merged_amount(a: int, b: int) -> int {
    if a + b > i32::MAX {
        i32::MAX as int
    } else {
        a + b
    }
}

/// An ordered sequence of stacked items, one grid slot each.
pub struct Inventory {
    pub(crate) stored_items: Vec<Item>,
}

impl View for Inventory {
    type V = Seq<ItemModel>;

    closed spec fn view(&self) -> Seq<ItemModel> {
        self.stored_items@.map_values(|it: Item| it@)
    }
}

impl Inventory {
    /// The inventory never outgrows the grid, and every stack holds at
    /// least one item.
    pub open spec fn wf(&self) -> bool {
        &&& self@.len() <= GRID_CAPACITY
        &&& forall|i: int| 0 <= i < self@.len() ==> (#[trigger] self@[i]).amount >= 1
    }

    /// An empty inventory.
    pub fn new() -> (r: Inventory)
        ensures
            r@ =~= Seq::<ItemModel>::empty(),
            r.wf(),
    {
        Inventory { stored_items: Vec::new() }
    }

    /// Number of occupied slots.
    pub fn len(&self) -> (n: usize)
        ensures
            n == self@.len(),
    {
        self.stored_items.len()
    }

    /// Fixed number of slots the grid offers.
    pub fn capacity(&self) -> (c: usize)
        ensures
            c == GRID_CAPACITY,
    {
        GRID_CAPACITY
    }

    /// The item stored at `slot`, if that slot is occupied.
    pub fn get(&self, slot: usize) -> (r: Option<&Item>)
        ensures
            slot < self@.len() ==> (r matches Some(it) && it@ == self@[slot as int]),
            slot >= self@.len() ==> r is None,
    {
        if slot < self.stored_items.len() {
            Some(&self.stored_items[slot])
        } else {
            None
        }
    }

    /// Slot index of the first stored item whose name equals `item_name`
    /// exactly (no case folding, no partial match).
    pub fn get_by_name(&self, item_name: &str) -> (r: Option<usize>)
        ensures
            r == match first_match(self@, item_name@) {
                Some(j) => Some(j as usize),
                None => None::<usize>,
            },
    {
        let n = self.stored_items.len();
        for j in 0..n
            invariant
                n == self@.len(),
                forall|k: int| 0 <= k < j ==> (#[trigger] self@[k]).name != item_name@,
        {
            if str_eq(self.stored_items[j].display_name.as_str(), item_name) {
                proof {
                    lemma_first_match(self@, item_name@);
                    assert(self@[j as int].name == item_name@);
                    match first_match(self@, item_name@) {
                        Some(m) => {
                            if m < j {
                                assert(self@[m].name != item_name@);
                            }
                            if m > j {
                                assert(self@[j as int].name != item_name@);
                            }
                        },
                        None => {
                            assert(self@[j as int].name != item_name@);
                        },
                    }
                }
                return Some(j);
            }
        }
        proof {
            lemma_first_match(self@, item_name@);
            match first_match(self@, item_name@) {
                Some(m) => {
                    assert(self@[m].name != item_name@);
                },
                None => {},
            }
        }
        None
    }

    /// True when some stored item's display name has `item_name` as a
    /// contiguous substring (looser than `get_by_name`'s exact match).
    pub fn contains_item(&self, item_name: &str) -> (r: bool)
        ensures
            r == exists|i: int|
                0 <= i < self@.len() && seq_contains((#[trigger] self@[i]).name, item_name@),
    {
        let n = self.stored_items.len();
        for i in 0..n
            invariant
                n == self@.len(),
                forall|k: int|
                    0 <= k < i ==> !seq_contains((#[trigger] self@[k]).name, item_name@),
        {
            if str_contains(self.stored_items[i].display_name.as_str(), item_name) {
                proof {
                    assert(seq_contains(self@[i as int].name, item_name@));
                }
                return true;
            }
        }
        false
    }

    /// Stores `item`: merged into the first stack of exactly the same name
    /// if one exists (amounts summed, saturating), appended as a new slot
    /// otherwise. A new name is rejected once all slots are taken.
    pub fn add_item(&mut self, item: Item) -> (r: Result<(), CapacityError>)
        requires
            old(self).wf(),
            item@.amount >= 1,
        ensures
            final(self).wf(),
            match first_match(old(self)@, item@.name) {
                Some(j) => r is Ok && final(self)@ =~= old(self)@.update(
                    j,
                    (ItemModel {
                        name: old(self)@[j].name,
                        amount: merged_amount(old(self)@[j].amount, item@.amount),
                    }),
                ),
                None => if old(self)@.len() < GRID_CAPACITY {
                    r is Ok && final(self)@ =~= old(self)@.push(item@)
                } else {
                    r is Err && final(self)@ =~= old(self)@
                },
            },
    {
        proof {
            lemma_first_match(self@, item@.name);
        }
        match self.get_by_name(item.display_name.as_str()) {
            Some(j) => {
                let cur = self.stored_items[j].amount;
                let new_amount = if item.amount <= i32::MAX - cur {
                    cur + item.amount
                } else {
                    i32::MAX
                };
                self.stored_items[j].amount = new_amount;
                proof {
                    assert(final(self)@ =~= old(self)@.update(
                        j as int,
                        (ItemModel {
                            name: old(self)@[j as int].name,
                            amount: merged_amount(old(self)@[j as int].amount, item@.amount),
                        }),
                    ));
                }
                Ok(())
            },
            None => {
                if self.stored_items.len() < GRID_CAPACITY {
                    self.stored_items.push(item);
                    proof {
                        assert(final(self)@ =~= old(self)@.push(item@));
                    }
                    Ok(())
                } else {
                    Err(CapacityError)
                }
            },
        }
    }

    /// Plans one frame against the catalog: every slot's placeholder
    /// square first, then each stored item's sprite and quantity labels
    /// in slot order, as [`render_plan`] lays them out.
    pub fn render(&self, textures: &TextureState) -> (cmds: Vec<DrawCmd>)
        requires
            self.wf(),
        ensures
            cmds@ == render_plan(self@, textures.entries()),
    {
        let mut cmds: Vec<DrawCmd> = Vec::new();
        for slot in 0..GRID_CAPACITY
            invariant
                cmds@ =~= placeholder_cmds().take(slot as int),
        {
            let x = cell_x(slot);
            let y = cell_y(slot);
            cmds.push(DrawCmd::Slot { x, y, size: CELL_SIZE });
            proof {
                assert(cmds@ =~= placeholder_cmds().take(slot + 1));
            }
        }
        proof {
            assert(placeholder_cmds().take(GRID_CAPACITY as int) =~= placeholder_cmds());
        }
        let n = self.stored_items.len();
        for i in 0..n
            invariant
                n == self@.len(),
                self.wf(),
                cmds@ =~= placeholder_cmds() + items_cmds(self@, textures.entries(), i as int),
        {
            let x = cell_x(i);
            let y = cell_y(i);
            let amount = self.stored_items[i].amount;
            match textures.get_texture(self.stored_items[i].display_name.as_str()) {
                Some(id) => {
                    cmds.push(
                        DrawCmd::Sprite {
                            texture: id,
                            x: x + SPRITE_INSET,
                            y: y + SPRITE_INSET,
                            size: CELL_SIZE - 2 * SPRITE_INSET,
                        },
                    );
                    cmds.push(
                        DrawCmd::Amount { amount, x: x + SPRITE_INSET, y: y + CELL_SIZE, font_size: 24 },
                    );
                },
                None => {},
            }
            if amount > 1 {
                cmds.push(
                    DrawCmd::Amount {
                        amount,
                        x: x + CELL_SIZE - 16,
                        y: y + CELL_SIZE - 8,
                        font_size: 16,
                    },
                );
            }
            proof {
                assert(cmds@ =~= placeholder_cmds() + items_cmds(
                    self@,
                    textures.entries(),
                    i + 1,
                ));
            }
        }
        proof {
            assert(cmds@ =~= render_plan(self@, textures.entries()));
        }
        cmds
    }

    /// Resolves a pointer press at `(x, y)` to the first slot whose cell
    /// contains the point — cells are disjoint, so at most one does — with
    /// the occupying item's name and amount when that slot is occupied.
    /// `None` when the press landed outside every cell.
    pub fn click_report(&self, x: i32, y: i32) -> (r: Option<ClickReport>)
        ensures
            match r {
                Some(rep) => {
                    &&& rep.slot < GRID_CAPACITY
                    &&& in_cell(rep.slot as int, x as int, y as int)
                    &&& forall|t: int| 0 <= t < rep.slot ==> !in_cell(t, x as int, y as int)
                    &&& if (rep.slot as int) < self@.len() {
                        rep.occupant matches Some(occ) && occ.0@ == self@[rep.slot as int].name
                            && occ.1 == self@[rep.slot as int].amount
                    } else {
                        rep.occupant is None
                    }
                },
                None => forall|t: int| 0 <= t < GRID_CAPACITY ==> !in_cell(t, x as int, y as int),
            },
    {
        for slot in 0..GRID_CAPACITY
            invariant
                forall|t: int| 0 <= t < slot ==> !in_cell(t, x as int, y as int),
        {
            let cx = cell_x(slot);
            let cy = cell_y(slot);
            if x >= cx && x <= cx + CELL_SIZE && y >= cy && y <= cy + CELL_SIZE {
                let occupant = if slot < self.stored_items.len() {
                    Some(
                        (
                            self.stored_items[slot].display_name.clone(),
                            self.stored_items[slot].amount,
                        ),
                    )
                } else {
                    None
                };
                return Some(ClickReport { slot, occupant });
            }
        }
        None
    }
}

} // verus!
