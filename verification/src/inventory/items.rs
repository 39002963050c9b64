//! Items, item stacks and the hotbar.

use vstd::prelude::*;

verus! {

/// Identifier of an item type.
#[derive(Debug, Clone, Copy, PartialEq, Eq, Hash, Structural)]
pub struct ItemId(pub u16);

impl ItemId {
    /// No item.
    pub fn none() -> (i: ItemId)
        ensures
            i == ItemId(0),
    {
        ItemId(0)
    }

    /// The sword.
    pub fn sword() -> (i: ItemId)
        ensures
            i == ItemId(1),
    {
        ItemId(1)
    }

    /// The health pack.
    pub fn health_pack() -> (i: ItemId)
        ensures
            i == ItemId(2),
    {
        ItemId(2)
    }

    /// The block placer.
    pub fn block_placer() -> (i: ItemId)
        ensures
            i == ItemId(3),
    {
        ItemId(3)
    }

    /// The bow.
    pub fn bow() -> (i: ItemId)
        ensures
            i == ItemId(4),
    {
        ItemId(4)
    }

    /// Scrap.
    pub fn scrap() -> (i: ItemId)
        ensures
            i == ItemId(5),
    {
        ItemId(5)
    }
}

/// What kind of item an item is.
#[derive(Debug, Clone, Copy, PartialEq, Eq, Structural)]
pub enum ItemKind {
    Weapon,
    Consumable,
    Tool,
    Resource,
}

/// The definition of an item type.
#[derive(Debug, Clone, Copy, PartialEq, Eq)]
pub struct ItemDef {
    pub id: ItemId,
    pub name: &'static str,
    pub kind: ItemKind,
    pub max_stack: u8,
    /// Damage of a weapon, healing of a consumable
    pub value: u16,
}

impl ItemDef {
    /// Damage dealt, for a weapon.
    pub fn damage(&self) -> (d: u16)
        ensures
            d == self.value,
    {
        self.value
    }

    /// Health restored, for a consumable.
    pub fn heal_amount(&self) -> (h: u16)
        ensures
            h == self.value,
    {
        self.value
    }
}

/// A stack of items of one type.
#[derive(Debug, Clone, Copy, PartialEq, Eq, Structural)]
pub struct ItemStack {
    pub item_id: ItemId,
    pub quantity: u8,
}

impl ItemStack {
    /// A stack of `quantity` items.
    pub fn new(item_id: ItemId, quantity: u8) -> (s: ItemStack)
        ensures
            s == (ItemStack { item_id, quantity }),
    {
        ItemStack { item_id, quantity }
    }

    /// A single item.
    pub fn single(item_id: ItemId) -> (s: ItemStack)
        ensures
            s == (ItemStack { item_id, quantity: 1 }),
    {
        ItemStack { item_id, quantity: 1 }
    }
}

/// A player's hotbar: a row of slots, each empty or holding a stack, and the
/// active slot.
#[derive(Debug, Clone)]
pub struct Hotbar {
    slots: Vec<Option<ItemStack>>,
    active: u8,
}

/// The observable state of a [`Hotbar`].
pub struct HotbarView {
    pub slots: Seq<Option<ItemStack>>,
    pub active: u8,
}

/// The content of slot `slot`: none past the last slot.
pub open spec fn slot_of(h: HotbarView, slot: u8) -> Option<ItemStack> {
    if slot < h.slots.len() {
        h.slots[slot as int]
    } else {
        None
    }
}

impl View for Hotbar {
    type V = HotbarView;

    closed spec fn view(&self) -> HotbarView {
        HotbarView { slots: self.slots@, active: self.active }
    }
}

impl Hotbar {
    /// A hotbar of `size` empty slots, the first active.
    pub fn new(size: usize) -> (h: Hotbar)
        ensures
            h@.slots == Seq::new(size as nat, |i: int| None::<ItemStack>),
            h@.active == 0,
    {
        let mut slots: Vec<Option<ItemStack>> = Vec::new();
        let mut i: usize = 0;
        while i < size
            invariant
                i <= size,
                slots@ == Seq::new(i as nat, |k: int| None::<ItemStack>),
            decreases size - i,
        {
            slots.push(None);
            i = i + 1;
            assert(slots@ =~= Seq::new(i as nat, |k: int| None::<ItemStack>));
        }
        Hotbar { slots, active: 0 }
    }

    /// The slots, in order.
    pub fn slots(&self) -> (s: &Vec<Option<ItemStack>>)
        ensures
            s@ == self@.slots,
    {
        &self.slots
    }

    /// The number of slots.
    pub fn size(&self) -> (n: usize)
        ensures
            n == self@.slots.len(),
    {
        self.slots.len()
    }

    /// The content of a slot: none past the last slot.
    pub fn get(&self, slot: u8) -> (s: Option<ItemStack>)
        ensures
            s == slot_of(self@, slot),
    {
        if (slot as usize) < self.slots.len() {
            self.slots[slot as usize]
        } else {
            None
        }
    }

    /// Put a stack in a slot, or empty it; a slot past the last is ignored.
    pub fn set(&mut self, slot: u8, item: Option<ItemStack>)
        ensures
            final(self)@.active == old(self)@.active,
            final(self)@.slots == if slot < old(self)@.slots.len() {
                old(self)@.slots.update(slot as int, item)
            } else {
                old(self)@.slots
            },
    {
        if (slot as usize) < self.slots.len() {
            self.slots.set(slot as usize, item);
        }
    }

    /// The active slot.
    pub fn active_slot(&self) -> (s: u8)
        ensures
            s == self@.active,
    {
        self.active
    }

    /// Make a slot active; a slot past the last is ignored.
    pub fn set_active_slot(&mut self, slot: u8)
        ensures
            final(self)@.slots == old(self)@.slots,
            final(self)@.active == if slot < old(self)@.slots.len() {
                slot
            } else {
                old(self)@.active
            },
    {
        if (slot as usize) < self.slots.len() {
            self.active = slot;
        }
    }

    /// The stack in the active slot.
    pub fn active_item(&self) -> (s: Option<ItemStack>)
        ensures
            s == slot_of(self@, self@.active),
    {
        self.get(self.active)
    }
}

} // verus!
