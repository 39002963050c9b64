//! Snapshot generation for clients.

use vstd::prelude::*;

use crate::inventory::items::{Hotbar, ItemId, ItemStack};

verus! {

/// One hotbar slot as clients see it: an item and how many, the empty slot
/// being no item and none of it.
#[derive(Debug, Clone, Copy, PartialEq, Eq, Structural)]
pub struct SlotSnapshot {
    pub item_id: ItemId,
    pub quantity: u8,
}

impl SlotSnapshot {
    /// A slot holding `quantity` of `item_id`.
    pub fn new(item_id: ItemId, quantity: u8) -> (s: SlotSnapshot)
        ensures
            s == (SlotSnapshot { item_id, quantity }),
    {
        SlotSnapshot { item_id, quantity }
    }

    /// An empty slot.
    pub fn empty() -> (s: SlotSnapshot)
        ensures
            s == (SlotSnapshot { item_id: ItemId(0), quantity: 0 }),
    {
        SlotSnapshot { item_id: ItemId::none(), quantity: 0 }
    }
}

/// A player's hotbar as clients see it.
#[derive(Debug, Clone)]
pub struct InventorySnapshot {
    pub slots: Vec<SlotSnapshot>,
    pub active_slot: u8,
}

/// What a slot looks like to clients.
pub open spec fn slot_snapshot(s: Option<ItemStack>) -> SlotSnapshot {
    match s {
        Some(stack) => SlotSnapshot { item_id: stack.item_id, quantity: stack.quantity },
        None => SlotSnapshot { item_id: ItemId(0), quantity: 0 },
    }
}

/// Create an inventory snapshot from a player's hotbar: each slot in order,
/// and the active slot.
pub fn create_inventory_snapshot(hotbar: &Hotbar) -> (s: InventorySnapshot)
    ensures
        s.slots@ == hotbar@.slots.map_values(|x: Option<ItemStack>| slot_snapshot(x)),
        s.active_slot == hotbar@.active,
{
    let src = hotbar.slots();
    let ghost want = hotbar@.slots.map_values(|x: Option<ItemStack>| slot_snapshot(x));
    let mut slots: Vec<SlotSnapshot> = Vec::new();
    let mut i: usize = 0;
    while i < src.len()
        invariant
            i <= src@.len(),
            src@ == hotbar@.slots,
            want == hotbar@.slots.map_values(|x: Option<ItemStack>| slot_snapshot(x)),
            slots@ == want.take(i as int),
        decreases src@.len() - i,
    {
        let snap = match src[i] {
            Some(stack) => SlotSnapshot::new(stack.item_id, stack.quantity),
            None => SlotSnapshot::empty(),
        };
        slots.push(snap);
        i = i + 1;
        assert(slots@ =~= want.take(i as int));
    }
    assert(want.take(i as int) =~= want);
    InventorySnapshot { slots, active_slot: hotbar.active_slot() }
}

/// Generates world snapshots for clients
#[derive(Debug, Default, Clone, Copy)]
pub struct SnapshotGenerator;

impl SnapshotGenerator {
    /// Create a new snapshot generator
    pub fn new() -> (g: SnapshotGenerator)
        ensures
            g == SnapshotGenerator,
    {
        SnapshotGenerator
    }
}

} // verus!
