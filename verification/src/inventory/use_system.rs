//! Item usage: what using the active item does.

use vstd::prelude::*;

use crate::inventory::item_registry::{get_item_def, item_def_spec};
use crate::inventory::items::{Hotbar, HotbarView, ItemId, ItemKind, ItemStack, slot_of};

verus! {

/// Result of using an active item
#[derive(Debug, Clone, Copy, PartialEq, Eq, Structural)]
pub enum UseResult {
    /// No item equipped - use default action (melee, etc.)
    NoItem,
    /// Weapon was used - attack with specified damage
    WeaponAttack { item_id: ItemId, damage: u16 },
    /// Consumable was used - apply effect
    ConsumableUsed {
        item_id: ItemId,
        heal_amount: u16,
        /// If true, the stack is now empty and should be removed
        stack_depleted: bool,
    },
    /// Tool was used - place block
    ToolUsed { item_id: ItemId },
    /// Cannot use this item (unknown type or invalid state)
    CannotUse,
}

/// What using the stack `active` does: a weapon attacks with its damage, a
/// consumable heals (its last item depleting the stack), a tool is used, and a
/// resource or an unknown item cannot be used.
pub open spec fn use_result(active: Option<ItemStack>) -> UseResult {
    match active {
        None => UseResult::NoItem,
        Some(st) => match item_def_spec(st.item_id) {
            None => UseResult::CannotUse,
            Some(def) => match def.kind {
                ItemKind::Weapon => UseResult::WeaponAttack { item_id: st.item_id, damage: def.value },
                ItemKind::Consumable => UseResult::ConsumableUsed {
                    item_id: st.item_id,
                    heal_amount: def.value,
                    stack_depleted: st.quantity <= 1,
                },
                ItemKind::Tool => UseResult::ToolUsed { item_id: st.item_id },
                ItemKind::Resource => UseResult::CannotUse,
            },
        },
    }
}

/// The hotbar after one item of the active stack is used up, and whether the
/// stack ran out: its last item empties the slot.
pub open spec fn decremented(h: HotbarView) -> (HotbarView, bool) {
    match slot_of(h, h.active) {
        Some(st) => if st.quantity <= 1 {
            (HotbarView { slots: h.slots.update(h.active as int, None), ..h }, true)
        } else {
            (
                HotbarView {
                    slots: h.slots.update(
                        h.active as int,
                        Some(ItemStack { item_id: st.item_id, quantity: (st.quantity - 1) as u8 }),
                    ),
                    ..h
                },
                false,
            )
        },
        None => (h, false),
    }
}

/// Try to use the active item in the hotbar.
///
/// Returns the result describing what effect should be applied.
/// The caller is responsible for actually applying the effect (damage, healing, etc.)
/// and updating the hotbar (removing depleted consumables).
pub fn use_active_item(hotbar: &Hotbar) -> (r: UseResult)
    ensures
        r == use_result(slot_of(hotbar@, hotbar@.active)),
{
    let active_item = match hotbar.active_item() {
        Some(item) => item,
        None => {
            return UseResult::NoItem;
        },
    };
    let def = match get_item_def(active_item.item_id) {
        Some(d) => d,
        None => {
            return UseResult::CannotUse;
        },
    };
    match def.kind {
        ItemKind::Weapon => UseResult::WeaponAttack { item_id: active_item.item_id, damage: def.damage() },
        ItemKind::Consumable => UseResult::ConsumableUsed {
            item_id: active_item.item_id,
            heal_amount: def.heal_amount(),
            stack_depleted: active_item.quantity <= 1,
        },
        ItemKind::Tool => UseResult::ToolUsed { item_id: active_item.item_id },
        ItemKind::Resource => UseResult::CannotUse,
    }
}

/// Decrement the quantity of the active consumable item.
/// Returns true if the stack was depleted and should be removed.
pub fn decrement_active_consumable(hotbar: &mut Hotbar) -> (depleted: bool)
    ensures
        (final(hotbar)@, depleted) == decremented(old(hotbar)@),
{
    let active_slot = hotbar.active_slot();
    match hotbar.get(active_slot) {
        Some(stack) => {
            if stack.quantity <= 1 {
                hotbar.set(active_slot, None);
                true
            } else {
                let new_quantity = stack.quantity - 1;
                hotbar.set(active_slot, Some(ItemStack::new(stack.item_id, new_quantity)));
                false
            }
        },
        None => false,
    }
}

/// Using a consumable never takes more than one item: after a use the stack
/// has one item less, or is gone when it held one.
pub proof fn law_one_item_per_use(h: HotbarView)
    requires
        slot_of(h, h.active) is Some,
    ensures
        ({
            let st = slot_of(h, h.active)->0;
            let (h1, depleted) = decremented(h);
            &&& depleted <==> st.quantity <= 1
            &&& depleted ==> slot_of(h1, h.active) is None
            &&& !depleted ==> slot_of(h1, h.active) == Some(ItemStack { item_id: st.item_id, quantity: (st.quantity - 1) as u8 })
            &&& h1.active == h.active
            &&& forall|i: int| 0 <= i < h.slots.len() && i != h.active ==> h1.slots[i] == h.slots[i]
        }),
{
}

} // verus!
