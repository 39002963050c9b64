//! Item registry with the definitions of every item in the game.

use vstd::prelude::*;

use crate::inventory::items::{ItemDef, ItemId, ItemKind};

verus! {

/// The definition of an item, if the game has it: the sword (a 25-damage
/// weapon), the health pack (heals 50, stacks to 16), the block placer (a tool),
/// the bow (a 15-damage weapon) and scrap (a resource, stacks to 16).
pub open spec fn item_def_spec(id: ItemId) -> Option<ItemDef> {
    if id == ItemId(1) {
        Some(ItemDef { id, name: "Sword", kind: ItemKind::Weapon, max_stack: 1, value: 25 })
    } else if id == ItemId(2) {
        Some(ItemDef { id, name: "Health Pack", kind: ItemKind::Consumable, max_stack: 16, value: 50 })
    } else if id == ItemId(3) {
        Some(ItemDef { id, name: "Block Placer", kind: ItemKind::Tool, max_stack: 1, value: 0 })
    } else if id == ItemId(4) {
        Some(ItemDef { id, name: "Bow", kind: ItemKind::Weapon, max_stack: 1, value: 15 })
    } else if id == ItemId(5) {
        Some(ItemDef { id, name: "Scrap", kind: ItemKind::Resource, max_stack: 16, value: 0 })
    } else {
        None
    }
}

/// Item definitions for all items in the game.
pub fn item_defs() -> (v: Vec<ItemDef>)
    ensures
        v@.len() == 5,
        forall|i: int| 0 <= i < 5 ==> item_def_spec(#[trigger] v@[i].id) == Some(v@[i]),
{
    let mut v: Vec<ItemDef> = Vec::new();
    v.push(ItemDef { id: ItemId::sword(), name: "Sword", kind: ItemKind::Weapon, max_stack: 1, value: 25 });
    v.push(ItemDef { id: ItemId::health_pack(), name: "Health Pack", kind: ItemKind::Consumable, max_stack: 16, value: 50 });
    v.push(ItemDef { id: ItemId::block_placer(), name: "Block Placer", kind: ItemKind::Tool, max_stack: 1, value: 0 });
    v.push(ItemDef { id: ItemId::bow(), name: "Bow", kind: ItemKind::Weapon, max_stack: 1, value: 15 });
    v.push(ItemDef { id: ItemId::scrap(), name: "Scrap", kind: ItemKind::Resource, max_stack: 16, value: 0 });
    v
}

/// Get the item definition for an item ID.
pub fn get_item_def(id: ItemId) -> (d: Option<ItemDef>)
    ensures
        d == item_def_spec(id),
{
    if id.0 == 1 {
        Some(ItemDef { id, name: "Sword", kind: ItemKind::Weapon, max_stack: 1, value: 25 })
    } else if id.0 == 2 {
        Some(ItemDef { id, name: "Health Pack", kind: ItemKind::Consumable, max_stack: 16, value: 50 })
    } else if id.0 == 3 {
        Some(ItemDef { id, name: "Block Placer", kind: ItemKind::Tool, max_stack: 1, value: 0 })
    } else if id.0 == 4 {
        Some(ItemDef { id, name: "Bow", kind: ItemKind::Weapon, max_stack: 1, value: 15 })
    } else if id.0 == 5 {
        Some(ItemDef { id, name: "Scrap", kind: ItemKind::Resource, max_stack: 16, value: 0 })
    } else {
        None
    }
}

/// Get the damage value for a weapon item.
pub fn get_weapon_damage(id: ItemId) -> (d: Option<u16>)
    ensures
        d == match item_def_spec(id) {
            Some(def) => if def.kind == ItemKind::Weapon {
                Some(def.value)
            } else {
                None
            },
            None => None,
        },
{
    match get_item_def(id) {
        Some(def) => if def.kind == ItemKind::Weapon {
            Some(def.damage())
        } else {
            None
        },
        None => None,
    }
}

/// Get the heal amount for a consumable item.
pub fn get_heal_amount(id: ItemId) -> (h: Option<u16>)
    ensures
        h == match item_def_spec(id) {
            Some(def) => if def.kind == ItemKind::Consumable {
                Some(def.value)
            } else {
                None
            },
            None => None,
        },
{
    match get_item_def(id) {
        Some(def) => if def.kind == ItemKind::Consumable {
            Some(def.heal_amount())
        } else {
            None
        },
        None => None,
    }
}

/// Get the max stack size for an item: 1 for an unknown item.
pub fn get_max_stack(id: ItemId) -> (n: u8)
    ensures
        n == match item_def_spec(id) {
            Some(def) => def.max_stack,
            None => 1,
        },
{
    match get_item_def(id) {
        Some(def) => def.max_stack,
        None => 1,
    }
}

} // verus!
