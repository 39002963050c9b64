use plix_server::inventory::items::{Hotbar, ItemId, ItemKind, ItemStack};
use plix_server::inventory::{
    decrement_active_consumable, get_heal_amount, get_item_def, get_max_stack,
    get_starting_loadout, get_weapon_damage, give_starting_loadout, item_defs, use_active_item,
    UseResult,
};
use plix_server::protocol::GameMode;

#[test]
fn test_sword_definition() {
    let sword = get_item_def(ItemId::sword()).unwrap();
    assert_eq!(sword.name, "Sword");
    assert_eq!(sword.kind, ItemKind::Weapon);
    assert_eq!(sword.max_stack, 1);
    assert_eq!(sword.damage(), 25);
}

#[test]
fn test_health_pack_definition() {
    let health_pack = get_item_def(ItemId::health_pack()).unwrap();
    assert_eq!(health_pack.name, "Health Pack");
    assert_eq!(health_pack.kind, ItemKind::Consumable);
    assert_eq!(health_pack.max_stack, 16);
    assert_eq!(health_pack.heal_amount(), 50);
}

#[test]
fn test_block_placer_definition() {
    let block_placer = get_item_def(ItemId::block_placer()).unwrap();
    assert_eq!(block_placer.name, "Block Placer");
    assert_eq!(block_placer.kind, ItemKind::Tool);
    assert_eq!(block_placer.max_stack, 1);
}

#[test]
fn test_bow_definition() {
    let bow = get_item_def(ItemId::bow()).unwrap();
    assert_eq!(bow.name, "Bow");
    assert_eq!(bow.kind, ItemKind::Weapon);
    assert_eq!(bow.max_stack, 1);
    assert_eq!(bow.damage(), 15);
}

#[test]
fn test_get_weapon_damage() {
    assert_eq!(get_weapon_damage(ItemId::sword()), Some(25));
    assert_eq!(get_weapon_damage(ItemId::bow()), Some(15));
    assert_eq!(get_weapon_damage(ItemId::health_pack()), None);
    assert_eq!(get_weapon_damage(ItemId::block_placer()), None);
}

#[test]
fn test_get_heal_amount() {
    assert_eq!(get_heal_amount(ItemId::health_pack()), Some(50));
    assert_eq!(get_heal_amount(ItemId::sword()), None);
    assert_eq!(get_heal_amount(ItemId::block_placer()), None);
}

#[test]
fn test_get_max_stack() {
    assert_eq!(get_max_stack(ItemId::sword()), 1);
    assert_eq!(get_max_stack(ItemId::health_pack()), 16);
    assert_eq!(get_max_stack(ItemId::block_placer()), 1);
    assert_eq!(get_max_stack(ItemId::none()), 1); // Unknown item defaults to 1
}

#[test]
fn test_invalid_item_id() {
    assert!(get_item_def(ItemId::none()).is_none());
    assert!(get_item_def(ItemId(999)).is_none());
}

#[test]
fn registry_lists_every_item() {
    let defs = item_defs();
    assert_eq!(defs.len(), 5);
    for def in &defs {
        assert_eq!(get_item_def(def.id), Some(*def));
    }
}

#[test]
fn test_use_empty_slot() {
    let hotbar = Hotbar::new(9);
    let result = use_active_item(&hotbar);
    assert_eq!(result, UseResult::NoItem);
}

#[test]
fn test_use_weapon() {
    let mut hotbar = Hotbar::new(9);
    hotbar.set(0, Some(ItemStack::single(ItemId::sword())));
    hotbar.set_active_slot(0);

    let result = use_active_item(&hotbar);
    assert_eq!(
        result,
        UseResult::WeaponAttack {
            item_id: ItemId::sword(),
            damage: 25,
        }
    );
}

#[test]
fn test_use_consumable() {
    let mut hotbar = Hotbar::new(9);
    hotbar.set(0, Some(ItemStack::new(ItemId::health_pack(), 3)));
    hotbar.set_active_slot(0);

    let result = use_active_item(&hotbar);
    assert_eq!(
        result,
        UseResult::ConsumableUsed {
            item_id: ItemId::health_pack(),
            heal_amount: 50,
            stack_depleted: false,
        }
    );
}

#[test]
fn test_use_last_consumable() {
    let mut hotbar = Hotbar::new(9);
    hotbar.set(0, Some(ItemStack::single(ItemId::health_pack())));
    hotbar.set_active_slot(0);

    let result = use_active_item(&hotbar);
    assert_eq!(
        result,
        UseResult::ConsumableUsed {
            item_id: ItemId::health_pack(),
            heal_amount: 50,
            stack_depleted: true,
        }
    );
}

#[test]
fn test_use_tool() {
    let mut hotbar = Hotbar::new(9);
    hotbar.set(0, Some(ItemStack::single(ItemId::block_placer())));
    hotbar.set_active_slot(0);

    let result = use_active_item(&hotbar);
    assert_eq!(result, UseResult::ToolUsed { item_id: ItemId::block_placer() });
}

#[test]
fn resource_and_unknown_items_cannot_be_used() {
    let mut hotbar = Hotbar::new(3);
    hotbar.set(1, Some(ItemStack::new(ItemId::scrap(), 4)));
    hotbar.set_active_slot(1);
    assert_eq!(use_active_item(&hotbar), UseResult::CannotUse);
    hotbar.set(1, Some(ItemStack::single(ItemId(77))));
    assert_eq!(use_active_item(&hotbar), UseResult::CannotUse);
}

#[test]
fn test_decrement_consumable() {
    let mut hotbar = Hotbar::new(9);
    hotbar.set(0, Some(ItemStack::new(ItemId::health_pack(), 3)));
    hotbar.set_active_slot(0);

    let depleted = decrement_active_consumable(&mut hotbar);
    assert!(!depleted);
    assert_eq!(hotbar.get(0).map(|s| s.quantity), Some(2));

    let depleted = decrement_active_consumable(&mut hotbar);
    assert!(!depleted);
    assert_eq!(hotbar.get(0).map(|s| s.quantity), Some(1));

    let depleted = decrement_active_consumable(&mut hotbar);
    assert!(depleted);
    assert!(hotbar.get(0).is_none());
}

#[test]
fn test_training_loadout() {
    let loadout = get_starting_loadout(GameMode::Training);
    assert_eq!(loadout.len(), 4);
    assert_eq!(loadout[0], (0, ItemStack::single(ItemId::sword())));
    assert_eq!(loadout[1], (1, ItemStack::single(ItemId::bow())));
    assert_eq!(loadout[2], (2, ItemStack::new(ItemId::health_pack(), 5)));
    assert_eq!(loadout[3], (3, ItemStack::new(ItemId::scrap(), 5)));
}

#[test]
fn test_standard_mode_loadout() {
    for mode in [GameMode::Tdm, GameMode::Ffa, GameMode::Ctf] {
        let loadout = get_starting_loadout(mode);
        assert_eq!(loadout.len(), 2);
        assert_eq!(loadout[0], (0, ItemStack::single(ItemId::sword())));
        assert_eq!(loadout[1], (1, ItemStack::single(ItemId::bow())));
    }
}

#[test]
fn test_br_lite_loadout() {
    let loadout = get_starting_loadout(GameMode::BrLite);
    assert!(loadout.is_empty());
}

#[test]
fn test_give_starting_loadout() {
    let mut hotbar = Hotbar::new(9);
    // Fill with items first
    for i in 0..4 {
        hotbar.set(i, Some(ItemStack::single(ItemId::health_pack())));
    }

    give_starting_loadout(&mut hotbar, GameMode::Tdm);

    // Should have sword in slot 0, bow in slot 1
    assert_eq!(hotbar.get(0).map(|s| s.item_id), Some(ItemId::sword()));
    assert_eq!(hotbar.get(1).map(|s| s.item_id), Some(ItemId::bow()));
    // Other slots should be cleared
    assert!(hotbar.get(2).is_none());
    assert!(hotbar.get(3).is_none());
}

#[test]
fn hotbar_ignores_slots_past_the_end() {
    let mut hotbar = Hotbar::new(2);
    hotbar.set(5, Some(ItemStack::single(ItemId::sword())));
    assert!(hotbar.get(5).is_none());
    hotbar.set_active_slot(7);
    assert_eq!(hotbar.active_slot(), 0);
    assert_eq!(hotbar.size(), 2);
}
