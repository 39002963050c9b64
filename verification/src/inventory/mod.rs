//! Server-side inventory logic: item definitions, the hotbar, item use and
//! starting loadouts.

pub mod config;
pub mod item_registry;
pub mod items;
pub mod use_system;

pub use config::{get_starting_loadout, give_starting_loadout};
pub use item_registry::{get_heal_amount, get_item_def, get_max_stack, get_weapon_damage, item_defs};
pub use use_system::{decrement_active_consumable, use_active_item, UseResult};
