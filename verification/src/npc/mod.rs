//! NPC interactions: which dialogue an NPC shows a player, the player's
//! dialogue session, and the answer to it.

pub mod dialogue;
