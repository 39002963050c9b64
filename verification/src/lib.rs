//! Verified core of the Plix game server: connection security and the network
//! loop's packet checks, match flow, quests and NPC dialogue, inventory use,
//! mob damage attribution, mod payload sync, auto-save scheduling,
//! performance bookkeeping and server configuration.

pub mod assoc;
pub mod clock;
pub mod limits;
pub mod inventory;
pub mod master_announce;
pub mod mob;
pub mod match_state;
pub mod mods;
pub mod netloop;
pub mod npc;
pub mod perf;
pub mod persist;
pub mod protocol;
pub mod quest;
pub mod replication;
pub mod text;
pub mod security;
