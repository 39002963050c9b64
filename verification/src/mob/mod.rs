//! Mob bookkeeping: who dealt damage to a mob, and who landed the last hit.

pub mod ai;
pub mod damage;
pub mod system;
