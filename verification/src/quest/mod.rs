//! Quests: per-player progress through quest steps, and the quest system that
//! moves it on from game events, grants rewards and tells players.

pub mod progress;
pub mod system;

pub use progress::{ActiveQuestState, PlayerQuestProgress, StepProgress};
pub use system::{QuestDefinition, QuestEvent, QuestStep, QuestSystem, QuestSystemConfig};
