//! Quest system managing player progress and quest events
//!
//! Handles:
//! - Quest starting with prerequisite validation
//! - Step progress updates from game events
//! - Quest completion with reward granting
//! - The messages sent to players about their quests
//!
//! Game events reach every active quest of the player concerned; the order in
//! which the quests are visited is not promised.

use vstd::prelude::*;

use crate::assoc::{has_key, keys_unique, lemma_absent, lemma_at, lemma_len, lemma_push, lemma_remove, to_map};
use crate::inventory::items::ItemId;
use crate::master_announce::config::strings_view;
use crate::protocol::PlayerId;
use crate::quest::progress::{
    advanced, all_completed, fresh_steps, marked, sat_add, start_refusal, stepped, ActiveQuestState,
    PlayerQuestProgress, PlayerQuestsView, QuestView,
};
use crate::text::{concat, decimal, owned, str_eq, u64_to_decimal};

verus! {

/// Configuration for the quest system.
#[derive(Debug, Clone, Copy, PartialEq, Eq, Structural)]
pub struct QuestSystemConfig {
    /// Maximum number of active quests per player
    pub max_active_quests: usize,
}

impl Default for QuestSystemConfig {
    fn default() -> (c: QuestSystemConfig)
        ensures
            c == (QuestSystemConfig { max_active_quests: 10 }),
    {
        QuestSystemConfig { max_active_quests: 10 }
    }
}

/// One step of a quest: what the player must do.
#[derive(Debug, Clone)]
pub enum QuestStep {
    /// Kill `count` mobs of a kind
    KillMob { mob_id: String, count: u32, description: String },
    /// Collect `count` items of a kind
    CollectItem { item_id: ItemId, count: u32, description: String },
    /// Visit a region
    VisitLocation { region_id: String, description: String },
    /// Talk to an NPC
    TalkToNpc { npc_id: String, description: String },
    /// Clear a dungeon
    DungeonClear { dungeon_id: String, description: String },
}

/// What a step asks for.
pub enum StepKindView {
    KillMob { mob_id: Seq<char>, count: u32 },
    CollectItem { item_id: ItemId, count: u32 },
    VisitLocation { region_id: Seq<char> },
    TalkToNpc { npc_id: Seq<char> },
    DungeonClear { dungeon_id: Seq<char> },
}

/// What a step says: what it asks for and its description.
pub struct QuestStepView {
    pub kind: StepKindView,
    pub description: Seq<char>,
}

impl View for QuestStep {
    type V = QuestStepView;

    open spec fn view(&self) -> QuestStepView {
        match self {
            QuestStep::KillMob { mob_id, count, description } => QuestStepView {
                kind: StepKindView::KillMob { mob_id: mob_id@, count: *count },
                description: description@,
            },
            QuestStep::CollectItem { item_id, count, description } => QuestStepView {
                kind: StepKindView::CollectItem { item_id: *item_id, count: *count },
                description: description@,
            },
            QuestStep::VisitLocation { region_id, description } => QuestStepView {
                kind: StepKindView::VisitLocation { region_id: region_id@ },
                description: description@,
            },
            QuestStep::TalkToNpc { npc_id, description } => QuestStepView {
                kind: StepKindView::TalkToNpc { npc_id: npc_id@ },
                description: description@,
            },
            QuestStep::DungeonClear { dungeon_id, description } => QuestStepView {
                kind: StepKindView::DungeonClear { dungeon_id: dungeon_id@ },
                description: description@,
            },
        }
    }
}

/// The count a step needs: the number of kills or items, none for a step that
/// is simply done.
pub open spec fn step_target(k: StepKindView) -> Option<u32> {
    match k {
        StepKindView::KillMob { count, .. } => Some(count),
        StepKindView::CollectItem { count, .. } => Some(count),
        _ => None,
    }
}

impl QuestStep {
    /// The count this step needs, if it is countable.
    pub fn target_count(&self) -> (t: Option<u32>)
        ensures
            t == step_target(self@.kind),
    {
        match self {
            QuestStep::KillMob { count, .. } => Some(*count),
            QuestStep::CollectItem { count, .. } => Some(*count),
            _ => None,
        }
    }

    /// The step's description.
    pub fn description(&self) -> (d: &str)
        ensures
            d@ == self@.description,
    {
        match self {
            QuestStep::KillMob { description, .. } => description.as_str(),
            QuestStep::CollectItem { description, .. } => description.as_str(),
            QuestStep::VisitLocation { description, .. } => description.as_str(),
            QuestStep::TalkToNpc { description, .. } => description.as_str(),
            QuestStep::DungeonClear { description, .. } => description.as_str(),
        }
    }
}

/// What completing a quest earns.
#[derive(Debug, Clone)]
pub struct QuestRewards {
    pub xp: u32,
    pub currency: u32,
    /// Items granted, with their quantities
    pub items: Vec<(ItemId, u32)>,
}

/// What a quest's rewards say.
pub struct RewardsView {
    pub xp: u32,
    pub currency: u32,
    pub items: Seq<(ItemId, u32)>,
}

impl View for QuestRewards {
    type V = RewardsView;

    open spec fn view(&self) -> RewardsView {
        RewardsView { xp: self.xp, currency: self.currency, items: self.items@ }
    }
}

impl QuestRewards {
    /// A copy of these rewards.
    pub fn copy(&self) -> (r: QuestRewards)
        ensures
            r@ == self@,
    {
        let mut items: Vec<(ItemId, u32)> = Vec::new();
        let mut i: usize = 0;
        while i < self.items.len()
            invariant
                i <= self.items@.len(),
                items@ == self.items@.take(i as int),
            decreases self.items@.len() - i,
        {
            let (id, n) = self.items[i];
            items.push((id, n));
            i = i + 1;
            assert(items@ =~= self.items@.take(i as int));
        }
        assert(self.items@.take(self.items@.len() as int) =~= self.items@);
        QuestRewards { xp: self.xp, currency: self.currency, items }
    }
}

/// A quest as content defines it.
#[derive(Debug, Clone)]
pub struct QuestDefinition {
    pub quest_id: String,
    pub title: String,
    pub description_short: String,
    /// Quests that must be completed before this one can be started
    pub prerequisites: Vec<String>,
    pub steps: Vec<QuestStep>,
    pub rewards: QuestRewards,
    /// Whether the quest can be taken again once completed
    pub repeatable: bool,
}

/// What a quest definition says.
pub struct QuestDefView {
    pub quest_id: Seq<char>,
    pub title: Seq<char>,
    pub description_short: Seq<char>,
    pub prerequisites: Seq<Seq<char>>,
    pub steps: Seq<QuestStepView>,
    pub rewards: RewardsView,
    pub repeatable: bool,
}

/// The views of a list of steps.
pub open spec fn steps_of(v: Seq<QuestStep>) -> Seq<QuestStepView> {
    v.map_values(|s: QuestStep| s@)
}

impl View for QuestDefinition {
    type V = QuestDefView;

    open spec fn view(&self) -> QuestDefView {
        QuestDefView {
            quest_id: self.quest_id@,
            title: self.title@,
            description_short: self.description_short@,
            prerequisites: strings_view(self.prerequisites@),
            steps: steps_of(self.steps@),
            rewards: self.rewards@,
            repeatable: self.repeatable,
        }
    }
}

/// The count each step of a quest needs.
pub open spec fn targets_of(steps: Seq<QuestStepView>) -> Seq<Option<u32>> {
    steps.map_values(|s: QuestStepView| step_target(s.kind))
}

/// Event emitted by the quest system.
#[derive(Debug, Clone)]
pub enum QuestEvent {
    /// Quest was started
    Started { player_id: PlayerId, quest_id: String },
    /// Quest step was completed
    StepCompleted { player_id: PlayerId, quest_id: String, step_index: usize },
    /// Quest was completed
    Completed { player_id: PlayerId, quest_id: String, xp: u32, currency: u32 },
    /// Quest was abandoned
    Abandoned { player_id: PlayerId, quest_id: String },
    /// Quest became available (prerequisites met)
    Available { player_id: PlayerId, quest_id: String },
}

/// What a quest event says.
pub enum QuestEventView {
    Started { player_id: PlayerId, quest_id: Seq<char> },
    StepCompleted { player_id: PlayerId, quest_id: Seq<char>, step_index: usize },
    Completed { player_id: PlayerId, quest_id: Seq<char>, xp: u32, currency: u32 },
    Abandoned { player_id: PlayerId, quest_id: Seq<char> },
    Available { player_id: PlayerId, quest_id: Seq<char> },
}

impl View for QuestEvent {
    type V = QuestEventView;

    open spec fn view(&self) -> QuestEventView {
        match self {
            QuestEvent::Started { player_id, quest_id } => QuestEventView::Started {
                player_id: *player_id,
                quest_id: quest_id@,
            },
            QuestEvent::StepCompleted { player_id, quest_id, step_index } => QuestEventView::StepCompleted {
                player_id: *player_id,
                quest_id: quest_id@,
                step_index: *step_index,
            },
            QuestEvent::Completed { player_id, quest_id, xp, currency } => QuestEventView::Completed {
                player_id: *player_id,
                quest_id: quest_id@,
                xp: *xp,
                currency: *currency,
            },
            QuestEvent::Abandoned { player_id, quest_id } => QuestEventView::Abandoned {
                player_id: *player_id,
                quest_id: quest_id@,
            },
            QuestEvent::Available { player_id, quest_id } => QuestEventView::Available {
                player_id: *player_id,
                quest_id: quest_id@,
            },
        }
    }
}

/// What a quest update reports.
#[derive(Debug, Clone, Copy, PartialEq, Eq, Structural)]
pub enum QuestUpdateType {
    Started,
    StepProgress,
    StepAdvanced,
    Completed,
    Abandoned,
}

/// What a quest notification announces.
#[derive(Debug, Clone, Copy, PartialEq, Eq, Structural)]
pub enum QuestNotificationType {
    Started,
    StepCompleted,
    Completed,
    Abandoned,
}

/// A step's progress as a player is told it.
#[derive(Debug, Clone, Copy, PartialEq, Eq, Structural)]
pub struct StepProgressInfo {
    pub current: u32,
    pub target: u32,
    pub completed: bool,
}

/// A step of an active quest as a player is told it.
#[derive(Debug, Clone)]
pub struct QuestStepInfo {
    pub description: String,
    pub progress: Option<StepProgressInfo>,
}

/// What a step's info says.
pub struct QuestStepInfoView {
    pub description: Seq<char>,
    pub progress: Option<StepProgressInfo>,
}

impl View for QuestStepInfo {
    type V = QuestStepInfoView;

    open spec fn view(&self) -> QuestStepInfoView {
        QuestStepInfoView { description: self.description@, progress: self.progress }
    }
}

/// An active quest as a player is told it.
#[derive(Debug, Clone)]
pub struct ActiveQuestInfo {
    pub quest_id: String,
    pub title: String,
    pub description: String,
    pub current_step: u32,
    pub steps: Vec<QuestStepInfo>,
    pub pinned: bool,
}

/// What an active quest's info says.
pub struct ActiveQuestInfoView {
    pub quest_id: Seq<char>,
    pub title: Seq<char>,
    pub description: Seq<char>,
    pub current_step: u32,
    pub steps: Seq<QuestStepInfoView>,
    pub pinned: bool,
}

impl View for ActiveQuestInfo {
    type V = ActiveQuestInfoView;

    open spec fn view(&self) -> ActiveQuestInfoView {
        ActiveQuestInfoView {
            quest_id: self.quest_id@,
            title: self.title@,
            description: self.description@,
            current_step: self.current_step,
            steps: self.steps@.map_values(|s: QuestStepInfo| s@),
            pinned: self.pinned,
        }
    }
}

/// The views of a list of quest infos.
pub open spec fn infos_view(v: Seq<ActiveQuestInfo>) -> Seq<ActiveQuestInfoView> {
    v.map_values(|i: ActiveQuestInfo| i@)
}

/// The info of an active quest: its definition's id, title and short
/// description, each of its steps with the progress recorded for it, the
/// current step and whether it is pinned.
pub open spec fn quest_info(d: QuestDefView, q: QuestView) -> ActiveQuestInfoView {
    ActiveQuestInfoView {
        quest_id: d.quest_id,
        title: d.title,
        description: d.description_short,
        current_step: q.current_step as u32,
        steps: Seq::new(
            d.steps.len(),
            |i: int|
                QuestStepInfoView {
                    description: d.steps[i].description,
                    progress: if i < q.steps.len() {
                        Some(
                            StepProgressInfo {
                                current: q.steps[i].current,
                                target: q.steps[i].target,
                                completed: q.steps[i].completed,
                            },
                        )
                    } else {
                        None
                    },
                },
        ),
        pinned: q.pinned,
    }
}

/// A message for a player about their quests.
#[derive(Debug, Clone)]
pub enum QuestMessage {
    /// A change to one quest
    Update {
        quest_id: String,
        update_type: QuestUpdateType,
        step_index: Option<u32>,
        progress: Option<u32>,
        target: Option<u32>,
    },
    /// Something to announce, with the rewards of a completed quest
    Notification { quest_id: String, notification_type: QuestNotificationType, rewards: Option<QuestRewards> },
    /// All of a player's quests, sent on connect
    Sync { active_quests: Vec<ActiveQuestInfo>, completed_quest_ids: Vec<String> },
    /// The pinned quest for the HUD tracker
    Tracker {
        quest_id: String,
        title: String,
        current_step: u32,
        step_description: String,
        progress: u32,
        target: u32,
    },
}

/// What a quest message says.
pub enum QuestMessageView {
    Update {
        quest_id: Seq<char>,
        update_type: QuestUpdateType,
        step_index: Option<u32>,
        progress: Option<u32>,
        target: Option<u32>,
    },
    Notification {
        quest_id: Seq<char>,
        notification_type: QuestNotificationType,
        rewards: Option<RewardsView>,
    },
    Sync { active_quests: Seq<ActiveQuestInfoView>, completed_quest_ids: Seq<Seq<char>> },
    Tracker {
        quest_id: Seq<char>,
        title: Seq<char>,
        current_step: u32,
        step_description: Seq<char>,
        progress: u32,
        target: u32,
    },
}

impl View for QuestMessage {
    type V = QuestMessageView;

    open spec fn view(&self) -> QuestMessageView {
        match self {
            QuestMessage::Update { quest_id, update_type, step_index, progress, target } => QuestMessageView::Update {
                quest_id: quest_id@,
                update_type: *update_type,
                step_index: *step_index,
                progress: *progress,
                target: *target,
            },
            QuestMessage::Notification { quest_id, notification_type, rewards } => QuestMessageView::Notification {
                quest_id: quest_id@,
                notification_type: *notification_type,
                rewards: match rewards {
                    Some(r) => Some(r@),
                    None => None,
                },
            },
            QuestMessage::Sync { active_quests, completed_quest_ids } => QuestMessageView::Sync {
                active_quests: infos_view(active_quests@),
                completed_quest_ids: strings_view(completed_quest_ids@),
            },
            QuestMessage::Tracker { quest_id, title, current_step, step_description, progress, target } =>
                QuestMessageView::Tracker {
                quest_id: quest_id@,
                title: title@,
                current_step: *current_step,
                step_description: step_description@,
                progress: *progress,
                target: *target,
            },
        }
    }
}

/// A game event that may move quests on.
pub enum QuestTrigger {
    MobKilled { mob_id: Seq<char> },
    ItemCollected { item_id: ItemId, count: u32 },
    RegionVisited { region_id: Seq<char> },
    NpcTalked { npc_id: Seq<char> },
    DungeonCleared { dungeon_id: Seq<char> },
}

/// Whether a step is the one a game event serves.
pub open spec fn serves(k: StepKindView, t: QuestTrigger) -> bool {
    match (k, t) {
        (StepKindView::KillMob { mob_id: a, .. }, QuestTrigger::MobKilled { mob_id: b }) => a == b,
        (StepKindView::CollectItem { item_id: a, .. }, QuestTrigger::ItemCollected { item_id: b, .. }) => a == b,
        (StepKindView::VisitLocation { region_id: a }, QuestTrigger::RegionVisited { region_id: b }) => a == b,
        (StepKindView::TalkToNpc { npc_id: a }, QuestTrigger::NpcTalked { npc_id: b }) => a == b,
        (StepKindView::DungeonClear { dungeon_id: a }, QuestTrigger::DungeonCleared { dungeon_id: b }) => a == b,
        _ => false,
    }
}

} // verus!

verus! {

/// The observable state of a [`QuestSystem`].
pub struct QuestSystemView {
    pub max_active_quests: usize,
    /// Quest definitions, keyed by quest id
    pub quests: Map<Seq<char>, QuestDefView>,
    /// Each player's progress, keyed by player
    pub players: Map<PlayerId, PlayerQuestsView>,
    /// Events not yet taken, oldest first
    pub events: Seq<QuestEventView>,
    /// Messages not yet taken, oldest first, each with its recipient
    pub messages: Seq<(PlayerId, QuestMessageView)>,
}

/// An update message.
pub open spec fn update_msg(
    quest_id: Seq<char>,
    update_type: QuestUpdateType,
    step_index: Option<u32>,
    progress: Option<u32>,
    target: Option<u32>,
) -> QuestMessageView {
    QuestMessageView::Update { quest_id, update_type, step_index, progress, target }
}

/// A notification message.
pub open spec fn note_msg(
    quest_id: Seq<char>,
    notification_type: QuestNotificationType,
    rewards: Option<RewardsView>,
) -> QuestMessageView {
    QuestMessageView::Notification { quest_id, notification_type, rewards }
}

/// The state with one more message for `p`.
pub open spec fn with_msg(w: QuestSystemView, p: PlayerId, m: QuestMessageView) -> QuestSystemView {
    QuestSystemView { messages: w.messages.push((p, m)), ..w }
}

/// The state with one more event.
pub open spec fn with_event(w: QuestSystemView, e: QuestEventView) -> QuestSystemView {
    QuestSystemView { events: w.events.push(e), ..w }
}

/// The state with the active quest `quest_id` of `p` replaced by `q`.
pub open spec fn with_quest(w: QuestSystemView, p: PlayerId, quest_id: Seq<char>, q: QuestView) -> QuestSystemView {
    QuestSystemView {
        players: w.players.insert(
            p,
            PlayerQuestsView { active: w.players[p].active.insert(quest_id, q), ..w.players[p] },
        ),
        ..w
    }
}

/// The state after quest `quest_id` of `p` is completed: it leaves the active
/// quests for the completed ones, its rewards are added, an event and an
/// update are recorded, and the player is told the rewards.
pub open spec fn completed_quest(w: QuestSystemView, p: PlayerId, quest_id: Seq<char>) -> QuestSystemView {
    if !w.quests.contains_key(quest_id) || !w.players.contains_key(p) {
        w
    } else {
        let d = w.quests[quest_id];
        let pl = w.players[p];
        let pl1 = if pl.active.contains_key(quest_id) {
            PlayerQuestsView { active: pl.active.remove(quest_id), completed: pl.completed.insert(quest_id), ..pl }
        } else {
            pl
        };
        let pl2 = PlayerQuestsView {
            xp: sat_add(pl1.xp, d.rewards.xp),
            currency: sat_add(pl1.currency, d.rewards.currency),
            ..pl1
        };
        let w1 = QuestSystemView { players: w.players.insert(p, pl2), ..w };
        let w2 = with_event(
            w1,
            QuestEventView::Completed { player_id: p, quest_id, xp: d.rewards.xp, currency: d.rewards.currency },
        );
        let w3 = with_msg(w2, p, update_msg(quest_id, QuestUpdateType::Completed, None, None, None));
        with_msg(w3, p, note_msg(quest_id, QuestNotificationType::Completed, Some(d.rewards)))
    }
}

/// The state after step `step_index` of quest `quest_id` of `p` is completed:
/// an event and a notification are recorded, the quest moves on to its next
/// step if there is one (with an update saying so), and a quest whose steps
/// are all completed is completed.
pub open spec fn step_done(w: QuestSystemView, p: PlayerId, quest_id: Seq<char>, step_index: usize) -> QuestSystemView {
    let w1 = with_msg(
        with_event(w, QuestEventView::StepCompleted { player_id: p, quest_id, step_index }),
        p,
        note_msg(quest_id, QuestNotificationType::StepCompleted, None),
    );
    if !w1.players.contains_key(p) || !w1.players[p].active.contains_key(quest_id) {
        w1
    } else {
        let (q2, moved) = advanced(w1.players[p].active[quest_id]);
        let w2 = with_quest(w1, p, quest_id, q2);
        let w3 = if moved {
            with_msg(
                w2,
                p,
                update_msg(quest_id, QuestUpdateType::StepAdvanced, Some(q2.current_step as u32), None, None),
            )
        } else {
            w2
        };
        if all_completed(q2.steps) {
            completed_quest(w3, p, quest_id)
        } else {
            w3
        }
    }
}

/// The state after `amount` more progress on the current step of active quest
/// `quest_id` of `p`, with an update reporting the new count.
pub open spec fn progressed(w: QuestSystemView, p: PlayerId, quest_id: Seq<char>, amount: u32) -> QuestSystemView {
    let q = w.players[p].active[quest_id];
    let cur = q.current_step;
    if cur >= q.steps.len() {
        w
    } else {
        let (s1, done) = stepped(q.steps[cur as int], amount);
        let w1 = with_msg(
            with_quest(w, p, quest_id, QuestView { steps: q.steps.update(cur as int, s1), ..q }),
            p,
            update_msg(quest_id, QuestUpdateType::StepProgress, Some(cur as u32), Some(s1.current), Some(s1.target)),
        );
        if done {
            step_done(w1, p, quest_id, cur)
        } else {
            w1
        }
    }
}

/// The state after the current step of active quest `quest_id` of `p` is
/// reached, for a step that is simply done: nothing if it already was.
pub open spec fn reached(w: QuestSystemView, p: PlayerId, quest_id: Seq<char>) -> QuestSystemView {
    let q = w.players[p].active[quest_id];
    let cur = q.current_step;
    if cur >= q.steps.len() || q.steps[cur as int].completed {
        w
    } else {
        step_done(
            with_quest(w, p, quest_id, QuestView { steps: q.steps.update(cur as int, marked(q.steps[cur as int])), ..q }),
            p,
            quest_id,
            cur,
        )
    }
}

/// The state after game event `t` reaches quest `quest_id` of `p`: when the
/// quest is active, defined, and its current step is the one the event
/// serves, kills count one, collected items count their number, and the other
/// events reach the step.
pub open spec fn on_quest(w: QuestSystemView, p: PlayerId, quest_id: Seq<char>, t: QuestTrigger) -> QuestSystemView {
    if !w.players.contains_key(p) || !w.players[p].active.contains_key(quest_id) || !w.quests.contains_key(quest_id) {
        w
    } else {
        let q = w.players[p].active[quest_id];
        let d = w.quests[quest_id];
        if q.current_step >= d.steps.len() || !serves(d.steps[q.current_step as int].kind, t) {
            w
        } else {
            match t {
                QuestTrigger::MobKilled { .. } => progressed(w, p, quest_id, 1),
                QuestTrigger::ItemCollected { count, .. } => progressed(w, p, quest_id, count),
                _ => reached(w, p, quest_id),
            }
        }
    }
}

/// The state after game event `t` reaches the quests `ids` of `p`, in order.
pub open spec fn on_quests(w: QuestSystemView, p: PlayerId, ids: Seq<Seq<char>>, t: QuestTrigger) -> QuestSystemView
    decreases ids.len(),
{
    if ids.len() == 0 {
        w
    } else {
        on_quest(on_quests(w, p, ids.drop_last(), t), p, ids.last(), t)
    }
}

/// The state after game event `t` reaches every active quest of `p`, in some
/// order; nothing happens for a player without progress.
pub open spec fn on_player_event(w0: QuestSystemView, w1: QuestSystemView, p: PlayerId, t: QuestTrigger) -> bool {
    if !w0.players.contains_key(p) {
        w1 == w0
    } else {
        exists|ids: Seq<Seq<char>>|
            #![trigger on_quests(w0, p, ids, t)]
            ids.no_duplicates() && ids.to_set() == w0.players[p].active.dom() && w1 == on_quests(w0, p, ids, t)
    }
}

/// The first quest of `required` not in `done`.
pub open spec fn first_missing(required: Seq<Seq<char>>, done: Set<Seq<char>>) -> Option<Seq<char>>
    decreases required.len(),
{
    if required.len() == 0 {
        None
    } else if !done.contains(required[0]) {
        Some(required[0])
    } else {
        first_missing(required.drop_first(), done)
    }
}

/// The quests `p` has completed.
pub open spec fn completed_by(w: QuestSystemView, p: PlayerId) -> Set<Seq<char>> {
    if w.players.contains_key(p) {
        w.players[p].completed
    } else {
        Set::empty()
    }
}

/// Why `p` may not start quest `quest_id`: it is unknown, or a quest it
/// requires is not completed.
pub open spec fn prerequisite_error(w: QuestSystemView, p: PlayerId, quest_id: Seq<char>) -> Option<Seq<char>> {
    if !w.quests.contains_key(quest_id) {
        Some("Unknown quest: "@ + quest_id)
    } else {
        match first_missing(w.quests[quest_id].prerequisites, completed_by(w, p)) {
            Some(q) => Some("Requires completion of: "@ + q),
            None => None,
        }
    }
}

/// A player's progress before anything is recorded.
pub open spec fn no_progress(p: PlayerId) -> PlayerQuestsView {
    PlayerQuestsView { player_id: p, active: Map::empty(), completed: Set::empty(), xp: 0, currency: 0 }
}

/// The state with a progress record for `p`, a fresh one if there was none.
pub open spec fn with_record(w: QuestSystemView, p: PlayerId) -> QuestSystemView {
    if w.players.contains_key(p) {
        w
    } else {
        QuestSystemView { players: w.players.insert(p, no_progress(p)), ..w }
    }
}

/// What starting quest `quest_id` for `p` gives: the new state, and the error
/// when it is refused. Past the prerequisites the player's record exists,
/// whatever follows; then the active quests must be under the limit and the
/// quest neither active nor completed for good.
pub open spec fn start_outcome(w: QuestSystemView, p: PlayerId, quest_id: Seq<char>) -> (QuestSystemView, Option<Seq<char>>) {
    match prerequisite_error(w, p, quest_id) {
        Some(e) => (w, Some(e)),
        None => {
            let w1 = with_record(w, p);
            let pl = w1.players[p];
            let d = w1.quests[quest_id];
            if pl.active.dom().len() >= w.max_active_quests {
                (
                    w1,
                    Some(
                        "Maximum active quests ("@ + decimal(w.max_active_quests as nat) + ") reached"@,
                    ),
                )
            } else {
                match start_refusal(pl, quest_id, d.repeatable) {
                    Some(e) => (w1, Some(e)),
                    None => {
                        let q = QuestView {
                            quest_id,
                            steps: fresh_steps(targets_of(d.steps)),
                            current_step: 0,
                            pinned: false,
                        };
                        let w2 = QuestSystemView {
                            players: w1.players.insert(
                                p,
                                PlayerQuestsView { active: pl.active.insert(quest_id, q), ..pl },
                            ),
                            ..w1
                        };
                        let w3 = with_event(w2, QuestEventView::Started { player_id: p, quest_id });
                        let w4 = with_msg(w3, p, update_msg(quest_id, QuestUpdateType::Started, None, None, None));
                        (with_msg(w4, p, note_msg(quest_id, QuestNotificationType::Started, None)), None)
                    },
                }
            }
        },
    }
}

} // verus!

verus! {

/// What abandoning quest `quest_id` for `p` gives: the new state, and the
/// error when it is refused.
pub open spec fn abandon_outcome(w: QuestSystemView, p: PlayerId, quest_id: Seq<char>) -> (QuestSystemView, Option<Seq<char>>) {
    if !w.players.contains_key(p) {
        (w, Some("No progress for player"@))
    } else if !w.players[p].active.contains_key(quest_id) {
        (w, Some("Quest not active"@))
    } else {
        let pl = w.players[p];
        let w1 = QuestSystemView {
            players: w.players.insert(p, PlayerQuestsView { active: pl.active.remove(quest_id), ..pl }),
            ..w
        };
        let w2 = with_event(w1, QuestEventView::Abandoned { player_id: p, quest_id });
        let w3 = with_msg(w2, p, update_msg(quest_id, QuestUpdateType::Abandoned, None, None, None));
        (with_msg(w3, p, note_msg(quest_id, QuestNotificationType::Abandoned, None)), None)
    }
}

/// The infos of the quests `ids` of `p` that are defined, in order.
pub open spec fn infos_of(w: QuestSystemView, p: PlayerId, ids: Seq<Seq<char>>) -> Seq<ActiveQuestInfoView>
    decreases ids.len(),
{
    if ids.len() == 0 {
        Seq::empty()
    } else {
        let r = infos_of(w, p, ids.drop_last());
        let k = ids.last();
        if w.quests.contains_key(k) {
            r.push(quest_info(w.quests[k], w.players[p].active[k]))
        } else {
            r
        }
    }
}

/// Whether `m` is a sync message for `p`: the info of each of the player's
/// defined active quests and the ids of the completed ones, each once and in
/// some order; both empty for a player without progress.
pub open spec fn is_sync_for(w: QuestSystemView, p: PlayerId, m: QuestMessageView) -> bool {
    match m {
        QuestMessageView::Sync { active_quests, completed_quest_ids } => if !w.players.contains_key(p) {
            active_quests == Seq::<ActiveQuestInfoView>::empty() && completed_quest_ids == Seq::<Seq<char>>::empty()
        } else {
            &&& exists|ids: Seq<Seq<char>>|
                #![trigger infos_of(w, p, ids)]
                ids.no_duplicates() && ids.to_set() == w.players[p].active.dom() && active_quests == infos_of(w, p, ids)
            &&& completed_quest_ids.no_duplicates()
            &&& completed_quest_ids.to_set() == w.players[p].completed
        },
        _ => false,
    }
}

/// The active quests with only `target` pinned.
pub open spec fn pin_map(active: Map<Seq<char>, QuestView>, target: Option<Seq<char>>) -> Map<Seq<char>, QuestView> {
    Map::new(|k: Seq<char>| active.contains_key(k), |k: Seq<char>| QuestView { pinned: target == Some(k), ..active[k] })
}

/// The tracker message for quest `quest_id` of `p`: its title, current step
/// and that step's description and count (0 of 1 past the last step).
pub open spec fn tracker_msg(w: QuestSystemView, p: PlayerId, quest_id: Seq<char>) -> QuestMessageView {
    let q = w.players[p].active[quest_id];
    let d = w.quests[quest_id];
    let cur = q.current_step;
    QuestMessageView::Tracker {
        quest_id,
        title: d.title,
        current_step: cur as u32,
        step_description: if cur < d.steps.len() {
            d.steps[cur as int].description
        } else {
            Seq::empty()
        },
        progress: if cur < q.steps.len() {
            q.steps[cur as int].current
        } else {
            0
        },
        target: if cur < q.steps.len() {
            q.steps[cur as int].target
        } else {
            1
        },
    }
}

/// The state after the tracker of `p` is sent for quest `quest_id`, when the
/// quest is active and defined.
pub open spec fn with_tracker(w: QuestSystemView, p: PlayerId, quest_id: Seq<char>) -> QuestSystemView {
    if w.players.contains_key(p) && w.players[p].active.contains_key(quest_id) && w.quests.contains_key(quest_id) {
        with_msg(w, p, tracker_msg(w, p, quest_id))
    } else {
        w
    }
}

/// The state after `p` pins `target` (or unpins all): only that quest is
/// pinned, and the tracker is sent for it.
pub open spec fn pinned_state(w: QuestSystemView, p: PlayerId, target: Option<Seq<char>>) -> QuestSystemView {
    if !w.players.contains_key(p) {
        w
    } else {
        let pl = w.players[p];
        let w1 = QuestSystemView {
            players: w.players.insert(p, PlayerQuestsView { active: pin_map(pl.active, target), ..pl }),
            ..w
        };
        match target {
            Some(q) => with_tracker(w1, p, q),
            None => w1,
        }
    }
}

} // verus!

verus! {

/// The main quest system.
pub struct QuestSystem {
    /// Configuration
    config: QuestSystemConfig,
    /// Quest definitions, one per quest id
    quest_defs: Vec<QuestDefinition>,
    /// Player quest progress, one per player
    player_progress: Vec<PlayerQuestProgress>,
    /// Pending events (consumed by caller)
    pending_events: Vec<QuestEvent>,
    /// Pending messages to send
    pending_messages: Vec<(PlayerId, QuestMessage)>,
}

/// The definitions, keyed by quest id.
pub open spec fn def_pairs(v: Seq<QuestDefinition>) -> Seq<(Seq<char>, QuestDefView)> {
    v.map_values(|d: QuestDefinition| (d.quest_id@, d@))
}

/// The progress records, keyed by player.
pub open spec fn player_pairs(v: Seq<PlayerQuestProgress>) -> Seq<(PlayerId, PlayerQuestsView)> {
    v.map_values(|p: PlayerQuestProgress| (p@.player_id, p@))
}

/// The views of a list of events.
pub open spec fn quest_events(v: Seq<QuestEvent>) -> Seq<QuestEventView> {
    v.map_values(|e: QuestEvent| e@)
}

/// The views of a list of addressed messages.
pub open spec fn quest_messages(v: Seq<(PlayerId, QuestMessage)>) -> Seq<(PlayerId, QuestMessageView)> {
    v.map_values(|m: (PlayerId, QuestMessage)| (m.0, m.1@))
}

impl View for QuestSystem {
    type V = QuestSystemView;

    closed spec fn view(&self) -> QuestSystemView {
        QuestSystemView {
            max_active_quests: self.config.max_active_quests,
            quests: to_map(def_pairs(self.quest_defs@)),
            players: to_map(player_pairs(self.player_progress@)),
            events: quest_events(self.pending_events@),
            messages: quest_messages(self.pending_messages@),
        }
    }
}

impl QuestSystem {
    /// One definition per quest id, one record per player, each well formed.
    pub closed spec fn wf(&self) -> bool {
        &&& keys_unique(def_pairs(self.quest_defs@))
        &&& keys_unique(player_pairs(self.player_progress@))
        &&& forall|i: int| 0 <= i < self.player_progress@.len() ==> (#[trigger] self.player_progress@[i]).wf()
    }

    /// Create a new quest system.
    pub fn new(config: QuestSystemConfig) -> (s: QuestSystem)
        ensures
            s.wf(),
            s@ == (QuestSystemView {
                max_active_quests: config.max_active_quests,
                quests: Map::empty(),
                players: Map::empty(),
                events: Seq::empty(),
                messages: Seq::empty(),
            }),
    {
        let s = QuestSystem {
            config,
            quest_defs: Vec::new(),
            player_progress: Vec::new(),
            pending_events: Vec::new(),
            pending_messages: Vec::new(),
        };
        assert(def_pairs(s.quest_defs@) =~= Seq::empty());
        assert(player_pairs(s.player_progress@) =~= Seq::empty());
        assert(s@.quests =~= Map::empty());
        assert(s@.players =~= Map::empty());
        assert(s@.events =~= Seq::empty());
        assert(s@.messages =~= Seq::empty());
        s
    }

    fn find_def(&self, quest_id: &str) -> (r: Option<usize>)
        requires
            self.wf(),
        ensures
            match r {
                Some(i) => i < self.quest_defs@.len() && self@.quests.contains_key(quest_id@)
                    && self.quest_defs@[i as int]@ == self@.quests[quest_id@]
                    && self.quest_defs@[i as int].quest_id@ == quest_id@,
                None => !self@.quests.contains_key(quest_id@) && !has_key(def_pairs(self.quest_defs@), quest_id@),
            },
    {
        let ghost ps = def_pairs(self.quest_defs@);
        let mut i: usize = 0;
        while i < self.quest_defs.len()
            invariant
                self.wf(),
                ps == def_pairs(self.quest_defs@),
                i <= self.quest_defs@.len(),
                forall|k: int| 0 <= k < i ==> self.quest_defs@[k].quest_id@ != quest_id@,
            decreases self.quest_defs@.len() - i,
        {
            if str_eq(self.quest_defs[i].quest_id.as_str(), quest_id) {
                proof {
                    lemma_at(ps, i as int);
                }
                return Some(i);
            }
            i = i + 1;
        }
        proof {
            assert forall|k: int| 0 <= k < ps.len() implies ps[k].0 != quest_id@ by {
                assert(ps[k].0 == self.quest_defs@[k].quest_id@);
            }
            lemma_absent(ps, quest_id@);
        }
        None
    }

    fn find_player(&self, player_id: PlayerId) -> (r: Option<usize>)
        requires
            self.wf(),
        ensures
            match r {
                Some(i) => i < self.player_progress@.len() && self@.players.contains_key(player_id)
                    && self.player_progress@[i as int]@ == self@.players[player_id]
                    && self.player_progress@[i as int]@.player_id == player_id,
                None => !self@.players.contains_key(player_id) && !has_key(player_pairs(self.player_progress@), player_id),
            },
    {
        let ghost ps = player_pairs(self.player_progress@);
        let mut i: usize = 0;
        while i < self.player_progress.len()
            invariant
                self.wf(),
                ps == player_pairs(self.player_progress@),
                i <= self.player_progress@.len(),
                forall|k: int| 0 <= k < i ==> self.player_progress@[k]@.player_id != player_id,
            decreases self.player_progress@.len() - i,
        {
            if self.player_progress[i].owner() == player_id {
                proof {
                    lemma_at(ps, i as int);
                }
                return Some(i);
            }
            i = i + 1;
        }
        proof {
            assert forall|k: int| 0 <= k < ps.len() implies ps[k].0 != player_id by {
                assert(ps[k].0 == self.player_progress@[k]@.player_id);
            }
            lemma_absent(ps, player_id);
        }
        None
    }

    /// Take out the record at `i`.
    fn take_player(&mut self, i: usize) -> (r: PlayerQuestProgress)
        requires
            old(self).wf(),
            i < old(self).player_progress@.len(),
        ensures
            final(self).wf(),
            r.wf(),
            r@ == old(self).player_progress@[i as int]@,
            old(self)@.players.contains_key(r@.player_id),
            old(self)@.players[r@.player_id] == r@,
            final(self)@ == (QuestSystemView { players: old(self)@.players.remove(r@.player_id), ..old(self)@ }),
    {
        let ghost ps = player_pairs(self.player_progress@);
        proof {
            lemma_at(ps, i as int);
            lemma_remove(ps, i as int);
        }
        let r = self.player_progress.remove(i);
        assert(player_pairs(self.player_progress@) =~= ps.remove(i as int));
        proof {
            assert forall|k: int| 0 <= k < self.player_progress@.len() implies (#[trigger] self.player_progress@[k]).wf() by {
                let k1 = if k < i { k } else { k + 1 };
                assert(self.player_progress@[k] == old(self).player_progress@[k1]);
            }
        }
        r
    }

    /// Put back a record for a player that has none.
    fn put_player(&mut self, r: PlayerQuestProgress)
        requires
            old(self).wf(),
            r.wf(),
            !old(self)@.players.contains_key(r@.player_id),
        ensures
            final(self).wf(),
            final(self)@ == (QuestSystemView { players: old(self)@.players.insert(r@.player_id, r@), ..old(self)@ }),
    {
        let ghost ps = player_pairs(self.player_progress@);
        proof {
            assert(!has_key(ps, r@.player_id)) by {
                if has_key(ps, r@.player_id) {
                    let k = choose|k: int| 0 <= k < ps.len() && #[trigger] ps[k].0 == r@.player_id;
                    lemma_at(ps, k);
                }
            }
            lemma_push(ps, r@.player_id, r@);
        }
        self.player_progress.push(r);
        assert(player_pairs(self.player_progress@) =~= ps.push((r@.player_id, r@)));
        proof {
            assert forall|k: int| 0 <= k < self.player_progress@.len() implies (#[trigger] self.player_progress@[k]).wf() by {
                if k < ps.len() {
                    assert(self.player_progress@[k] == old(self).player_progress@[k]);
                }
            }
        }
    }

    fn push_event(&mut self, e: QuestEvent)
        ensures
            final(self)@ == with_event(old(self)@, e@),
            final(self).wf() == old(self).wf(),
    {
        let ghost v = quest_events(self.pending_events@);
        self.pending_events.push(e);
        assert(quest_events(self.pending_events@) =~= v.push(e@));
    }

    fn push_msg(&mut self, p: PlayerId, m: QuestMessage)
        ensures
            final(self)@ == with_msg(old(self)@, p, m@),
            final(self).wf() == old(self).wf(),
    {
        let ghost v = quest_messages(self.pending_messages@);
        self.pending_messages.push((p, m));
        assert(quest_messages(self.pending_messages@) =~= v.push((p, m@)));
    }

    /// Register a quest definition, replacing any with the same id.
    pub fn register_quest(&mut self, definition: QuestDefinition)
        requires
            old(self).wf(),
        ensures
            final(self).wf(),
            final(self)@ == (QuestSystemView {
                quests: old(self)@.quests.insert(definition.quest_id@, definition@),
                ..old(self)@
            }),
    {
        let ghost key = definition.quest_id@;
        let ghost dv = definition@;
        if let Some(i) = self.find_def(definition.quest_id.as_str()) {
            let ghost ps = def_pairs(self.quest_defs@);
            proof {
                lemma_remove(ps, i as int);
            }
            self.quest_defs.remove(i);
            assert(def_pairs(self.quest_defs@) =~= ps.remove(i as int));
        }
        let ghost ps = def_pairs(self.quest_defs@);
        proof {
            assert(!has_key(ps, key)) by {
                if has_key(ps, key) {
                    let k = choose|k: int| 0 <= k < ps.len() && #[trigger] ps[k].0 == key;
                    lemma_at(ps, k);
                }
            }
            lemma_push(ps, key, dv);
        }
        self.quest_defs.push(definition);
        assert(def_pairs(self.quest_defs@) =~= ps.push((key, dv)));
        assert(self@.quests =~= old(self)@.quests.insert(key, dv));
    }

    /// Get player progress (read-only).
    pub fn get_progress(&self, player_id: PlayerId) -> (r: Option<&PlayerQuestProgress>)
        requires
            self.wf(),
        ensures
            match r {
                Some(p) => self@.players.contains_key(player_id) && p@ == self@.players[player_id] && p.wf(),
                None => !self@.players.contains_key(player_id),
            },
    {
        match self.find_player(player_id) {
            Some(i) => Some(&self.player_progress[i]),
            None => None,
        }
    }

    /// Get the number of registered quests.
    pub fn quest_count(&self) -> (n: usize)
        requires
            self.wf(),
        ensures
            n == self@.quests.dom().len(),
    {
        proof {
            lemma_len(def_pairs(self.quest_defs@));
        }
        self.quest_defs.len()
    }

    /// Get a quest definition by ID.
    pub fn get_quest(&self, quest_id: &str) -> (r: Option<&QuestDefinition>)
        requires
            self.wf(),
        ensures
            match r {
                Some(d) => self@.quests.contains_key(quest_id@) && d@ == self@.quests[quest_id@],
                None => !self@.quests.contains_key(quest_id@),
            },
    {
        match self.find_def(quest_id) {
            Some(i) => Some(&self.quest_defs[i]),
            None => None,
        }
    }

    /// Take pending events (clears the internal buffer).
    pub fn take_events(&mut self) -> (events: Vec<QuestEvent>)
        ensures
            quest_events(events@) == old(self)@.events,
            final(self)@ == (QuestSystemView { events: Seq::empty(), ..old(self)@ }),
            final(self).wf() == old(self).wf(),
    {
        let mut events: Vec<QuestEvent> = Vec::new();
        std::mem::swap(&mut events, &mut self.pending_events);
        assert(quest_events(self.pending_events@) =~= Seq::empty());
        events
    }

    /// Take pending messages (clears the internal buffer).
    pub fn take_messages(&mut self) -> (messages: Vec<(PlayerId, QuestMessage)>)
        ensures
            quest_messages(messages@) == old(self)@.messages,
            final(self)@ == (QuestSystemView { messages: Seq::empty(), ..old(self)@ }),
            final(self).wf() == old(self).wf(),
    {
        let mut messages: Vec<(PlayerId, QuestMessage)> = Vec::new();
        std::mem::swap(&mut messages, &mut self.pending_messages);
        assert(quest_messages(self.pending_messages@) =~= Seq::empty());
        messages
    }

    /// Handle a player disconnect: quest progress is kept.
    pub fn on_player_disconnect(&mut self, player_id: PlayerId)
        ensures
            final(self)@ == old(self)@,
            final(self).wf() == old(self).wf(),
    {
    }
}

} // verus!

verus! {

/// A game event handed to the quest system.
enum Trigger<'a> {
    MobKilled(&'a str),
    ItemCollected(ItemId, u32),
    RegionVisited(&'a str),
    NpcTalked(&'a str),
    DungeonCleared(&'a str),
}

impl<'a> View for Trigger<'a> {
    type V = QuestTrigger;

    closed spec fn view(&self) -> QuestTrigger {
        match self {
            Trigger::MobKilled(m) => QuestTrigger::MobKilled { mob_id: m@ },
            Trigger::ItemCollected(i, c) => QuestTrigger::ItemCollected { item_id: *i, count: *c },
            Trigger::RegionVisited(r) => QuestTrigger::RegionVisited { region_id: r@ },
            Trigger::NpcTalked(n) => QuestTrigger::NpcTalked { npc_id: n@ },
            Trigger::DungeonCleared(d) => QuestTrigger::DungeonCleared { dungeon_id: d@ },
        }
    }
}

/// Whether `step` is the one event `t` serves.
fn step_serves(step: &QuestStep, t: &Trigger) -> (b: bool)
    ensures
        b == serves(step@.kind, t@),
{
    match (step, t) {
        (QuestStep::KillMob { mob_id, .. }, Trigger::MobKilled(m)) => str_eq(mob_id.as_str(), m),
        (QuestStep::CollectItem { item_id, .. }, Trigger::ItemCollected(i, _)) => item_id.0 == i.0,
        (QuestStep::VisitLocation { region_id, .. }, Trigger::RegionVisited(r)) => str_eq(region_id.as_str(), r),
        (QuestStep::TalkToNpc { npc_id, .. }, Trigger::NpcTalked(n)) => str_eq(npc_id.as_str(), n),
        (QuestStep::DungeonClear { dungeon_id, .. }, Trigger::DungeonCleared(d)) => str_eq(dungeon_id.as_str(), d),
        _ => false,
    }
}

impl QuestSystem {
    /// Complete a quest and grant rewards.
    fn complete_quest(&mut self, player_id: PlayerId, quest_id: &str)
        requires
            old(self).wf(),
        ensures
            final(self).wf(),
            final(self)@ == completed_quest(old(self)@, player_id, quest_id@),
    {
        let j = match self.find_def(quest_id) {
            Some(j) => j,
            None => {
                return;
            },
        };
        let i = match self.find_player(player_id) {
            Some(i) => i,
            None => {
                return;
            },
        };
        let rewards = self.quest_defs[j].rewards.copy();
        let xp = rewards.xp;
        let currency = rewards.currency;
        let ghost w0 = self@;
        let mut pl = self.take_player(i);
        let _ = pl.complete_quest(quest_id);
        pl.add_rewards(xp, currency);
        self.put_player(pl);
        assert(self@.players =~= completed_quest(w0, player_id, quest_id@).players);
        self.push_event(QuestEvent::Completed { player_id, quest_id: owned(quest_id), xp, currency });
        self.push_msg(
            player_id,
            QuestMessage::Update {
                quest_id: owned(quest_id),
                update_type: QuestUpdateType::Completed,
                step_index: None,
                progress: None,
                target: None,
            },
        );
        self.push_msg(
            player_id,
            QuestMessage::Notification {
                quest_id: owned(quest_id),
                notification_type: QuestNotificationType::Completed,
                rewards: Some(rewards),
            },
        );
    }

    /// Handle a step being completed.
    fn step_completed(&mut self, player_id: PlayerId, quest_id: &str, step_index: usize)
        requires
            old(self).wf(),
        ensures
            final(self).wf(),
            final(self)@ == step_done(old(self)@, player_id, quest_id@, step_index),
    {
        self.push_event(QuestEvent::StepCompleted { player_id, quest_id: owned(quest_id), step_index });
        self.push_msg(
            player_id,
            QuestMessage::Notification {
                quest_id: owned(quest_id),
                notification_type: QuestNotificationType::StepCompleted,
                rewards: None,
            },
        );
        let i = match self.find_player(player_id) {
            Some(i) => i,
            None => {
                return;
            },
        };
        if !self.player_progress[i].has_active(quest_id) {
            return;
        }
        let ghost w1 = self@;
        let mut pl = self.take_player(i);
        let mut q = match pl.abandon_quest(quest_id) {
            Some(q) => q,
            None => {
                return;
            },
        };
        let moved = q.try_advance_step();
        let cur = q.current_step;
        let done = q.is_complete();
        let ghost q2 = q@;
        pl.put_active(q);
        proof {
            let pv = w1.players[player_id];
            assert(pl@.active =~= pv.active.insert(quest_id@, q2));
            assert(pl@ == (PlayerQuestsView { active: pv.active.insert(quest_id@, q2), ..pv }));
        }
        self.put_player(pl);
        assert(self@.players =~= with_quest(w1, player_id, quest_id@, q2).players);
        if moved {
            self.push_msg(
                player_id,
                QuestMessage::Update {
                    quest_id: owned(quest_id),
                    update_type: QuestUpdateType::StepAdvanced,
                    step_index: Some(#[verifier::truncate] (cur as u32)),
                    progress: None,
                    target: None,
                },
            );
        }
        if done {
            self.complete_quest(player_id, quest_id);
        }
    }

    /// Count `amount` more on the current step of an active quest.
    fn progress_quest(&mut self, player_id: PlayerId, quest_id: &str, amount: u32)
        requires
            old(self).wf(),
            old(self)@.players.contains_key(player_id),
            old(self)@.players[player_id].active.contains_key(quest_id@),
        ensures
            final(self).wf(),
            final(self)@ == progressed(old(self)@, player_id, quest_id@, amount),
    {
        let ghost w0 = self@;
        let i = match self.find_player(player_id) {
            Some(i) => i,
            None => {
                return;
            },
        };
        let mut pl = self.take_player(i);
        let mut q = match pl.abandon_quest(quest_id) {
            Some(q) => q,
            None => {
                return;
            },
        };
        let cur = q.current_step;
        let r = q.add_current_progress(amount);
        let mut current: u32 = 0;
        let mut target: u32 = 0;
        if r.is_some() {
            assert(q.step_progress@.len() == q@.steps.len());
            current = q.step_progress[cur].current;
            target = q.step_progress[cur].target;
            assert(q@.steps[cur as int] == q.step_progress@[cur as int]@);
        }
        let ghost q1 = q@;
        pl.put_active(q);
        proof {
            let pv = w0.players[player_id];
            assert(pl@.active =~= pv.active.insert(quest_id@, q1));
            assert(pl@ == (PlayerQuestsView { active: pv.active.insert(quest_id@, q1), ..pv }));
            if r is None {
                assert(pv.active.insert(quest_id@, q1) =~= pv.active);
            }
        }
        self.put_player(pl);
        match r {
            None => {
                assert(self@.players =~= w0.players);
                assert(self@ == w0);
            },
            Some(done) => {
                assert(self@.players =~= with_quest(w0, player_id, quest_id@, q1).players);
                assert(q1 == (QuestView {
                    steps: w0.players[player_id].active[quest_id@].steps.update(
                        cur as int,
                        stepped(w0.players[player_id].active[quest_id@].steps[cur as int], amount).0,
                    ),
                    ..w0.players[player_id].active[quest_id@]
                }));
                self.push_msg(
                    player_id,
                    QuestMessage::Update {
                        quest_id: owned(quest_id),
                        update_type: QuestUpdateType::StepProgress,
                        step_index: Some(#[verifier::truncate] (cur as u32)),
                        progress: Some(current),
                        target: Some(target),
                    },
                );
                if done {
                    self.step_completed(player_id, quest_id, cur);
                }
            },
        }
    }

    /// Reach the current step of an active quest, for a step that is simply
    /// done.
    fn reach_step(&mut self, player_id: PlayerId, quest_id: &str)
        requires
            old(self).wf(),
            old(self)@.players.contains_key(player_id),
            old(self)@.players[player_id].active.contains_key(quest_id@),
        ensures
            final(self).wf(),
            final(self)@ == reached(old(self)@, player_id, quest_id@),
    {
        let ghost w0 = self@;
        let i = match self.find_player(player_id) {
            Some(i) => i,
            None => {
                return;
            },
        };
        let mut pl = self.take_player(i);
        let mut q = match pl.abandon_quest(quest_id) {
            Some(q) => q,
            None => {
                return;
            },
        };
        let cur = q.current_step;
        let fresh = cur < q.step_progress.len() && !q.step_progress[cur].completed;
        if fresh {
            q.complete_current_step();
        }
        let ghost q1 = q@;
        pl.put_active(q);
        proof {
            let pv = w0.players[player_id];
            assert(pl@.active =~= pv.active.insert(quest_id@, q1));
            assert(pl@ == (PlayerQuestsView { active: pv.active.insert(quest_id@, q1), ..pv }));
            if !fresh {
                assert(pv.active.insert(quest_id@, q1) =~= pv.active);
            }
        }
        self.put_player(pl);
        if fresh {
            assert(self@.players =~= with_quest(w0, player_id, quest_id@, q1).players);
            self.step_completed(player_id, quest_id, cur);
        } else {
            assert(self@.players =~= w0.players);
        }
    }

    /// Apply game event `t` to quest `quest_id` of a player.
    fn on_quest(&mut self, player_id: PlayerId, quest_id: &str, t: &Trigger)
        requires
            old(self).wf(),
        ensures
            final(self).wf(),
            final(self)@ == on_quest(old(self)@, player_id, quest_id@, t@),
    {
        let i = match self.find_player(player_id) {
            Some(i) => i,
            None => {
                return;
            },
        };
        let cur = match self.player_progress[i].get_active(quest_id) {
            Some(q) => q.current_step,
            None => {
                return;
            },
        };
        let j = match self.find_def(quest_id) {
            Some(j) => j,
            None => {
                return;
            },
        };
        if cur >= self.quest_defs[j].steps.len() {
            return;
        }
        if !step_serves(&self.quest_defs[j].steps[cur], t) {
            return;
        }
        match t {
            Trigger::MobKilled(_) => self.progress_quest(player_id, quest_id, 1),
            Trigger::ItemCollected(_, count) => self.progress_quest(player_id, quest_id, *count),
            _ => self.reach_step(player_id, quest_id),
        }
    }

    /// Apply game event `t` to every active quest of a player.
    fn on_trigger(&mut self, player_id: PlayerId, t: &Trigger)
        requires
            old(self).wf(),
        ensures
            final(self).wf(),
            on_player_event(old(self)@, final(self)@, player_id, t@),
    {
        let ids = match self.find_player(player_id) {
            Some(i) => self.player_progress[i].active_ids(),
            None => {
                return;
            },
        };
        let ghost w0 = self@;
        let ghost ks = strings_view(ids@);
        let mut k: usize = 0;
        while k < ids.len()
            invariant
                self.wf(),
                k <= ids@.len(),
                ks == strings_view(ids@),
                self@ == on_quests(w0, player_id, ks.take(k as int), t@),
            decreases ids@.len() - k,
        {
            self.on_quest(player_id, ids[k].as_str(), t);
            proof {
                assert(ks.take(k + 1).drop_last() =~= ks.take(k as int));
                assert(ks.take(k + 1).last() == ks[k as int]);
            }
            k = k + 1;
        }
        assert(ks.take(ks.len() as int) =~= ks);
        assert(ks.no_duplicates() && ks.to_set() == w0.players[player_id].active.dom() && self@ == on_quests(
            w0,
            player_id,
            ks,
            t@,
        ));
    }

    /// Handle a mob kill event for KillMob step progression.
    /// Only the killer (last-hit) gets credit.
    pub fn on_mob_killed(&mut self, killer_id: PlayerId, mob_id: &str)
        requires
            old(self).wf(),
        ensures
            final(self).wf(),
            on_player_event(old(self)@, final(self)@, killer_id, QuestTrigger::MobKilled { mob_id: mob_id@ }),
    {
        self.on_trigger(killer_id, &Trigger::MobKilled(mob_id));
    }

    /// Handle an item collection event for CollectItem step progression.
    pub fn on_item_collected(&mut self, player_id: PlayerId, item_id: &ItemId, count: u32)
        requires
            old(self).wf(),
        ensures
            final(self).wf(),
            on_player_event(old(self)@, final(self)@, player_id, QuestTrigger::ItemCollected { item_id: *item_id, count }),
    {
        self.on_trigger(player_id, &Trigger::ItemCollected(*item_id, count));
    }

    /// Handle a region visit event for VisitLocation step progression.
    pub fn on_region_visited(&mut self, player_id: PlayerId, region_id: &str)
        requires
            old(self).wf(),
        ensures
            final(self).wf(),
            on_player_event(old(self)@, final(self)@, player_id, QuestTrigger::RegionVisited { region_id: region_id@ }),
    {
        self.on_trigger(player_id, &Trigger::RegionVisited(region_id));
    }

    /// Handle an NPC interaction for TalkToNpc step progression.
    pub fn on_npc_talked(&mut self, player_id: PlayerId, npc_id: &str)
        requires
            old(self).wf(),
        ensures
            final(self).wf(),
            on_player_event(old(self)@, final(self)@, player_id, QuestTrigger::NpcTalked { npc_id: npc_id@ }),
    {
        self.on_trigger(player_id, &Trigger::NpcTalked(npc_id));
    }

    /// Handle a dungeon clear event for DungeonClear step progression.
    pub fn on_dungeon_cleared(&mut self, player_id: PlayerId, dungeon_id: &str)
        requires
            old(self).wf(),
        ensures
            final(self).wf(),
            on_player_event(old(self)@, final(self)@, player_id, QuestTrigger::DungeonCleared { dungeon_id: dungeon_id@ }),
    {
        self.on_trigger(player_id, &Trigger::DungeonCleared(dungeon_id));
    }
}

} // verus!

verus! {

/// The count each of `steps` needs.
fn step_targets(steps: &Vec<QuestStep>) -> (r: Vec<Option<u32>>)
    ensures
        r@ == targets_of(steps_of(steps@)),
{
    let mut r: Vec<Option<u32>> = Vec::new();
    let mut i: usize = 0;
    while i < steps.len()
        invariant
            i <= steps@.len(),
            r@ == targets_of(steps_of(steps@)).take(i as int),
        decreases steps@.len() - i,
    {
        r.push(steps[i].target_count());
        i = i + 1;
        assert(r@ =~= targets_of(steps_of(steps@)).take(i as int));
    }
    assert(targets_of(steps_of(steps@)).take(i as int) =~= targets_of(steps_of(steps@)));
    r
}

proof fn lemma_first_missing_step(s: Seq<Seq<char>>, done: Set<Seq<char>>, k: int)
    requires
        0 <= k < s.len(),
        done.contains(s[k]),
    ensures
        first_missing(s.skip(k), done) == first_missing(s.skip(k + 1), done),
{
    assert(s.skip(k).drop_first() =~= s.skip(k + 1));
    assert(s.skip(k)[0] == s[k]);
}

impl QuestSystem {
    /// Check if a player meets prerequisites for a quest: it must be known,
    /// and each quest it requires completed.
    pub fn check_prerequisites(&self, player_id: PlayerId, quest_id: &str) -> (r: Result<(), String>)
        requires
            self.wf(),
        ensures
            match prerequisite_error(self@, player_id, quest_id@) {
                Some(e) => r matches Err(m) && m@ == e,
                None => r is Ok,
            },
    {
        let j = match self.find_def(quest_id) {
            Some(j) => j,
            None => {
                return Err(concat("Unknown quest: ", quest_id));
            },
        };
        let pi = self.find_player(player_id);
        let reqs = &self.quest_defs[j].prerequisites;
        let ghost rv = strings_view(reqs@);
        let ghost done = completed_by(self@, player_id);
        assert(rv.skip(0) =~= rv);
        assert(self@.quests[quest_id@].prerequisites == rv);
        let mut k: usize = 0;
        while k < reqs.len()
            invariant
                self.wf(),
                rv == strings_view(reqs@),
                k <= rv.len(),
                done == completed_by(self@, player_id),
                self@.quests.contains_key(quest_id@),
                self@.quests[quest_id@].prerequisites == rv,
                match pi {
                    Some(i) => i < self.player_progress@.len() && self.player_progress@[i as int]@ == self@.players[player_id]
                        && self@.players.contains_key(player_id),
                    None => !self@.players.contains_key(player_id),
                },
                first_missing(rv, done) == first_missing(rv.skip(k as int), done),
            decreases rv.len() - k,
        {
            let completed = match pi {
                Some(i) => self.player_progress[i].has_completed(reqs[k].as_str()),
                None => false,
            };
            assert(reqs@[k as int]@ == rv[k as int]);
            if !completed {
                assert(!done.contains(rv[k as int]));
                assert(rv.skip(k as int)[0] == rv[k as int]);
                assert(first_missing(rv.skip(k as int), done) == Some(rv[k as int]));
                return Err(concat("Requires completion of: ", reqs[k].as_str()));
            }
            proof {
                lemma_first_missing_step(rv, done, k as int);
            }
            k = k + 1;
        }
        assert(rv.skip(k as int) =~= Seq::<Seq<char>>::empty());
        Ok(())
    }

    /// Start a quest for a player.
    pub fn start_quest(&mut self, player_id: PlayerId, quest_id: &str) -> (r: Result<(), String>)
        requires
            old(self).wf(),
        ensures
            final(self).wf(),
            final(self)@ == start_outcome(old(self)@, player_id, quest_id@).0,
            match start_outcome(old(self)@, player_id, quest_id@).1 {
                Some(e) => r matches Err(m) && m@ == e,
                None => r is Ok,
            },
    {
        let j = match self.find_def(quest_id) {
            Some(j) => j,
            None => {
                return Err(concat("Unknown quest: ", quest_id));
            },
        };
        match self.check_prerequisites(player_id, quest_id) {
            Err(e) => {
                return Err(e);
            },
            Ok(()) => {},
        }
        let targets = step_targets(&self.quest_defs[j].steps);
        let repeatable = self.quest_defs[j].repeatable;
        let ghost w0 = self@;
        let mut pl = match self.find_player(player_id) {
            Some(i) => self.take_player(i),
            None => PlayerQuestProgress::new(player_id),
        };
        let ghost w1 = with_record(w0, player_id);
        assert(pl@ == w1.players[player_id]);
        if pl.active_count() >= self.config.max_active_quests {
            self.put_player(pl);
            assert(self@.players =~= w1.players);
            let n = u64_to_decimal(self.config.max_active_quests as u64);
            let head = concat("Maximum active quests (", n.as_str());
            return Err(concat(head.as_str(), ") reached"));
        }
        match pl.start_quest(quest_id, &targets, repeatable) {
            Err(e) => {
                self.put_player(pl);
                assert(self@.players =~= w1.players);
                return Err(owned(e));
            },
            Ok(()) => {},
        }
        let ghost pv = pl@;
        self.put_player(pl);
        assert(self@.players =~= w1.players.insert(player_id, pv));
        self.push_event(QuestEvent::Started { player_id, quest_id: owned(quest_id) });
        self.push_msg(
            player_id,
            QuestMessage::Update {
                quest_id: owned(quest_id),
                update_type: QuestUpdateType::Started,
                step_index: None,
                progress: None,
                target: None,
            },
        );
        self.push_msg(
            player_id,
            QuestMessage::Notification {
                quest_id: owned(quest_id),
                notification_type: QuestNotificationType::Started,
                rewards: None,
            },
        );
        Ok(())
    }

    /// Abandon a quest for a player.
    pub fn abandon_quest(&mut self, player_id: PlayerId, quest_id: &str) -> (r: Result<(), String>)
        requires
            old(self).wf(),
        ensures
            final(self).wf(),
            final(self)@ == abandon_outcome(old(self)@, player_id, quest_id@).0,
            match abandon_outcome(old(self)@, player_id, quest_id@).1 {
                Some(e) => r matches Err(m) && m@ == e,
                None => r is Ok,
            },
    {
        let i = match self.find_player(player_id) {
            Some(i) => i,
            None => {
                return Err(owned("No progress for player"));
            },
        };
        if !self.player_progress[i].has_active(quest_id) {
            return Err(owned("Quest not active"));
        }
        let ghost w0 = self@;
        let mut pl = self.take_player(i);
        let _ = pl.abandon_quest(quest_id);
        let ghost pv = pl@;
        self.put_player(pl);
        assert(self@.players =~= w0.players.insert(player_id, pv));
        self.push_event(QuestEvent::Abandoned { player_id, quest_id: owned(quest_id) });
        self.push_msg(
            player_id,
            QuestMessage::Update {
                quest_id: owned(quest_id),
                update_type: QuestUpdateType::Abandoned,
                step_index: None,
                progress: None,
                target: None,
            },
        );
        self.push_msg(
            player_id,
            QuestMessage::Notification {
                quest_id: owned(quest_id),
                notification_type: QuestNotificationType::Abandoned,
                rewards: None,
            },
        );
        Ok(())
    }

    /// Send quest tracker update for pinned quest.
    fn send_tracker_update(&mut self, player_id: PlayerId, quest_id: &str)
        requires
            old(self).wf(),
        ensures
            final(self).wf(),
            final(self)@ == with_tracker(old(self)@, player_id, quest_id@),
    {
        let i = match self.find_player(player_id) {
            Some(i) => i,
            None => {
                return;
            },
        };
        let state = match self.player_progress[i].get_active(quest_id) {
            Some(s) => s,
            None => {
                return;
            },
        };
        let j = match self.find_def(quest_id) {
            Some(j) => j,
            None => {
                return;
            },
        };
        let d = &self.quest_defs[j];
        let cur = state.current_step;
        let step_description = if cur < d.steps.len() {
            owned(d.steps[cur].description())
        } else {
            String::new()
        };
        let (progress, target) = match state.current_step_progress() {
            Some(p) => (p.current, p.target),
            None => (0, 1),
        };
        let m = QuestMessage::Tracker {
            quest_id: owned(quest_id),
            title: owned(d.title.as_str()),
            current_step: #[verifier::truncate] (cur as u32),
            step_description,
            progress,
            target,
        };
        assert(m@ == tracker_msg(self@, player_id, quest_id@));
        self.push_msg(player_id, m);
    }

    /// Pin/unpin a quest for the HUD tracker.
    pub fn pin_quest(&mut self, player_id: PlayerId, quest_id: Option<&str>)
        requires
            old(self).wf(),
        ensures
            final(self).wf(),
            final(self)@ == pinned_state(
                old(self)@,
                player_id,
                match quest_id {
                    Some(q) => Some(q@),
                    None => None,
                },
            ),
    {
        let ghost target = match quest_id {
            Some(q) => Some(q@),
            None => None,
        };
        let i = match self.find_player(player_id) {
            Some(i) => i,
            None => {
                return;
            },
        };
        let ghost w0 = self@;
        let mut pl = self.take_player(i);
        pl.set_pinned(quest_id);
        proof {
            let pv = w0.players[player_id];
            assert(pl@.active =~= pin_map(pv.active, target));
            assert(pl@ == (PlayerQuestsView { active: pin_map(pv.active, target), ..pv }));
        }
        self.put_player(pl);
        assert(self@.players =~= w0.players.insert(
            player_id,
            PlayerQuestsView { active: pin_map(w0.players[player_id].active, target), ..w0.players[player_id] },
        ));
        if let Some(q) = quest_id {
            self.send_tracker_update(player_id, q);
        }
    }
}

} // verus!

verus! {

proof fn lemma_step_done_only_player(w: QuestSystemView, p: PlayerId, q: Seq<char>, i: usize)
    ensures
        step_done(w, p, q, i).players.remove(p) == w.players.remove(p),
        step_done(w, p, q, i).quests == w.quests,
{
    let w1 = with_msg(
        with_event(w, QuestEventView::StepCompleted { player_id: p, quest_id: q, step_index: i }),
        p,
        note_msg(q, QuestNotificationType::StepCompleted, None),
    );
    if w1.players.contains_key(p) && w1.players[p].active.contains_key(q) {
        let (q2, moved) = advanced(w1.players[p].active[q]);
        let w2 = with_quest(w1, p, q, q2);
        assert(w2.players.remove(p) =~= w.players.remove(p));
        let w3 = if moved {
            with_msg(w2, p, update_msg(q, QuestUpdateType::StepAdvanced, Some(q2.current_step as u32), None, None))
        } else {
            w2
        };
        if all_completed(q2.steps) {
            assert(completed_quest(w3, p, q).players.remove(p) =~= w3.players.remove(p));
        }
    }
}

proof fn lemma_on_quest_only_player(w: QuestSystemView, p: PlayerId, q: Seq<char>, t: QuestTrigger)
    ensures
        on_quest(w, p, q, t).players.remove(p) == w.players.remove(p),
        on_quest(w, p, q, t).quests == w.quests,
{
    if w.players.contains_key(p) && w.players[p].active.contains_key(q) && w.quests.contains_key(q) {
        let qv = w.players[p].active[q];
        let cur = qv.current_step;
        if cur < qv.steps.len() {
            let amount: u32 = match t {
                QuestTrigger::ItemCollected { count, .. } => count,
                _ => 1,
            };
            let (s1, done) = stepped(qv.steps[cur as int], amount);
            let w1 = with_msg(
                with_quest(w, p, q, QuestView { steps: qv.steps.update(cur as int, s1), ..qv }),
                p,
                update_msg(q, QuestUpdateType::StepProgress, Some(cur as u32), Some(s1.current), Some(s1.target)),
            );
            assert(w1.players.remove(p) =~= w.players.remove(p));
            lemma_step_done_only_player(w1, p, q, cur);
            let w2 = with_quest(w, p, q, QuestView { steps: qv.steps.update(cur as int, marked(qv.steps[cur as int])), ..qv });
            assert(w2.players.remove(p) =~= w.players.remove(p));
            lemma_step_done_only_player(w2, p, q, cur);
        }
    }
}

/// Game events credited to one player never touch another player's quests
/// or the quest definitions: only the killer of a mob gets credit for it.
pub proof fn law_event_credits_only_its_player(
    w: QuestSystemView,
    p: PlayerId,
    ids: Seq<Seq<char>>,
    t: QuestTrigger,
)
    ensures
        on_quests(w, p, ids, t).players.remove(p) == w.players.remove(p),
        on_quests(w, p, ids, t).quests == w.quests,
    decreases ids.len(),
{
    if ids.len() > 0 {
        law_event_credits_only_its_player(w, p, ids.drop_last(), t);
        lemma_on_quest_only_player(on_quests(w, p, ids.drop_last(), t), p, ids.last(), t);
    }
}

/// A quest whose steps are all completed once its step is done leaves the
/// active quests for the completed ones, and its rewards are counted once.
pub proof fn law_last_step_completes_quest(w: QuestSystemView, p: PlayerId, q: Seq<char>, i: usize)
    requires
        w.players.contains_key(p),
        w.players[p].active.contains_key(q),
        w.quests.contains_key(q),
        all_completed(w.players[p].active[q].steps),
    ensures
        ({
            let after = step_done(w, p, q, i).players[p];
            let before = w.players[p];
            &&& !after.active.contains_key(q)
            &&& after.completed == before.completed.insert(q)
            &&& after.xp == sat_add(before.xp, w.quests[q].rewards.xp)
            &&& after.currency == sat_add(before.currency, w.quests[q].rewards.currency)
            &&& step_done(w, p, q, i).events.last() == (QuestEventView::Completed {
                player_id: p,
                quest_id: q,
                xp: w.quests[q].rewards.xp,
                currency: w.quests[q].rewards.currency,
            })
        }),
{
    let w1 = with_msg(
        with_event(w, QuestEventView::StepCompleted { player_id: p, quest_id: q, step_index: i }),
        p,
        note_msg(q, QuestNotificationType::StepCompleted, None),
    );
    let (q2, moved) = advanced(w1.players[p].active[q]);
    assert(q2.steps == w.players[p].active[q].steps);
}

/// A quest can only be started once every quest it requires is completed,
/// and starting it never takes a player past the limit of active quests.
pub proof fn law_start_respects_prerequisites_and_limit(w: QuestSystemView, p: PlayerId, q: Seq<char>)
    requires
        w.players.contains_key(p) ==> w.players[p].active.dom().finite(),
        start_outcome(w, p, q).1 is None,
    ensures
        w.quests.contains_key(q),
        forall|k: int| 0 <= k < w.quests[q].prerequisites.len() ==> #[trigger] completed_by(w, p).contains(
            w.quests[q].prerequisites[k],
        ),
        start_outcome(w, p, q).0.players[p].active.contains_key(q),
        start_outcome(w, p, q).0.players[p].active.dom().len() <= w.max_active_quests,
{
    lemma_none_missing(w.quests[q].prerequisites, completed_by(w, p));
    let w1 = with_record(w, p);
    if !w.players.contains_key(p) {
        assert(w1.players[p].active.dom() =~= Set::empty());
    }
}

proof fn lemma_none_missing(s: Seq<Seq<char>>, done: Set<Seq<char>>)
    requires
        first_missing(s, done) is None,
    ensures
        forall|k: int| 0 <= k < s.len() ==> #[trigger] done.contains(s[k]),
    decreases s.len(),
{
    if s.len() > 0 {
        lemma_none_missing(s.drop_first(), done);
        assert forall|k: int| 0 <= k < s.len() implies #[trigger] done.contains(s[k]) by {
            if k > 0 {
                assert(s[k] == s.drop_first()[k - 1]);
            }
        }
    }
}

} // verus!

verus! {

/// Build the info of an active quest for protocol messages.
fn build_active_quest_info(definition: &QuestDefinition, state: &ActiveQuestState) -> (r: ActiveQuestInfo)
    ensures
        r@ == quest_info(definition@, state@),
{
    let ghost want = quest_info(definition@, state@);
    let mut steps: Vec<QuestStepInfo> = Vec::new();
    let mut i: usize = 0;
    while i < definition.steps.len()
        invariant
            i <= definition.steps@.len(),
            want == quest_info(definition@, state@),
            steps@.map_values(|s: QuestStepInfo| s@) == want.steps.take(i as int),
        decreases definition.steps@.len() - i,
    {
        let progress = if i < state.step_progress.len() {
            let sp = &state.step_progress[i];
            assert(state@.steps[i as int] == sp@);
            Some(StepProgressInfo { current: sp.current, target: sp.target, completed: sp.completed })
        } else {
            None
        };
        let info = QuestStepInfo { description: owned(definition.steps[i].description()), progress };
        let ghost v0 = steps@.map_values(|s: QuestStepInfo| s@);
        steps.push(info);
        assert(steps@.map_values(|s: QuestStepInfo| s@) =~= v0.push(info@));
        i = i + 1;
        assert(steps@.map_values(|s: QuestStepInfo| s@) =~= want.steps.take(i as int));
    }
    assert(want.steps.take(i as int) =~= want.steps);
    ActiveQuestInfo {
        quest_id: owned(definition.quest_id.as_str()),
        title: owned(definition.title.as_str()),
        description: owned(definition.description_short.as_str()),
        current_step: #[verifier::truncate] (state.current_step as u32),
        steps,
        pinned: state.pinned,
    }
}

impl QuestSystem {
    /// Send quest sync to a player (on connect).
    pub fn send_sync(&mut self, player_id: PlayerId)
        requires
            old(self).wf(),
        ensures
            final(self).wf(),
            final(self)@ == with_msg(old(self)@, player_id, final(self)@.messages.last().1),
            is_sync_for(old(self)@, player_id, final(self)@.messages.last().1),
    {
        let i = match self.find_player(player_id) {
            Some(i) => i,
            None => {
                let active_quests: Vec<ActiveQuestInfo> = Vec::new();
                let completed_quest_ids: Vec<String> = Vec::new();
                assert(infos_view(active_quests@) =~= Seq::empty());
                assert(strings_view(completed_quest_ids@) =~= Seq::empty());
                self.push_msg(player_id, QuestMessage::Sync { active_quests, completed_quest_ids });
                return;
            },
        };
        let ids = self.player_progress[i].active_ids();
        let completed_quest_ids = self.player_progress[i].completed_ids();
        let ghost w0 = self@;
        let ghost ks = strings_view(ids@);
        let mut active_quests: Vec<ActiveQuestInfo> = Vec::new();
        let mut k: usize = 0;
        while k < ids.len()
            invariant
                self.wf(),
                self@ == w0,
                i < self.player_progress@.len(),
                self.player_progress@[i as int]@ == w0.players[player_id],
                w0.players.contains_key(player_id),
                ks == strings_view(ids@),
                ks.to_set() == w0.players[player_id].active.dom(),
                k <= ks.len(),
                infos_view(active_quests@) == infos_of(w0, player_id, ks.take(k as int)),
            decreases ks.len() - k,
        {
            proof {
                assert(ks.take(k + 1).drop_last() =~= ks.take(k as int));
                assert(ks.take(k + 1).last() == ks[k as int]);
            }
            match self.find_def(ids[k].as_str()) {
                Some(j) => {
                    assert(ks.to_set().contains(ks[k as int]));
                    let state = match self.player_progress[i].get_active(ids[k].as_str()) {
                        Some(s) => s,
                        None => {
                            return;
                        },
                    };
                    let info = build_active_quest_info(&self.quest_defs[j], state);
                    let ghost v0 = infos_view(active_quests@);
                    active_quests.push(info);
                    assert(infos_view(active_quests@) =~= v0.push(info@));
                },
                None => {},
            }
            k = k + 1;
        }
        assert(ks.take(ks.len() as int) =~= ks);
        let m = QuestMessage::Sync { active_quests, completed_quest_ids };
        self.push_msg(player_id, m);
    }
}

} // verus!
