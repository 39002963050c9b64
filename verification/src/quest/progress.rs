//! Quest progress tracking per player
//!
//! Tracks active quests, step completion, and completed quest history. A quest
//! is described here by its id and, for each of its steps, the count the step
//! needs (none for a step that is simply done or not).

use vstd::prelude::*;

use crate::assoc::{has_key, keys_unique, lemma_absent, lemma_at, lemma_len, lemma_push, lemma_remove, lemma_update, to_map};
use crate::clock;
use crate::master_announce::config::{copy_strings, strings_view};
use crate::protocol::PlayerId;
use crate::text::{owned, str_eq};

verus! {

/// Progress for a single step within a quest.
#[derive(Debug)]
pub struct StepProgress {
    /// Step index within the quest
    pub step_index: usize,
    /// Current progress count (for countable steps like KillMob, CollectItem)
    pub current: u32,
    /// Target count to complete (1 for non-countable steps)
    pub target: u32,
    /// Whether this step is completed
    pub completed: bool,
    /// Time when the step was completed (if completed)
    pub completed_at: Option<std::time::Instant>,
}

/// What a step's progress says.
pub struct StepView {
    pub step_index: usize,
    pub current: u32,
    pub target: u32,
    pub completed: bool,
    /// The completion time was recorded.
    pub stamped: bool,
}

impl View for StepProgress {
    type V = StepView;

    open spec fn view(&self) -> StepView {
        StepView {
            step_index: self.step_index,
            current: self.current,
            target: self.target,
            completed: self.completed,
            stamped: self.completed_at is Some,
        }
    }
}

/// A step's progress after `amount` more: nothing changes once completed;
/// otherwise the count grows up to the target, and reaching it completes the
/// step. The flag says whether the step was just completed.
pub open spec fn stepped(s: StepView, amount: u32) -> (StepView, bool) {
    if s.completed {
        (s, false)
    } else {
        let c = if s.current + amount <= s.target {
            (s.current + amount) as u32
        } else {
            s.target
        };
        if c >= s.target {
            (StepView { current: c, completed: true, stamped: true, ..s }, true)
        } else {
            (StepView { current: c, ..s }, false)
        }
    }
}

/// A step's progress once marked complete: at its target, completed.
pub open spec fn marked(s: StepView) -> StepView {
    if s.completed {
        s
    } else {
        StepView { current: s.target, completed: true, stamped: true, ..s }
    }
}

impl StepProgress {
    /// Create a new step progress tracker for the step at `step_index`, whose
    /// target is `target_count` (1 for a step that is simply done).
    pub fn new(step_index: usize, target_count: Option<u32>) -> (p: StepProgress)
        ensures
            p@ == (StepView {
                step_index,
                current: 0,
                target: match target_count {
                    Some(t) => t,
                    None => 1,
                },
                completed: false,
                stamped: false,
            }),
    {
        let target = match target_count {
            Some(t) => t,
            None => 1,
        };
        StepProgress { step_index, current: 0, target, completed: false, completed_at: None }
    }

    /// Add progress to this step.
    /// Returns true if the step was just completed.
    pub fn add_progress(&mut self, amount: u32) -> (just_completed: bool)
        ensures
            (final(self)@, just_completed) == stepped(old(self)@, amount),
    {
        if self.completed {
            return false;
        }
        let sum: u64 = self.current as u64 + amount as u64;
        self.current = if sum <= self.target as u64 {
            sum as u32
        } else {
            self.target
        };
        if self.current >= self.target && !self.completed {
            self.completed = true;
            self.completed_at = Some(clock::now());
            return true;
        }
        false
    }

    /// Set step as completed regardless of current progress.
    pub fn mark_complete(&mut self)
        ensures
            final(self)@ == marked(old(self)@),
    {
        if !self.completed {
            self.current = self.target;
            self.completed = true;
            self.completed_at = Some(clock::now());
        }
    }
}

/// State of an active quest for a player.
#[derive(Debug)]
pub struct ActiveQuestState {
    /// Quest ID
    pub quest_id: String,
    /// When the quest was started
    pub started_at: std::time::Instant,
    /// Progress for each step
    pub step_progress: Vec<StepProgress>,
    /// Current active step index (0-based)
    pub current_step: usize,
    /// Whether this quest is pinned to the HUD
    pub pinned: bool,
}

/// What an active quest's state says.
pub struct QuestView {
    pub quest_id: Seq<char>,
    pub steps: Seq<StepView>,
    pub current_step: usize,
    pub pinned: bool,
}

/// The views of a list of step progresses.
pub open spec fn steps_view(v: Seq<StepProgress>) -> Seq<StepView> {
    v.map_values(|s: StepProgress| s@)
}

impl View for ActiveQuestState {
    type V = QuestView;

    open spec fn view(&self) -> QuestView {
        QuestView {
            quest_id: self.quest_id@,
            steps: steps_view(self.step_progress@),
            current_step: self.current_step,
            pinned: self.pinned,
        }
    }
}

/// The progress of each step of a quest just started: step `i` with the target
/// of the `i`-th step, nothing done.
pub open spec fn fresh_steps(targets: Seq<Option<u32>>) -> Seq<StepView> {
    Seq::new(
        targets.len(),
        |i: int|
            StepView {
                step_index: i as usize,
                current: 0,
                target: match targets[i] {
                    Some(t) => t,
                    None => 1,
                },
                completed: false,
                stamped: false,
            },
    )
}

/// Whether every step is completed.
pub open spec fn all_completed(steps: Seq<StepView>) -> bool {
    forall|i: int| 0 <= i < steps.len() ==> #[trigger] steps[i].completed
}

/// A quest's state after trying to move on: to the next step when the current
/// one is completed and is not the last.
pub open spec fn advanced(q: QuestView) -> (QuestView, bool) {
    if q.current_step < q.steps.len() && q.steps[q.current_step as int].completed && q.current_step + 1
        < q.steps.len() {
        (QuestView { current_step: (q.current_step + 1) as usize, ..q }, true)
    } else {
        (q, false)
    }
}

impl ActiveQuestState {
    /// Create a new active quest state for quest `quest_id`, whose steps need
    /// `step_targets` (none for a step that is simply done).
    pub fn new(quest_id: &str, step_targets: &Vec<Option<u32>>) -> (q: ActiveQuestState)
        ensures
            q@ == (QuestView { quest_id: quest_id@, steps: fresh_steps(step_targets@), current_step: 0, pinned: false }),
    {
        let mut steps: Vec<StepProgress> = Vec::new();
        let mut i: usize = 0;
        while i < step_targets.len()
            invariant
                i <= step_targets@.len(),
                steps_view(steps@) == fresh_steps(step_targets@).take(i as int),
            decreases step_targets@.len() - i,
        {
            let step = StepProgress::new(i, step_targets[i]);
            assert(step@ == fresh_steps(step_targets@)[i as int]);
            let ghost v0 = steps_view(steps@);
            steps.push(step);
            assert(steps_view(steps@) =~= v0.push(step@));
            i = i + 1;
            assert(steps_view(steps@) =~= fresh_steps(step_targets@).take(i as int));
        }
        assert(fresh_steps(step_targets@).take(i as int) =~= fresh_steps(step_targets@));
        ActiveQuestState {
            quest_id: crate::text::owned(quest_id),
            started_at: clock::now(),
            step_progress: steps,
            current_step: 0,
            pinned: false,
        }
    }

    /// Get the current step's progress.
    pub fn current_step_progress(&self) -> (p: Option<&StepProgress>)
        ensures
            match p {
                Some(s) => self.current_step < self.step_progress@.len() && s@ == self@.steps[self.current_step as int],
                None => self.current_step >= self.step_progress@.len(),
            },
    {
        if self.current_step < self.step_progress.len() {
            Some(&self.step_progress[self.current_step])
        } else {
            None
        }
    }

    /// Add progress to the current step; none when there is no current step,
    /// else whether the step was just completed.
    pub fn add_current_progress(&mut self, amount: u32) -> (r: Option<bool>)
        ensures
            old(self).current_step >= old(self).step_progress@.len() ==> (r is None && final(self)@ == old(self)@),
            old(self).current_step < old(self).step_progress@.len() ==> {
                let (s1, done) = stepped(old(self)@.steps[old(self).current_step as int], amount);
                &&& r == Some(done)
                &&& final(self)@ == (QuestView {
                    steps: old(self)@.steps.update(old(self).current_step as int, s1),
                    ..old(self)@
                })
            },
    {
        let i = self.current_step;
        if i >= self.step_progress.len() {
            return None;
        }
        let ghost v0 = steps_view(self.step_progress@);
        let mut step = self.step_progress.remove(i);
        let done = step.add_progress(amount);
        self.step_progress.insert(i, step);
        assert(steps_view(self.step_progress@) =~= v0.update(i as int, step@));
        Some(done)
    }

    /// Mark the current step complete, if there is one.
    pub fn complete_current_step(&mut self)
        ensures
            old(self).current_step >= old(self).step_progress@.len() ==> final(self)@ == old(self)@,
            old(self).current_step < old(self).step_progress@.len() ==> final(self)@ == (QuestView {
                steps: old(self)@.steps.update(
                    old(self).current_step as int,
                    marked(old(self)@.steps[old(self).current_step as int]),
                ),
                ..old(self)@
            }),
    {
        let i = self.current_step;
        if i >= self.step_progress.len() {
            return;
        }
        let ghost v0 = steps_view(self.step_progress@);
        let mut step = self.step_progress.remove(i);
        step.mark_complete();
        self.step_progress.insert(i, step);
        assert(steps_view(self.step_progress@) =~= v0.update(i as int, step@));
    }

    /// Check if all steps are completed.
    pub fn is_complete(&self) -> (b: bool)
        ensures
            b == all_completed(self@.steps),
    {
        let mut i: usize = 0;
        while i < self.step_progress.len()
            invariant
                i <= self.step_progress@.len(),
                forall|k: int| 0 <= k < i ==> #[trigger] self.step_progress@[k].completed,
            decreases self.step_progress@.len() - i,
        {
            if !self.step_progress[i].completed {
                assert(self@.steps[i as int] == self.step_progress@[i as int]@);
                assert(!self@.steps[i as int].completed);
                return false;
            }
            i = i + 1;
        }
        assert forall|k: int| 0 <= k < self@.steps.len() implies #[trigger] self@.steps[k].completed by {
            assert(self@.steps[k] == self.step_progress@[k]@);
        }
        true
    }

    /// Advance to the next step if the current step is complete.
    /// Returns true if advanced.
    pub fn try_advance_step(&mut self) -> (moved: bool)
        ensures
            (final(self)@, moved) == advanced(old(self)@),
    {
        if self.current_step < self.step_progress.len() {
            if self.step_progress[self.current_step].completed && self.current_step + 1 < self.step_progress.len() {
                self.current_step = self.current_step + 1;
                return true;
            }
        }
        false
    }
}

/// All quest-related progress for a single player.
#[derive(Debug)]
pub struct PlayerQuestProgress {
    /// Player ID
    pub player_id: PlayerId,
    /// Currently active quests, one per quest id (max limit enforced by the quest system)
    active_quests: Vec<ActiveQuestState>,
    /// Completed quest IDs (for prerequisite checking), each once
    completed_quests: Vec<String>,
    /// Total XP earned from quests
    total_quest_xp: u32,
    /// Total currency earned from quests
    total_quest_currency: u32,
}

/// The observable state of a [`PlayerQuestProgress`].
pub struct PlayerQuestsView {
    pub player_id: PlayerId,
    pub active: Map<Seq<char>, QuestView>,
    pub completed: Set<Seq<char>>,
    pub xp: u32,
    pub currency: u32,
}

/// The active quests, keyed by quest id.
pub open spec fn active_pairs(v: Seq<ActiveQuestState>) -> Seq<(Seq<char>, QuestView)> {
    v.map_values(|q: ActiveQuestState| (q.quest_id@, q@))
}

/// `a + b`, saturated at `u32::MAX`.
pub open spec fn sat_add(a: u32, b: u32) -> u32 {
    if a + b > u32::MAX {
        u32::MAX
    } else {
        (a + b) as u32
    }
}

/// Why a quest cannot be started: already active, or completed and not
/// repeatable.
pub open spec fn start_refusal(p: PlayerQuestsView, quest_id: Seq<char>, repeatable: bool) -> Option<Seq<char>> {
    if p.active.contains_key(quest_id) {
        Some("Quest already active"@)
    } else if p.completed.contains(quest_id) && !repeatable {
        Some("Quest already completed and not repeatable"@)
    } else {
        None
    }
}

impl View for PlayerQuestProgress {
    type V = PlayerQuestsView;

    closed spec fn view(&self) -> PlayerQuestsView {
        PlayerQuestsView {
            player_id: self.player_id,
            active: to_map(active_pairs(self.active_quests@)),
            completed: strings_view(self.completed_quests@).to_set(),
            xp: self.total_quest_xp,
            currency: self.total_quest_currency,
        }
    }
}

impl PlayerQuestProgress {
    /// One active state per quest id and each completed quest listed once.
    pub closed spec fn wf(&self) -> bool {
        &&& keys_unique(active_pairs(self.active_quests@))
        &&& strings_view(self.completed_quests@).no_duplicates()
    }

    /// Create a new empty progress tracker for a player.
    pub fn new(player_id: PlayerId) -> (p: PlayerQuestProgress)
        ensures
            p.wf(),
            p@ == (PlayerQuestsView {
                player_id,
                active: Map::empty(),
                completed: Set::empty(),
                xp: 0,
                currency: 0,
            }),
    {
        let p = PlayerQuestProgress {
            player_id,
            active_quests: Vec::new(),
            completed_quests: Vec::new(),
            total_quest_xp: 0,
            total_quest_currency: 0,
        };
        assert(active_pairs(p.active_quests@) =~= Seq::empty());
        assert(p@.active =~= Map::empty());
        assert(strings_view(p.completed_quests@) =~= Seq::empty());
        assert(p@.completed =~= Set::empty());
        p
    }

    fn find_active(&self, quest_id: &str) -> (r: Option<usize>)
        requires
            self.wf(),
        ensures
            match r {
                Some(i) => i < self.active_quests@.len() && self.active_quests@[i as int].quest_id@ == quest_id@
                    && self@.active.contains_key(quest_id@) && self@.active[quest_id@] == self.active_quests@[i as int]@,
                None => !self@.active.contains_key(quest_id@) && !has_key(active_pairs(self.active_quests@), quest_id@),
            },
    {
        let ghost ps = active_pairs(self.active_quests@);
        let mut i: usize = 0;
        while i < self.active_quests.len()
            invariant
                self.wf(),
                ps == active_pairs(self.active_quests@),
                i <= self.active_quests@.len(),
                forall|k: int| 0 <= k < i ==> self.active_quests@[k].quest_id@ != quest_id@,
            decreases self.active_quests@.len() - i,
        {
            if str_eq(self.active_quests[i].quest_id.as_str(), quest_id) {
                proof {
                    lemma_at(ps, i as int);
                }
                return Some(i);
            }
            i = i + 1;
        }
        proof {
            assert forall|k: int| 0 <= k < ps.len() implies ps[k].0 != quest_id@ by {
                assert(ps[k].0 == self.active_quests@[k].quest_id@);
            }
            lemma_absent(ps, quest_id@);
        }
        None
    }

    /// The player this progress belongs to.
    pub fn owner(&self) -> (id: PlayerId)
        ensures
            id == self@.player_id,
    {
        self.player_id
    }

    /// The ids of the active quests, each once.
    pub fn active_ids(&self) -> (ids: Vec<String>)
        requires
            self.wf(),
        ensures
            strings_view(ids@).no_duplicates(),
            strings_view(ids@).to_set() == self@.active.dom(),
    {
        let ghost ps = active_pairs(self.active_quests@);
        let mut ids: Vec<String> = Vec::new();
        let mut i: usize = 0;
        while i < self.active_quests.len()
            invariant
                self.wf(),
                ps == active_pairs(self.active_quests@),
                i <= self.active_quests@.len(),
                strings_view(ids@) == ps.take(i as int).map_values(|e: (Seq<char>, QuestView)| e.0),
            decreases self.active_quests@.len() - i,
        {
            let ghost v0 = strings_view(ids@);
            ids.push(owned(self.active_quests[i].quest_id.as_str()));
            assert(strings_view(ids@) =~= v0.push(ps[i as int].0));
            assert(ps.take(i + 1).map_values(|e: (Seq<char>, QuestView)| e.0) =~= ps.take(i as int).map_values(
                |e: (Seq<char>, QuestView)| e.0,
            ).push(ps[i as int].0));
            i = i + 1;
        }
        proof {
            let ks = strings_view(ids@);
            assert(ps.take(ps.len() as int) =~= ps);
            assert(ks.no_duplicates()) by {
                assert forall|a: int, b: int| 0 <= a < ks.len() && 0 <= b < ks.len() && a != b implies ks[a] != ks[b] by {
                    assert(ks[a] == ps[a].0);
                    assert(ks[b] == ps[b].0);
                }
            }
            assert forall|k: Seq<char>| ks.to_set().contains(k) <==> self@.active.dom().contains(k) by {
                if ks.to_set().contains(k) {
                    let j = choose|j: int| 0 <= j < ks.len() && ks[j] == k;
                    assert(ps[j].0 == k);
                    lemma_at(ps, j);
                }
                if self@.active.dom().contains(k) {
                    let j = choose|j: int| 0 <= j < ps.len() && #[trigger] ps[j].0 == k;
                    assert(ks[j] == k);
                }
            }
            assert(ks.to_set() =~= self@.active.dom());
        }
        ids
    }

    /// The ids of the completed quests, each once.
    pub fn completed_ids(&self) -> (ids: Vec<String>)
        requires
            self.wf(),
        ensures
            strings_view(ids@).no_duplicates(),
            strings_view(ids@).to_set() == self@.completed,
    {
        copy_strings(&self.completed_quests)
    }

    /// Put back an active quest state taken out by
    /// [`PlayerQuestProgress::abandon_quest`].
    pub(crate) fn put_active(&mut self, q: ActiveQuestState)
        requires
            old(self).wf(),
            !old(self)@.active.contains_key(q.quest_id@),
        ensures
            final(self).wf(),
            final(self)@ == (PlayerQuestsView { active: old(self)@.active.insert(q.quest_id@, q@), ..old(self)@ }),
    {
        let ghost ps = active_pairs(self.active_quests@);
        proof {
            assert(!has_key(ps, q.quest_id@)) by {
                if has_key(ps, q.quest_id@) {
                    let k = choose|k: int| 0 <= k < ps.len() && #[trigger] ps[k].0 == q.quest_id@;
                    lemma_at(ps, k);
                }
            }
            lemma_push(ps, q.quest_id@, q@);
        }
        self.active_quests.push(q);
        assert(active_pairs(self.active_quests@) =~= ps.push((q.quest_id@, q@)));
    }

    /// Check if the player has completed a specific quest.
    pub fn has_completed(&self, quest_id: &str) -> (b: bool)
        ensures
            b == self@.completed.contains(quest_id@),
    {
        let ghost cs = strings_view(self.completed_quests@);
        let mut i: usize = 0;
        while i < self.completed_quests.len()
            invariant
                cs == strings_view(self.completed_quests@),
                i <= self.completed_quests@.len(),
                forall|k: int| 0 <= k < i ==> cs[k] != quest_id@,
            decreases self.completed_quests@.len() - i,
        {
            if str_eq(self.completed_quests[i].as_str(), quest_id) {
                assert(cs[i as int] == quest_id@);
                return true;
            }
            i = i + 1;
        }
        false
    }

    /// Check if the player has an active instance of a quest.
    pub fn has_active(&self, quest_id: &str) -> (b: bool)
        requires
            self.wf(),
        ensures
            b == self@.active.contains_key(quest_id@),
    {
        self.find_active(quest_id).is_some()
    }

    /// Get an active quest state.
    pub fn get_active(&self, quest_id: &str) -> (r: Option<&ActiveQuestState>)
        requires
            self.wf(),
        ensures
            match r {
                Some(q) => self@.active.contains_key(quest_id@) && q@ == self@.active[quest_id@],
                None => !self@.active.contains_key(quest_id@),
            },
    {
        match self.find_active(quest_id) {
            Some(i) => Some(&self.active_quests[i]),
            None => None,
        }
    }

    /// Start a new quest, whose steps need `step_targets`.
    /// Returns Err if already active or (completed and not repeatable).
    pub fn start_quest(&mut self, quest_id: &str, step_targets: &Vec<Option<u32>>, repeatable: bool) -> (r: Result<(), &'static str>)
        requires
            old(self).wf(),
        ensures
            final(self).wf(),
            match start_refusal(old(self)@, quest_id@, repeatable) {
                Some(msg) => (r matches Err(e) && e@ == msg) && final(self)@ == old(self)@,
                None => r is Ok && final(self)@ == (PlayerQuestsView {
                    active: old(self)@.active.insert(
                        quest_id@,
                        QuestView { quest_id: quest_id@, steps: fresh_steps(step_targets@), current_step: 0, pinned: false },
                    ),
                    ..old(self)@
                }),
            },
    {
        if self.has_active(quest_id) {
            return Err("Quest already active");
        }
        if self.has_completed(quest_id) && !repeatable {
            return Err("Quest already completed and not repeatable");
        }
        let state = ActiveQuestState::new(quest_id, step_targets);
        let ghost ps = active_pairs(self.active_quests@);
        proof {
            lemma_absent(ps, quest_id@);
            assert(!has_key(ps, quest_id@)) by {
                if has_key(ps, quest_id@) {
                    let k = choose|k: int| 0 <= k < ps.len() && #[trigger] ps[k].0 == quest_id@;
                    lemma_at(ps, k);
                }
            }
            lemma_push(ps, quest_id@, state@);
        }
        self.active_quests.push(state);
        assert(active_pairs(self.active_quests@) =~= ps.push((quest_id@, state@)));
        Ok(())
    }

    /// Remove the active quest at `i`.
    fn take_active(&mut self, i: usize) -> (q: ActiveQuestState)
        requires
            old(self).wf(),
            i < old(self).active_quests@.len(),
        ensures
            final(self).wf(),
            q@ == old(self).active_quests@[i as int]@,
            final(self)@ == (PlayerQuestsView {
                active: old(self)@.active.remove(old(self).active_quests@[i as int].quest_id@),
                ..old(self)@
            }),
    {
        let ghost ps = active_pairs(self.active_quests@);
        proof {
            lemma_remove(ps, i as int);
        }
        let q = self.active_quests.remove(i);
        assert(active_pairs(self.active_quests@) =~= ps.remove(i as int));
        q
    }

    /// Complete and remove an active quest, recording it as completed.
    /// Returns the quest state if it was active.
    pub fn complete_quest(&mut self, quest_id: &str) -> (r: Option<ActiveQuestState>)
        requires
            old(self).wf(),
        ensures
            final(self).wf(),
            !old(self)@.active.contains_key(quest_id@) ==> r is None && final(self)@ == old(self)@,
            old(self)@.active.contains_key(quest_id@) ==> (r matches Some(q) && q@ == old(self)@.active[quest_id@])
                && final(self)@ == (PlayerQuestsView {
                active: old(self)@.active.remove(quest_id@),
                completed: old(self)@.completed.insert(quest_id@),
                ..old(self)@
            }),
    {
        let i = match self.find_active(quest_id) {
            Some(i) => i,
            None => {
                return None;
            },
        };
        let q = self.take_active(i);
        if !self.has_completed(quest_id) {
            let ghost cs = strings_view(self.completed_quests@);
            self.completed_quests.push(owned(quest_id));
            assert(strings_view(self.completed_quests@) =~= cs.push(quest_id@));
            assert(self@.completed =~= cs.to_set().insert(quest_id@)) by {
                assert forall|x: Seq<char>| self@.completed.contains(x) <==> cs.to_set().insert(quest_id@).contains(x) by {
                    if self@.completed.contains(x) {
                        let k = choose|k: int| 0 <= k < cs.push(quest_id@).len() && cs.push(quest_id@)[k] == x;
                        if k < cs.len() {
                            assert(cs[k] == x);
                        }
                    }
                    if cs.to_set().contains(x) {
                        let k = choose|k: int| 0 <= k < cs.len() && cs[k] == x;
                        assert(cs.push(quest_id@)[k] == x);
                    }
                    if x == quest_id@ {
                        assert(cs.push(quest_id@)[cs.len() as int] == x);
                    }
                }
            }
        } else {
            assert(self@.completed =~= self@.completed.insert(quest_id@));
        }
        Some(q)
    }

    /// Abandon an active quest.
    /// Returns the quest state if it was active.
    pub fn abandon_quest(&mut self, quest_id: &str) -> (r: Option<ActiveQuestState>)
        requires
            old(self).wf(),
        ensures
            final(self).wf(),
            !old(self)@.active.contains_key(quest_id@) ==> r is None && final(self)@ == old(self)@,
            old(self)@.active.contains_key(quest_id@) ==> (r matches Some(q) && q@ == old(self)@.active[quest_id@]
                && q.quest_id@ == quest_id@)
                && final(self)@ == (PlayerQuestsView { active: old(self)@.active.remove(quest_id@), ..old(self)@ }),
    {
        match self.find_active(quest_id) {
            Some(i) => Some(self.take_active(i)),
            None => None,
        }
    }

    /// Get the number of active quests.
    pub fn active_count(&self) -> (n: usize)
        requires
            self.wf(),
        ensures
            n == self@.active.dom().len(),
    {
        proof {
            lemma_len(active_pairs(self.active_quests@));
        }
        self.active_quests.len()
    }

    /// Get the number of completed quests.
    pub fn completed_count(&self) -> (n: usize)
        requires
            self.wf(),
        ensures
            n == self@.completed.len(),
    {
        proof {
            strings_view(self.completed_quests@).unique_seq_to_set();
        }
        self.completed_quests.len()
    }

    /// Total XP earned from quests.
    pub fn total_quest_xp(&self) -> (n: u32)
        ensures
            n == self@.xp,
    {
        self.total_quest_xp
    }

    /// Total currency earned from quests.
    pub fn total_quest_currency(&self) -> (n: u32)
        ensures
            n == self@.currency,
    {
        self.total_quest_currency
    }

    /// Add quest rewards to totals (saturating).
    pub fn add_rewards(&mut self, xp: u32, currency: u32)
        ensures
            final(self).wf() == old(self).wf(),
            final(self)@ == (PlayerQuestsView {
                xp: sat_add(old(self)@.xp, xp),
                currency: sat_add(old(self)@.currency, currency),
                ..old(self)@
            }),
    {
        self.total_quest_xp = self.total_quest_xp.saturating_add(xp);
        self.total_quest_currency = self.total_quest_currency.saturating_add(currency);
    }

    /// Get the currently pinned quest (if any).
    pub fn pinned_quest(&self) -> (r: Option<&String>)
        requires
            self.wf(),
        ensures
            match r {
                Some(id) => self@.active.contains_key(id@) && self@.active[id@].pinned,
                None => forall|k: Seq<char>| #[trigger] self@.active.contains_key(k) ==> !self@.active[k].pinned,
            },
    {
        let ghost ps = active_pairs(self.active_quests@);
        let mut i: usize = 0;
        while i < self.active_quests.len()
            invariant
                self.wf(),
                ps == active_pairs(self.active_quests@),
                i <= self.active_quests@.len(),
                forall|k: int| 0 <= k < i ==> !self.active_quests@[k].pinned,
            decreases self.active_quests@.len() - i,
        {
            if self.active_quests[i].pinned {
                proof {
                    lemma_at(ps, i as int);
                }
                return Some(&self.active_quests[i].quest_id);
            }
            i = i + 1;
        }
        proof {
            assert forall|k: Seq<char>| #[trigger] self@.active.contains_key(k) implies !self@.active[k].pinned by {
                let j = choose|j: int| 0 <= j < ps.len() && #[trigger] ps[j].0 == k;
                lemma_at(ps, j);
            }
        }
        None
    }

    /// Set which quest is pinned (unpins others).
    pub fn set_pinned(&mut self, quest_id: Option<&str>)
        requires
            old(self).wf(),
        ensures
            final(self).wf(),
            final(self)@.active.dom() == old(self)@.active.dom(),
            forall|k: Seq<char>| #[trigger] final(self)@.active.contains_key(k) ==> final(self)@.active[k] == (QuestView {
                pinned: quest_id matches Some(q) && q@ == k,
                ..old(self)@.active[k]
            }),
            final(self)@.completed == old(self)@.completed,
            final(self)@.xp == old(self)@.xp,
            final(self)@.currency == old(self)@.currency,
            final(self)@.player_id == old(self)@.player_id,
    {
        let ghost ps0 = active_pairs(self.active_quests@);
        let ghost m0 = self@.active;
        let mut i: usize = 0;
        while i < self.active_quests.len()
            invariant
                self.wf(),
                i <= self.active_quests@.len(),
                active_pairs(self.active_quests@).len() == ps0.len(),
                forall|k: int| 0 <= k < ps0.len() ==> #[trigger] active_pairs(self.active_quests@)[k].0 == ps0[k].0,
                forall|k: int| 0 <= k < i ==> active_pairs(self.active_quests@)[k].1 == (QuestView {
                    pinned: quest_id matches Some(q) && q@ == ps0[k].0,
                    ..ps0[k].1
                }),
                forall|k: int| i <= k < ps0.len() ==> active_pairs(self.active_quests@)[k] == ps0[k],
                self@.completed == old(self)@.completed,
                self@.xp == old(self)@.xp,
                self@.currency == old(self)@.currency,
                self@.player_id == old(self)@.player_id,
            decreases self.active_quests@.len() - i,
        {
            let ghost ps = active_pairs(self.active_quests@);
            let mut q = self.active_quests.remove(i);
            let pin = match quest_id {
                Some(id) => str_eq(q.quest_id.as_str(), id),
                None => false,
            };
            q.pinned = pin;
            proof {
                lemma_update(ps, i as int, q@);
            }
            self.active_quests.insert(i, q);
            assert(active_pairs(self.active_quests@) =~= ps.update(i as int, (ps[i as int].0, q@)));
            i = i + 1;
        }
        proof {
            let ps1 = active_pairs(self.active_quests@);
            assert forall|k: Seq<char>| self@.active.contains_key(k) <==> m0.contains_key(k) by {
                if self@.active.contains_key(k) {
                    let j = choose|j: int| 0 <= j < ps1.len() && #[trigger] ps1[j].0 == k;
                    assert(ps0[j].0 == k);
                }
                if m0.contains_key(k) {
                    let j = choose|j: int| 0 <= j < ps0.len() && #[trigger] ps0[j].0 == k;
                    assert(ps1[j].0 == k);
                }
            }
            assert(self@.active.dom() =~= m0.dom());
            assert forall|k: Seq<char>| #[trigger] self@.active.contains_key(k) implies self@.active[k] == (QuestView {
                pinned: quest_id matches Some(q) && q@ == k,
                ..m0[k]
            }) by {
                let j = choose|j: int| 0 <= j < ps1.len() && #[trigger] ps1[j].0 == k;
                lemma_at(ps1, j);
                assert(ps0[j].0 == k);
                lemma_at(ps0, j);
            }
        }
    }
}

} // verus!

verus! {

/// A step's count never passes its target, a completed step stays completed,
/// and a step is reported completed once: adding progress to a completed step
/// reports nothing.
pub proof fn law_step_progress_bounded(s: StepView, a: u32, b: u32)
    requires
        s.current <= s.target,
    ensures
        stepped(s, a).0.current <= s.target,
        s.completed ==> stepped(s, a).0.completed && !stepped(s, a).1,
        stepped(s, a).1 ==> !stepped(stepped(s, a).0, b).1,
        stepped(s, a).0.completed ==> stepped(stepped(s, a).0, b).0 == stepped(s, a).0,
{
}

/// Marking a step complete puts it at its target, completed; marking it again
/// changes nothing.
pub proof fn law_mark_complete_idempotent(s: StepView)
    ensures
        marked(s).completed,
        !s.completed ==> marked(s).current == s.target,
        marked(marked(s)) == marked(s),
{
}

/// A quest moves on one step at a time, and only past a completed step.
pub proof fn law_advance_one_completed_step(q: QuestView)
    requires
        q.steps.len() <= usize::MAX,
    ensures
        advanced(q).1 ==> advanced(q).0.current_step == q.current_step + 1 && q.steps[q.current_step as int].completed,
        !advanced(q).1 ==> advanced(q).0 == q,
        advanced(q).0.current_step < q.steps.len() || q.current_step >= q.steps.len(),
{
}

/// Once completed, a quest that is not repeatable cannot be started again; a
/// repeatable one can.
pub proof fn law_completed_quest_not_restarted(p: PlayerQuestsView, id: Seq<char>)
    ensures
        ({
            let after = PlayerQuestsView { active: p.active.remove(id), completed: p.completed.insert(id), ..p };
            &&& start_refusal(after, id, false) == Some("Quest already completed and not repeatable"@)
            &&& start_refusal(after, id, true) is None
        }),
{
}

/// A quest is active at most once: starting an active quest is refused.
pub proof fn law_quest_active_once(p: PlayerQuestsView, id: Seq<char>, steps: Seq<StepView>, repeatable: bool)
    ensures
        ({
            let started = PlayerQuestsView {
                active: p.active.insert(id, QuestView { quest_id: id, steps, current_step: 0, pinned: false }),
                ..p
            };
            start_refusal(started, id, repeatable) == Some("Quest already active"@)
        }),
{
}

} // verus!
