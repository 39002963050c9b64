//! NPC Dialogue System
//!
//! Handles NPC interactions, dialogue sessions, and quest integration. An NPC
//! turns in a player's active quest when it has closing lines for it, else
//! offers the first available quest it gives, else says its idle lines.

use vstd::prelude::*;

use crate::assoc::{first_value, keys_unique, lemma_absent, lemma_at, lemma_push, lemma_remove, to_map};
use crate::master_announce::config::{copy_strings, strings_view};
use crate::protocol::PlayerId;
use crate::text::{owned, str_eq};

verus! {

/// Dialogue response options
#[derive(Debug, Clone, Copy, PartialEq, Eq, Structural)]
pub enum DialogueResponse {
    /// Accept offered quest
    Accept,
    /// Decline offered quest
    Decline,
    /// Continue dialogue
    Continue,
    /// Close dialogue
    Close,
}

/// Type of dialogue being shown
#[derive(Debug, Clone, Copy, PartialEq, Eq, Structural)]
pub enum DialogueType {
    /// Idle/ambient dialogue
    Idle,
    /// Offering a quest
    QuestOffer,
    /// Quest completion
    QuestComplete,
}

/// What choosing a dialogue option does.
#[derive(Debug, Clone, Copy, PartialEq, Eq, Structural)]
pub enum DialogueOptionType {
    /// Accept the offered quest
    AcceptQuest,
    /// Decline the offered quest
    DeclineQuest,
    /// Close the dialogue
    Close,
}

/// An option shown under a dialogue.
#[derive(Debug, Clone)]
pub struct DialogueOption {
    pub option_id: String,
    pub text: String,
    pub option_type: DialogueOptionType,
}

/// What an option says.
pub struct OptionView {
    pub option_id: Seq<char>,
    pub text: Seq<char>,
    pub option_type: DialogueOptionType,
}

impl View for DialogueOption {
    type V = OptionView;

    open spec fn view(&self) -> OptionView {
        OptionView { option_id: self.option_id@, text: self.text@, option_type: self.option_type }
    }
}

/// The lines and answers with which an NPC offers a quest.
#[derive(Debug, Clone)]
pub struct QuestDialogue {
    pub offer_lines: Vec<String>,
    pub accept_text: String,
    pub decline_text: String,
}

/// What a quest offer says.
pub struct OfferView {
    pub offer_lines: Seq<Seq<char>>,
    pub accept_text: Seq<char>,
    pub decline_text: Seq<char>,
}

impl View for QuestDialogue {
    type V = OfferView;

    open spec fn view(&self) -> OfferView {
        OfferView {
            offer_lines: strings_view(self.offer_lines@),
            accept_text: self.accept_text@,
            decline_text: self.decline_text@,
        }
    }
}

/// What an NPC can say: its quests, idle lines, quest offers and quest
/// closing lines, each offer and closing by quest id.
#[derive(Debug, Clone)]
pub struct NpcDialogue {
    pub npc_id: String,
    pub name: String,
    /// Quests this NPC gives, in order of priority
    pub quest_giver: Vec<String>,
    pub idle_dialogue: Vec<String>,
    pub quest_offer_dialogue: Vec<(String, QuestDialogue)>,
    pub quest_complete_dialogue: Vec<(String, Vec<String>)>,
}

/// What an NPC can say, as plain values.
pub struct NpcView {
    pub npc_id: Seq<char>,
    pub name: Seq<char>,
    pub quest_giver: Seq<Seq<char>>,
    pub idle: Seq<Seq<char>>,
    pub offers: Seq<(Seq<char>, OfferView)>,
    pub completions: Seq<(Seq<char>, Seq<Seq<char>>)>,
}

impl View for NpcDialogue {
    type V = NpcView;

    open spec fn view(&self) -> NpcView {
        NpcView {
            npc_id: self.npc_id@,
            name: self.name@,
            quest_giver: strings_view(self.quest_giver@),
            idle: strings_view(self.idle_dialogue@),
            offers: self.quest_offer_dialogue@.map_values(|e: (String, QuestDialogue)| (e.0@, e.1@)),
            completions: self.quest_complete_dialogue@.map_values(
                |e: (String, Vec<String>)| (e.0@, strings_view(e.1@)),
            ),
        }
    }
}

/// The first quest of `givers` that the player has active and the NPC has
/// closing lines for.
pub open spec fn first_turn_in(givers: Seq<Seq<char>>, npc: NpcView, active: Seq<Seq<char>>) -> Option<Seq<char>>
    decreases givers.len(),
{
    if givers.len() == 0 {
        None
    } else if active.contains(givers[0]) && first_value(npc.completions, givers[0]) is Some {
        Some(givers[0])
    } else {
        first_turn_in(givers.drop_first(), npc, active)
    }
}

/// The first quest of `givers` that the player has neither active nor
/// completed, that is available to it, and that the NPC has an offer for.
pub open spec fn first_offer(
    givers: Seq<Seq<char>>,
    npc: NpcView,
    active: Seq<Seq<char>>,
    completed: Seq<Seq<char>>,
    available: Seq<Seq<char>>,
) -> Option<Seq<char>>
    decreases givers.len(),
{
    if givers.len() == 0 {
        None
    } else if !active.contains(givers[0]) && !completed.contains(givers[0]) && available.contains(givers[0])
        && first_value(npc.offers, givers[0]) is Some {
        Some(givers[0])
    } else {
        first_offer(givers.drop_first(), npc, active, completed, available)
    }
}

/// Which dialogue the NPC shows, and for which quest: turning in an active
/// quest first, then offering a new one, else idle talk.
pub open spec fn dialogue_choice(
    npc: NpcView,
    active: Seq<Seq<char>>,
    completed: Seq<Seq<char>>,
    available: Seq<Seq<char>>,
) -> (DialogueType, Option<Seq<char>>) {
    match first_turn_in(npc.quest_giver, npc, active) {
        Some(q) => (DialogueType::QuestComplete, Some(q)),
        None => match first_offer(npc.quest_giver, npc, active, completed, available) {
            Some(q) => (DialogueType::QuestOffer, Some(q)),
            None => (DialogueType::Idle, None),
        },
    }
}

/// The lines of the chosen dialogue.
pub open spec fn dialogue_lines(npc: NpcView, kind: DialogueType, quest: Option<Seq<char>>) -> Seq<Seq<char>> {
    match kind {
        DialogueType::QuestComplete => first_value(npc.completions, quest->0)->0,
        DialogueType::QuestOffer => first_value(npc.offers, quest->0)->0.offer_lines,
        DialogueType::Idle => npc.idle,
    }
}

/// The options under the chosen dialogue.
pub open spec fn dialogue_options(npc: NpcView, kind: DialogueType, quest: Option<Seq<char>>) -> Seq<OptionView> {
    match kind {
        DialogueType::QuestComplete => seq![
            OptionView { option_id: "complete"@, text: "Thank you!"@, option_type: DialogueOptionType::Close },
        ],
        DialogueType::QuestOffer => {
            let offer = first_value(npc.offers, quest->0)->0;
            seq![
                OptionView { option_id: "accept"@, text: offer.accept_text, option_type: DialogueOptionType::AcceptQuest },
                OptionView { option_id: "decline"@, text: offer.decline_text, option_type: DialogueOptionType::DeclineQuest },
            ]
        },
        DialogueType::Idle => seq![
            OptionView { option_id: "close"@, text: "Goodbye"@, option_type: DialogueOptionType::Close },
        ],
    }
}

/// The answer a response id stands for: an unknown one closes the dialogue.
pub open spec fn response_for(id: Seq<char>) -> DialogueResponse {
    if id == "accept"@ {
        DialogueResponse::Accept
    } else if id == "decline"@ {
        DialogueResponse::Decline
    } else if id == "continue"@ {
        DialogueResponse::Continue
    } else {
        DialogueResponse::Close
    }
}

/// Current dialogue state for a player
#[derive(Debug, Clone)]
pub struct DialogueSession {
    /// NPC being talked to
    pub npc_id: String,
    /// Current dialogue type
    pub dialogue_type: DialogueType,
    /// Quest being offered/completed (if any)
    pub quest_id: Option<String>,
    /// Current line index
    pub current_line: usize,
    /// Total lines in current dialogue
    pub total_lines: usize,
}

/// What a dialogue session says.
pub struct SessionView {
    pub npc_id: Seq<char>,
    pub dialogue_type: DialogueType,
    pub quest_id: Option<Seq<char>>,
    pub current_line: usize,
    pub total_lines: usize,
}

/// The characters of an optional string.
pub open spec fn opt_chars(s: Option<String>) -> Option<Seq<char>> {
    match s {
        Some(x) => Some(x@),
        None => None,
    }
}

impl View for DialogueSession {
    type V = SessionView;

    open spec fn view(&self) -> SessionView {
        SessionView {
            npc_id: self.npc_id@,
            dialogue_type: self.dialogue_type,
            quest_id: opt_chars(self.quest_id),
            current_line: self.current_line,
            total_lines: self.total_lines,
        }
    }
}

/// A dialogue to show a player.
#[derive(Debug, Clone)]
pub struct DialogueShow {
    pub npc_id: String,
    pub npc_name: String,
    pub lines: Vec<String>,
    pub options: Vec<DialogueOption>,
}

/// What a dialogue message says.
pub struct ShowView {
    pub npc_id: Seq<char>,
    pub npc_name: Seq<char>,
    pub lines: Seq<Seq<char>>,
    pub options: Seq<OptionView>,
}

impl View for DialogueShow {
    type V = ShowView;

    open spec fn view(&self) -> ShowView {
        ShowView {
            npc_id: self.npc_id@,
            npc_name: self.npc_name@,
            lines: strings_view(self.lines@),
            options: self.options@.map_values(|o: DialogueOption| o@),
        }
    }
}

/// Dialogue handler manages active sessions and the dialogue messages to send
pub struct DialogueHandler {
    /// Active dialogue sessions by player ID
    sessions: Vec<(PlayerId, DialogueSession)>,
    /// Pending dialogue messages
    pending_messages: Vec<(PlayerId, DialogueShow)>,
}

/// The observable state of a [`DialogueHandler`].
pub struct HandlerView {
    pub sessions: Map<PlayerId, SessionView>,
    pub messages: Seq<(PlayerId, ShowView)>,
}

/// The sessions, keyed by player.
pub open spec fn session_pairs(v: Seq<(PlayerId, DialogueSession)>) -> Seq<(PlayerId, SessionView)> {
    v.map_values(|e: (PlayerId, DialogueSession)| (e.0, e.1@))
}

/// The pending messages.
pub open spec fn message_views(v: Seq<(PlayerId, DialogueShow)>) -> Seq<(PlayerId, ShowView)> {
    v.map_values(|e: (PlayerId, DialogueShow)| (e.0, e.1@))
}

/// The handler after `player` starts talking to `npc`: nothing changes while
/// the player is already in a dialogue or when the NPC has nothing to say;
/// otherwise a session starts and the dialogue is queued for the player.
pub open spec fn interaction(
    h: HandlerView,
    player: PlayerId,
    npc: NpcView,
    active: Seq<Seq<char>>,
    completed: Seq<Seq<char>>,
    available: Seq<Seq<char>>,
) -> HandlerView {
    let (kind, quest) = dialogue_choice(npc, active, completed, available);
    let lines = dialogue_lines(npc, kind, quest);
    if h.sessions.contains_key(player) || lines.len() == 0 {
        h
    } else {
        HandlerView {
            sessions: h.sessions.insert(
                player,
                SessionView {
                    npc_id: npc.npc_id,
                    dialogue_type: kind,
                    quest_id: quest,
                    current_line: 0,
                    total_lines: lines.len() as usize,
                },
            ),
            messages: h.messages.push(
                (
                    player,
                    ShowView {
                        npc_id: npc.npc_id,
                        npc_name: npc.name,
                        lines,
                        options: dialogue_options(npc, kind, quest),
                    },
                ),
            ),
        }
    }
}

impl View for DialogueHandler {
    type V = HandlerView;

    closed spec fn view(&self) -> HandlerView {
        HandlerView { sessions: to_map(session_pairs(self.sessions@)), messages: message_views(self.pending_messages@) }
    }
}

/// Copies a list of strings, keeping their characters.
fn copy_lines(v: &Vec<String>) -> (r: Vec<String>)
    ensures
        strings_view(r@) == strings_view(v@),
{
    copy_strings(v)
}

/// Whether one of the strings holds the characters of `s`.
fn contains_str(v: &[String], s: &str) -> (b: bool)
    ensures
        b == strings_view(v@).contains(s@),
{
    let mut i: usize = 0;
    while i < v.len()
        invariant
            i <= v@.len(),
            forall|k: int| 0 <= k < i ==> v@[k]@ != s@,
        decreases v@.len() - i,
    {
        if str_eq(v[i].as_str(), s) {
            assert(strings_view(v@)[i as int] == s@);
            return true;
        }
        i = i + 1;
    }
    assert forall|k: int| 0 <= k < strings_view(v@).len() implies strings_view(v@)[k] != s@ by {
        assert(strings_view(v@)[k] == v@[k]@);
    }
    false
}

impl NpcDialogue {
    /// The index of the offer for `quest`.
    fn find_offer(&self, quest: &str) -> (r: Option<usize>)
        ensures
            match r {
                Some(i) => i < self.quest_offer_dialogue@.len() && first_value(self@.offers, quest@) == Some(
                    self.quest_offer_dialogue@[i as int].1@,
                ),
                None => first_value(self@.offers, quest@) is None,
            },
    {
        let ghost s = self@.offers;
        let mut i: usize = 0;
        assert(s.subrange(0, s.len() as int) =~= s);
        while i < self.quest_offer_dialogue.len()
            invariant
                s == self@.offers,
                s.len() == self.quest_offer_dialogue@.len(),
                i <= s.len(),
                first_value(s.subrange(i as int, s.len() as int), quest@) == first_value(s, quest@),
            decreases s.len() - i,
        {
            let ghost sub = s.subrange(i as int, s.len() as int);
            assert(sub[0] == s[i as int]);
            if str_eq(self.quest_offer_dialogue[i].0.as_str(), quest) {
                return Some(i);
            }
            assert(sub.drop_first() =~= s.subrange(i + 1, s.len() as int));
            i = i + 1;
        }
        None
    }

    /// The index of the closing lines for `quest`.
    fn find_completion(&self, quest: &str) -> (r: Option<usize>)
        ensures
            match r {
                Some(i) => i < self.quest_complete_dialogue@.len() && first_value(self@.completions, quest@)
                    == Some(strings_view(self.quest_complete_dialogue@[i as int].1@)),
                None => first_value(self@.completions, quest@) is None,
            },
    {
        let ghost s = self@.completions;
        let mut i: usize = 0;
        assert(s.subrange(0, s.len() as int) =~= s);
        while i < self.quest_complete_dialogue.len()
            invariant
                s == self@.completions,
                s.len() == self.quest_complete_dialogue@.len(),
                i <= s.len(),
                first_value(s.subrange(i as int, s.len() as int), quest@) == first_value(s, quest@),
            decreases s.len() - i,
        {
            let ghost sub = s.subrange(i as int, s.len() as int);
            assert(sub[0] == s[i as int]);
            if str_eq(self.quest_complete_dialogue[i].0.as_str(), quest) {
                return Some(i);
            }
            assert(sub.drop_first() =~= s.subrange(i + 1, s.len() as int));
            i = i + 1;
        }
        None
    }
}

/// Decide which dialogue the NPC shows a player with the given active,
/// completed and available quests: its type, quest, lines and options.
pub fn determine_dialogue(npc: &NpcDialogue, active: &[String], completed: &[String], available: &[String]) -> (r: (
    DialogueType,
    Option<String>,
    Vec<String>,
    Vec<DialogueOption>,
))
    ensures
        ({
            let (kind, quest) = dialogue_choice(npc@, strings_view(active@), strings_view(completed@), strings_view(available@));
            &&& r.0 == kind
            &&& opt_chars(r.1) == quest
            &&& strings_view(r.2@) == dialogue_lines(npc@, kind, quest)
            &&& r.3@.map_values(|o: DialogueOption| o@) == dialogue_options(npc@, kind, quest)
        }),
{
    let ghost nv = npc@;
    let ghost act = strings_view(active@);
    let ghost comp = strings_view(completed@);
    let ghost avail = strings_view(available@);
    let ghost givers = nv.quest_giver;
    // Priority 1: turning in an active quest
    let mut i: usize = 0;
    assert(givers.subrange(0, givers.len() as int) =~= givers);
    while i < npc.quest_giver.len()
        invariant
            nv == npc@,
            act == strings_view(active@),
            givers == nv.quest_giver,
            givers.len() == npc.quest_giver@.len(),
            i <= givers.len(),
            first_turn_in(givers.subrange(i as int, givers.len() as int), nv, act) == first_turn_in(givers, nv, act),
        decreases givers.len() - i,
    {
        let ghost sub = givers.subrange(i as int, givers.len() as int);
        assert(sub[0] == givers[i as int]);
        let q = &npc.quest_giver[i];
        assert(q@ == givers[i as int]);
        if contains_str(active, q.as_str()) {
            if let Some(ci) = npc.find_completion(q.as_str()) {
                let lines = copy_lines(&npc.quest_complete_dialogue[ci].1);
                let mut options: Vec<DialogueOption> = Vec::new();
                options.push(
                    DialogueOption {
                        option_id: owned("complete"),
                        text: owned("Thank you!"),
                        option_type: DialogueOptionType::Close,
                    },
                );
                let r = (DialogueType::QuestComplete, Some(q.clone()), lines, options);
                assert(r.3@.map_values(|o: DialogueOption| o@) =~= dialogue_options(nv, DialogueType::QuestComplete, Some(q@)));
                return r;
            }
        }
        assert(sub.drop_first() =~= givers.subrange(i + 1, givers.len() as int));
        i = i + 1;
    }
    assert(first_turn_in(givers, nv, act) is None);
    // Priority 2: offering a quest
    let mut i: usize = 0;
    while i < npc.quest_giver.len()
        invariant
            nv == npc@,
            act == strings_view(active@),
            comp == strings_view(completed@),
            avail == strings_view(available@),
            first_turn_in(nv.quest_giver, nv, act) is None,
            givers == nv.quest_giver,
            givers.len() == npc.quest_giver@.len(),
            i <= givers.len(),
            first_offer(givers.subrange(i as int, givers.len() as int), nv, act, comp, avail) == first_offer(
                givers,
                nv,
                act,
                comp,
                avail,
            ),
        decreases givers.len() - i,
    {
        let ghost sub = givers.subrange(i as int, givers.len() as int);
        assert(sub[0] == givers[i as int]);
        let q = &npc.quest_giver[i];
        assert(q@ == givers[i as int]);
        if !contains_str(active, q.as_str()) && !contains_str(completed, q.as_str()) && contains_str(
            available,
            q.as_str(),
        ) {
            if let Some(oi) = npc.find_offer(q.as_str()) {
                let offer = &npc.quest_offer_dialogue[oi].1;
                let lines = copy_lines(&offer.offer_lines);
                let mut options: Vec<DialogueOption> = Vec::new();
                options.push(
                    DialogueOption {
                        option_id: owned("accept"),
                        text: offer.accept_text.clone(),
                        option_type: DialogueOptionType::AcceptQuest,
                    },
                );
                options.push(
                    DialogueOption {
                        option_id: owned("decline"),
                        text: offer.decline_text.clone(),
                        option_type: DialogueOptionType::DeclineQuest,
                    },
                );
                let r = (DialogueType::QuestOffer, Some(q.clone()), lines, options);
                assert(r.3@.map_values(|o: DialogueOption| o@) =~= dialogue_options(nv, DialogueType::QuestOffer, Some(q@)));
                return r;
            }
        }
        assert(sub.drop_first() =~= givers.subrange(i + 1, givers.len() as int));
        i = i + 1;
    }
    assert(first_offer(givers, nv, act, comp, avail) is None);
    // Priority 3: idle talk
    let lines = copy_lines(&npc.idle_dialogue);
    let mut options: Vec<DialogueOption> = Vec::new();
    options.push(
        DialogueOption { option_id: owned("close"), text: owned("Goodbye"), option_type: DialogueOptionType::Close },
    );
    let r = (DialogueType::Idle, None, lines, options);
    assert(r.3@.map_values(|o: DialogueOption| o@) =~= dialogue_options(nv, DialogueType::Idle, None));
    r
}

impl DialogueHandler {
    /// One session per player.
    pub closed spec fn wf(&self) -> bool {
        keys_unique(session_pairs(self.sessions@))
    }

    /// Create a new dialogue handler.
    pub fn new() -> (h: DialogueHandler)
        ensures
            h.wf(),
            h@.sessions == Map::<PlayerId, SessionView>::empty(),
            h@.messages == Seq::<(PlayerId, ShowView)>::empty(),
    {
        let h = DialogueHandler { sessions: Vec::new(), pending_messages: Vec::new() };
        assert(session_pairs(h.sessions@) =~= Seq::empty());
        assert(h@.sessions =~= Map::empty());
        assert(h@.messages =~= Seq::empty());
        h
    }

    fn find_session(&self, player_id: PlayerId) -> (r: Option<usize>)
        requires
            self.wf(),
        ensures
            match r {
                Some(i) => i < self.sessions@.len() && self.sessions@[i as int].0 == player_id
                    && self@.sessions.contains_key(player_id) && self@.sessions[player_id] == self.sessions@[i as int].1@,
                None => !self@.sessions.contains_key(player_id),
            },
    {
        let ghost ps = session_pairs(self.sessions@);
        let mut i: usize = 0;
        while i < self.sessions.len()
            invariant
                self.wf(),
                ps == session_pairs(self.sessions@),
                i <= self.sessions@.len(),
                forall|k: int| 0 <= k < i ==> self.sessions@[k].0 != player_id,
            decreases self.sessions@.len() - i,
        {
            if self.sessions[i].0 == player_id {
                proof {
                    lemma_at(ps, i as int);
                }
                return Some(i);
            }
            i = i + 1;
        }
        proof {
            assert forall|k: int| 0 <= k < ps.len() implies ps[k].0 != player_id by {
                assert(ps[k].0 == self.sessions@[k].0);
            }
            lemma_absent(ps, player_id);
        }
        None
    }

    /// Start an interaction with an NPC: the dialogue is chosen from the
    /// player's quest state, a session starts and the dialogue is queued for the
    /// player. Nothing happens while the player is in a dialogue, or when the NPC
    /// has nothing to say.
    pub fn start_interaction(
        &mut self,
        player_id: PlayerId,
        npc: &NpcDialogue,
        player_active_quests: &[String],
        player_completed_quests: &[String],
        player_available_quests: &[String],
    )
        requires
            old(self).wf(),
        ensures
            final(self).wf(),
            final(self)@ == interaction(
                old(self)@,
                player_id,
                npc@,
                strings_view(player_active_quests@),
                strings_view(player_completed_quests@),
                strings_view(player_available_quests@),
            ),
    {
        if self.find_session(player_id).is_some() {
            return;
        }
        let (dialogue_type, quest_id, lines, options) = determine_dialogue(
            npc,
            player_active_quests,
            player_completed_quests,
            player_available_quests,
        );
        if lines.len() == 0 {
            return;
        }
        let quest_copy = match &quest_id {
            Some(q) => Some(q.clone()),
            None => None,
        };
        let session = DialogueSession {
            npc_id: npc.npc_id.clone(),
            dialogue_type,
            quest_id: quest_copy,
            current_line: 0,
            total_lines: lines.len(),
        };
        let ghost ps = session_pairs(self.sessions@);
        proof {
            assert(!crate::assoc::has_key(ps, player_id)) by {
                if crate::assoc::has_key(ps, player_id) {
                    let k = choose|k: int| 0 <= k < ps.len() && #[trigger] ps[k].0 == player_id;
                    lemma_at(ps, k);
                }
            }
            lemma_push(ps, player_id, session@);
        }
        self.sessions.push((player_id, session));
        assert(session_pairs(self.sessions@) =~= ps.push((player_id, session@)));
        let show = DialogueShow { npc_id: npc.npc_id.clone(), npc_name: npc.name.clone(), lines, options };
        let ghost ms = message_views(self.pending_messages@);
        self.pending_messages.push((player_id, show));
        assert(message_views(self.pending_messages@) =~= ms.push((player_id, show@)));
    }

    /// Handle player dialogue response: the session ends, and its type and quest
    /// are returned with the answer the response id stands for. None when the
    /// player is in no dialogue.
    pub fn handle_response(&mut self, player_id: PlayerId, response_id: &str) -> (r: Option<
        (DialogueType, Option<String>, DialogueResponse),
    >)
        requires
            old(self).wf(),
        ensures
            final(self).wf(),
            !old(self)@.sessions.contains_key(player_id) ==> r is None && final(self)@ == old(self)@,
            old(self)@.sessions.contains_key(player_id) ==> (r matches Some((kind, quest, resp)) && {
                let s = old(self)@.sessions[player_id];
                &&& kind == s.dialogue_type
                &&& opt_chars(quest) == s.quest_id
                &&& resp == response_for(response_id@)
            }) && final(self)@ == (HandlerView { sessions: old(self)@.sessions.remove(player_id), ..old(self)@ }),
    {
        let i = match self.find_session(player_id) {
            Some(i) => i,
            None => {
                return None;
            },
        };
        let ghost ps = session_pairs(self.sessions@);
        proof {
            lemma_remove(ps, i as int);
        }
        let (_, session) = self.sessions.remove(i);
        assert(session_pairs(self.sessions@) =~= ps.remove(i as int));
        let response = if str_eq(response_id, "accept") {
            DialogueResponse::Accept
        } else if str_eq(response_id, "decline") {
            DialogueResponse::Decline
        } else if str_eq(response_id, "continue") {
            DialogueResponse::Continue
        } else {
            DialogueResponse::Close
        };
        Some((session.dialogue_type, session.quest_id, response))
    }

    /// Close a dialogue session.
    pub fn close_session(&mut self, player_id: PlayerId)
        requires
            old(self).wf(),
        ensures
            final(self).wf(),
            final(self)@ == (HandlerView { sessions: old(self)@.sessions.remove(player_id), ..old(self)@ }),
    {
        match self.find_session(player_id) {
            Some(i) => {
                let ghost ps = session_pairs(self.sessions@);
                proof {
                    lemma_remove(ps, i as int);
                }
                self.sessions.remove(i);
                assert(session_pairs(self.sessions@) =~= ps.remove(i as int));
            },
            None => {
                assert(self@.sessions.remove(player_id) =~= self@.sessions);
            },
        }
    }

    /// Check if player is in a dialogue session.
    pub fn is_in_dialogue(&self, player_id: PlayerId) -> (b: bool)
        requires
            self.wf(),
        ensures
            b == self@.sessions.contains_key(player_id),
    {
        self.find_session(player_id).is_some()
    }

    /// Get the current session for a player.
    pub fn get_session(&self, player_id: PlayerId) -> (r: Option<&DialogueSession>)
        requires
            self.wf(),
        ensures
            match r {
                Some(s) => self@.sessions.contains_key(player_id) && s@ == self@.sessions[player_id],
                None => !self@.sessions.contains_key(player_id),
            },
    {
        match self.find_session(player_id) {
            Some(i) => Some(&self.sessions[i].1),
            None => None,
        }
    }

    /// Drain pending dialogue messages, oldest first.
    pub fn drain_messages(&mut self) -> (msgs: Vec<(PlayerId, DialogueShow)>)
        ensures
            final(self)@ == (HandlerView { messages: Seq::empty(), ..old(self)@ }),
            message_views(msgs@) == old(self)@.messages,
    {
        let mut msgs: Vec<(PlayerId, DialogueShow)> = Vec::new();
        std::mem::swap(&mut msgs, &mut self.pending_messages);
        assert(message_views(self.pending_messages@) =~= Seq::empty());
        msgs
    }
}

impl Default for DialogueHandler {
    fn default() -> (h: DialogueHandler)
        ensures
            h.wf(),
            h@.sessions == Map::<PlayerId, SessionView>::empty(),
            h@.messages == Seq::<(PlayerId, ShowView)>::empty(),
    {
        DialogueHandler::new()
    }
}

/// A player talks to one NPC at a time: starting an interaction during a
/// dialogue changes nothing, and a started dialogue is queued exactly once.
pub proof fn law_one_dialogue_at_a_time(
    h: HandlerView,
    player: PlayerId,
    npc: NpcView,
    active: Seq<Seq<char>>,
    completed: Seq<Seq<char>>,
    available: Seq<Seq<char>>,
)
    ensures
        h.sessions.contains_key(player) ==> interaction(h, player, npc, active, completed, available) == h,
        ({
            let after = interaction(h, player, npc, active, completed, available);
            after.messages.len() <= h.messages.len() + 1
        }),
{
}

/// A quest is offered only when the player can take it up: it is not active,
/// not completed, and available; and a quest is turned in only when it is active.
pub proof fn law_offers_only_available_quests(
    npc: NpcView,
    active: Seq<Seq<char>>,
    completed: Seq<Seq<char>>,
    available: Seq<Seq<char>>,
)
    ensures
        ({
            let (kind, quest) = dialogue_choice(npc, active, completed, available);
            &&& kind == DialogueType::QuestOffer ==> {
                let q = quest->0;
                !active.contains(q) && !completed.contains(q) && available.contains(q)
            }
            &&& kind == DialogueType::QuestComplete ==> active.contains(quest->0)
        }),
{
    lemma_first_offer_sound(npc.quest_giver, npc, active, completed, available);
    lemma_first_turn_in_sound(npc.quest_giver, npc, active);
}

proof fn lemma_first_offer_sound(
    givers: Seq<Seq<char>>,
    npc: NpcView,
    active: Seq<Seq<char>>,
    completed: Seq<Seq<char>>,
    available: Seq<Seq<char>>,
)
    ensures
        first_offer(givers, npc, active, completed, available) matches Some(q) ==> !active.contains(q)
            && !completed.contains(q) && available.contains(q),
    decreases givers.len(),
{
    if givers.len() > 0 {
        lemma_first_offer_sound(givers.drop_first(), npc, active, completed, available);
    }
}

proof fn lemma_first_turn_in_sound(givers: Seq<Seq<char>>, npc: NpcView, active: Seq<Seq<char>>)
    ensures
        first_turn_in(givers, npc, active) matches Some(q) ==> active.contains(q),
    decreases givers.len(),
{
    if givers.len() > 0 {
        lemma_first_turn_in_sound(givers.drop_first(), npc, active);
    }
}

} // verus!
