//! Mob bookkeeping: live mob instances, the damage they take, and what a
//! death brings (the kill, the rewards, the loot and the spawn point's notice).
//!
//! Positions are world coordinates in whole units. Payouts and loot rolls
//! come from the caller: the shares rest on floating point and the roll on
//! chance, and the system takes their outcome.

use vstd::prelude::*;

use crate::assoc::{has_key, keys_unique, lemma_absent, lemma_at, lemma_len, lemma_push, lemma_remove, lemma_update, to_map};
use crate::inventory::items::ItemId;
use crate::mob::ai::MobAiState;
use crate::mob::damage::{after_hit, entry_of, DamageTracker, DamageTrackerView};
use crate::protocol::PlayerId;
use crate::text::{owned, str_eq};

verus! {

/// How long a loot drop stays in the world, in milliseconds.
pub const LOOT_LIFETIME_MS: u64 = 60_000;

/// Identifier of a live mob.
#[derive(Debug, Clone, Copy, PartialEq, Eq, Hash, Structural)]
pub struct MobInstanceId(pub u64);

/// A point in the world, in whole units.
#[derive(Debug, Clone, Copy, PartialEq, Eq, Structural)]
pub struct Position {
    pub x: i32,
    pub y: i32,
    pub z: i32,
}

/// What the mob system reads of a mob definition.
#[derive(Debug, Clone)]
pub struct MobDefinition {
    pub mob_id: String,
    pub hp: u32,
    pub loot_table: String,
}

/// What a mob definition says.
pub struct MobDefView {
    pub hp: u32,
    pub loot_table: Seq<char>,
}

impl View for MobDefinition {
    type V = MobDefView;

    open spec fn view(&self) -> MobDefView {
        MobDefView { hp: self.hp, loot_table: self.loot_table@ }
    }
}

/// A payout for one player on a mob's death.
#[derive(Debug, Clone, Copy, PartialEq, Eq, Structural)]
pub struct PlayerPayout {
    /// Player receiving the payout
    pub player_id: PlayerId,
    /// XP awarded
    pub xp: u32,
    /// Credits awarded
    pub credits: u32,
    /// Whether this player got the kill
    pub is_killer: bool,
}

/// A live mob instance in the world.
#[derive(Debug)]
pub struct MobInstance {
    pub id: MobInstanceId,
    pub def_id: String,
    pub spawn_id: String,
    pub spawn_position: Position,
    pub position: Position,
    pub current_hp: u32,
    pub max_hp: u32,
    pub ai_state: MobAiState,
    pub damage_tracker: DamageTracker,
    pub target: Option<PlayerId>,
    pub boss_phase: u32,
    pub pending_removal: bool,
}

/// What a mob instance says.
pub struct MobView {
    pub def_id: Seq<char>,
    pub spawn_id: Seq<char>,
    pub spawn_position: Position,
    pub position: Position,
    pub current_hp: u32,
    pub max_hp: u32,
    pub ai_state: MobAiState,
    pub damage: DamageTrackerView,
    pub target: Option<PlayerId>,
    pub boss_phase: u32,
    pub pending_removal: bool,
}

impl View for MobInstance {
    type V = MobView;

    open spec fn view(&self) -> MobView {
        MobView {
            def_id: self.def_id@,
            spawn_id: self.spawn_id@,
            spawn_position: self.spawn_position,
            position: self.position,
            current_hp: self.current_hp,
            max_hp: self.max_hp,
            ai_state: self.ai_state,
            damage: self.damage_tracker@,
            target: self.target,
            boss_phase: self.boss_phase,
            pending_removal: self.pending_removal,
        }
    }
}

/// The player who landed the last hit on a mob, if any.
pub open spec fn killer_of(d: DamageTrackerView) -> Option<PlayerId> {
    if d.hits.len() == 0 {
        None
    } else {
        Some(d.hits.last().player)
    }
}

/// A mob after `player` deals `damage`: the hit is recorded and the HP drop,
/// stopping at zero.
pub open spec fn damaged(m: MobView, player: PlayerId, damage: u32) -> MobView {
    MobView {
        damage: after_hit(m.damage, player, damage),
        current_hp: if m.current_hp >= damage { (m.current_hp - damage) as u32 } else { 0 },
        ..m
    }
}

/// Whether one more hit by `player` can be counted on a mob.
pub open spec fn can_hit(m: MobView, player: PlayerId) -> bool {
    entry_of(m.damage.hits, player) matches Some(e) ==> e.hit_count < u32::MAX
}

impl MobInstance {
    /// A mob's damage tracker is well formed.
    pub open spec fn wf(&self) -> bool {
        self.damage_tracker.wf()
    }

    /// Create a new mob instance from a definition, at full HP, idle, at its
    /// spawn position.
    pub fn new(id: MobInstanceId, definition: &MobDefinition, spawn_id: &str, spawn_position: Position) -> (m: MobInstance)
        ensures
            m.wf(),
            m.id == id,
            m@ == (MobView {
                def_id: definition.mob_id@,
                spawn_id: spawn_id@,
                spawn_position,
                position: spawn_position,
                current_hp: definition.hp,
                max_hp: definition.hp,
                ai_state: MobAiState::Idle,
                damage: DamageTrackerView { hits: Seq::empty(), total_damage: 0, max_hp: definition.hp },
                target: None,
                boss_phase: 0,
                pending_removal: false,
            }),
    {
        MobInstance {
            id,
            def_id: owned(definition.mob_id.as_str()),
            spawn_id: owned(spawn_id),
            spawn_position,
            position: spawn_position,
            current_hp: definition.hp,
            max_hp: definition.hp,
            ai_state: MobAiState::Idle,
            damage_tracker: DamageTracker::new(definition.hp),
            target: None,
            boss_phase: 0,
            pending_removal: false,
        }
    }

    /// Apply damage to this mob from a player; returns whether it died.
    pub fn take_damage(&mut self, player_id: PlayerId, damage: u32) -> (died: bool)
        requires
            old(self).wf(),
            can_hit(old(self)@, player_id),
        ensures
            final(self).wf(),
            final(self).id == old(self).id,
            final(self)@ == damaged(old(self)@, player_id, damage),
            died == (final(self)@.current_hp == 0),
    {
        self.damage_tracker.record_damage(player_id, damage);
        self.current_hp = self.current_hp.saturating_sub(damage);
        self.current_hp == 0
    }

    /// Check if this mob is dead.
    pub fn is_dead(&self) -> (b: bool)
        ensures
            b == (self@.current_hp == 0),
    {
        self.current_hp == 0
    }
}

/// A loot drop in the world.
#[derive(Debug, Clone, Copy, PartialEq, Eq, Structural)]
pub struct LootDrop {
    pub id: u64,
    pub position: Position,
    pub item_id: ItemId,
    pub quantity: u32,
    /// When the drop was created, in milliseconds
    pub created_ms: u64,
    /// When the drop expires, in milliseconds
    pub expires_ms: u64,
}

/// Event emitted by the mob system.
#[derive(Debug, Clone)]
pub enum MobEvent {
    Spawned { mob_id: MobInstanceId, def_id: String, position: Position },
    Damaged { mob_id: MobInstanceId, attacker: PlayerId, damage: u32, remaining_hp: u32 },
    Killed { mob_id: MobInstanceId, def_id: String, killer: Option<PlayerId>, position: Position },
    LootDropped { mob_id: MobInstanceId, position: Position, items: Vec<(ItemId, u32)> },
    RewardDistributed { mob_id: MobInstanceId, payouts: Vec<PlayerPayout> },
}

/// What a mob event says.
pub enum MobEventView {
    Spawned { mob_id: MobInstanceId, def_id: Seq<char>, position: Position },
    Damaged { mob_id: MobInstanceId, attacker: PlayerId, damage: u32, remaining_hp: u32 },
    Killed { mob_id: MobInstanceId, def_id: Seq<char>, killer: Option<PlayerId>, position: Position },
    LootDropped { mob_id: MobInstanceId, position: Position, items: Seq<(ItemId, u32)> },
    RewardDistributed { mob_id: MobInstanceId, payouts: Seq<PlayerPayout> },
}

impl View for MobEvent {
    type V = MobEventView;

    open spec fn view(&self) -> MobEventView {
        match self {
            MobEvent::Spawned { mob_id, def_id, position } => MobEventView::Spawned {
                mob_id: *mob_id,
                def_id: def_id@,
                position: *position,
            },
            MobEvent::Damaged { mob_id, attacker, damage, remaining_hp } => MobEventView::Damaged {
                mob_id: *mob_id,
                attacker: *attacker,
                damage: *damage,
                remaining_hp: *remaining_hp,
            },
            MobEvent::Killed { mob_id, def_id, killer, position } => MobEventView::Killed {
                mob_id: *mob_id,
                def_id: def_id@,
                killer: *killer,
                position: *position,
            },
            MobEvent::LootDropped { mob_id, position, items } => MobEventView::LootDropped {
                mob_id: *mob_id,
                position: *position,
                items: items@,
            },
            MobEvent::RewardDistributed { mob_id, payouts } => MobEventView::RewardDistributed {
                mob_id: *mob_id,
                payouts: payouts@,
            },
        }
    }
}

/// A message for clients about mobs.
#[derive(Debug, Clone)]
pub enum MobMessage {
    Spawned { mob_id: MobInstanceId, def_id: String, position: Position, hp: u32, max_hp: u32 },
    Damaged { mob_id: MobInstanceId, attacker: PlayerId, damage: u32, remaining_hp: u32 },
    /// A reward for killing a mob, naming the mob definition as its source
    Reward { xp: u32, credits: u32, source: String },
    LootDropped { mob_id: MobInstanceId, position: Position, items: Vec<(ItemId, u32)> },
    Died { mob_id: MobInstanceId, killer: Option<PlayerId>, position: Position },
}

/// What a mob message says.
pub enum MobMessageView {
    Spawned { mob_id: MobInstanceId, def_id: Seq<char>, position: Position, hp: u32, max_hp: u32 },
    Damaged { mob_id: MobInstanceId, attacker: PlayerId, damage: u32, remaining_hp: u32 },
    Reward { xp: u32, credits: u32, source: Seq<char> },
    LootDropped { mob_id: MobInstanceId, position: Position, items: Seq<(ItemId, u32)> },
    Died { mob_id: MobInstanceId, killer: Option<PlayerId>, position: Position },
}

impl View for MobMessage {
    type V = MobMessageView;

    open spec fn view(&self) -> MobMessageView {
        match self {
            MobMessage::Spawned { mob_id, def_id, position, hp, max_hp } => MobMessageView::Spawned {
                mob_id: *mob_id,
                def_id: def_id@,
                position: *position,
                hp: *hp,
                max_hp: *max_hp,
            },
            MobMessage::Damaged { mob_id, attacker, damage, remaining_hp } => MobMessageView::Damaged {
                mob_id: *mob_id,
                attacker: *attacker,
                damage: *damage,
                remaining_hp: *remaining_hp,
            },
            MobMessage::Reward { xp, credits, source } => MobMessageView::Reward {
                xp: *xp,
                credits: *credits,
                source: source@,
            },
            MobMessage::LootDropped { mob_id, position, items } => MobMessageView::LootDropped {
                mob_id: *mob_id,
                position: *position,
                items: items@,
            },
            MobMessage::Died { mob_id, killer, position } => MobMessageView::Died {
                mob_id: *mob_id,
                killer: *killer,
                position: *position,
            },
        }
    }
}

/// A spawn point's notice of a death: its spawn point, the mob, and when.
#[derive(Debug, Clone)]
pub struct DeathNotice {
    pub spawn_id: String,
    pub mob_id: MobInstanceId,
    pub at_ms: u64,
}

/// What a death notice says.
pub struct DeathNoticeView {
    pub spawn_id: Seq<char>,
    pub mob_id: MobInstanceId,
    pub at_ms: u64,
}

impl View for DeathNotice {
    type V = DeathNoticeView;

    open spec fn view(&self) -> DeathNoticeView {
        DeathNoticeView { spawn_id: self.spawn_id@, mob_id: self.mob_id, at_ms: self.at_ms }
    }
}

/// The observable state of a [`MobSystem`].
pub struct MobSystemView {
    pub mobs: Map<MobInstanceId, MobView>,
    pub defs: Map<Seq<char>, MobDefView>,
    pub loot_tables: Set<Seq<char>>,
    /// Loot drops, oldest first
    pub loot: Seq<LootDrop>,
    pub next_loot_id: u64,
    pub events: Seq<MobEventView>,
    /// Messages, each for one player or (none) for everyone
    pub messages: Seq<(Option<PlayerId>, MobMessageView)>,
    /// Deaths the spawn points have not been told of yet
    pub notices: Seq<DeathNoticeView>,
}

/// The reward messages of `payouts`, one for each player, in order.
pub open spec fn reward_messages(payouts: Seq<PlayerPayout>, source: Seq<char>) -> Seq<(Option<PlayerId>, MobMessageView)> {
    payouts.map_values(
        |p: PlayerPayout| (Some(p.player_id), MobMessageView::Reward { xp: p.xp, credits: p.credits, source }),
    )
}

/// The loot drops made of `items`, numbered from `first_id`, at `position`,
/// created at `now_ms` and expiring `LOOT_LIFETIME_MS` later.
pub open spec fn new_drops(items: Seq<(ItemId, u32)>, first_id: u64, position: Position, now_ms: u64) -> Seq<LootDrop> {
    Seq::new(
        items.len(),
        |i: int|
            LootDrop {
                id: (first_id + i) as u64,
                position,
                item_id: items[i].0,
                quantity: items[i].1,
                created_ms: now_ms,
                expires_ms: (now_ms + LOOT_LIFETIME_MS) as u64,
            },
    )
}

/// Whether a death can be recorded: the loot ids and the expiry time fit.
pub open spec fn death_fits(w: MobSystemView, drops: Seq<(ItemId, u32)>, now_ms: u64) -> bool {
    &&& w.next_loot_id + drops.len() <= u64::MAX
    &&& now_ms + LOOT_LIFETIME_MS <= u64::MAX
}

/// The state after mob `mob_id` dies, with `payouts` for the players and
/// `drops` rolled from its loot table: the kill is announced with its killer,
/// each payout is sent to its player, the rewards are recorded, the drops are
/// placed where the mob fell (when its loot table is known and the roll gave
/// something), the death is broadcast, the spawn point is told, and the mob is
/// marked for removal. Nothing happens for an unknown mob or definition.
pub open spec fn mob_death_model(
    w: MobSystemView,
    mob_id: MobInstanceId,
    payouts: Seq<PlayerPayout>,
    drops: Seq<(ItemId, u32)>,
    now_ms: u64,
) -> MobSystemView {
    if !w.mobs.contains_key(mob_id) || !w.defs.contains_key(w.mobs[mob_id].def_id) {
        w
    } else {
        let m = w.mobs[mob_id];
        let killer = killer_of(m.damage);
        let dropping = w.loot_tables.contains(w.defs[m.def_id].loot_table) && drops.len() > 0;
        let events1 = w.events.push(
            MobEventView::Killed { mob_id, def_id: m.def_id, killer, position: m.position },
        ).push(MobEventView::RewardDistributed { mob_id, payouts });
        let messages1 = w.messages + reward_messages(payouts, m.def_id);
        let loot_msg = (None::<PlayerId>, MobMessageView::LootDropped { mob_id, position: m.position, items: drops });
        let loot_event = MobEventView::LootDropped { mob_id, position: m.position, items: drops };
        let died = (None::<PlayerId>, MobMessageView::Died { mob_id, killer, position: m.position });
        MobSystemView {
            mobs: w.mobs.insert(mob_id, MobView { pending_removal: true, ..m }),
            loot: if dropping { w.loot + new_drops(drops, w.next_loot_id, m.position, now_ms) } else { w.loot },
            next_loot_id: if dropping { (w.next_loot_id + drops.len()) as u64 } else { w.next_loot_id },
            events: if dropping { events1.push(loot_event) } else { events1 },
            messages: if dropping { messages1.push(loot_msg).push(died) } else { messages1.push(died) },
            notices: w.notices.push(DeathNoticeView { spawn_id: m.spawn_id, mob_id, at_ms: now_ms }),
            ..w
        }
    }
}

/// A mob as it spawns from definition `d`: at full HP, idle, at its spawn
/// position, unhurt.
pub open spec fn fresh_mob(def_id: Seq<char>, d: MobDefView, spawn_id: Seq<char>, position: Position) -> MobView {
    MobView {
        def_id,
        spawn_id,
        spawn_position: position,
        position,
        current_hp: d.hp,
        max_hp: d.hp,
        ai_state: MobAiState::Idle,
        damage: DamageTrackerView { hits: Seq::empty(), total_damage: 0, max_hp: d.hp },
        target: None,
        boss_phase: 0,
        pending_removal: false,
    }
}

/// The state after spawn point `spawn_id` spawns mob `mob_id` of definition
/// `def_id` at `position`: the mob is announced and placed, replacing any
/// with its id. An unknown definition spawns nothing.
pub open spec fn spawn_model(
    w: MobSystemView,
    mob_id: MobInstanceId,
    def_id: Seq<char>,
    spawn_id: Seq<char>,
    position: Position,
) -> MobSystemView {
    if !w.defs.contains_key(def_id) {
        w
    } else {
        let d = w.defs[def_id];
        MobSystemView {
            mobs: w.mobs.insert(mob_id, fresh_mob(def_id, d, spawn_id, position)),
            events: w.events.push(MobEventView::Spawned { mob_id, def_id, position }),
            messages: w.messages.push(
                (None, MobMessageView::Spawned { mob_id, def_id, position, hp: d.hp, max_hp: d.hp }),
            ),
            ..w
        }
    }
}

/// The mobs not marked for removal.
pub open spec fn live_mobs(mobs: Map<MobInstanceId, MobView>) -> Map<MobInstanceId, MobView> {
    Map::new(|k: MobInstanceId| mobs.contains_key(k) && !mobs[k].pending_removal, |k: MobInstanceId| mobs[k])
}

/// The state after `attacker` deals `damage` to mob `mob_id`: a live mob takes
/// the hit, and the damage is announced with the HP left. A dead or unknown
/// mob takes nothing.
pub open spec fn damage_model(w: MobSystemView, mob_id: MobInstanceId, attacker: PlayerId, damage: u32) -> MobSystemView {
    if !w.mobs.contains_key(mob_id) || w.mobs[mob_id].current_hp == 0 {
        w
    } else {
        let m1 = damaged(w.mobs[mob_id], attacker, damage);
        MobSystemView {
            mobs: w.mobs.insert(mob_id, m1),
            events: w.events.push(
                MobEventView::Damaged { mob_id, attacker, damage, remaining_hp: m1.current_hp },
            ),
            messages: w.messages.push(
                (None, MobMessageView::Damaged { mob_id, attacker, damage, remaining_hp: m1.current_hp }),
            ),
            ..w
        }
    }
}

} // verus!

verus! {

/// Loot drops still in the world at `now_ms`.
pub open spec fn unexpired(loot: Seq<LootDrop>, now_ms: u64) -> Seq<LootDrop> {
    loot.filter(|d: LootDrop| now_ms < d.expires_ms)
}

/// A copy of a list of items with their quantities.
fn copy_items(v: &Vec<(ItemId, u32)>) -> (r: Vec<(ItemId, u32)>)
    ensures
        r@ == v@,
{
    let mut r: Vec<(ItemId, u32)> = Vec::new();
    let mut i: usize = 0;
    while i < v.len()
        invariant
            i <= v@.len(),
            r@ == v@.take(i as int),
        decreases v@.len() - i,
    {
        r.push(v[i]);
        i = i + 1;
        assert(r@ =~= v@.take(i as int));
    }
    assert(v@.take(i as int) =~= v@);
    r
}

/// The main mob system.
pub struct MobSystem {
    /// Active mob instances, one per id
    mobs: Vec<MobInstance>,
    /// Mob definitions, one per id
    mob_defs: Vec<MobDefinition>,
    /// Known loot tables
    loot_tables: Vec<String>,
    /// Active loot drops
    loot_drops: Vec<LootDrop>,
    /// Next loot drop ID
    next_loot_id: u64,
    /// Events generated (consumed by caller)
    pending_events: Vec<MobEvent>,
    /// Messages to send to clients
    pending_messages: Vec<(Option<PlayerId>, MobMessage)>,
    /// Deaths the spawn points are to be told of
    death_notices: Vec<DeathNotice>,
}

/// The mobs, keyed by id.
pub open spec fn mob_pairs(v: Seq<MobInstance>) -> Seq<(MobInstanceId, MobView)> {
    v.map_values(|m: MobInstance| (m.id, m@))
}

/// The definitions, keyed by mob id.
pub open spec fn def_pairs(v: Seq<MobDefinition>) -> Seq<(Seq<char>, MobDefView)> {
    v.map_values(|d: MobDefinition| (d.mob_id@, d@))
}

impl View for MobSystem {
    type V = MobSystemView;

    closed spec fn view(&self) -> MobSystemView {
        MobSystemView {
            mobs: to_map(mob_pairs(self.mobs@)),
            defs: to_map(def_pairs(self.mob_defs@)),
            loot_tables: self.loot_tables@.map_values(|s: String| s@).to_set(),
            loot: self.loot_drops@,
            next_loot_id: self.next_loot_id,
            events: self.pending_events@.map_values(|e: MobEvent| e@),
            messages: self.pending_messages@.map_values(|m: (Option<PlayerId>, MobMessage)| (m.0, m.1@)),
            notices: self.death_notices@.map_values(|n: DeathNotice| n@),
        }
    }
}

impl MobSystem {
    /// One instance per mob id and one definition per mob id, every damage
    /// tracker well formed.
    pub closed spec fn wf(&self) -> bool {
        &&& keys_unique(mob_pairs(self.mobs@))
        &&& keys_unique(def_pairs(self.mob_defs@))
        &&& forall|i: int| 0 <= i < self.mobs@.len() ==> (#[trigger] self.mobs@[i]).wf()
    }

    /// Create a new mob system.
    pub fn new() -> (s: MobSystem)
        ensures
            s.wf(),
            s@.mobs == Map::<MobInstanceId, MobView>::empty(),
            s@.defs == Map::<Seq<char>, MobDefView>::empty(),
            s@.loot_tables == Set::<Seq<char>>::empty(),
            s@.loot == Seq::<LootDrop>::empty(),
            s@.next_loot_id == 1,
            s@.events == Seq::<MobEventView>::empty(),
            s@.messages == Seq::<(Option<PlayerId>, MobMessageView)>::empty(),
            s@.notices == Seq::<DeathNoticeView>::empty(),
    {
        let s = MobSystem {
            mobs: Vec::new(),
            mob_defs: Vec::new(),
            loot_tables: Vec::new(),
            loot_drops: Vec::new(),
            next_loot_id: 1,
            pending_events: Vec::new(),
            pending_messages: Vec::new(),
            death_notices: Vec::new(),
        };
        assert(mob_pairs(s.mobs@) =~= Seq::empty());
        assert(def_pairs(s.mob_defs@) =~= Seq::empty());
        assert(s@.mobs =~= Map::empty());
        assert(s@.defs =~= Map::empty());
        assert(s@.loot_tables =~= Set::empty());
        assert(s@.events =~= Seq::empty());
        assert(s@.messages =~= Seq::empty());
        assert(s@.notices =~= Seq::empty());
        s
    }

    fn find_mob(&self, mob_id: MobInstanceId) -> (r: Option<usize>)
        requires
            self.wf(),
        ensures
            match r {
                Some(i) => i < self.mobs@.len() && self.mobs@[i as int].id == mob_id
                    && self@.mobs.contains_key(mob_id) && self@.mobs[mob_id] == self.mobs@[i as int]@,
                None => !self@.mobs.contains_key(mob_id) && !has_key(mob_pairs(self.mobs@), mob_id),
            },
    {
        let ghost ps = mob_pairs(self.mobs@);
        let mut i: usize = 0;
        while i < self.mobs.len()
            invariant
                self.wf(),
                ps == mob_pairs(self.mobs@),
                i <= self.mobs@.len(),
                forall|k: int| 0 <= k < i ==> self.mobs@[k].id != mob_id,
            decreases self.mobs@.len() - i,
        {
            if self.mobs[i].id == mob_id {
                proof {
                    lemma_at(ps, i as int);
                }
                return Some(i);
            }
            i = i + 1;
        }
        proof {
            assert forall|k: int| 0 <= k < ps.len() implies ps[k].0 != mob_id by {
                assert(ps[k].0 == self.mobs@[k].id);
            }
            lemma_absent(ps, mob_id);
        }
        None
    }

    fn find_def(&self, mob_id: &str) -> (r: Option<usize>)
        requires
            self.wf(),
        ensures
            match r {
                Some(i) => i < self.mob_defs@.len() && self.mob_defs@[i as int].mob_id@ == mob_id@
                    && self@.defs.contains_key(mob_id@) && self@.defs[mob_id@] == self.mob_defs@[i as int]@,
                None => !self@.defs.contains_key(mob_id@) && !has_key(def_pairs(self.mob_defs@), mob_id@),
            },
    {
        let ghost ps = def_pairs(self.mob_defs@);
        let mut i: usize = 0;
        while i < self.mob_defs.len()
            invariant
                self.wf(),
                ps == def_pairs(self.mob_defs@),
                i <= self.mob_defs@.len(),
                forall|k: int| 0 <= k < i ==> self.mob_defs@[k].mob_id@ != mob_id@,
            decreases self.mob_defs@.len() - i,
        {
            if str_eq(self.mob_defs[i].mob_id.as_str(), mob_id) {
                proof {
                    lemma_at(ps, i as int);
                }
                return Some(i);
            }
            i = i + 1;
        }
        proof {
            assert forall|k: int| 0 <= k < ps.len() implies ps[k].0 != mob_id@ by {
                assert(ps[k].0 == self.mob_defs@[k].mob_id@);
            }
            lemma_absent(ps, mob_id@);
        }
        None
    }

    fn has_loot_table(&self, table: &str) -> (b: bool)
        ensures
            b == self@.loot_tables.contains(table@),
    {
        let ghost names = self.loot_tables@.map_values(|s: String| s@);
        let mut i: usize = 0;
        while i < self.loot_tables.len()
            invariant
                names == self.loot_tables@.map_values(|s: String| s@),
                i <= self.loot_tables@.len(),
                forall|k: int| 0 <= k < i ==> names[k] != table@,
            decreases self.loot_tables@.len() - i,
        {
            if str_eq(self.loot_tables[i].as_str(), table) {
                assert(names[i as int] == table@);
                return true;
            }
            i = i + 1;
        }
        false
    }

    /// Take out the mob at `i`; [`MobSystem::put_back`] puts it (or its
    /// replacement) back at the same place.
    fn take_out(&mut self, i: usize) -> (m: MobInstance)
        requires
            old(self).wf(),
            i < old(self).mobs@.len(),
        ensures
            m == old(self).mobs@[i as int],
            m.wf(),
            final(self).mobs@ == old(self).mobs@.remove(i as int),
            final(self).mob_defs == old(self).mob_defs,
            final(self).loot_tables == old(self).loot_tables,
            final(self).loot_drops == old(self).loot_drops,
            final(self).next_loot_id == old(self).next_loot_id,
            final(self).pending_events == old(self).pending_events,
            final(self).pending_messages == old(self).pending_messages,
            final(self).death_notices == old(self).death_notices,
    {
        self.mobs.remove(i)
    }

    /// Put back a mob with the id of the one taken out at `i` from `before`.
    fn put_back(&mut self, i: usize, m: MobInstance, Ghost(before): Ghost<MobSystem>)
        requires
            before.wf(),
            i < before.mobs@.len(),
            old(self).mobs@ == before.mobs@.remove(i as int),
            before.mobs@[i as int].id == m.id,
            m.wf(),
            old(self).mob_defs == before.mob_defs,
            old(self).loot_tables == before.loot_tables,
            old(self).loot_drops == before.loot_drops,
            old(self).next_loot_id == before.next_loot_id,
            old(self).pending_events == before.pending_events,
            old(self).pending_messages == before.pending_messages,
            old(self).death_notices == before.death_notices,
        ensures
            final(self).wf(),
            final(self)@ == (MobSystemView { mobs: before@.mobs.insert(m.id, m@), ..before@ }),
    {
        let ghost ps = mob_pairs(before.mobs@);
        proof {
            lemma_update(ps, i as int, m@);
        }
        self.mobs.insert(i, m);
        assert(self.mobs@ =~= before.mobs@.update(i as int, m));
        assert(mob_pairs(self.mobs@) =~= ps.update(i as int, (ps[i as int].0, m@)));
        proof {
            assert forall|k: int| 0 <= k < self.mobs@.len() implies (#[trigger] self.mobs@[k]).wf() by {
                if k != i {
                    assert(self.mobs@[k] == before.mobs@[k]);
                }
            }
        }
    }

    fn push_event(&mut self, e: MobEvent)
        ensures
            final(self)@ == (MobSystemView { events: old(self)@.events.push(e@), ..old(self)@ }),
            final(self).wf() == old(self).wf(),
            final(self).mobs@ == old(self).mobs@,
            final(self).mob_defs@ == old(self).mob_defs@,
            final(self).loot_tables@ == old(self).loot_tables@,
            final(self).loot_drops@ == old(self).loot_drops@,
            final(self).next_loot_id == old(self).next_loot_id,
            final(self).death_notices@ == old(self).death_notices@,
    {
        let ghost v = self.pending_events@.map_values(|e: MobEvent| e@);
        self.pending_events.push(e);
        assert(self.pending_events@.map_values(|e: MobEvent| e@) =~= v.push(e@));
    }

    fn push_message(&mut self, to: Option<PlayerId>, m: MobMessage)
        ensures
            final(self)@ == (MobSystemView { messages: old(self)@.messages.push((to, m@)), ..old(self)@ }),
            final(self).wf() == old(self).wf(),
            final(self).mobs@ == old(self).mobs@,
            final(self).mob_defs@ == old(self).mob_defs@,
            final(self).loot_tables@ == old(self).loot_tables@,
            final(self).loot_drops@ == old(self).loot_drops@,
            final(self).next_loot_id == old(self).next_loot_id,
            final(self).death_notices@ == old(self).death_notices@,
    {
        let ghost v = self.pending_messages@.map_values(|m: (Option<PlayerId>, MobMessage)| (m.0, m.1@));
        self.pending_messages.push((to, m));
        assert(self.pending_messages@.map_values(|m: (Option<PlayerId>, MobMessage)| (m.0, m.1@)) =~= v.push((to, m@)));
    }

    /// Register a mob definition, replacing any with the same id.
    pub fn register_mob_def(&mut self, definition: MobDefinition)
        requires
            old(self).wf(),
        ensures
            final(self).wf(),
            final(self)@ == (MobSystemView {
                defs: old(self)@.defs.insert(definition.mob_id@, definition@),
                ..old(self)@
            }),
    {
        let ghost key = definition.mob_id@;
        let ghost dv = definition@;
        if let Some(i) = self.find_def(definition.mob_id.as_str()) {
            let ghost ps = def_pairs(self.mob_defs@);
            proof {
                lemma_remove(ps, i as int);
            }
            self.mob_defs.remove(i);
            assert(def_pairs(self.mob_defs@) =~= ps.remove(i as int));
        }
        let ghost ps = def_pairs(self.mob_defs@);
        proof {
            assert(!has_key(ps, key)) by {
                if has_key(ps, key) {
                    let k = choose|k: int| 0 <= k < ps.len() && #[trigger] ps[k].0 == key;
                    lemma_at(ps, k);
                }
            }
            lemma_push(ps, key, dv);
        }
        self.mob_defs.push(definition);
        assert(def_pairs(self.mob_defs@) =~= ps.push((key, dv)));
        assert(self@.defs =~= old(self)@.defs.insert(key, dv));
    }

    /// Register a loot table by its id.
    pub fn register_loot_table(&mut self, table_id: &str)
        requires
            old(self).wf(),
        ensures
            final(self).wf(),
            final(self)@ == (MobSystemView { loot_tables: old(self)@.loot_tables.insert(table_id@), ..old(self)@ }),
    {
        let ghost names = self.loot_tables@.map_values(|s: String| s@);
        self.loot_tables.push(owned(table_id));
        assert(self.loot_tables@.map_values(|s: String| s@) =~= names.push(table_id@));
        assert(names.push(table_id@).to_set() =~= names.to_set().insert(table_id@)) by {
            assert forall|x: Seq<char>| names.push(table_id@).to_set().contains(x) <==> names.to_set().insert(table_id@).contains(x) by {
                if names.push(table_id@).to_set().contains(x) {
                    let k = choose|k: int| 0 <= k < names.push(table_id@).len() && names.push(table_id@)[k] == x;
                    if k < names.len() {
                        assert(names[k] == x);
                    }
                }
                if names.to_set().contains(x) {
                    let k = choose|k: int| 0 <= k < names.len() && names[k] == x;
                    assert(names.push(table_id@)[k] == x);
                }
                if x == table_id@ {
                    assert(names.push(table_id@)[names.len() as int] == x);
                }
            }
        }
    }

    /// Apply damage to a mob from a player; returns whether the hit killed
    /// it. The caller then records the death with
    /// [`MobSystem::handle_mob_death`], giving the payouts and the loot rolled.
    pub fn apply_damage(&mut self, mob_id: MobInstanceId, attacker: PlayerId, damage: u32) -> (died: bool)
        requires
            old(self).wf(),
            old(self)@.mobs.contains_key(mob_id) ==> can_hit(old(self)@.mobs[mob_id], attacker),
        ensures
            final(self).wf(),
            final(self)@ == damage_model(old(self)@, mob_id, attacker, damage),
            died == (old(self)@.mobs.contains_key(mob_id) && old(self)@.mobs[mob_id].current_hp > 0
                && final(self)@.mobs[mob_id].current_hp == 0),
    {
        let i = match self.find_mob(mob_id) {
            Some(i) => i,
            None => {
                return false;
            },
        };
        if self.mobs[i].is_dead() {
            return false;
        }
        let ghost before = *self;
        let mut m = self.take_out(i);
        let died = m.take_damage(attacker, damage);
        let remaining = m.current_hp;
        self.put_back(i, m, Ghost(before));
        self.push_event(MobEvent::Damaged { mob_id, attacker, damage, remaining_hp: remaining });
        self.push_message(None, MobMessage::Damaged { mob_id, attacker, damage, remaining_hp: remaining });
        died
    }

    /// Handle a mob's death: the kill, the rewards, the loot and the spawn
    /// point's notice. `payouts` are the players' shares of the reward and
    /// `drops` what was rolled from the mob's loot table.
    pub fn handle_mob_death(
        &mut self,
        mob_id: MobInstanceId,
        payouts: Vec<PlayerPayout>,
        drops: Vec<(ItemId, u32)>,
        now_ms: u64,
    )
        requires
            old(self).wf(),
            death_fits(old(self)@, drops@, now_ms),
        ensures
            final(self).wf(),
            final(self)@ == mob_death_model(old(self)@, mob_id, payouts@, drops@, now_ms),
    {
        let i = match self.find_mob(mob_id) {
            Some(i) => i,
            None => {
                return;
            },
        };
        let j = match self.find_def(self.mobs[i].def_id.as_str()) {
            Some(j) => j,
            None => {
                return;
            },
        };
        let ghost w0 = self@;
        let ghost m0 = w0.mobs[mob_id];
        let ghost mobs0 = self.mobs@;
        let position = self.mobs[i].position;
        let spawn_id = owned(self.mobs[i].spawn_id.as_str());
        let def_id = owned(self.mobs[i].def_id.as_str());
        let killer = self.mobs[i].damage_tracker.killer();
        let dropping = self.has_loot_table(self.mob_defs[j].loot_table.as_str()) && drops.len() > 0;
        self.push_event(MobEvent::Killed { mob_id, def_id: owned(def_id.as_str()), killer, position });
        let ghost msgs0 = self@.messages;
        let mut k: usize = 0;
        while k < payouts.len()
            invariant
                self.wf(),
                k <= payouts@.len(),
                self.mobs@ == mobs0,
                self@ == (MobSystemView {
                    messages: msgs0 + reward_messages(payouts@.take(k as int), def_id@),
                    events: w0.events.push(MobEventView::Killed { mob_id, def_id: m0.def_id, killer, position }),
                    ..w0
                }),
            decreases payouts@.len() - k,
        {
            let p = payouts[k];
            self.push_message(Some(p.player_id), MobMessage::Reward { xp: p.xp, credits: p.credits, source: owned(def_id.as_str()) });
            assert(reward_messages(payouts@.take(k + 1), def_id@) =~= reward_messages(payouts@.take(k as int), def_id@).push(
                (Some(p.player_id), MobMessageView::Reward { xp: p.xp, credits: p.credits, source: def_id@ }),
            ));
            k = k + 1;
        }
        assert(payouts@.take(payouts@.len() as int) =~= payouts@);
        let ghost pv = payouts@;
        self.push_event(MobEvent::RewardDistributed { mob_id, payouts });
        if dropping {
            let ghost loot0 = self@.loot;
            let ghost next0 = self.next_loot_id;
            let ghost s1 = *self;
            let mut d: usize = 0;
            while d < drops.len()
                invariant
                    d <= drops@.len(),
                    next0 + drops@.len() <= u64::MAX,
                    now_ms + LOOT_LIFETIME_MS <= u64::MAX,
                    self.next_loot_id == next0 + d,
                    self.loot_drops@ == loot0 + new_drops(drops@.take(d as int), next0, position, now_ms),
                    self.mobs@ == s1.mobs@,
                    self.mob_defs@ == s1.mob_defs@,
                    self.loot_tables@ == s1.loot_tables@,
                    self.pending_events@ == s1.pending_events@,
                    self.pending_messages@ == s1.pending_messages@,
                    self.death_notices@ == s1.death_notices@,
                decreases drops@.len() - d,
            {
                let (item_id, quantity) = drops[d];
                let drop = LootDrop {
                    id: self.next_loot_id,
                    position,
                    item_id,
                    quantity,
                    created_ms: now_ms,
                    expires_ms: now_ms + LOOT_LIFETIME_MS,
                };
                self.loot_drops.push(drop);
                self.next_loot_id = self.next_loot_id + 1;
                assert(new_drops(drops@.take(d + 1), next0, position, now_ms) =~= new_drops(
                    drops@.take(d as int),
                    next0,
                    position,
                    now_ms,
                ).push(drop));
                d = d + 1;
            }
            assert(drops@.take(drops@.len() as int) =~= drops@);
            let items = copy_items(&drops);
            self.push_message(None, MobMessage::LootDropped { mob_id, position, items });
            self.push_event(MobEvent::LootDropped { mob_id, position, items: drops });
        }
        self.push_message(None, MobMessage::Died { mob_id, killer, position });
        let ghost n0 = self.death_notices@.map_values(|n: DeathNotice| n@);
        let notice = DeathNotice { spawn_id, mob_id, at_ms: now_ms };
        self.death_notices.push(notice);
        assert(self.death_notices@.map_values(|n: DeathNotice| n@) =~= n0.push(notice@));
        let ghost before = *self;
        assert(self.mobs@ == mobs0);
        assert(before.mobs@[i as int]@ == m0);
        assert(before@.mobs == w0.mobs);
        let mut m = self.take_out(i);
        m.pending_removal = true;
        self.put_back(i, m, Ghost(before));
    }

    /// Spawn a mob of a known definition at a spawn point; returns whether it
    /// was spawned.
    pub fn spawn_mob(&mut self, mob_id: MobInstanceId, def_id: &str, spawn_id: &str, position: Position) -> (spawned: bool)
        requires
            old(self).wf(),
        ensures
            final(self).wf(),
            final(self)@ == spawn_model(old(self)@, mob_id, def_id@, spawn_id@, position),
            spawned == old(self)@.defs.contains_key(def_id@),
    {
        let j = match self.find_def(def_id) {
            Some(j) => j,
            None => {
                return false;
            },
        };
        let instance = MobInstance::new(mob_id, &self.mob_defs[j], spawn_id, position);
        let hp = instance.current_hp;
        let max_hp = instance.max_hp;
        self.push_event(MobEvent::Spawned { mob_id, def_id: owned(def_id), position });
        self.push_message(None, MobMessage::Spawned { mob_id, def_id: owned(def_id), position, hp, max_hp });
        match self.find_mob(mob_id) {
            Some(i) => {
                let ghost before = *self;
                let _ = self.take_out(i);
                self.put_back(i, instance, Ghost(before));
            },
            None => {
                let ghost ps = mob_pairs(self.mobs@);
                let ghost mv = instance@;
                proof {
                    lemma_push(ps, mob_id, mv);
                }
                self.mobs.push(instance);
                assert(mob_pairs(self.mobs@) =~= ps.push((mob_id, mv)));
                proof {
                    assert forall|k: int| 0 <= k < self.mobs@.len() implies (#[trigger] self.mobs@[k]).wf() by {
                        if k < ps.len() {
                            assert(self.mobs@[k] == old(self).mobs@[k]);
                        }
                    }
                }
            },
        }
        true
    }

    /// Remove the mobs marked for removal.
    pub fn cleanup_dead_mobs(&mut self)
        requires
            old(self).wf(),
        ensures
            final(self).wf(),
            final(self)@ == (MobSystemView { mobs: live_mobs(old(self)@.mobs), ..old(self)@ }),
    {
        let ghost m0 = self@.mobs;
        let ghost w0 = self@;
        let mut i: usize = 0;
        while i < self.mobs.len()
            invariant
                self.wf(),
                i <= self.mobs@.len(),
                self@ == (MobSystemView { mobs: self@.mobs, ..w0 }),
                forall|k: MobInstanceId| #[trigger] self@.mobs.contains_key(k) ==> m0.contains_key(k) && self@.mobs[k] == m0[k],
                forall|k: MobInstanceId| #[trigger] m0.contains_key(k) && !m0[k].pending_removal ==> self@.mobs.contains_key(k),
                forall|q: int| 0 <= q < i ==> !(#[trigger] self.mobs@[q]).pending_removal,
            decreases self.mobs@.len() - i,
        {
            if self.mobs[i].pending_removal {
                let ghost ps = mob_pairs(self.mobs@);
                let ghost s0 = self.mobs@;
                proof {
                    lemma_at(ps, i as int);
                    lemma_remove(ps, i as int);
                }
                let _ = self.mobs.remove(i);
                assert(mob_pairs(self.mobs@) =~= ps.remove(i as int));
                proof {
                    assert forall|q: int| 0 <= q < self.mobs@.len() implies (#[trigger] self.mobs@[q]).wf() by {
                        let q1 = if q < i { q } else { q + 1 };
                        assert(self.mobs@[q] == s0[q1]);
                    }
                    assert forall|q: int| 0 <= q < i implies !(#[trigger] self.mobs@[q]).pending_removal by {
                        assert(self.mobs@[q] == s0[q]);
                    }
                }
            } else {
                i = i + 1;
            }
        }
        proof {
            let ps = mob_pairs(self.mobs@);
            assert forall|k: MobInstanceId| self@.mobs.contains_key(k) implies !self@.mobs[k].pending_removal by {
                let q = choose|q: int| 0 <= q < ps.len() && #[trigger] ps[q].0 == k;
                lemma_at(ps, q);
                assert(!self.mobs@[q].pending_removal);
            }
            assert(self@.mobs =~= live_mobs(m0));
        }
    }

    /// Remove loot drops that have expired by `now_ms`.
    pub fn cleanup_expired_loot(&mut self, now_ms: u64)
        requires
            old(self).wf(),
        ensures
            final(self).wf(),
            final(self)@ == (MobSystemView { loot: unexpired(old(self)@.loot, now_ms), ..old(self)@ }),
    {
        let mut kept: Vec<LootDrop> = Vec::new();
        let mut i: usize = 0;
        while i < self.loot_drops.len()
            invariant
                i <= self.loot_drops@.len(),
                kept@ == unexpired(self.loot_drops@.take(i as int), now_ms),
            decreases self.loot_drops@.len() - i,
        {
            let d = self.loot_drops[i];
            proof {
                let pred = |x: LootDrop| now_ms < x.expires_ms;
                self.loot_drops@.take(i as int).lemma_filter_push(d, pred);
                assert(self.loot_drops@.take(i + 1) =~= self.loot_drops@.take(i as int).push(d));
            }
            if now_ms < d.expires_ms {
                kept.push(d);
            }
            i = i + 1;
        }
        assert(self.loot_drops@.take(i as int) =~= self.loot_drops@);
        self.loot_drops = kept;
    }

    /// Take pending events (clears the internal buffer).
    pub fn take_events(&mut self) -> (events: Vec<MobEvent>)
        ensures
            events@.map_values(|e: MobEvent| e@) == old(self)@.events,
            final(self)@ == (MobSystemView { events: Seq::empty(), ..old(self)@ }),
            final(self).wf() == old(self).wf(),
    {
        let mut events: Vec<MobEvent> = Vec::new();
        std::mem::swap(&mut events, &mut self.pending_events);
        assert(self.pending_events@.map_values(|e: MobEvent| e@) =~= Seq::empty());
        events
    }

    /// Take pending messages (clears the internal buffer).
    pub fn take_messages(&mut self) -> (messages: Vec<(Option<PlayerId>, MobMessage)>)
        ensures
            messages@.map_values(|m: (Option<PlayerId>, MobMessage)| (m.0, m.1@)) == old(self)@.messages,
            final(self)@ == (MobSystemView { messages: Seq::empty(), ..old(self)@ }),
            final(self).wf() == old(self).wf(),
    {
        let mut messages: Vec<(Option<PlayerId>, MobMessage)> = Vec::new();
        std::mem::swap(&mut messages, &mut self.pending_messages);
        assert(self.pending_messages@.map_values(|m: (Option<PlayerId>, MobMessage)| (m.0, m.1@)) =~= Seq::empty());
        messages
    }

    /// Take the deaths the spawn points are to be told of, oldest first.
    pub fn take_death_notices(&mut self) -> (notices: Vec<DeathNotice>)
        ensures
            notices@.map_values(|n: DeathNotice| n@) == old(self)@.notices,
            final(self)@ == (MobSystemView { notices: Seq::empty(), ..old(self)@ }),
            final(self).wf() == old(self).wf(),
    {
        let mut notices: Vec<DeathNotice> = Vec::new();
        std::mem::swap(&mut notices, &mut self.death_notices);
        assert(self.death_notices@.map_values(|n: DeathNotice| n@) =~= Seq::empty());
        notices
    }

    /// Get a mob instance by ID.
    pub fn get_mob(&self, mob_id: MobInstanceId) -> (r: Option<&MobInstance>)
        requires
            self.wf(),
        ensures
            match r {
                Some(m) => self@.mobs.contains_key(mob_id) && m@ == self@.mobs[mob_id] && m.id == mob_id,
                None => !self@.mobs.contains_key(mob_id),
            },
    {
        match self.find_mob(mob_id) {
            Some(i) => Some(&self.mobs[i]),
            None => None,
        }
    }

    /// Get the total number of active mobs.
    pub fn active_mob_count(&self) -> (n: usize)
        requires
            self.wf(),
        ensures
            n == self@.mobs.dom().len(),
    {
        proof {
            lemma_len(mob_pairs(self.mobs@));
        }
        self.mobs.len()
    }

    /// The id the next loot drop will get.
    pub fn next_loot_id(&self) -> (n: u64)
        ensures
            n == self@.next_loot_id,
    {
        self.next_loot_id
    }

    /// Get the total number of loot drops.
    pub fn loot_drop_count(&self) -> (n: usize)
        ensures
            n == self@.loot.len(),
    {
        self.loot_drops.len()
    }
}

} // verus!

verus! {

/// A dead mob takes no more damage: hitting it changes nothing.
pub proof fn law_dead_mob_takes_no_damage(w: MobSystemView, mob_id: MobInstanceId, attacker: PlayerId, damage: u32)
    requires
        w.mobs.contains_key(mob_id),
        w.mobs[mob_id].current_hp == 0,
    ensures
        damage_model(w, mob_id, attacker, damage) == w,
{
}

/// The killing blow names the killer: when `attacker`'s hit kills a mob, its
/// death is announced with `attacker` as killer, and the mob is gone once the
/// dead are cleaned up.
pub proof fn law_killing_blow_names_killer(
    w: MobSystemView,
    mob_id: MobInstanceId,
    attacker: PlayerId,
    damage: u32,
    payouts: Seq<PlayerPayout>,
    drops: Seq<(ItemId, u32)>,
    now_ms: u64,
)
    requires
        w.mobs.contains_key(mob_id),
        w.defs.contains_key(w.mobs[mob_id].def_id),
        0 < w.mobs[mob_id].current_hp <= damage,
        can_hit(w.mobs[mob_id], attacker),
    ensures
        ({
            let hit = damage_model(w, mob_id, attacker, damage);
            let dead = mob_death_model(hit, mob_id, payouts, drops, now_ms);
            &&& hit.mobs[mob_id].current_hp == 0
            &&& dead.events[w.events.len() as int + 1] == (MobEventView::Killed {
                mob_id,
                def_id: w.mobs[mob_id].def_id,
                killer: Some(attacker),
                position: w.mobs[mob_id].position,
            })
            &&& !live_mobs(dead.mobs).contains_key(mob_id)
        }),
{
    crate::mob::damage::law_last_hitter_is_killer(w.mobs[mob_id].damage, attacker, damage);
}

} // verus!
