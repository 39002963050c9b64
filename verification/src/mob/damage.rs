//! Damage tracking for mobs.
//!
//! Tracks damage attribution for XP/credit distribution when a mob dies: the
//! damage and hits of each player, the total, and who hit last. The records
//! are kept in the order of each player's latest hit, so the killing blow is
//! the last record.

use vstd::prelude::*;

use crate::clock;
use crate::protocol::PlayerId;

verus! {

/// Record of damage dealt by a single player.
#[derive(Debug)]
pub struct DamageRecord {
    /// Total damage dealt
    pub damage: u32,
    /// Last time this player hit the mob
    pub last_hit: std::time::Instant,
    /// Number of hits
    pub hit_count: u32,
}

/// What the tracker knows of one player's damage.
pub struct HitView {
    pub player: PlayerId,
    pub damage: u32,
    pub hit_count: u32,
}

/// Tracks damage dealt to a mob by each player.
#[derive(Debug)]
pub struct DamageTracker {
    /// Damage dealt by each player, in the order of their latest hits
    damage_by_player: Vec<(PlayerId, DamageRecord)>,
    /// Total damage dealt (may exceed max HP due to overkill)
    total_damage: u32,
    /// Max HP of the mob (for percentage calculations)
    max_hp: u32,
}

/// The observable state of a [`DamageTracker`].
pub struct DamageTrackerView {
    /// Each player's damage, in the order of their latest hits.
    pub hits: Seq<HitView>,
    pub total_damage: u32,
    pub max_hp: u32,
}

/// The hit records of the players, in order.
pub open spec fn hit_views(v: Seq<(PlayerId, DamageRecord)>) -> Seq<HitView> {
    v.map_values(|e: (PlayerId, DamageRecord)| HitView { player: e.0, damage: e.1.damage, hit_count: e.1.hit_count })
}

/// The record of player `p`, if it has one.
pub open spec fn entry_of(s: Seq<HitView>, p: PlayerId) -> Option<HitView>
    decreases s.len(),
{
    if s.len() == 0 {
        None
    } else if s.last().player == p {
        Some(s.last())
    } else {
        entry_of(s.drop_last(), p)
    }
}

/// The records of every player but `p`, in order.
pub open spec fn without(s: Seq<HitView>, p: PlayerId) -> Seq<HitView>
    decreases s.len(),
{
    if s.len() == 0 {
        s
    } else if s.last().player == p {
        without(s.drop_last(), p)
    } else {
        without(s.drop_last(), p).push(s.last())
    }
}

/// `a + b`, saturated at `u32::MAX`.
pub open spec fn sat_add(a: u32, b: u32) -> u32 {
    if a + b > u32::MAX {
        u32::MAX
    } else {
        (a + b) as u32
    }
}

/// No player has two records.
pub open spec fn players_unique(s: Seq<HitView>) -> bool {
    forall|i: int, j: int| 0 <= i < s.len() && 0 <= j < s.len() && i != j ==> #[trigger] s[i].player != #[trigger] s[j].player
}

/// The tracker after `p` deals `damage`: the total and the player's damage grow
/// (saturating), its hits count one more, and its record becomes the latest.
pub open spec fn after_hit(t: DamageTrackerView, p: PlayerId, damage: u32) -> DamageTrackerView {
    let (d0, h0) = match entry_of(t.hits, p) {
        Some(e) => (e.damage, e.hit_count),
        None => (0u32, 0u32),
    };
    DamageTrackerView {
        hits: without(t.hits, p).push(HitView { player: p, damage: sat_add(d0, damage), hit_count: (h0 + 1) as u32 }),
        total_damage: sat_add(t.total_damage, damage),
        max_hp: t.max_hp,
    }
}

proof fn lemma_entry_at(s: Seq<HitView>, i: int)
    requires
        players_unique(s),
        0 <= i < s.len(),
    ensures
        entry_of(s, s[i].player) == Some(s[i]),
        without(s, s[i].player) == s.remove(i),
    decreases s.len(),
{
    let p = s[i].player;
    if i == s.len() - 1 {
        lemma_absent_entry(s.drop_last(), p);
        assert(s.remove(i) =~= s.drop_last());
    } else {
        let d = s.drop_last();
        assert(players_unique(d)) by {
            assert forall|a: int, b: int| 0 <= a < d.len() && 0 <= b < d.len() && a != b implies #[trigger] d[a].player != #[trigger] d[b].player by {
                assert(d[a] == s[a] && d[b] == s[b]);
            }
        }
        assert(d[i] == s[i]);
        lemma_entry_at(d, i);
        assert(s.last().player != p);
        assert(s.remove(i) =~= d.remove(i).push(s.last()));
    }
}

proof fn lemma_absent_entry(s: Seq<HitView>, p: PlayerId)
    requires
        forall|k: int| 0 <= k < s.len() ==> s[k].player != p,
    ensures
        entry_of(s, p) is None,
        without(s, p) == s,
    decreases s.len(),
{
    if s.len() > 0 {
        lemma_absent_entry(s.drop_last(), p);
        assert(s.drop_last().push(s.last()) =~= s);
    }
}

impl View for DamageTracker {
    type V = DamageTrackerView;

    closed spec fn view(&self) -> DamageTrackerView {
        DamageTrackerView {
            hits: hit_views(self.damage_by_player@),
            total_damage: self.total_damage,
            max_hp: self.max_hp,
        }
    }
}

impl DamageTracker {
    /// No player has two records.
    pub open spec fn wf(&self) -> bool {
        players_unique(self@.hits)
    }

    /// Create a new damage tracker for a mob with the given max HP.
    pub fn new(max_hp: u32) -> (t: DamageTracker)
        ensures
            t.wf(),
            t@ == (DamageTrackerView { hits: Seq::empty(), total_damage: 0, max_hp }),
    {
        let t = DamageTracker { damage_by_player: Vec::new(), total_damage: 0, max_hp };
        assert(t@.hits =~= Seq::<HitView>::empty());
        t
    }

    fn find(&self, player_id: PlayerId) -> (r: Option<usize>)
        requires
            self.wf(),
        ensures
            match r {
                Some(i) => i < self@.hits.len() && self@.hits[i as int].player == player_id,
                None => forall|k: int| 0 <= k < self@.hits.len() ==> self@.hits[k].player != player_id,
            },
    {
        let mut i: usize = 0;
        while i < self.damage_by_player.len()
            invariant
                i <= self@.hits.len(),
                self@.hits.len() == self.damage_by_player@.len(),
                forall|k: int| 0 <= k < i ==> self@.hits[k].player != player_id,
            decreases self.damage_by_player@.len() - i,
        {
            if self.damage_by_player[i].0 == player_id {
                return Some(i);
            }
            i = i + 1;
        }
        None
    }

    /// Record damage dealt by a player.
    pub fn record_damage(&mut self, player_id: PlayerId, damage: u32)
        requires
            old(self).wf(),
            entry_of(old(self)@.hits, player_id) matches Some(e) ==> e.hit_count < u32::MAX,
        ensures
            final(self).wf(),
            final(self)@ == after_hit(old(self)@, player_id, damage),
    {
        let ghost s0 = self@.hits;
        self.total_damage = self.total_damage.saturating_add(damage);
        assert(self@.hits == s0);
        let mut record = match self.find(player_id) {
            Some(i) => {
                proof {
                    lemma_entry_at(s0, i as int);
                }
                let (_, r) = self.damage_by_player.remove(i);
                assert(self@.hits =~= s0.remove(i as int));
                r
            },
            None => {
                proof {
                    lemma_absent_entry(s0, player_id);
                }
                DamageRecord { damage: 0, last_hit: clock::now(), hit_count: 0 }
            },
        };
        assert(self@.hits == without(s0, player_id));
        record.damage = record.damage.saturating_add(damage);
        record.last_hit = clock::now();
        record.hit_count = record.hit_count + 1;
        let ghost w = self@.hits;
        self.damage_by_player.push((player_id, record));
        assert(self@.hits =~= w.push(HitView { player: player_id, damage: record.damage, hit_count: record.hit_count }));
        proof {
            let h = self@.hits;
            assert forall|a: int, b: int| 0 <= a < h.len() && 0 <= b < h.len() && a != b implies #[trigger] h[a].player != #[trigger] h[b].player by {
                lemma_without_players(s0, player_id);
                if a < w.len() && b < w.len() {
                    assert(h[a] == w[a] && h[b] == w[b]);
                } else if a < w.len() {
                    assert(h[a] == w[a]);
                } else {
                    assert(h[b] == w[b]);
                }
            }
        }
    }

    /// Get the player who dealt the killing blow (most recent hit).
    /// Returns None if no damage was recorded.
    pub fn killer(&self) -> (k: Option<PlayerId>)
        ensures
            k == if self@.hits.len() == 0 {
                None
            } else {
                Some(self@.hits.last().player)
            },
    {
        let n = self.damage_by_player.len();
        if n == 0 {
            None
        } else {
            Some(self.damage_by_player[n - 1].0)
        }
    }

    /// Get the total damage dealt by all players.
    pub fn total_damage(&self) -> (n: u32)
        ensures
            n == self@.total_damage,
    {
        self.total_damage
    }

    /// Max HP of the mob.
    pub fn max_hp(&self) -> (n: u32)
        ensures
            n == self@.max_hp,
    {
        self.max_hp
    }

    /// Get the damage record for a specific player.
    pub fn get_player_damage(&self, player_id: PlayerId) -> (r: Option<&DamageRecord>)
        requires
            self.wf(),
        ensures
            match entry_of(self@.hits, player_id) {
                Some(e) => r matches Some(rec) && rec.damage == e.damage && rec.hit_count == e.hit_count,
                None => r is None,
            },
    {
        match self.find(player_id) {
            Some(i) => {
                proof {
                    lemma_entry_at(self@.hits, i as int);
                }
                Some(&self.damage_by_player[i].1)
            },
            None => {
                proof {
                    lemma_absent_entry(self@.hits, player_id);
                }
                None
            },
        }
    }

    /// All damage records, in the order of the players' latest hits.
    pub fn records(&self) -> (s: &[(PlayerId, DamageRecord)])
        ensures
            hit_views(s@) == self@.hits,
    {
        self.damage_by_player.as_slice()
    }
}

proof fn lemma_without_players(s: Seq<HitView>, p: PlayerId)
    requires
        players_unique(s),
    ensures
        players_unique(without(s, p)),
        forall|k: int| 0 <= k < without(s, p).len() ==> #[trigger] without(s, p)[k].player != p,
        forall|k: int| 0 <= k < without(s, p).len() ==> s.contains(#[trigger] without(s, p)[k]),
    decreases s.len(),
{
    if s.len() > 0 {
        let d = s.drop_last();
        assert(players_unique(d)) by {
            assert forall|a: int, b: int| 0 <= a < d.len() && 0 <= b < d.len() && a != b implies #[trigger] d[a].player != #[trigger] d[b].player by {
                assert(d[a] == s[a] && d[b] == s[b]);
            }
        }
        lemma_without_players(d, p);
        let w = without(s, p);
        let wd = without(d, p);
        assert forall|k: int| 0 <= k < wd.len() implies s.contains(#[trigger] wd[k]) by {
            let j = choose|j: int| 0 <= j < d.len() && d[j] == wd[k];
            assert(s[j] == d[j]);
        }
        if s.last().player != p {
            assert(w == wd.push(s.last()));
            assert(s[s.len() - 1] == s.last());
            assert forall|k: int| 0 <= k < wd.len() implies #[trigger] wd[k].player != s.last().player by {
                let j = choose|j: int| 0 <= j < s.len() && s[j] == wd[k];
                if j == s.len() - 1 {
                    let j2 = choose|j2: int| 0 <= j2 < d.len() && d[j2] == wd[k];
                    assert(s[j2] == wd[k]);
                }
            }
            assert forall|a: int, b: int| 0 <= a < w.len() && 0 <= b < w.len() && a != b implies #[trigger] w[a].player != #[trigger] w[b].player by {
                if a < wd.len() && b < wd.len() {
                    assert(w[a] == wd[a] && w[b] == wd[b]);
                } else if a < wd.len() {
                    assert(w[a] == wd[a]);
                } else {
                    assert(w[b] == wd[b]);
                }
            }
            assert forall|k: int| 0 <= k < w.len() implies s.contains(#[trigger] w[k]) by {
                if k < wd.len() {
                    assert(w[k] == wd[k]);
                } else {
                    assert(w[k] == s[s.len() - 1]);
                }
            }
        }
    }
}

/// The player who landed the latest hit is the killer, and its damage and
/// hit count include that hit.
pub proof fn law_last_hitter_is_killer(t: DamageTrackerView, p: PlayerId, damage: u32)
    requires
        entry_of(t.hits, p) matches Some(e) ==> e.hit_count < u32::MAX,
    ensures
        after_hit(t, p, damage).hits.last().player == p,
        entry_of(after_hit(t, p, damage).hits, p) matches Some(e) && e.damage >= damage && e.hit_count >= 1,
{
    let h = after_hit(t, p, damage).hits;
    assert(h.len() > 0);
    assert(h.last().player == p);
    assert(entry_of(h, p) == Some(h.last()));
}

/// The total damage grows by the damage dealt, saturating at `u32::MAX`, and
/// never shrinks.
pub proof fn law_total_grows(t: DamageTrackerView, p: PlayerId, damage: u32)
    ensures
        after_hit(t, p, damage).total_damage >= t.total_damage,
        t.total_damage + damage <= u32::MAX ==> after_hit(t, p, damage).total_damage == t.total_damage + damage,
{
}

} // verus!
