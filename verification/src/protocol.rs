//! The wire-level game types that the server logic reads and writes: player
//! and team identities, ticks, game modes and the broadcast match state.

use vstd::prelude::*;

verus! {

/// Identifier of a connected player.
#[derive(Debug, Clone, Copy, PartialEq, Eq, Hash, Structural)]
pub struct PlayerId(pub u64);

/// Identifier of a team.
#[derive(Debug, Clone, Copy, PartialEq, Eq, Hash, Structural)]
pub struct TeamId(pub u8);

impl TeamId {
    /// The first team.
    pub fn team_0() -> (t: TeamId)
        ensures
            t == TeamId(0),
    {
        TeamId(0)
    }

    /// The second team.
    pub fn team_1() -> (t: TeamId)
        ensures
            t == TeamId(1),
    {
        TeamId(1)
    }
}

/// Identifier of a client session.
#[derive(Debug, Clone, Copy, PartialEq, Eq, Hash, Structural)]
pub struct SessionId(pub u64);

/// A server simulation tick (60 per second).
#[derive(Debug, Clone, Copy, PartialEq, Eq, Hash, Structural)]
pub struct Tick(pub u64);

/// Game modes offered by the server.
#[derive(Debug, Clone, Copy, PartialEq, Eq, Hash, Structural)]
pub enum GameMode {
    /// Free for all
    Ffa,
    /// Team deathmatch
    Tdm,
    /// Capture the flag
    Ctf,
    /// Battle royale lite
    BrLite,
    /// Single-player training
    Training,
}

/// Phases of a match.
#[derive(Debug, Clone, Copy, PartialEq, Eq, Hash, Structural)]
pub enum MatchPhase {
    /// Waiting for players to get ready
    Lobby,
    /// Counting down to the start
    Countdown,
    /// Match in progress
    Playing,
    /// Showing results
    EndScreen,
    /// Resetting the world for the next match
    Resetting,
}

/// Why a match ended.
#[derive(Debug, Clone, Copy, PartialEq, Eq, Hash, Structural)]
pub enum MatchEndReason {
    /// A player or team reached the score limit
    ScoreLimit,
    /// The time limit ran out
    TimeLimit,
    /// Every opponent left
    Forfeit,
}

/// The characters of a player's score entry.
pub struct PlayerScoreView {
    pub player_id: PlayerId,
    pub name: Seq<char>,
    pub kills: u16,
    pub deaths: u16,
}

/// A player's score in the current match.
#[derive(Debug, Clone)]
pub struct PlayerScore {
    pub player_id: PlayerId,
    pub name: String,
    pub kills: u16,
    pub deaths: u16,
}

impl View for PlayerScore {
    type V = PlayerScoreView;

    open spec fn view(&self) -> PlayerScoreView {
        PlayerScoreView {
            player_id: self.player_id,
            name: self.name@,
            kills: self.kills,
            deaths: self.deaths,
        }
    }
}

impl PlayerScore {
    /// A copy of the entry with the same contents.
    pub fn duplicate(&self) -> (s: PlayerScore)
        ensures
            s@ == self@,
    {
        PlayerScore {
            player_id: self.player_id,
            name: self.name.clone(),
            kills: self.kills,
            deaths: self.deaths,
        }
    }
}

/// The views of a list of score entries.
pub open spec fn scores_view(v: Seq<PlayerScore>) -> Seq<PlayerScoreView> {
    v.map_values(|p: PlayerScore| p@)
}

/// Copies a list of score entries.
pub fn duplicate_scores(v: &Vec<PlayerScore>) -> (r: Vec<PlayerScore>)
    ensures
        scores_view(r@) == scores_view(v@),
{
    let mut r: Vec<PlayerScore> = Vec::new();
    let mut i: usize = 0;
    while i < v.len()
        invariant
            i <= v@.len(),
            r@.len() == i,
            forall|k: int| 0 <= k < i ==> #[trigger] r@[k]@ == v@[k]@,
        decreases v@.len() - i,
    {
        r.push(v[i].duplicate());
        i = i + 1;
    }
    assert(scores_view(r@) =~= scores_view(v@));
    r
}

/// A team's score in the current match.
#[derive(Debug, Clone, Copy, PartialEq, Eq, Structural)]
pub struct TeamScore {
    pub team: TeamId,
    pub score: u32,
}

/// The match state broadcast to clients.
#[derive(Debug, Clone)]
pub struct MatchState {
    pub phase: MatchPhase,
    /// Countdown seconds remaining
    pub countdown_remaining: u8,
    /// Match seconds remaining
    pub time_remaining: u32,
    pub score_limit: u16,
    pub player_scores: Vec<PlayerScore>,
    pub winner: Option<PlayerId>,
    pub arena_name: String,
    /// Team scores (team modes)
    pub scores: Vec<TeamScore>,
    pub team_winner: Option<TeamId>,
    pub game_mode: GameMode,
}

} // verus!

verus! {

/// Coordinates of a world chunk.
#[derive(Debug, Clone, Copy, PartialEq, Eq, Hash, Structural)]
pub struct ChunkCoord {
    pub x: i32,
    pub y: i32,
    pub z: i32,
}

impl ChunkCoord {
    /// The chunk at (x, y, z).
    pub fn new(x: i32, y: i32, z: i32) -> (c: ChunkCoord)
        ensures
            c == (ChunkCoord { x, y, z }),
    {
        ChunkCoord { x, y, z }
    }
}

} // verus!
