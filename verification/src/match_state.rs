//! Match and round state management: the match state machine that moves a
//! match from the lobby through countdown, play and the end screen to the
//! reset, and keeps the scores.

use vstd::prelude::*;

use crate::protocol::{
    GameMode, MatchEndReason, MatchPhase, MatchState, PlayerId, PlayerScore, PlayerScoreView,
    TeamId, TeamScore, Tick, duplicate_scores, scores_view,
};

verus! {

/// Match configuration
#[derive(Debug, Clone)]
pub struct MatchConfig {
    /// Minimum players to start countdown
    pub min_players: u8,
    /// Countdown duration in ticks (default: 180 = 3s at 60Hz)
    pub countdown_ticks: u32,
    /// Match time limit in seconds (default: 300 = 5 minutes)
    pub time_limit_seconds: u32,
    /// Score limit to win (default: 5 kills for FFA, 25 for TDM)
    pub score_limit: u16,
    /// End screen duration in ticks (default: 300 = 5s at 60Hz, 900 = 15s for TDM)
    pub end_screen_ticks: u32,
    /// Respawn delay in ticks (default: 180 = 3s at 60Hz)
    pub respawn_delay_ticks: u32,
    /// Arena rotation list (empty = replay same arena)
    pub arena_rotation: Vec<String>,
    /// Maximum players per team (default: 8 for TDM)
    pub team_size: u8,
}

/// The contents of a [`MatchConfig`].
pub struct MatchConfigView {
    pub min_players: u8,
    pub countdown_ticks: u32,
    pub time_limit_seconds: u32,
    pub score_limit: u16,
    pub end_screen_ticks: u32,
    pub respawn_delay_ticks: u32,
    pub arena_rotation: Seq<Seq<char>>,
    pub team_size: u8,
}

impl View for MatchConfig {
    type V = MatchConfigView;

    open spec fn view(&self) -> MatchConfigView {
        MatchConfigView {
            min_players: self.min_players,
            countdown_ticks: self.countdown_ticks,
            time_limit_seconds: self.time_limit_seconds,
            score_limit: self.score_limit,
            end_screen_ticks: self.end_screen_ticks,
            respawn_delay_ticks: self.respawn_delay_ticks,
            arena_rotation: self.arena_rotation@.map_values(|s: String| s@),
            team_size: self.team_size,
        }
    }
}

/// A configuration with the given timing and limits and no arena rotation.
pub open spec fn preset(
    min_players: u8,
    countdown_ticks: u32,
    time_limit_seconds: u32,
    score_limit: u16,
    end_screen_ticks: u32,
    respawn_delay_ticks: u32,
    team_size: u8,
) -> MatchConfigView {
    MatchConfigView {
        min_players,
        countdown_ticks,
        time_limit_seconds,
        score_limit,
        end_screen_ticks,
        respawn_delay_ticks,
        arena_rotation: Seq::empty(),
        team_size,
    }
}

impl MatchConfigView {
    /// The configuration's timers fit the tick counters: the time limit in
    /// ticks fits in a `u32`, and so does the countdown rounded up to seconds.
    pub open spec fn supported(self) -> bool {
        &&& self.time_limit_seconds * 60 <= u32::MAX
        &&& self.countdown_ticks + 59 <= u32::MAX
    }
}

/// An empty arena rotation.
fn no_rotation() -> (v: Vec<String>)
    ensures
        v@.map_values(|s: String| s@) == Seq::<Seq<char>>::empty(),
{
    let v: Vec<String> = Vec::new();
    assert(v@.map_values(|s: String| s@) =~= Seq::<Seq<char>>::empty());
    v
}

impl MatchConfig {
    /// Create TDM-specific default configuration
    pub fn tdm_default() -> (c: MatchConfig)
        ensures
            c@ == preset(2, 180, 300, 25, 900, 180, 8),
    {
        MatchConfig {
            min_players: 2,
            countdown_ticks: 180,
            time_limit_seconds: 300,
            score_limit: 25,
            end_screen_ticks: 900,
            respawn_delay_ticks: 180,
            arena_rotation: no_rotation(),
            team_size: 8,
        }
    }

    /// Create FFA-specific default configuration
    pub fn ffa_default() -> (c: MatchConfig)
        ensures
            c@ == preset(2, 180, 300, 15, 600, 180, 0),
    {
        MatchConfig {
            min_players: 2,
            countdown_ticks: 180,
            time_limit_seconds: 300,
            score_limit: 15,
            end_screen_ticks: 600,
            respawn_delay_ticks: 180,
            arena_rotation: no_rotation(),
            team_size: 0,
        }
    }

    /// Create CTF-specific default configuration
    pub fn ctf_default() -> (c: MatchConfig)
        ensures
            c@ == preset(2, 180, 600, 3, 600, 300, 8),
    {
        MatchConfig {
            min_players: 2,
            countdown_ticks: 180,
            time_limit_seconds: 600,
            score_limit: 3,
            end_screen_ticks: 600,
            respawn_delay_ticks: 300,
            arena_rotation: no_rotation(),
            team_size: 8,
        }
    }

    /// Create BR Lite-specific default configuration
    pub fn br_lite_default() -> (c: MatchConfig)
        ensures
            c@ == preset(4, 180, 480, 1, 600, 0, 0),
    {
        MatchConfig {
            min_players: 4,
            countdown_ticks: 180,
            time_limit_seconds: 480,
            score_limit: 1,
            end_screen_ticks: 600,
            respawn_delay_ticks: 0,
            arena_rotation: no_rotation(),
            team_size: 0,
        }
    }

    /// Create Training mode-specific default configuration: single player, no
    /// countdown, no time or score limit, no end screen, fast respawn.
    pub fn training_default() -> (c: MatchConfig)
        ensures
            c@ == preset(1, 0, 0, 0, 0, 60, 0),
    {
        MatchConfig {
            min_players: 1,
            countdown_ticks: 0,
            time_limit_seconds: 0,
            score_limit: 0,
            end_screen_ticks: 0,
            respawn_delay_ticks: 60,
            arena_rotation: no_rotation(),
            team_size: 0,
        }
    }

    /// The general default configuration (5 kills to win, 5 second end screen).
    pub fn default_config() -> (c: MatchConfig)
        ensures
            c@ == preset(2, 180, 300, 5, 300, 180, 8),
    {
        MatchConfig {
            min_players: 2,
            countdown_ticks: 180,
            time_limit_seconds: 300,
            score_limit: 5,
            end_screen_ticks: 300,
            respawn_delay_ticks: 180,
            arena_rotation: no_rotation(),
            team_size: 8,
        }
    }
}

impl Default for MatchConfig {
    fn default() -> (c: MatchConfig)
        ensures
            c@ == preset(2, 180, 300, 5, 300, 180, 8),
    {
        Self::default_config()
    }
}


/// Match end result
#[derive(Debug, Clone)]
pub struct MatchEndResult {
    /// Winner player ID (None for tie)
    pub winner: Option<PlayerId>,
    /// Final scores
    pub scores: Vec<PlayerScore>,
    /// Reason match ended
    pub reason: MatchEndReason,
}

/// The contents of a [`MatchEndResult`].
pub struct MatchEndResultView {
    pub winner: Option<PlayerId>,
    pub scores: Seq<PlayerScoreView>,
    pub reason: MatchEndReason,
}

impl View for MatchEndResult {
    type V = MatchEndResultView;

    open spec fn view(&self) -> MatchEndResultView {
        MatchEndResultView { winner: self.winner, scores: scores_view(self.scores@), reason: self.reason }
    }
}

/// The complete state of a [`MatchStateMachine`]: the broadcast match state,
/// the configuration and the server-side timers.
pub struct MatchModel {
    pub phase: MatchPhase,
    pub countdown_remaining: u8,
    pub time_remaining: u32,
    pub score_limit: u16,
    pub player_scores: Seq<PlayerScoreView>,
    pub winner: Option<PlayerId>,
    pub arena_name: Seq<char>,
    pub team_scores: Seq<TeamScore>,
    pub team_winner: Option<TeamId>,
    pub game_mode: GameMode,
    pub config: MatchConfigView,
    pub phase_start_tick: u64,
    pub arena_index: usize,
    pub countdown_ticks_remaining: u32,
    pub time_ticks_remaining: u32,
    pub end_screen_ticks_remaining: u32,
    pub end_result: Option<MatchEndResultView>,
}

// ---------------------------------------------------------------------------
// Transitions of the match model
// ---------------------------------------------------------------------------

/// The phase that follows `p` in the match cycle.
pub open spec fn next_phase(p: MatchPhase) -> MatchPhase {
    match p {
        MatchPhase::Lobby => MatchPhase::Countdown,
        MatchPhase::Countdown => MatchPhase::Playing,
        MatchPhase::Playing => MatchPhase::EndScreen,
        MatchPhase::EndScreen => MatchPhase::Resetting,
        MatchPhase::Resetting => MatchPhase::Lobby,
    }
}

/// Countdown seconds shown for a countdown of `ticks` ticks (at least one).
pub open spec fn countdown_display(ticks: u32) -> u8 {
    if ticks / 60 >= 1 {
        (ticks / 60) as u8
    } else {
        1
    }
}

/// `m` in `phase` from `tick` on.
pub open spec fn enter(m: MatchModel, phase: MatchPhase, tick: u64) -> MatchModel {
    MatchModel { phase, phase_start_tick: tick, ..m }
}

/// The state after `start_countdown`: from the lobby, the countdown starts
/// with the configured number of ticks; in any other phase nothing changes.
pub open spec fn start_countdown_model(m: MatchModel, tick: u64) -> MatchModel {
    if m.phase == MatchPhase::Lobby {
        enter(
            MatchModel {
                countdown_ticks_remaining: m.config.countdown_ticks,
                countdown_remaining: countdown_display(m.config.countdown_ticks),
                ..m
            },
            MatchPhase::Countdown,
            tick,
        )
    } else {
        m
    }
}

/// The state after `cancel_countdown`: a countdown returns to the lobby.
pub open spec fn cancel_countdown_model(m: MatchModel, tick: u64) -> MatchModel {
    if m.phase == MatchPhase::Countdown {
        enter(m, MatchPhase::Lobby, tick)
    } else {
        m
    }
}

/// The start of play: the full time limit, no scores, no winner, no result.
pub open spec fn start_playing_model(m: MatchModel, tick: u64) -> MatchModel {
    enter(
        MatchModel {
            time_ticks_remaining: (m.config.time_limit_seconds * 60) as u32,
            time_remaining: m.config.time_limit_seconds,
            player_scores: Seq::empty(),
            winner: None,
            end_result: None,
            ..m
        },
        MatchPhase::Playing,
        tick,
    )
}

/// Position of the first score entry of `player`, if any.
pub open spec fn player_index(scores: Seq<PlayerScoreView>, player: PlayerId) -> Option<int> {
    if exists|i: int| 0 <= i < scores.len() && scores[i].player_id == player {
        Some(
            choose|i: int|
                0 <= i < scores.len() && scores[i].player_id == player && forall|j: int|
                    0 <= j < i ==> scores[j].player_id != player,
        )
    } else {
        None
    }
}

/// Whether the entry at `i` has strictly more kills than every other entry.
pub open spec fn sole_leader(scores: Seq<PlayerScoreView>, i: int) -> bool {
    &&& 0 <= i < scores.len()
    &&& forall|j: int| 0 <= j < scores.len() && j != i ==> #[trigger] scores[j].kills < scores[i].kills
}

/// The winner when time runs out: the player with strictly more kills than
/// every other player; nobody on a tie or when there are no scores.
pub open spec fn time_limit_winner(scores: Seq<PlayerScoreView>) -> Option<PlayerId> {
    if exists|i: int| sole_leader(scores, i) {
        Some(scores[choose|i: int| sole_leader(scores, i)].player_id)
    } else {
        None
    }
}

/// The end of a match: the end screen, with the given winners and result.
pub open spec fn end_model(
    m: MatchModel,
    winner: Option<PlayerId>,
    team_winner: Option<TeamId>,
    reason: MatchEndReason,
    tick: u64,
) -> MatchModel {
    enter(
        MatchModel {
            winner,
            team_winner,
            end_result: Some(MatchEndResultView { winner, scores: m.player_scores, reason }),
            end_screen_ticks_remaining: m.config.end_screen_ticks,
            ..m
        },
        MatchPhase::EndScreen,
        tick,
    )
}

/// End by a player reaching the score limit: that player wins.
pub open spec fn end_score_limit_model(m: MatchModel, winner: PlayerId, tick: u64) -> MatchModel {
    end_model(m, Some(winner), m.team_winner, MatchEndReason::ScoreLimit, tick)
}

/// End by the time limit: the sole leader, if any, wins.
pub open spec fn end_time_limit_model(m: MatchModel, tick: u64) -> MatchModel {
    end_model(m, time_limit_winner(m.player_scores), m.team_winner, MatchEndReason::TimeLimit, tick)
}

/// End by forfeit: nobody wins.
pub open spec fn end_forfeit_model(m: MatchModel, tick: u64) -> MatchModel {
    end_model(m, None, m.team_winner, MatchEndReason::Forfeit, tick)
}

/// End by a team reaching the score limit: the team wins, no single player does.
pub open spec fn end_team_model(m: MatchModel, team: TeamId, tick: u64) -> MatchModel {
    end_model(m, None, Some(team), MatchEndReason::ScoreLimit, tick)
}

/// One tick of the countdown: the tick counter and the seconds shown go down;
/// at zero, play starts.
pub open spec fn countdown_tick_model(m: MatchModel, tick: u64) -> MatchModel {
    let m1 = if m.countdown_ticks_remaining > 0 {
        MatchModel {
            countdown_ticks_remaining: (m.countdown_ticks_remaining - 1) as u32,
            countdown_remaining: ((m.countdown_ticks_remaining - 1 + 59) / 60) as u8,
            ..m
        }
    } else {
        m
    };
    if m1.countdown_ticks_remaining == 0 {
        start_playing_model(m1, tick)
    } else {
        m1
    }
}

/// One tick of play: the clock goes down; when a time limit is set and the
/// clock reaches zero, the match ends by the time limit.
pub open spec fn playing_tick_model(m: MatchModel, tick: u64) -> MatchModel {
    let m1 = if m.time_ticks_remaining > 0 {
        MatchModel {
            time_ticks_remaining: (m.time_ticks_remaining - 1) as u32,
            time_remaining: ((m.time_ticks_remaining - 1) / 60) as u32,
            ..m
        }
    } else {
        m
    };
    if m.config.time_limit_seconds > 0 && m1.time_ticks_remaining == 0 {
        end_time_limit_model(m1, tick)
    } else {
        m1
    }
}

/// One tick of the end screen: when its timer reaches zero, the reset starts.
pub open spec fn end_screen_tick_model(m: MatchModel, tick: u64) -> MatchModel {
    let m1 = if m.end_screen_ticks_remaining > 0 {
        MatchModel { end_screen_ticks_remaining: (m.end_screen_ticks_remaining - 1) as u32, ..m }
    } else {
        m
    };
    if m1.end_screen_ticks_remaining == 0 {
        enter(m1, MatchPhase::Resetting, tick)
    } else {
        m1
    }
}

/// The state after `update`: the lobby and the reset wait for outside calls;
/// the other phases advance their timers by one tick.
pub open spec fn update_model(m: MatchModel, tick: u64) -> MatchModel {
    match m.phase {
        MatchPhase::Lobby => m,
        MatchPhase::Countdown => countdown_tick_model(m, tick),
        MatchPhase::Playing => playing_tick_model(m, tick),
        MatchPhase::EndScreen => end_screen_tick_model(m, tick),
        MatchPhase::Resetting => m,
    }
}

/// What `update` returns: the new phase when it changed.
pub open spec fn update_result(m: MatchModel, tick: u64) -> Option<MatchPhase> {
    if update_model(m, tick).phase != m.phase {
        Some(update_model(m, tick).phase)
    } else {
        None
    }
}

/// Whether `check_score_limit` ends the match: only in play, with a score
/// limit set, once the kills reach it.
pub open spec fn score_limit_reached(m: MatchModel, kills: u16) -> bool {
    m.phase == MatchPhase::Playing && m.config.score_limit != 0 && kills >= m.config.score_limit
}

/// The state after `check_score_limit`.
pub open spec fn check_score_limit_model(m: MatchModel, player: PlayerId, kills: u16, tick: u64) -> MatchModel {
    if score_limit_reached(m, kills) {
        end_score_limit_model(m, player, tick)
    } else {
        m
    }
}

/// The state after `end_match_forfeit`: only a match in play ends.
pub open spec fn forfeit_model(m: MatchModel, tick: u64) -> MatchModel {
    if m.phase == MatchPhase::Playing {
        end_forfeit_model(m, tick)
    } else {
        m
    }
}

/// The arena index after a reset.
pub open spec fn next_arena_index(m: MatchModel) -> usize {
    if m.config.arena_rotation.len() > 0 {
        ((m.arena_index + 1) % (m.config.arena_rotation.len() as int)) as usize
    } else {
        m.arena_index
    }
}

/// Team scores with every score at zero.
pub open spec fn zero_team_scores(s: Seq<TeamScore>) -> Seq<TeamScore> {
    s.map_values(|t: TeamScore| TeamScore { team: t.team, score: 0 })
}

/// The state after `complete_reset`: from the reset, the lobby of the next
/// match, on the next arena of the rotation, with scores and winners cleared.
pub open spec fn complete_reset_model(m: MatchModel, tick: u64) -> MatchModel {
    if m.phase == MatchPhase::Resetting {
        let idx = next_arena_index(m);
        MatchModel {
            phase: MatchPhase::Lobby,
            arena_index: idx,
            arena_name: if m.config.arena_rotation.len() > 0 {
                m.config.arena_rotation[idx as int]
            } else {
                m.arena_name
            },
            countdown_remaining: countdown_display(m.config.countdown_ticks),
            time_remaining: m.config.time_limit_seconds,
            player_scores: Seq::empty(),
            winner: None,
            team_winner: None,
            end_result: None,
            time_ticks_remaining: (m.config.time_limit_seconds * 60) as u32,
            phase_start_tick: tick,
            team_scores: zero_team_scores(m.team_scores),
            ..m
        }
    } else {
        m
    }
}

/// What `complete_reset` returns: the next arena when the rotation is used.
pub open spec fn complete_reset_result(m: MatchModel) -> Option<Seq<char>> {
    if m.phase == MatchPhase::Resetting && m.config.arena_rotation.len() > 0 {
        Some(m.config.arena_rotation[next_arena_index(m) as int])
    } else {
        None
    }
}

/// The state after `update_player_score`: the player's entry takes the new
/// kills and deaths, or a new entry is appended for a new player.
pub open spec fn update_player_score_model(
    m: MatchModel,
    player: PlayerId,
    name: Seq<char>,
    kills: u16,
    deaths: u16,
) -> MatchModel {
    match player_index(m.player_scores, player) {
        Some(i) => MatchModel {
            player_scores: m.player_scores.update(
                i,
                PlayerScoreView { kills, deaths, ..m.player_scores[i] },
            ),
            ..m
        },
        None => MatchModel {
            player_scores: m.player_scores.push(PlayerScoreView { player_id: player, name, kills, deaths }),
            ..m
        },
    }
}

/// The entries of every player but `player`.
pub open spec fn without_player(scores: Seq<PlayerScoreView>, player: PlayerId) -> Seq<PlayerScoreView> {
    scores.filter(not_player(player))
}

/// Whether an entry belongs to someone other than `player`.
pub open spec fn not_player(player: PlayerId) -> spec_fn(PlayerScoreView) -> bool {
    |p: PlayerScoreView| p.player_id != player
}

/// Position of the first team score entry of `team`, if any.
pub open spec fn team_index(scores: Seq<TeamScore>, team: TeamId) -> Option<int> {
    if exists|i: int| 0 <= i < scores.len() && scores[i].team == team {
        Some(
            choose|i: int|
                0 <= i < scores.len() && scores[i].team == team && forall|j: int|
                    0 <= j < i ==> scores[j].team != team,
        )
    } else {
        None
    }
}

/// The score of `team`, zero when the team has no entry.
pub open spec fn team_score(m: MatchModel, team: TeamId) -> u32 {
    match team_index(m.team_scores, team) {
        Some(i) => m.team_scores[i].score,
        None => 0,
    }
}

/// The state after `award_team_kill`: in play, the team's score goes up by one.
pub open spec fn award_team_kill_model(m: MatchModel, team: TeamId) -> MatchModel {
    if m.phase == MatchPhase::Playing {
        match team_index(m.team_scores, team) {
            Some(i) => MatchModel {
                team_scores: m.team_scores.update(
                    i,
                    TeamScore { team: m.team_scores[i].team, score: (m.team_scores[i].score + 1) as u32 },
                ),
                ..m
            },
            None => m,
        }
    } else {
        m
    }
}

/// Whether `check_team_score_limit` ends the match.
pub open spec fn team_limit_reached(m: MatchModel, team: TeamId) -> bool {
    &&& m.phase == MatchPhase::Playing
    &&& team_index(m.team_scores, team) is Some
    &&& team_score(m, team) >= m.config.score_limit
}

/// The state after `check_team_score_limit`.
pub open spec fn check_team_score_limit_model(m: MatchModel, team: TeamId, tick: u64) -> MatchModel {
    if team_limit_reached(m, team) {
        end_team_model(m, team, tick)
    } else {
        m
    }
}

/// The initial state of a match on `arena` in `mode`.
pub open spec fn initial_model(config: MatchConfigView, arena: Seq<char>, mode: GameMode) -> MatchModel {
    MatchModel {
        phase: MatchPhase::Lobby,
        countdown_remaining: 3,
        time_remaining: config.time_limit_seconds,
        score_limit: config.score_limit,
        player_scores: Seq::empty(),
        winner: None,
        arena_name: arena,
        team_scores: seq![TeamScore { team: TeamId(0), score: 0 }, TeamScore { team: TeamId(1), score: 0 }],
        team_winner: None,
        game_mode: mode,
        config,
        phase_start_tick: 0,
        arena_index: 0,
        countdown_ticks_remaining: 0,
        time_ticks_remaining: (config.time_limit_seconds * 60) as u32,
        end_screen_ticks_remaining: 0,
        end_result: None,
    }
}


/// Match state machine
#[derive(Debug)]
pub struct MatchStateMachine {
    /// Current state (broadcast to clients)
    state: MatchState,
    /// Server-only configuration
    config: MatchConfig,
    /// Tick when current phase started
    phase_start_tick: Tick,
    /// Current arena index in rotation
    arena_index: usize,
    /// Countdown ticks remaining (internal tracking at tick resolution)
    countdown_ticks_remaining: u32,
    /// Match time ticks remaining (internal tracking at tick resolution)
    time_ticks_remaining: u32,
    /// End screen ticks remaining
    end_screen_ticks_remaining: u32,
    /// Cached match end result (set when transitioning to EndScreen)
    match_end_result: Option<MatchEndResult>,
}

/// The view of an optional match result.
pub open spec fn end_result_view(r: Option<MatchEndResult>) -> Option<MatchEndResultView> {
    match r {
        Some(x) => Some(x@),
        None => None,
    }
}

/// No two entries belong to the same player.
pub open spec fn distinct_players(scores: Seq<PlayerScoreView>) -> bool {
    forall|i: int, j: int|
        0 <= i < scores.len() && 0 <= j < scores.len() && i != j ==> #[trigger] scores[i].player_id
            != #[trigger] scores[j].player_id
}

impl View for MatchStateMachine {
    type V = MatchModel;

    closed spec fn view(&self) -> MatchModel {
        MatchModel {
            phase: self.state.phase,
            countdown_remaining: self.state.countdown_remaining,
            time_remaining: self.state.time_remaining,
            score_limit: self.state.score_limit,
            player_scores: scores_view(self.state.player_scores@),
            winner: self.state.winner,
            arena_name: self.state.arena_name@,
            team_scores: self.state.scores@,
            team_winner: self.state.team_winner,
            game_mode: self.state.game_mode,
            config: self.config@,
            phase_start_tick: self.phase_start_tick.0,
            arena_index: self.arena_index,
            countdown_ticks_remaining: self.countdown_ticks_remaining,
            time_ticks_remaining: self.time_ticks_remaining,
            end_screen_ticks_remaining: self.end_screen_ticks_remaining,
            end_result: end_result_view(self.match_end_result),
        }
    }
}

impl MatchModel {
    /// The invariant of the match state: supported timers, a countdown within
    /// its configured length, one score entry per player, and an arena index
    /// inside the rotation.
    pub open spec fn wf(self) -> bool {
        &&& self.config.supported()
        &&& self.countdown_ticks_remaining <= self.config.countdown_ticks
        &&& distinct_players(self.player_scores)
        &&& self.config.arena_rotation.len() > 0 ==> self.arena_index < self.config.arena_rotation.len()
        &&& self.config.arena_rotation.len() == 0 ==> self.arena_index == 0
        &&& self.config.arena_rotation.len() <= usize::MAX
    }
}

impl MatchStateMachine {
    /// The broadcast state.
    pub closed spec fn state_spec(&self) -> MatchState {
        self.state
    }

    /// The configuration.
    pub closed spec fn config_spec(&self) -> MatchConfig {
        self.config
    }

    /// The cached result.
    pub closed spec fn end_result_spec(&self) -> Option<MatchEndResult> {
        self.match_end_result
    }

    /// Create a new match state machine, in the lobby.
    pub fn new(config: MatchConfig, arena_name: String, game_mode: GameMode) -> (m: MatchStateMachine)
        requires
            config@.supported(),
        ensures
            m@.wf(),
            m@ == initial_model(config@, arena_name@, game_mode),
    {
        let time_limit = config.time_limit_seconds;
        let score_limit = config.score_limit;
        let rotation_len = config.arena_rotation.len();
        assert(config@.arena_rotation.len() == rotation_len);
        let mut scores: Vec<TeamScore> = Vec::new();
        scores.push(TeamScore { team: TeamId(0), score: 0 });
        scores.push(TeamScore { team: TeamId(1), score: 0 });
        let m = MatchStateMachine {
            state: MatchState {
                phase: MatchPhase::Lobby,
                countdown_remaining: 3,
                time_remaining: time_limit,
                score_limit,
                player_scores: Vec::new(),
                winner: None,
                arena_name,
                scores,
                team_winner: None,
                game_mode,
            },
            config,
            phase_start_tick: Tick(0),
            arena_index: 0,
            countdown_ticks_remaining: 0,
            time_ticks_remaining: time_limit * 60,
            end_screen_ticks_remaining: 0,
            match_end_result: None,
        };
        assert(m@.player_scores =~= Seq::<PlayerScoreView>::empty());
        assert(m@.team_scores =~= seq![TeamScore { team: TeamId(0), score: 0 }, TeamScore { team: TeamId(1), score: 0 }]);
        m
    }

    /// Get the current game mode
    pub fn game_mode(&self) -> (g: GameMode)
        ensures
            g == self@.game_mode,
    {
        self.state.game_mode
    }

    /// Get current state (for broadcast to clients)
    pub fn state(&self) -> (s: &MatchState)
        ensures
            *s == self.state_spec(),
            s.phase == self@.phase,
            s.countdown_remaining == self@.countdown_remaining,
            s.time_remaining == self@.time_remaining,
            s.score_limit == self@.score_limit,
            scores_view(s.player_scores@) == self@.player_scores,
            s.winner == self@.winner,
            s.arena_name@ == self@.arena_name,
            s.scores@ == self@.team_scores,
            s.team_winner == self@.team_winner,
            s.game_mode == self@.game_mode,
    {
        &self.state
    }

    /// Get mutable state (for updating player scores). What the caller leaves
    /// in it becomes the machine's state.
    pub fn state_mut(&mut self) -> (s: &mut MatchState)
        ensures
            *s == old(self).state_spec(),
            final(self).state_spec() == *final(s),
            final(self).config_spec() == old(self).config_spec(),
            final(self).end_result_spec() == old(self).end_result_spec(),
            final(self)@.phase_start_tick == old(self)@.phase_start_tick,
            final(self)@.arena_index == old(self)@.arena_index,
            final(self)@.countdown_ticks_remaining == old(self)@.countdown_ticks_remaining,
            final(self)@.time_ticks_remaining == old(self)@.time_ticks_remaining,
            final(self)@.end_screen_ticks_remaining == old(self)@.end_screen_ticks_remaining,
    {
        &mut self.state
    }

    /// Get current phase
    pub fn phase(&self) -> (p: MatchPhase)
        ensures
            p == self@.phase,
    {
        self.state.phase
    }

    /// Get config
    pub fn config(&self) -> (c: &MatchConfig)
        ensures
            c@ == self@.config,
            *c == self.config_spec(),
    {
        &self.config
    }

    /// Get match end result (set once a match has ended, until play starts again)
    pub fn match_end_result(&self) -> (r: Option<&MatchEndResult>)
        ensures
            match r {
                Some(x) => self@.end_result == Some(x@),
                None => self@.end_result is None,
            },
    {
        match &self.match_end_result {
            Some(r) => Some(r),
            None => None,
        }
    }

    /// Get current arena index
    pub fn arena_index(&self) -> (i: usize)
        ensures
            i == self@.arena_index,
    {
        self.arena_index
    }

    /// Transition to a new phase
    fn transition_to(&mut self, phase: MatchPhase, tick: Tick)
        ensures
            final(self)@ == enter(old(self)@, phase, tick.0),
    {
        self.state.phase = phase;
        self.phase_start_tick = tick;
    }

    /// Start countdown when all players are ready
    pub fn start_countdown(&mut self, current_tick: Tick)
        requires
            old(self)@.wf(),
        ensures
            final(self)@.wf(),
            final(self)@ == start_countdown_model(old(self)@, current_tick.0),
    {
        if self.state.phase == MatchPhase::Lobby {
            self.countdown_ticks_remaining = self.config.countdown_ticks;
            let secs = self.config.countdown_ticks / 60;
            self.state.countdown_remaining = if secs >= 1 {
                #[verifier::truncate]
                (secs as u8)
            } else {
                1
            };
            self.transition_to(MatchPhase::Countdown, current_tick);
        }
    }

    /// Cancel countdown (player disconnected or unreadied)
    pub fn cancel_countdown(&mut self, current_tick: Tick)
        requires
            old(self)@.wf(),
        ensures
            final(self)@.wf(),
            final(self)@ == cancel_countdown_model(old(self)@, current_tick.0),
    {
        if self.state.phase == MatchPhase::Countdown {
            self.transition_to(MatchPhase::Lobby, current_tick);
        }
    }

    /// Start playing phase
    fn start_playing(&mut self, tick: Tick)
        requires
            old(self)@.wf(),
        ensures
            final(self)@.wf(),
            final(self)@ == start_playing_model(old(self)@, tick.0),
    {
        self.time_ticks_remaining = self.config.time_limit_seconds * 60;
        self.state.time_remaining = self.config.time_limit_seconds;
        self.state.player_scores.clear();
        self.state.winner = None;
        self.match_end_result = None;
        self.transition_to(MatchPhase::Playing, tick);
        assert(self@.player_scores =~= Seq::<PlayerScoreView>::empty());
    }

    /// Update match state based on current tick.
    /// Returns Some(new_phase) if phase changed.
    pub fn update(&mut self, current_tick: Tick) -> (r: Option<MatchPhase>)
        requires
            old(self)@.wf(),
        ensures
            final(self)@.wf(),
            final(self)@ == update_model(old(self)@, current_tick.0),
            r == update_result(old(self)@, current_tick.0),
    {
        let old_phase = self.state.phase;
        match self.state.phase {
            MatchPhase::Lobby => {},
            MatchPhase::Countdown => {
                if self.countdown_ticks_remaining > 0 {
                    self.countdown_ticks_remaining = self.countdown_ticks_remaining - 1;
                    let secs = (self.countdown_ticks_remaining + 59) / 60;
                    self.state.countdown_remaining = #[verifier::truncate] (secs as u8);
                }
                if self.countdown_ticks_remaining == 0 {
                    self.start_playing(current_tick);
                }
            },
            MatchPhase::Playing => {
                if self.time_ticks_remaining > 0 {
                    self.time_ticks_remaining = self.time_ticks_remaining - 1;
                    self.state.time_remaining = self.time_ticks_remaining / 60;
                }
                if self.config.time_limit_seconds > 0 && self.time_ticks_remaining == 0 {
                    self.end_match_time_limit(current_tick);
                }
            },
            MatchPhase::EndScreen => {
                if self.end_screen_ticks_remaining > 0 {
                    self.end_screen_ticks_remaining = self.end_screen_ticks_remaining - 1;
                }
                if self.end_screen_ticks_remaining == 0 {
                    self.transition_to(MatchPhase::Resetting, current_tick);
                }
            },
            MatchPhase::Resetting => {},
        }
        if self.state.phase != old_phase {
            Some(self.state.phase)
        } else {
            None
        }
    }

    /// Check if a player reached the score limit, ending the match with that
    /// player as winner. A score limit of 0 means no limit (Training mode).
    pub fn check_score_limit(&mut self, player_id: PlayerId, kills: u16, current_tick: Tick) -> (ended: bool)
        requires
            old(self)@.wf(),
        ensures
            final(self)@.wf(),
            ended == score_limit_reached(old(self)@, kills),
            final(self)@ == check_score_limit_model(old(self)@, player_id, kills, current_tick.0),
    {
        if self.state.phase != MatchPhase::Playing {
            return false;
        }
        if self.config.score_limit == 0 {
            return false;
        }
        if kills >= self.config.score_limit {
            self.end_match_score_limit(player_id, current_tick);
            true
        } else {
            false
        }
    }

    /// Record the end of the match.
    fn end_match(&mut self, winner: Option<PlayerId>, team_winner: Option<TeamId>, reason: MatchEndReason, tick: Tick)
        requires
            old(self)@.wf(),
        ensures
            final(self)@.wf(),
            final(self)@ == end_model(old(self)@, winner, team_winner, reason, tick.0),
    {
        self.state.winner = winner;
        self.state.team_winner = team_winner;
        let scores = duplicate_scores(&self.state.player_scores);
        self.match_end_result = Some(MatchEndResult { winner, scores, reason });
        self.end_screen_ticks_remaining = self.config.end_screen_ticks;
        self.transition_to(MatchPhase::EndScreen, tick);
    }

    /// End match due to score limit reached
    fn end_match_score_limit(&mut self, winner: PlayerId, tick: Tick)
        requires
            old(self)@.wf(),
        ensures
            final(self)@.wf(),
            final(self)@ == end_score_limit_model(old(self)@, winner, tick.0),
    {
        let team_winner = self.state.team_winner;
        self.end_match(Some(winner), team_winner, MatchEndReason::ScoreLimit, tick);
    }

    /// End match due to time limit
    fn end_match_time_limit(&mut self, tick: Tick)
        requires
            old(self)@.wf(),
        ensures
            final(self)@.wf(),
            final(self)@ == end_time_limit_model(old(self)@, tick.0),
    {
        let winner = self.determine_winner();
        let team_winner = self.state.team_winner;
        self.end_match(winner, team_winner, MatchEndReason::TimeLimit, tick);
    }

    /// End match due to forfeit (all players disconnected)
    pub fn end_match_forfeit(&mut self, tick: Tick)
        requires
            old(self)@.wf(),
        ensures
            final(self)@.wf(),
            final(self)@ == forfeit_model(old(self)@, tick.0),
    {
        if self.state.phase != MatchPhase::Playing {
            return;
        }
        let team_winner = self.state.team_winner;
        self.end_match(None, team_winner, MatchEndReason::Forfeit, tick);
    }

    /// Determine winner based on current scores: the one player with strictly
    /// the most kills, or nobody.
    fn determine_winner(&self) -> (w: Option<PlayerId>)
        ensures
            w == time_limit_winner(self@.player_scores),
    {
        let scores = &self.state.player_scores;
        let ghost sv = self@.player_scores;
        if scores.len() == 0 {
            return None;
        }
        assert(forall|k: int| 0 <= k < scores@.len() ==> #[trigger] sv[k] == scores@[k]@);
        let mut max_kills: u16 = scores[0].kills;
        let mut arg: usize = 0;
        let mut i: usize = 1;
        while i < scores.len()
            invariant
                sv == scores_view(scores@),
                sv.len() == scores@.len(),
                forall|k: int| 0 <= k < scores@.len() ==> #[trigger] sv[k] == scores@[k]@,
                1 <= i <= scores@.len(),
                arg < i,
                sv[arg as int].kills == max_kills,
                forall|k: int| 0 <= k < i ==> #[trigger] sv[k].kills <= max_kills,
            decreases scores@.len() - i,
        {
            if scores[i].kills > max_kills {
                max_kills = scores[i].kills;
                arg = i;
            }
            i = i + 1;
        }
        let mut leader: usize = 0;
        let mut found = false;
        let mut tie = false;
        let mut second: usize = 0;
        let mut j: usize = 0;
        while j < scores.len()
            invariant
                sv == scores_view(scores@),
                sv.len() == scores@.len(),
                forall|k: int| 0 <= k < scores@.len() ==> #[trigger] sv[k] == scores@[k]@,
                j <= scores@.len(),
                forall|k: int| 0 <= k < scores@.len() ==> #[trigger] sv[k].kills <= max_kills,
                arg < scores@.len(),
                sv[arg as int].kills == max_kills,
                !found ==> forall|k: int| 0 <= k < j ==> #[trigger] sv[k].kills != max_kills,
                found ==> leader < j && sv[leader as int].kills == max_kills,
                found && !tie ==> forall|k: int| 0 <= k < j && k != leader ==> #[trigger] sv[k].kills != max_kills,
                tie ==> found && second < j && second != leader && sv[second as int].kills == max_kills,
            decreases scores@.len() - j,
        {
            if scores[j].kills == max_kills {
                if found {
                    tie = true;
                    second = j;
                } else {
                    found = true;
                    leader = j;
                }
            }
            j = j + 1;
        }
        assert(found) by {
            if !found {
                assert(sv[arg as int].kills != max_kills);
            }
        }
        if found && !tie {
            proof {
                assert(sole_leader(sv, leader as int));
                assert forall|k: int| sole_leader(sv, k) implies k == leader by {
                    if k != leader {
                        assert(sv[leader as int].kills < sv[k].kills);
                    }
                }
            }
            Some(scores[leader].player_id)
        } else {
            proof {
                assert forall|k: int| !sole_leader(sv, k) by {
                    if sole_leader(sv, k) {
                        if arg != k {
                            assert(sv[arg as int].kills < sv[k].kills);
                        }
                        assert(sv[k].kills == max_kills);
                        if second as int != k {
                            assert(sv[second as int].kills < sv[k].kills);
                        } else {
                            assert(sv[leader as int].kills < sv[k].kills);
                        }
                    }
                }
            }
            None
        }
    }

    /// Complete the reset phase and return to lobby.
    /// Returns the next arena name if rotation is enabled.
    pub fn complete_reset(&mut self, tick: Tick) -> (next: Option<String>)
        requires
            old(self)@.wf(),
        ensures
            final(self)@.wf(),
            final(self)@ == complete_reset_model(old(self)@, tick.0),
            match next {
                Some(a) => complete_reset_result(old(self)@) == Some(a@),
                None => complete_reset_result(old(self)@) is None,
            },
    {
        if self.state.phase != MatchPhase::Resetting {
            return None;
        }
        let ghost pre = self@;
        let ghost rot = self@.config.arena_rotation;
        let next_arena = if self.config.arena_rotation.len() > 0 {
            self.arena_index = (self.arena_index + 1) % self.config.arena_rotation.len();
            let arena_name = self.config.arena_rotation[self.arena_index].clone();
            assert(arena_name@ == rot[self.arena_index as int]);
            self.state.arena_name = arena_name.clone();
            Some(arena_name)
        } else {
            None
        };
        self.state.phase = MatchPhase::Lobby;
        let secs = self.config.countdown_ticks / 60;
        self.state.countdown_remaining = if secs >= 1 {
            #[verifier::truncate]
            (secs as u8)
        } else {
            1
        };
        self.state.time_remaining = self.config.time_limit_seconds;
        self.state.player_scores.clear();
        self.state.winner = None;
        self.state.team_winner = None;
        self.match_end_result = None;
        self.time_ticks_remaining = self.config.time_limit_seconds * 60;
        self.phase_start_tick = tick;
        self.state.scores = zeroed_scores(&self.state.scores);
        assert(self@.team_scores =~= zero_team_scores(pre.team_scores));
        assert(self@.player_scores =~= Seq::<PlayerScoreView>::empty());
        assert(self@ == complete_reset_model(pre, tick.0));
        next_arena
    }

    /// Get countdown seconds remaining (for CountdownTick events)
    pub fn countdown_seconds(&self) -> (s: u8)
        ensures
            s == self@.countdown_remaining,
    {
        self.state.countdown_remaining
    }

    /// Check if countdown tick should fire (every 60 ticks during countdown)
    pub fn should_broadcast_countdown(&self) -> (b: bool)
        ensures
            b == (self@.phase == MatchPhase::Countdown && self@.countdown_ticks_remaining % 60 == 0),
    {
        self.state.phase == MatchPhase::Countdown && self.countdown_ticks_remaining % 60 == 0
    }

    /// Position of the first score entry of `player_id`.
    fn find_player(&self, player_id: PlayerId) -> (r: Option<usize>)
        ensures
            match r {
                Some(i) => player_index(self@.player_scores, player_id) == Some(i as int),
                None => player_index(self@.player_scores, player_id) is None,
            },
    {
        let ghost sv = self@.player_scores;
        assert(forall|k: int| 0 <= k < self.state.player_scores@.len() ==> #[trigger] sv[k] == self.state.player_scores@[k]@);
        let mut i: usize = 0;
        while i < self.state.player_scores.len()
            invariant
                sv == self@.player_scores,
                sv.len() == self.state.player_scores@.len(),
                forall|k: int| 0 <= k < sv.len() ==> #[trigger] sv[k] == self.state.player_scores@[k]@,
                i <= sv.len(),
                forall|k: int| 0 <= k < i ==> #[trigger] sv[k].player_id != player_id,
            decreases sv.len() - i,
        {
            if self.state.player_scores[i].player_id == player_id {
                assert(sv[i as int].player_id == player_id);
                let ghost c = choose|c: int|
                    0 <= c < sv.len() && sv[c].player_id == player_id && forall|j: int|
                        0 <= j < c ==> sv[j].player_id != player_id;
                assert(c == i) by {
                    if c < i {
                        assert(sv[c].player_id != player_id);
                    } else if c > i {
                        assert(sv[i as int].player_id != player_id);
                    }
                }
                return Some(i);
            }
            i = i + 1;
        }
        None
    }

    /// Update player score in state: the entry of the player takes the new
    /// kills and deaths, or a new entry is added for a new player.
    pub fn update_player_score(&mut self, player_id: PlayerId, name: &str, kills: u16, deaths: u16)
        requires
            old(self)@.wf(),
        ensures
            final(self)@.wf(),
            final(self)@ == update_player_score_model(old(self)@, player_id, name@, kills, deaths),
    {
        let ghost pre = self@;
        match self.find_player(player_id) {
            Some(i) => {
                let old_entry = self.state.player_scores[i].duplicate();
                self.state.player_scores.set(
                    i,
                    PlayerScore { player_id: old_entry.player_id, name: old_entry.name, kills, deaths },
                );
                assert(self@.player_scores =~= pre.player_scores.update(
                    i as int,
                    PlayerScoreView { kills, deaths, ..pre.player_scores[i as int] },
                ));
            },
            None => {
                self.state.player_scores.push(
                    PlayerScore { player_id, name: name.to_string(), kills, deaths },
                );
                assert(self@.player_scores =~= pre.player_scores.push(
                    PlayerScoreView { player_id, name: name@, kills, deaths },
                ));
                assert forall|k: int| 0 <= k < pre.player_scores.len() implies #[trigger] pre.player_scores[k].player_id != player_id by {
                    if pre.player_scores[k].player_id == player_id {
                        assert(exists|i: int| 0 <= i < pre.player_scores.len() && pre.player_scores[i].player_id == player_id);
                    }
                }
            },
        }
    }

    /// Remove player from scores (on disconnect)
    pub fn remove_player_score(&mut self, player_id: PlayerId)
        requires
            old(self)@.wf(),
        ensures
            final(self)@.wf(),
            final(self)@ == (MatchModel {
                player_scores: without_player(old(self)@.player_scores, player_id),
                ..old(self)@
            }),
    {
        let ghost pre = self@;
        let ghost sv = pre.player_scores;
        let ghost pred = not_player(player_id);
        let mut kept: Vec<PlayerScore> = Vec::new();
        let mut i: usize = 0;
        assert(forall|k: int| 0 <= k < self.state.player_scores@.len() ==> #[trigger] sv[k] == self.state.player_scores@[k]@);
        assert(sv.take(0).filter(pred) =~= Seq::<PlayerScoreView>::empty()) by {
            reveal(Seq::filter);
        }
        while i < self.state.player_scores.len()
            invariant
                self@ == pre,
                pred == not_player(player_id),
                sv == pre.player_scores,
                sv.len() == self.state.player_scores@.len(),
                forall|k: int| 0 <= k < sv.len() ==> #[trigger] sv[k] == self.state.player_scores@[k]@,
                i <= sv.len(),
                scores_view(kept@) == sv.take(i as int).filter(pred),
            decreases sv.len() - i,
        {
            let ghost before = kept@;
            proof {
                reveal(Seq::filter);
                let s1 = sv.take(i + 1);
                assert(s1.drop_last() =~= sv.take(i as int));
                assert(s1.last() == sv[i as int]);
                assert(s1.filter(pred) == if pred(sv[i as int]) {
                    sv.take(i as int).filter(pred).push(sv[i as int])
                } else {
                    sv.take(i as int).filter(pred)
                });
                assert(pred(sv[i as int]) == (sv[i as int].player_id != player_id));
            }
            if self.state.player_scores[i].player_id != player_id {
                kept.push(self.state.player_scores[i].duplicate());
                assert(scores_view(kept@) =~= scores_view(before).push(sv[i as int]));
            }
            i = i + 1;
        }
        assert(sv.take(sv.len() as int) =~= sv);
        self.state.player_scores = kept;
        proof {
            let r = without_player(sv, player_id);
            assert(r == sv.filter(pred));
            assert forall|a: int, b: int| 0 <= a < r.len() && 0 <= b < r.len() && a != b implies #[trigger] r[a].player_id != #[trigger] r[b].player_id by {
                lemma_filter_preserves_distinct(sv, player_id);
            }
        }
        assert(self@ == MatchModel { player_scores: without_player(pre.player_scores, player_id), ..pre });
    }

    /// Position of the first team score entry of `team`.
    fn find_team(&self, team: TeamId) -> (r: Option<usize>)
        ensures
            match r {
                Some(i) => team_index(self@.team_scores, team) == Some(i as int) && i
                    < self@.team_scores.len(),
                None => team_index(self@.team_scores, team) is None,
            },
    {
        let ghost ts = self@.team_scores;
        let mut i: usize = 0;
        while i < self.state.scores.len()
            invariant
                ts == self@.team_scores,
                ts == self.state.scores@,
                i <= ts.len(),
                forall|k: int| 0 <= k < i ==> #[trigger] ts[k].team != team,
            decreases ts.len() - i,
        {
            if self.state.scores[i].team == team {
                let ghost c = choose|c: int|
                    0 <= c < ts.len() && ts[c].team == team && forall|j: int| 0 <= j < c ==> ts[j].team != team;
                assert(c == i) by {
                    if c < i {
                        assert(ts[c].team != team);
                    } else if c > i {
                        assert(ts[i as int].team != team);
                    }
                }
                return Some(i);
            }
            i = i + 1;
        }
        None
    }

    /// Award a point to a team for a kill (TDM mode).
    ///
    /// Increments the team's score by 1 during the Playing phase only.
    pub fn award_team_kill(&mut self, team: TeamId)
        requires
            old(self)@.wf(),
            old(self)@.phase == MatchPhase::Playing ==> team_score(old(self)@, team) < u32::MAX,
        ensures
            final(self)@.wf(),
            final(self)@ == award_team_kill_model(old(self)@, team),
    {
        if self.state.phase != MatchPhase::Playing {
            return;
        }
        let ghost pre = self@;
        match self.find_team(team) {
            Some(i) => {
                let entry = self.state.scores[i];
                self.state.scores.set(i, TeamScore { team: entry.team, score: entry.score + 1 });
                assert(self@ == award_team_kill_model(pre, team));
            },
            None => {},
        }
    }

    /// Check if a team has reached the score limit (TDM mode).
    ///
    /// If the team's score >= score_limit, triggers match end and returns true.
    /// Only checks during Playing phase.
    pub fn check_team_score_limit(&mut self, team: TeamId, tick: Tick) -> (ended: bool)
        requires
            old(self)@.wf(),
        ensures
            final(self)@.wf(),
            ended == team_limit_reached(old(self)@, team),
            final(self)@ == check_team_score_limit_model(old(self)@, team, tick.0),
    {
        if self.state.phase != MatchPhase::Playing {
            return false;
        }
        match self.find_team(team) {
            Some(i) => {
                if self.state.scores[i].score >= self.config.score_limit as u32 {
                    self.end_match_team_score_limit(team, tick);
                    return true;
                }
            },
            None => {},
        }
        false
    }

    /// End match due to team reaching score limit (TDM mode): the team wins, no
    /// individual player does.
    fn end_match_team_score_limit(&mut self, team: TeamId, tick: Tick)
        requires
            old(self)@.wf(),
        ensures
            final(self)@.wf(),
            final(self)@ == end_team_model(old(self)@, team, tick.0),
    {
        self.end_match(None, Some(team), MatchEndReason::ScoreLimit, tick);
    }

    /// Get team score by team ID (zero for a team without an entry)
    pub fn get_team_score(&self, team: TeamId) -> (s: u32)
        ensures
            s == team_score(self@, team),
    {
        match self.find_team(team) {
            Some(i) => self.state.scores[i].score,
            None => 0,
        }
    }
} // impl MatchStateMachine

/// The team scores with every score set to zero.
fn zeroed_scores(v: &Vec<TeamScore>) -> (r: Vec<TeamScore>)
    ensures
        r@ == zero_team_scores(v@),
{
    let mut r: Vec<TeamScore> = Vec::new();
    let mut k: usize = 0;
    while k < v.len()
        invariant
            k <= v@.len(),
            r@.len() == k,
            forall|t: int| 0 <= t < k ==> #[trigger] r@[t] == (TeamScore { team: v@[t].team, score: 0 }),
        decreases v@.len() - k,
    {
        r.push(TeamScore { team: v[k].team, score: 0 });
        k = k + 1;
    }
    assert(r@ =~= zero_team_scores(v@));
    r
}

/// Filtering score entries keeps their players distinct.
proof fn lemma_filter_preserves_distinct(s: Seq<PlayerScoreView>, player: PlayerId)
    requires
        distinct_players(s),
    ensures
        distinct_players(without_player(s, player)),
    decreases s.len(),
{
    reveal(Seq::filter);
    let pred = not_player(player);
    if s.len() > 0 {
        let d = s.drop_last();
        assert(distinct_players(d)) by {
            assert forall|i: int, j: int| 0 <= i < d.len() && 0 <= j < d.len() && i != j implies #[trigger] d[i].player_id != #[trigger] d[j].player_id by {
                assert(d[i] == s[i] && d[j] == s[j]);
            }
        }
        lemma_filter_preserves_distinct(d, player);
        let f = d.filter(pred);
        if pred(s.last()) {
            assert forall|i: int| 0 <= i < f.len() implies #[trigger] f[i].player_id != s.last().player_id by {
                assert(d.contains(f[i])) by {
                    lemma_filter_subset(d, pred, i);
                }
                let k = choose|k: int| 0 <= k < d.len() && d[k] == f[i];
                assert(s[k] == d[k]);
                assert(s[s.len() - 1] == s.last());
            }
        }
    }
}

/// Every element of a filtered sequence is in the original.
proof fn lemma_filter_subset(s: Seq<PlayerScoreView>, pred: spec_fn(PlayerScoreView) -> bool, i: int)
    requires
        0 <= i < s.filter(pred).len(),
    ensures
        s.contains(s.filter(pred)[i]),
    decreases s.len(),
{
    reveal(Seq::filter);
    if s.len() > 0 {
        let d = s.drop_last();
        let f = d.filter(pred);
        if pred(s.last()) && i == f.len() {
            assert(s[s.len() - 1] == s.last());
        } else {
            lemma_filter_subset(d, pred, i);
            let k = choose|k: int| 0 <= k < d.len() && d[k] == f[i];
            assert(s[k] == d[k]);
        }
    }
}

} // verus!

verus! {

// ---------------------------------------------------------------------------
// Laws of the match cycle
// ---------------------------------------------------------------------------

/// The state after `n` calls of `update` at `tick`.
pub open spec fn repeat_update(m: MatchModel, n: nat, tick: u64) -> MatchModel
    decreases n,
{
    if n == 0 {
        m
    } else {
        repeat_update(update_model(m, tick), (n - 1) as nat, tick)
    }
}

/// `update` either keeps the phase or moves it one step along the cycle
/// Lobby → Countdown → Playing → EndScreen → Resetting, and reports the new
/// phase exactly when it moved; the lobby and the reset wait for outside calls,
/// so the only moves are Countdown → Playing, Playing → EndScreen and
/// EndScreen → Resetting. Play ends on its own only under a time limit, and
/// then the sole leader in kills, if any, wins.
pub proof fn law_update_follows_cycle(m: MatchModel, tick: u64)
    requires
        m.wf(),
    ensures
        update_model(m, tick).phase == m.phase || update_model(m, tick).phase == next_phase(m.phase),
        update_model(m, tick).phase != m.phase ==> {
            ||| m.phase == MatchPhase::Countdown && update_model(m, tick).phase == MatchPhase::Playing
            ||| m.phase == MatchPhase::Playing && update_model(m, tick).phase == MatchPhase::EndScreen
            ||| m.phase == MatchPhase::EndScreen && update_model(m, tick).phase == MatchPhase::Resetting
        },
        m.phase == MatchPhase::Playing && update_model(m, tick).phase == MatchPhase::EndScreen ==> {
            &&& m.config.time_limit_seconds > 0
            &&& update_model(m, tick).winner == time_limit_winner(m.player_scores)
            &&& update_model(m, tick).end_result == Some(MatchEndResultView {
                winner: time_limit_winner(m.player_scores),
                scores: m.player_scores,
                reason: MatchEndReason::TimeLimit,
            })
        },
        update_result(m, tick) is Some <==> update_model(m, tick).phase != m.phase,
        update_result(m, tick) is Some ==> update_result(m, tick) == Some(update_model(m, tick).phase),
        m.phase == MatchPhase::Lobby ==> update_model(m, tick) == m,
        m.phase == MatchPhase::Resetting ==> update_model(m, tick) == m,
        update_model(m, tick).wf(),
{
}

/// Each match state transition keeps the invariant.
pub proof fn law_transitions_keep_invariant(
    m: MatchModel,
    tick: u64,
    player: PlayerId,
    name: Seq<char>,
    kills: u16,
    deaths: u16,
    team: TeamId,
)
    requires
        m.wf(),
    ensures
        start_countdown_model(m, tick).wf(),
        cancel_countdown_model(m, tick).wf(),
        update_model(m, tick).wf(),
        check_score_limit_model(m, player, kills, tick).wf(),
        forfeit_model(m, tick).wf(),
        complete_reset_model(m, tick).wf(),
        check_team_score_limit_model(m, team, tick).wf(),
        award_team_kill_model(m, team).wf(),
{
    if m.phase == MatchPhase::Resetting && m.config.arena_rotation.len() > 0 {
        let len = m.config.arena_rotation.len() as int;
        assert(0 <= (m.arena_index + 1) % len < len) by (nonlinear_arith)
            requires len > 0, m.arena_index >= 0;
    }
}

/// A countdown with `c` ticks left stays in the countdown for `c - 1` more
/// updates and starts play on the `c`-th.
pub proof fn law_countdown_length(m: MatchModel, j: nat, tick: u64)
    requires
        m.wf(),
        m.phase == MatchPhase::Countdown,
        m.countdown_ticks_remaining > 0,
        j <= m.countdown_ticks_remaining,
    ensures
        j < m.countdown_ticks_remaining ==> repeat_update(m, j, tick).phase == MatchPhase::Countdown
            && repeat_update(m, j, tick).countdown_ticks_remaining == m.countdown_ticks_remaining - j,
        j == m.countdown_ticks_remaining ==> repeat_update(m, j, tick).phase == MatchPhase::Playing,
    decreases j,
{
    if j > 0 {
        let m1 = update_model(m, tick);
        if m.countdown_ticks_remaining > 1 {
            law_countdown_length(m1, (j - 1) as nat, tick);
        }
    }
}

/// Starting the countdown from the lobby and updating as many times as the
/// configured countdown (at least once) starts play, and not sooner.
pub proof fn law_countdown_starts_play(m: MatchModel, tick: u64, j: nat)
    requires
        m.wf(),
        m.phase == MatchPhase::Lobby,
        j < m.config.countdown_ticks,
    ensures
        repeat_update(start_countdown_model(m, tick), j, tick).phase == MatchPhase::Countdown,
        repeat_update(start_countdown_model(m, tick), m.config.countdown_ticks as nat, tick).phase
            == MatchPhase::Playing,
{
    let c = start_countdown_model(m, tick);
    law_countdown_length(c, j, tick);
    law_countdown_length(c, m.config.countdown_ticks as nat, tick);
}

/// A countdown of zero ticks starts play on the first update.
pub proof fn law_zero_countdown_starts_at_once(m: MatchModel, tick: u64)
    requires
        m.wf(),
        m.phase == MatchPhase::Lobby,
        m.config.countdown_ticks == 0,
    ensures
        update_model(start_countdown_model(m, tick), tick).phase == MatchPhase::Playing,
{
}

/// With a time limit set, a match in play with `t` ticks on the clock and no
/// score events stays in play for `t - 1` updates and ends by the time limit
/// on the `t`-th, won by the sole kill leader if there is one.
pub proof fn law_time_limit_ends_match(m: MatchModel, j: nat, tick: u64)
    requires
        m.wf(),
        m.phase == MatchPhase::Playing,
        m.config.time_limit_seconds > 0,
        m.time_ticks_remaining > 0,
        j <= m.time_ticks_remaining,
    ensures
        j < m.time_ticks_remaining ==> {
            &&& repeat_update(m, j, tick).phase == MatchPhase::Playing
            &&& repeat_update(m, j, tick).time_ticks_remaining == m.time_ticks_remaining - j
            &&& repeat_update(m, j, tick).player_scores == m.player_scores
        },
        j == m.time_ticks_remaining ==> {
            &&& repeat_update(m, j, tick).phase == MatchPhase::EndScreen
            &&& repeat_update(m, j, tick).winner == time_limit_winner(m.player_scores)
            &&& repeat_update(m, j, tick).end_result == Some(
                MatchEndResultView {
                    winner: time_limit_winner(m.player_scores),
                    scores: m.player_scores,
                    reason: MatchEndReason::TimeLimit,
                },
            )
        },
    decreases j,
{
    if j > 0 {
        let m1 = update_model(m, tick);
        if m.time_ticks_remaining > 1 {
            law_time_limit_ends_match(m1, (j - 1) as nat, tick);
        }
    }
}

/// The end screen with `e` ticks left lasts `e - 1` more updates and gives way
/// to the reset on the `e`-th.
pub proof fn law_end_screen_length(m: MatchModel, j: nat, tick: u64)
    requires
        m.wf(),
        m.phase == MatchPhase::EndScreen,
        m.end_screen_ticks_remaining > 0,
        j <= m.end_screen_ticks_remaining,
    ensures
        j < m.end_screen_ticks_remaining ==> repeat_update(m, j, tick).phase == MatchPhase::EndScreen,
        j == m.end_screen_ticks_remaining ==> repeat_update(m, j, tick).phase == MatchPhase::Resetting,
    decreases j,
{
    if j > 0 {
        let m1 = update_model(m, tick);
        if m.end_screen_ticks_remaining > 1 {
            law_end_screen_length(m1, (j - 1) as nat, tick);
        }
    }
}

/// Outside play, kills, score limits and forfeits change nothing.
pub proof fn law_scoring_only_in_play(m: MatchModel, player: PlayerId, kills: u16, team: TeamId, tick: u64)
    requires
        m.phase != MatchPhase::Playing,
    ensures
        award_team_kill_model(m, team) == m,
        check_score_limit_model(m, player, kills, tick) == m,
        !score_limit_reached(m, kills),
        check_team_score_limit_model(m, team, tick) == m,
        !team_limit_reached(m, team),
        forfeit_model(m, tick) == m,
{
}

/// A match in play that reaches the score limit ends with the scoring player
/// as winner; with a score limit of zero no kill count ends it.
pub proof fn law_score_limit_names_winner(m: MatchModel, player: PlayerId, kills: u16, tick: u64)
    requires
        m.phase == MatchPhase::Playing,
    ensures
        m.config.score_limit > 0 && kills >= m.config.score_limit ==> {
            let n = check_score_limit_model(m, player, kills, tick);
            &&& n.phase == MatchPhase::EndScreen
            &&& n.winner == Some(player)
            &&& n.end_result == Some(
                MatchEndResultView {
                    winner: Some(player),
                    scores: m.player_scores,
                    reason: MatchEndReason::ScoreLimit,
                },
            )
        },
        m.config.score_limit == 0 ==> check_score_limit_model(m, player, kills, tick) == m,
        kills < m.config.score_limit ==> check_score_limit_model(m, player, kills, tick) == m,
{
}

/// A team that reaches the score limit wins the match; no single player does.
pub proof fn law_team_limit_names_team(m: MatchModel, team: TeamId, tick: u64)
    requires
        team_limit_reached(m, team),
    ensures
        check_team_score_limit_model(m, team, tick).phase == MatchPhase::EndScreen,
        check_team_score_limit_model(m, team, tick).team_winner == Some(team),
        check_team_score_limit_model(m, team, tick).winner is None,
{
}

/// A team's score check in play looks at that team's own entry (the first
/// entry carrying its id): when its score is at least the score limit, the
/// match ends by the score limit with that team as the winner and no single
/// winner; otherwise, and in any other phase or for a team without an entry,
/// nothing changes and the check reports no end.
pub proof fn law_team_limit_uses_own_score(m: MatchModel, team: TeamId, tick: u64, i: int)
    requires
        0 <= i < m.team_scores.len(),
        m.team_scores[i].team == team,
        forall|j: int| 0 <= j < i ==> (#[trigger] m.team_scores[j]).team != team,
    ensures
        team_limit_reached(m, team) <==> (m.phase == MatchPhase::Playing
            && m.team_scores[i].score >= m.config.score_limit),
        m.phase == MatchPhase::Playing && m.team_scores[i].score >= m.config.score_limit ==> {
            let post = check_team_score_limit_model(m, team, tick);
            &&& post.phase == MatchPhase::EndScreen
            &&& post.team_winner == Some(team)
            &&& post.winner is None
            &&& post.end_result matches Some(r) && r.reason == MatchEndReason::ScoreLimit && r.winner is None
            &&& post.team_scores == m.team_scores
        },
        !(m.phase == MatchPhase::Playing && m.team_scores[i].score >= m.config.score_limit)
            ==> check_team_score_limit_model(m, team, tick) == m,
{
    let k = choose|k: int|
        0 <= k < m.team_scores.len() && m.team_scores[k].team == team && forall|j: int|
            0 <= j < k ==> m.team_scores[j].team != team;
    assert(0 <= i < m.team_scores.len() && m.team_scores[i].team == team);
    if k < i {
        assert(m.team_scores[k].team != team);
    }
    if i < k {
        assert(m.team_scores[i].team != team);
    }
    assert(team_index(m.team_scores, team) == Some(i));
}

/// A team without an entry never ends the match by score.
pub proof fn law_team_limit_needs_entry(m: MatchModel, team: TeamId, tick: u64)
    requires
        forall|j: int| 0 <= j < m.team_scores.len() ==> (#[trigger] m.team_scores[j]).team != team,
    ensures
        !team_limit_reached(m, team),
        check_team_score_limit_model(m, team, tick) == m,
{
}

/// The time limit winner has strictly more kills than every other player;
/// when the top score is shared, or nobody scored, nobody wins.
pub proof fn law_time_limit_winner_leads(scores: Seq<PlayerScoreView>)
    ensures
        match time_limit_winner(scores) {
            Some(p) => exists|i: int| sole_leader(scores, i) && scores[i].player_id == p,
            None => forall|i: int| !sole_leader(scores, i),
        },
        forall|i: int, j: int|
            0 <= i < scores.len() && 0 <= j < scores.len() && i != j && scores[i].kills == scores[j].kills
                && (forall|k: int| 0 <= k < scores.len() ==> #[trigger] scores[k].kills <= scores[i].kills)
                ==> time_limit_winner(scores) is None,
        scores.len() == 0 ==> time_limit_winner(scores) is None,
{
    if exists|i: int| sole_leader(scores, i) {
        let w = choose|i: int| sole_leader(scores, i);
        assert(sole_leader(scores, w));
        assert forall|i: int, j: int|
            0 <= i < scores.len() && 0 <= j < scores.len() && i != j && scores[i].kills == scores[j].kills
                && (forall|k: int| 0 <= k < scores.len() ==> #[trigger] scores[k].kills <= scores[i].kills)
                implies time_limit_winner(scores) is None by {
            if w != i {
                assert(scores[i].kills < scores[w].kills);
                assert(scores[w].kills <= scores[i].kills);
            } else {
                assert(scores[j].kills < scores[w].kills);
            }
        }
    }
}

/// Completing the reset opens the lobby of a fresh match: no scores, no
/// winners, no result, every team score at zero and the full time limit.
pub proof fn law_reset_starts_fresh_match(m: MatchModel, tick: u64)
    requires
        m.wf(),
        m.phase == MatchPhase::Resetting,
    ensures
        ({
            let n = complete_reset_model(m, tick);
            &&& n.phase == MatchPhase::Lobby
            &&& n.player_scores.len() == 0
            &&& n.winner is None
            &&& n.team_winner is None
            &&& n.end_result is None
            &&& n.team_scores.len() == m.team_scores.len()
            &&& forall|i: int| 0 <= i < n.team_scores.len() ==> #[trigger] n.team_scores[i].score == 0
                && n.team_scores[i].team == m.team_scores[i].team
            &&& n.time_ticks_remaining == m.config.time_limit_seconds * 60
        }),
{
    let n = complete_reset_model(m, tick);
    assert forall|i: int| 0 <= i < n.team_scores.len() implies #[trigger] n.team_scores[i].score == 0
        && n.team_scores[i].team == m.team_scores[i].team by {
        assert(n.team_scores[i] == (TeamScore { team: m.team_scores[i].team, score: 0 }));
    }
}

/// The rotation index after `k` resets that start from index `i` of a rotation
/// of `len` arenas.
pub open spec fn arena_after_resets(i: int, len: int, k: nat) -> int
    decreases k,
{
    if k == 0 {
        i
    } else {
        (arena_after_resets(i, len, (k - 1) as nat) + 1) % len
    }
}

/// After `k` resets the rotation has advanced by `k` arenas, so after as many
/// resets as there are arenas the same arena is played again.
pub proof fn law_rotation_wraps(i: int, len: int, k: nat)
    requires
        len > 0,
        0 <= i < len,
    ensures
        arena_after_resets(i, len, k) == (i + k) % len,
        arena_after_resets(i, len, len as nat) == i,
{
    lemma_rotation_closed(i, len, k);
    lemma_rotation_full(i, len);
}

proof fn lemma_rotation_full(i: int, len: int)
    requires
        len > 0,
        0 <= i < len,
    ensures
        arena_after_resets(i, len, len as nat) == i,
{
    lemma_rotation_closed(i, len, len as nat);
    vstd::arithmetic::div_mod::lemma_mod_add_multiples_vanish(i, len);
    vstd::arithmetic::div_mod::lemma_small_mod(i as nat, len as nat);
}

proof fn lemma_rotation_closed(i: int, len: int, k: nat)
    requires
        len > 0,
        0 <= i < len,
    ensures
        arena_after_resets(i, len, k) == (i + k) % len,
    decreases k,
{
    if k > 0 {
        lemma_rotation_closed(i, len, (k - 1) as nat);
        vstd::arithmetic::div_mod::lemma_add_mod_noop_right(1, i + k - 1, len);
        assert(1 + (i + k - 1) == i + k);
    } else {
        vstd::arithmetic::div_mod::lemma_small_mod(i as nat, len as nat);
    }
}

/// A reset of a match with an arena rotation moves to the next arena of the
/// rotation, wrapping around at the end.
pub proof fn law_reset_advances_rotation(m: MatchModel, tick: u64)
    requires
        m.wf(),
        m.phase == MatchPhase::Resetting,
        m.config.arena_rotation.len() > 0,
    ensures
        complete_reset_model(m, tick).arena_index == arena_after_resets(
            m.arena_index as int,
            m.config.arena_rotation.len() as int,
            1,
        ),
        complete_reset_model(m, tick).arena_name == m.config.arena_rotation[complete_reset_model(
            m,
            tick,
        ).arena_index as int],
        complete_reset_result(m) == Some(complete_reset_model(m, tick).arena_name),
{
    let len = m.config.arena_rotation.len() as int;
    assert(0 <= (m.arena_index + 1) % len < len) by (nonlinear_arith)
        requires len > 0, m.arena_index >= 0;
    lemma_rotation_closed(m.arena_index as int, len, 1);
}

/// Updating a player's score leaves exactly one entry for the player, holding
/// the new kills and deaths, and leaves the other entries as they were.
pub proof fn law_player_score_single_entry(
    m: MatchModel,
    player: PlayerId,
    name: Seq<char>,
    kills: u16,
    deaths: u16,
)
    requires
        m.wf(),
    ensures
        ({
            let n = update_player_score_model(m, player, name, kills, deaths);
            &&& n.wf()
            &&& exists|i: int|
                0 <= i < n.player_scores.len() && #[trigger] n.player_scores[i].player_id == player
                    && n.player_scores[i].kills == kills && n.player_scores[i].deaths == deaths
            &&& forall|i: int|
                0 <= i < m.player_scores.len() && m.player_scores[i].player_id != player
                    ==> #[trigger] n.player_scores[i] == m.player_scores[i]
        }),
{
    let n = update_player_score_model(m, player, name, kills, deaths);
    match player_index(m.player_scores, player) {
        Some(i) => {
            assert(n.player_scores[i].player_id == player);
        },
        None => {
            let k = m.player_scores.len() as int;
            assert(n.player_scores[k].player_id == player);
            assert forall|a: int| 0 <= a < m.player_scores.len() implies #[trigger] m.player_scores[a].player_id != player by {
                if m.player_scores[a].player_id == player {
                    assert(exists|i: int| 0 <= i < m.player_scores.len() && m.player_scores[i].player_id == player);
                }
            }
        },
    }
}

} // verus!
