use plix_server::match_state::{MatchConfig, MatchStateMachine};
use plix_server::protocol::{GameMode, MatchPhase, PlayerId, TeamId, Tick};

fn test_config() -> MatchConfig {
    MatchConfig {
        min_players: 2,
        countdown_ticks: 180,
        time_limit_seconds: 60,
        score_limit: 5,
        end_screen_ticks: 60,
        respawn_delay_ticks: 60,
        arena_rotation: Vec::new(),
        team_size: 8,
    }
}

#[test]
fn test_initial_state_is_lobby() {
    let state = MatchStateMachine::new(test_config(), "test_arena".to_string(), GameMode::Tdm);
    assert_eq!(state.phase(), MatchPhase::Lobby);
}

#[test]
fn test_lobby_to_countdown() {
    let mut state =
        MatchStateMachine::new(test_config(), "test_arena".to_string(), GameMode::Tdm);
    assert_eq!(state.phase(), MatchPhase::Lobby);

    state.start_countdown(Tick(0));
    assert_eq!(state.phase(), MatchPhase::Countdown);
}

#[test]
fn test_countdown_cancel_returns_to_lobby() {
    let mut state =
        MatchStateMachine::new(test_config(), "test_arena".to_string(), GameMode::Tdm);
    state.start_countdown(Tick(0));
    assert_eq!(state.phase(), MatchPhase::Countdown);

    state.cancel_countdown(Tick(10));
    assert_eq!(state.phase(), MatchPhase::Lobby);
}

#[test]
fn test_countdown_to_playing() {
    let config = MatchConfig {
        countdown_ticks: 10,
        ..test_config()
    };
    let mut state = MatchStateMachine::new(config, "test_arena".to_string(), GameMode::Tdm);
    state.start_countdown(Tick(0));

    // Tick through countdown
    for i in 1..=10 {
        let phase_change = state.update(Tick(i));
        if i == 10 {
            assert_eq!(phase_change, Some(MatchPhase::Playing));
        } else {
            assert!(phase_change.is_none());
        }
    }
    assert_eq!(state.phase(), MatchPhase::Playing);
}

#[test]
fn test_score_limit_ends_match() {
    let config = MatchConfig {
        countdown_ticks: 1,
        score_limit: 3,
        ..test_config()
    };
    let mut state = MatchStateMachine::new(config, "test_arena".to_string(), GameMode::Tdm);
    state.start_countdown(Tick(0));
    state.update(Tick(1)); // Transition to Playing

    let player_id = PlayerId(1);
    state.update_player_score(player_id, "Player1", 2, 0);

    // Score limit not reached yet
    assert!(!state.check_score_limit(player_id, 2, Tick(2)));
    assert_eq!(state.phase(), MatchPhase::Playing);

    // Score limit reached
    state.update_player_score(player_id, "Player1", 3, 0);
    assert!(state.check_score_limit(player_id, 3, Tick(3)));
    assert_eq!(state.phase(), MatchPhase::EndScreen);
    assert_eq!(state.state().winner, Some(player_id));
}

#[test]
fn test_time_limit_ends_match() {
    let config = MatchConfig {
        countdown_ticks: 1,
        time_limit_seconds: 1, // 1 second = 60 ticks
        ..test_config()
    };
    let mut state = MatchStateMachine::new(config, "test_arena".to_string(), GameMode::Tdm);
    state.start_countdown(Tick(0));
    state.update(Tick(1)); // Transition to Playing

    // Add some scores
    state.update_player_score(PlayerId(1), "Player1", 2, 1);
    state.update_player_score(PlayerId(2), "Player2", 1, 2);

    // Tick through time limit
    for i in 2..=61 {
        state.update(Tick(i));
    }

    assert_eq!(state.phase(), MatchPhase::EndScreen);
    assert_eq!(state.state().winner, Some(PlayerId(1))); // Player1 has more kills
}

#[test]
fn test_tie_at_time_limit() {
    let config = MatchConfig {
        countdown_ticks: 1,
        time_limit_seconds: 1,
        ..test_config()
    };
    let mut state = MatchStateMachine::new(config, "test_arena".to_string(), GameMode::Tdm);
    state.start_countdown(Tick(0));
    state.update(Tick(1)); // Transition to Playing

    // Add tied scores
    state.update_player_score(PlayerId(1), "Player1", 2, 1);
    state.update_player_score(PlayerId(2), "Player2", 2, 1);

    // Tick through time limit
    for i in 2..=61 {
        state.update(Tick(i));
    }

    assert_eq!(state.phase(), MatchPhase::EndScreen);
    assert_eq!(state.state().winner, None); // Tie
}

#[test]
fn test_endscreen_to_resetting() {
    let config = MatchConfig {
        countdown_ticks: 1,
        end_screen_ticks: 10,
        score_limit: 1,
        ..test_config()
    };
    let mut state = MatchStateMachine::new(config, "test_arena".to_string(), GameMode::Tdm);
    state.start_countdown(Tick(0));
    state.update(Tick(1)); // Playing

    let player_id = PlayerId(1);
    state.update_player_score(player_id, "Player1", 1, 0);
    state.check_score_limit(player_id, 1, Tick(2)); // EndScreen

    // Tick through end screen
    for i in 3..=12 {
        let phase_change = state.update(Tick(i));
        if i == 12 {
            assert_eq!(phase_change, Some(MatchPhase::Resetting));
        }
    }
    assert_eq!(state.phase(), MatchPhase::Resetting);
}

#[test]
fn test_resetting_to_lobby() {
    let config = MatchConfig {
        countdown_ticks: 1,
        end_screen_ticks: 1,
        score_limit: 1,
        ..test_config()
    };
    let mut state = MatchStateMachine::new(config, "test_arena".to_string(), GameMode::Tdm);
    state.start_countdown(Tick(0));
    state.update(Tick(1)); // Playing

    let player_id = PlayerId(1);
    state.update_player_score(player_id, "Player1", 1, 0);
    state.check_score_limit(player_id, 1, Tick(2)); // EndScreen
    state.update(Tick(3)); // Resetting

    state.complete_reset(Tick(4));
    assert_eq!(state.phase(), MatchPhase::Lobby);
    assert!(state.state().player_scores.is_empty());
    assert_eq!(state.state().winner, None);
}

#[test]
fn test_arena_rotation() {
    let config = MatchConfig {
        countdown_ticks: 1,
        end_screen_ticks: 1,
        score_limit: 1,
        arena_rotation: vec![
            "arena1".to_string(),
            "arena2".to_string(),
            "arena3".to_string(),
        ],
        ..test_config()
    };
    let mut state = MatchStateMachine::new(config, "arena1".to_string(), GameMode::Tdm);

    // Complete a match cycle
    state.start_countdown(Tick(0));
    state.update(Tick(1));
    state.update_player_score(PlayerId(1), "P1", 1, 0);
    state.check_score_limit(PlayerId(1), 1, Tick(2));
    state.update(Tick(3));

    let next = state.complete_reset(Tick(4));
    assert_eq!(next, Some("arena2".to_string()));
    assert_eq!(state.state().arena_name, "arena2");

    // Another cycle
    state.start_countdown(Tick(5));
    state.update(Tick(6));
    state.update_player_score(PlayerId(1), "P1", 1, 0);
    state.check_score_limit(PlayerId(1), 1, Tick(7));
    state.update(Tick(8));

    let next = state.complete_reset(Tick(9));
    assert_eq!(next, Some("arena3".to_string()));

    // Wrap around
    state.start_countdown(Tick(10));
    state.update(Tick(11));
    state.update_player_score(PlayerId(1), "P1", 1, 0);
    state.check_score_limit(PlayerId(1), 1, Tick(12));
    state.update(Tick(13));

    let next = state.complete_reset(Tick(14));
    assert_eq!(next, Some("arena1".to_string()));
}

#[test]
fn test_no_rotation_replays_same_arena() {
    let config = MatchConfig {
        countdown_ticks: 1,
        end_screen_ticks: 1,
        score_limit: 1,
        arena_rotation: Vec::new(),
        ..test_config()
    };
    let mut state = MatchStateMachine::new(config, "single_arena".to_string(), GameMode::Tdm);

    state.start_countdown(Tick(0));
    state.update(Tick(1));
    state.update_player_score(PlayerId(1), "P1", 1, 0);
    state.check_score_limit(PlayerId(1), 1, Tick(2));
    state.update(Tick(3));

    let next = state.complete_reset(Tick(4));
    assert_eq!(next, None);
    assert_eq!(state.state().arena_name, "single_arena");
}

// =========================================================================
// TDM-specific tests
// =========================================================================

#[test]
fn test_award_team_kill_increments_score() {
    let config = MatchConfig {
        countdown_ticks: 1,
        ..test_config()
    };
    let mut state = MatchStateMachine::new(config, "test_arena".to_string(), GameMode::Tdm);
    state.start_countdown(Tick(0));
    state.update(Tick(1)); // Transition to Playing

    assert_eq!(state.get_team_score(TeamId::team_0()), 0);
    assert_eq!(state.get_team_score(TeamId::team_1()), 0);

    state.award_team_kill(TeamId::team_0());
    assert_eq!(state.get_team_score(TeamId::team_0()), 1);
    assert_eq!(state.get_team_score(TeamId::team_1()), 0);

    state.award_team_kill(TeamId::team_0());
    assert_eq!(state.get_team_score(TeamId::team_0()), 2);

    state.award_team_kill(TeamId::team_1());
    assert_eq!(state.get_team_score(TeamId::team_1()), 1);
}

#[test]
fn test_award_team_kill_only_in_playing_phase() {
    let config = MatchConfig {
        countdown_ticks: 10,
        ..test_config()
    };
    let mut state = MatchStateMachine::new(config, "test_arena".to_string(), GameMode::Tdm);

    // In Lobby phase - should not increment
    state.award_team_kill(TeamId::team_0());
    assert_eq!(state.get_team_score(TeamId::team_0()), 0);

    // Start countdown - should not increment
    state.start_countdown(Tick(0));
    state.award_team_kill(TeamId::team_0());
    assert_eq!(state.get_team_score(TeamId::team_0()), 0);
}

#[test]
fn test_no_scoring_after_match_end() {
    let config = MatchConfig {
        countdown_ticks: 1,
        score_limit: 2,
        ..test_config()
    };
    let mut state = MatchStateMachine::new(config, "test_arena".to_string(), GameMode::Tdm);
    state.start_countdown(Tick(0));
    state.update(Tick(1)); // Playing

    // Award kills to reach limit
    state.award_team_kill(TeamId::team_0());
    state.award_team_kill(TeamId::team_0());
    state.check_team_score_limit(TeamId::team_0(), Tick(2));

    // Should now be in EndScreen
    assert_eq!(state.phase(), MatchPhase::EndScreen);

    // Try to award more kills - should NOT increment
    state.award_team_kill(TeamId::team_0());
    assert_eq!(state.get_team_score(TeamId::team_0()), 2); // Still 2, not 3

    state.award_team_kill(TeamId::team_1());
    assert_eq!(state.get_team_score(TeamId::team_1()), 0); // Still 0
}

#[test]
fn test_check_team_score_limit_triggers_end() {
    let config = MatchConfig {
        countdown_ticks: 1,
        score_limit: 3, // Low limit for testing
        ..test_config()
    };
    let mut state = MatchStateMachine::new(config, "test_arena".to_string(), GameMode::Tdm);
    state.start_countdown(Tick(0));
    state.update(Tick(1)); // Transition to Playing

    // Award kills below limit
    state.award_team_kill(TeamId::team_0());
    state.award_team_kill(TeamId::team_0());
    assert!(!state.check_team_score_limit(TeamId::team_0(), Tick(2)));
    assert_eq!(state.phase(), MatchPhase::Playing);

    // Award kill to reach limit
    state.award_team_kill(TeamId::team_0());
    assert!(state.check_team_score_limit(TeamId::team_0(), Tick(3)));
    assert_eq!(state.phase(), MatchPhase::EndScreen);
    assert_eq!(state.state().team_winner, Some(TeamId::team_0()));
}

#[test]
fn test_check_team_score_limit_not_in_lobby() {
    let config = MatchConfig {
        score_limit: 1,
        ..test_config()
    };
    let mut state = MatchStateMachine::new(config, "test_arena".to_string(), GameMode::Tdm);

    // Manually set team score (bypassing phase check)
    state.state_mut().scores[0].score = 10;

    // Should not trigger in Lobby
    assert!(!state.check_team_score_limit(TeamId::team_0(), Tick(1)));
    assert_eq!(state.phase(), MatchPhase::Lobby);
}

#[test]
fn test_team_scores_reset_on_complete_reset() {
    let config = MatchConfig {
        countdown_ticks: 1,
        end_screen_ticks: 1,
        score_limit: 3,
        ..test_config()
    };
    let mut state = MatchStateMachine::new(config, "test_arena".to_string(), GameMode::Tdm);
    state.start_countdown(Tick(0));
    state.update(Tick(1)); // Playing

    // Award some team kills
    state.award_team_kill(TeamId::team_0());
    state.award_team_kill(TeamId::team_0());
    state.award_team_kill(TeamId::team_1());
    assert_eq!(state.get_team_score(TeamId::team_0()), 2);
    assert_eq!(state.get_team_score(TeamId::team_1()), 1);

    // End match
    state.award_team_kill(TeamId::team_0());
    state.check_team_score_limit(TeamId::team_0(), Tick(2));
    state.update(Tick(3)); // Resetting

    // Complete reset should clear scores
    state.complete_reset(Tick(4));
    assert_eq!(state.get_team_score(TeamId::team_0()), 0);
    assert_eq!(state.get_team_score(TeamId::team_1()), 0);
    assert_eq!(state.state().team_winner, None);
}

// =========================================================================
// FFA-specific tests
// =========================================================================

fn ffa_test_config() -> MatchConfig {
    MatchConfig {
        min_players: 2,
        countdown_ticks: 1,
        time_limit_seconds: 60,
        score_limit: 15, // FFA default
        end_screen_ticks: 60,
        respawn_delay_ticks: 60,
        arena_rotation: Vec::new(),
        team_size: 0, // FFA: no teams
    }
}

#[test]
fn test_ffa_kill_increments_attacker_score() {
    // FFA kill increments attacker score by 1
    let config = ffa_test_config();
    let mut state = MatchStateMachine::new(config, "ffa_arena".to_string(), GameMode::Ffa);
    state.start_countdown(Tick(0));
    state.update(Tick(1)); // Transition to Playing

    let attacker = PlayerId(1);

    // Initial state - no kills
    assert!(state.state().player_scores.is_empty());

    // Record first kill
    state.update_player_score(attacker, "Attacker", 1, 0);
    let score = state
        .state()
        .player_scores
        .iter()
        .find(|s| s.player_id == attacker);
    assert!(score.is_some());
    assert_eq!(score.unwrap().kills, 1);

    // Record second kill
    state.update_player_score(attacker, "Attacker", 2, 0);
    let score = state
        .state()
        .player_scores
        .iter()
        .find(|s| s.player_id == attacker);
    assert_eq!(score.unwrap().kills, 2);
}

#[test]
fn test_ffa_scoring_only_in_playing_phase() {
    // FFA scoring only occurs in Playing phase
    let config = ffa_test_config();
    let mut state = MatchStateMachine::new(config, "ffa_arena".to_string(), GameMode::Ffa);

    let player = PlayerId(1);

    // Lobby phase - check_score_limit should not trigger match end
    state.update_player_score(player, "Player1", 15, 0);
    assert!(!state.check_score_limit(player, 15, Tick(1)));
    assert_eq!(state.phase(), MatchPhase::Lobby);

    // Start countdown
    state.start_countdown(Tick(2));

    // Countdown phase - check_score_limit should not trigger match end
    assert!(!state.check_score_limit(player, 15, Tick(3)));
    assert_eq!(state.phase(), MatchPhase::Countdown);
}

#[test]
fn test_ffa_score_limit_ends_match_with_winner() {
    // Tests that FFA score limit triggers match end with individual winner
    let config = MatchConfig {
        score_limit: 3, // Low limit for testing
        ..ffa_test_config()
    };
    let mut state = MatchStateMachine::new(config, "ffa_arena".to_string(), GameMode::Ffa);
    state.start_countdown(Tick(0));
    state.update(Tick(1)); // Transition to Playing

    let player = PlayerId(1);

    // Below score limit - should not end match
    state.update_player_score(player, "Player1", 2, 0);
    assert!(!state.check_score_limit(player, 2, Tick(2)));
    assert_eq!(state.phase(), MatchPhase::Playing);

    // At score limit - should end match
    state.update_player_score(player, "Player1", 3, 0);
    assert!(state.check_score_limit(player, 3, Tick(3)));
    assert_eq!(state.phase(), MatchPhase::EndScreen);
    assert_eq!(state.state().winner, Some(player));
    // FFA should NOT set team_winner
    assert_eq!(state.state().team_winner, None);
}

#[test]
fn test_ffa_game_mode_stored_correctly() {
    // Verify FFA game mode is stored and retrievable
    let config = ffa_test_config();
    let state = MatchStateMachine::new(config, "ffa_arena".to_string(), GameMode::Ffa);

    assert_eq!(state.game_mode(), GameMode::Ffa);
    assert_eq!(state.state().game_mode, GameMode::Ffa);
}

#[test]
fn test_ffa_defaults_applied() {
    // Verify FFA default config values
    let config = MatchConfig::ffa_default();

    assert_eq!(config.score_limit, 15); // 15 kills to win
    assert_eq!(config.end_screen_ticks, 600); // 10 seconds
    assert_eq!(config.respawn_delay_ticks, 180); // 3 seconds
    assert_eq!(config.team_size, 0); // No teams
}

#[test]
fn test_ffa_multiple_players_highest_score_wins() {
    // Test that player with highest kills wins when time expires
    let config = MatchConfig {
        countdown_ticks: 1,
        time_limit_seconds: 1, // 1 second = 60 ticks
        ..ffa_test_config()
    };
    let mut state = MatchStateMachine::new(config, "ffa_arena".to_string(), GameMode::Ffa);
    state.start_countdown(Tick(0));
    state.update(Tick(1)); // Transition to Playing

    // Add player scores - Player 2 has most kills
    state.update_player_score(PlayerId(1), "Player1", 5, 2);
    state.update_player_score(PlayerId(2), "Player2", 8, 3);
    state.update_player_score(PlayerId(3), "Player3", 3, 4);

    // Tick through time limit
    for i in 2..=61 {
        state.update(Tick(i));
    }

    assert_eq!(state.phase(), MatchPhase::EndScreen);
    assert_eq!(state.state().winner, Some(PlayerId(2))); // Player 2 wins with 8 kills
}

// =========================================================================
// FFA Match Cycle Tests
// =========================================================================

#[test]
fn test_ffa_match_resets_scores_after_endscreen() {
    // FFA match resets scores after EndScreen
    let config = MatchConfig {
        countdown_ticks: 1,
        end_screen_ticks: 1,
        score_limit: 3,
        ..ffa_test_config()
    };
    let mut state = MatchStateMachine::new(config, "ffa_arena".to_string(), GameMode::Ffa);
    state.start_countdown(Tick(0));
    state.update(Tick(1)); // Playing

    // Award kills
    state.update_player_score(PlayerId(1), "Player1", 2, 0);
    state.update_player_score(PlayerId(2), "Player2", 1, 1);
    assert_eq!(state.state().player_scores.len(), 2);

    // Reach score limit
    state.update_player_score(PlayerId(1), "Player1", 3, 0);
    state.check_score_limit(PlayerId(1), 3, Tick(2));
    assert_eq!(state.phase(), MatchPhase::EndScreen);
    assert_eq!(state.state().winner, Some(PlayerId(1)));

    // Tick through end screen
    state.update(Tick(3)); // Resetting

    // Complete reset should clear scores
    state.complete_reset(Tick(4));
    assert!(state.state().player_scores.is_empty());
    assert_eq!(state.state().winner, None);
}

#[test]
fn test_ffa_match_returns_to_lobby_after_reset() {
    // FFA match returns to Lobby after reset
    let config = MatchConfig {
        countdown_ticks: 1,
        end_screen_ticks: 1,
        score_limit: 1,
        ..ffa_test_config()
    };
    let mut state = MatchStateMachine::new(config, "ffa_arena".to_string(), GameMode::Ffa);

    // Full cycle: Lobby -> Countdown -> Playing -> EndScreen -> Resetting -> Lobby
    assert_eq!(state.phase(), MatchPhase::Lobby);

    state.start_countdown(Tick(0));
    assert_eq!(state.phase(), MatchPhase::Countdown);

    state.update(Tick(1)); // Playing
    assert_eq!(state.phase(), MatchPhase::Playing);

    // Score to end match
    state.update_player_score(PlayerId(1), "P1", 1, 0);
    state.check_score_limit(PlayerId(1), 1, Tick(2));
    assert_eq!(state.phase(), MatchPhase::EndScreen);

    state.update(Tick(3)); // Resetting
    assert_eq!(state.phase(), MatchPhase::Resetting);

    state.complete_reset(Tick(4));
    assert_eq!(state.phase(), MatchPhase::Lobby);
}

#[test]
fn test_ffa_complete_match_cycle() {
    // Complete FFA match cycle test with multiple players
    let config = MatchConfig {
        countdown_ticks: 1,
        end_screen_ticks: 1,
        score_limit: 5,
        ..ffa_test_config()
    };
    let mut state = MatchStateMachine::new(config, "ffa_arena".to_string(), GameMode::Ffa);

    // Start match
    state.start_countdown(Tick(0));
    state.update(Tick(1)); // Playing

    // Multiple players scoring
    state.update_player_score(PlayerId(1), "Alice", 3, 1);
    state.update_player_score(PlayerId(2), "Bob", 2, 2);
    state.update_player_score(PlayerId(3), "Charlie", 1, 3);

    // Alice reaches score limit
    state.update_player_score(PlayerId(1), "Alice", 5, 1);
    let ended = state.check_score_limit(PlayerId(1), 5, Tick(10));
    assert!(ended);
    assert_eq!(state.phase(), MatchPhase::EndScreen);
    assert_eq!(state.state().winner, Some(PlayerId(1)));
    assert_eq!(state.state().team_winner, None); // FFA has no team winner

    // End screen and reset
    state.update(Tick(11)); // Resetting
    state.complete_reset(Tick(12));

    // Back to lobby with clean state
    assert_eq!(state.phase(), MatchPhase::Lobby);
    assert!(state.state().player_scores.is_empty());
    assert_eq!(state.state().winner, None);

    // Game mode should persist
    assert_eq!(state.game_mode(), GameMode::Ffa);
}

// =========================================================================
// TDM Non-Regression Tests
// =========================================================================

#[test]
fn test_tdm_scoring_uses_team_scoring_not_individual() {
    // TDM scoring still uses team scoring (not FFA individual)
    let config = MatchConfig {
        countdown_ticks: 1,
        score_limit: 3,
        ..MatchConfig::tdm_default()
    };
    let mut state = MatchStateMachine::new(config, "tdm_arena".to_string(), GameMode::Tdm);
    state.start_countdown(Tick(0));
    state.update(Tick(1)); // Playing

    // In TDM, team score should be tracked separately from individual score
    assert_eq!(state.get_team_score(TeamId::team_0()), 0);
    assert_eq!(state.get_team_score(TeamId::team_1()), 0);

    // Award team kills (TDM mechanic)
    state.award_team_kill(TeamId::team_0());
    state.award_team_kill(TeamId::team_0());
    assert_eq!(state.get_team_score(TeamId::team_0()), 2);

    // Individual scores don't affect team score
    state.update_player_score(PlayerId(1), "Player1", 5, 0);
    assert_eq!(state.get_team_score(TeamId::team_0()), 2); // Still 2, not 5
}

#[test]
fn test_tdm_match_uses_team_winner_not_individual() {
    // TDM match uses team_winner not winner
    let config = MatchConfig {
        countdown_ticks: 1,
        score_limit: 2,
        ..MatchConfig::tdm_default()
    };
    let mut state = MatchStateMachine::new(config, "tdm_arena".to_string(), GameMode::Tdm);
    state.start_countdown(Tick(0));
    state.update(Tick(1)); // Playing

    // Award team kills to reach score limit
    state.award_team_kill(TeamId::team_0());
    state.award_team_kill(TeamId::team_0());
    state.check_team_score_limit(TeamId::team_0(), Tick(2));

    assert_eq!(state.phase(), MatchPhase::EndScreen);
    // TDM sets team_winner, not winner
    assert_eq!(state.state().team_winner, Some(TeamId::team_0()));
    assert_eq!(state.state().winner, None); // Individual winner is None in TDM
}

#[test]
fn test_tdm_game_mode_stored_correctly() {
    // Verify TDM game mode is stored and retrievable
    let config = MatchConfig::tdm_default();
    let state = MatchStateMachine::new(config, "tdm_arena".to_string(), GameMode::Tdm);

    assert_eq!(state.game_mode(), GameMode::Tdm);
    assert_eq!(state.state().game_mode, GameMode::Tdm);
}

#[test]
fn test_tdm_defaults_applied() {
    // Verify TDM default config values
    let config = MatchConfig::tdm_default();

    assert_eq!(config.score_limit, 25); // 25 team kills to win
    assert_eq!(config.end_screen_ticks, 900); // 15 seconds
    assert_eq!(config.team_size, 8); // 8v8 max
}
