use plix_server::protocol::PlayerId;
use plix_server::inventory::items::ItemId;
use plix_server::quest::system::{
    QuestDefinition, QuestEvent, QuestMessage, QuestNotificationType, QuestRewards, QuestStep, QuestSystem,
    QuestUpdateType,
};
use plix_server::quest::{ActiveQuestState, PlayerQuestProgress, QuestSystemConfig, StepProgress};

/// "Kill 5 rats", then "Return to elder".
fn test_quest_steps() -> Vec<Option<u32>> {
    vec![Some(5), None]
}

#[test]
fn test_step_progress() {
    let mut progress = StepProgress::new(0, Some(5));
    assert_eq!(progress.current, 0);
    assert_eq!(progress.target, 5);
    assert!(!progress.completed);

    // Add some progress
    let completed = progress.add_progress(2);
    assert!(!completed);
    assert_eq!(progress.current, 2);

    // Complete the step
    let completed = progress.add_progress(3);
    assert!(completed);
    assert!(progress.completed);
    assert_eq!(progress.current, 5);
}

#[test]
fn test_active_quest_state() {
    let mut state = ActiveQuestState::new("test_quest", &test_quest_steps());

    assert_eq!(state.current_step, 0);
    assert!(!state.is_complete());

    // Progress first step
    state.add_current_progress(5);
    assert!(state.current_step_progress().unwrap().completed);

    // Advance to next step
    assert!(state.try_advance_step());
    assert_eq!(state.current_step, 1);

    // Complete second step
    state.complete_current_step();
    assert!(state.is_complete());
}

#[test]
fn test_player_quest_progress() {
    let mut progress = PlayerQuestProgress::new(PlayerId(1));

    // Start quest
    assert!(progress.start_quest("test_quest", &test_quest_steps(), false).is_ok());
    assert!(progress.has_active("test_quest"));

    // Can't start again
    assert!(progress.start_quest("test_quest", &test_quest_steps(), false).is_err());

    // Complete quest
    let state = progress.complete_quest("test_quest");
    assert!(state.is_some());
    assert!(progress.has_completed("test_quest"));
    assert!(!progress.has_active("test_quest"));

    // Can't start non-repeatable quest again
    assert!(progress.start_quest("test_quest", &test_quest_steps(), false).is_err());
}

#[test]
fn test_pinned_quest() {
    let mut progress = PlayerQuestProgress::new(PlayerId(1));
    progress.start_quest("test_quest", &test_quest_steps(), false).unwrap();

    // Pin quest
    progress.set_pinned(Some("test_quest"));
    assert_eq!(progress.pinned_quest(), Some(&"test_quest".to_string()));

    // Unpin
    progress.set_pinned(None);
    assert_eq!(progress.pinned_quest(), None);
}

#[test]
fn overshooting_progress_stops_at_target() {
    let mut step = StepProgress::new(2, Some(3));
    assert!(step.add_progress(10));
    assert_eq!(step.current, 3);
    assert!(step.completed_at.is_some());
    assert!(!step.add_progress(1));
    assert_eq!(step.current, 3);
    assert_eq!(step.step_index, 2);
}

#[test]
fn mark_complete_sets_target() {
    let mut step = StepProgress::new(0, None);
    assert_eq!(step.target, 1);
    step.mark_complete();
    assert_eq!(step.current, 1);
    assert!(step.completed);
}

#[test]
fn cannot_advance_past_incomplete_or_last_step() {
    let mut state = ActiveQuestState::new("q", &vec![Some(2)]);
    assert!(!state.try_advance_step());
    state.add_current_progress(2);
    assert!(!state.try_advance_step()); // last step
    assert!(state.is_complete());
}

#[test]
fn refusal_messages_and_counts() {
    let mut progress = PlayerQuestProgress::new(PlayerId(3));
    progress.start_quest("a", &vec![None], false).unwrap();
    assert_eq!(progress.start_quest("a", &vec![None], false), Err("Quest already active"));
    progress.complete_quest("a");
    assert_eq!(
        progress.start_quest("a", &vec![None], false),
        Err("Quest already completed and not repeatable")
    );
    assert!(progress.start_quest("a", &vec![None], true).is_ok());
    progress.start_quest("b", &vec![None], false).unwrap();
    assert_eq!(progress.active_count(), 2);
    assert_eq!(progress.completed_count(), 1);
    assert!(progress.abandon_quest("b").is_some());
    assert!(progress.abandon_quest("b").is_none());
    assert_eq!(progress.active_count(), 1);
}

#[test]
fn rewards_saturate() {
    let mut progress = PlayerQuestProgress::new(PlayerId(1));
    progress.add_rewards(100, 50);
    assert_eq!(progress.total_quest_xp(), 100);
    assert_eq!(progress.total_quest_currency(), 50);
    progress.add_rewards(u32::MAX, 1);
    assert_eq!(progress.total_quest_xp(), u32::MAX);
    assert_eq!(progress.total_quest_currency(), 51);
}

#[test]
fn quest_system_default_config() {
    let config = plix_server::quest::QuestSystemConfig::default();
    assert_eq!(config.max_active_quests, 10);
}

fn test_quest() -> QuestDefinition {
    QuestDefinition {
        quest_id: "test_quest".to_string(),
        title: "Test Quest".to_string(),
        description_short: "A test".to_string(),
        prerequisites: vec![],
        steps: vec![
            QuestStep::KillMob {
                mob_id: "cave_rat".to_string(),
                count: 3,
                description: "Kill 3 rats".to_string(),
            },
            QuestStep::TalkToNpc {
                npc_id: "elder".to_string(),
                description: "Return to elder".to_string(),
            },
        ],
        rewards: QuestRewards { xp: 100, currency: 50, items: vec![] },
        repeatable: false,
    }
}

fn talk_quest(id: &str, prerequisites: Vec<String>) -> QuestDefinition {
    QuestDefinition {
        quest_id: id.to_string(),
        title: id.to_string(),
        description_short: id.to_string(),
        prerequisites,
        steps: vec![QuestStep::TalkToNpc { npc_id: "npc".to_string(), description: "Talk".to_string() }],
        rewards: QuestRewards { xp: 0, currency: 0, items: vec![] },
        repeatable: false,
    }
}

#[test]
fn test_start_quest() {
    let mut system = QuestSystem::new(QuestSystemConfig::default());
    system.register_quest(test_quest());

    let player_id = PlayerId(1);
    let quest_id = "test_quest";

    assert!(system.start_quest(player_id, quest_id).is_ok());
    assert!(system.get_progress(player_id).unwrap().has_active(quest_id));

    let events = system.take_events();
    assert!(events.iter().any(|e| matches!(e, QuestEvent::Started { .. })));
}

#[test]
fn test_mob_kill_progress() {
    let mut system = QuestSystem::new(QuestSystemConfig::default());
    system.register_quest(test_quest());

    let player_id = PlayerId(1);
    let quest_id = "test_quest";

    system.start_quest(player_id, quest_id).unwrap();
    system.take_events();

    system.on_mob_killed(player_id, "cave_rat");
    system.on_mob_killed(player_id, "cave_rat");
    system.on_mob_killed(player_id, "cave_rat");

    let events = system.take_events();
    assert!(events.iter().any(|e| matches!(e, QuestEvent::StepCompleted { step_index: 0, .. })));

    let progress = system.get_progress(player_id).unwrap();
    let state = progress.get_active(quest_id).unwrap();
    assert_eq!(state.current_step, 1);
}

#[test]
fn test_quest_completion() {
    let mut system = QuestSystem::new(QuestSystemConfig::default());
    system.register_quest(test_quest());

    let player_id = PlayerId(1);
    let quest_id = "test_quest";

    system.start_quest(player_id, quest_id).unwrap();

    for _ in 0..3 {
        system.on_mob_killed(player_id, "cave_rat");
    }

    system.on_npc_talked(player_id, "elder");

    let events = system.take_events();
    assert!(events.iter().any(|e| matches!(e, QuestEvent::Completed { xp: 100, currency: 50, .. })));

    let progress = system.get_progress(player_id).unwrap();
    assert!(progress.has_completed(quest_id));
    assert!(!progress.has_active(quest_id));
}

#[test]
fn test_prerequisites() {
    let mut system = QuestSystem::new(QuestSystemConfig::default());
    system.register_quest(talk_quest("prereq_quest", vec![]));
    system.register_quest(talk_quest("main_quest", vec!["prereq_quest".to_string()]));

    let player_id = PlayerId(1);

    assert!(system.start_quest(player_id, "main_quest").is_err());

    system.start_quest(player_id, "prereq_quest").unwrap();
    system.on_npc_talked(player_id, "npc");

    assert!(system.start_quest(player_id, "main_quest").is_ok());
}

#[test]
fn kill_progress_messages_report_counts() {
    let mut system = QuestSystem::new(QuestSystemConfig::default());
    system.register_quest(test_quest());
    let p = PlayerId(7);
    system.start_quest(p, "test_quest").unwrap();
    let started = system.take_messages();
    assert_eq!(started.len(), 2);
    system.on_mob_killed(p, "cave_rat");
    system.on_mob_killed(p, "wolf");
    let messages = system.take_messages();
    assert_eq!(messages.len(), 1);
    match &messages[0] {
        (pid, QuestMessage::Update { update_type, step_index, progress, target, .. }) => {
            assert_eq!(*pid, p);
            assert_eq!(*update_type, QuestUpdateType::StepProgress);
            assert_eq!(*step_index, Some(0));
            assert_eq!(*progress, Some(1));
            assert_eq!(*target, Some(3));
        }
        other => panic!("unexpected {:?}", other),
    }
}

#[test]
fn only_the_killer_gets_credit() {
    let mut system = QuestSystem::new(QuestSystemConfig::default());
    system.register_quest(test_quest());
    system.start_quest(PlayerId(1), "test_quest").unwrap();
    system.start_quest(PlayerId(2), "test_quest").unwrap();
    system.on_mob_killed(PlayerId(1), "cave_rat");
    let other = system.get_progress(PlayerId(2)).unwrap().get_active("test_quest").unwrap();
    assert_eq!(other.current_step_progress().unwrap().current, 0);
    let killer = system.get_progress(PlayerId(1)).unwrap().get_active("test_quest").unwrap();
    assert_eq!(killer.current_step_progress().unwrap().current, 1);
}

#[test]
fn start_refusals_name_their_reason() {
    let mut system = QuestSystem::new(QuestSystemConfig { max_active_quests: 1 });
    system.register_quest(test_quest());
    system.register_quest(talk_quest("other", vec![]));
    system.register_quest(talk_quest("locked", vec!["test_quest".to_string()]));
    let p = PlayerId(1);
    assert_eq!(system.start_quest(p, "nope"), Err("Unknown quest: nope".to_string()));
    assert_eq!(system.start_quest(p, "locked"), Err("Requires completion of: test_quest".to_string()));
    assert!(system.get_progress(p).is_none());
    system.start_quest(p, "test_quest").unwrap();
    assert_eq!(system.start_quest(p, "other"), Err("Maximum active quests (1) reached".to_string()));
    let mut roomy = QuestSystem::new(QuestSystemConfig::default());
    roomy.register_quest(test_quest());
    roomy.start_quest(p, "test_quest").unwrap();
    assert_eq!(roomy.start_quest(p, "test_quest"), Err("Quest already active".to_string()));
}

#[test]
fn completed_quest_grants_rewards_once() {
    let mut system = QuestSystem::new(QuestSystemConfig::default());
    system.register_quest(test_quest());
    let p = PlayerId(3);
    system.start_quest(p, "test_quest").unwrap();
    for _ in 0..3 {
        system.on_mob_killed(p, "cave_rat");
    }
    system.on_npc_talked(p, "elder");
    system.on_npc_talked(p, "elder");
    let progress = system.get_progress(p).unwrap();
    assert_eq!(progress.total_quest_xp(), 100);
    assert_eq!(progress.total_quest_currency(), 50);
    assert_eq!(
        system.start_quest(p, "test_quest"),
        Err("Quest already completed and not repeatable".to_string())
    );
    let messages = system.take_messages();
    let rewarded = messages.iter().filter(|(_, m)| {
        matches!(m, QuestMessage::Notification { notification_type: QuestNotificationType::Completed, rewards: Some(_), .. })
    });
    assert_eq!(rewarded.count(), 1);
}

#[test]
fn collecting_items_counts_their_number() {
    let mut system = QuestSystem::new(QuestSystemConfig::default());
    let mut q = talk_quest("gather", vec![]);
    q.steps = vec![QuestStep::CollectItem { item_id: ItemId::scrap(), count: 5, description: "Scrap".to_string() }];
    q.rewards.xp = 10;
    system.register_quest(q);
    let p = PlayerId(4);
    system.start_quest(p, "gather").unwrap();
    system.on_item_collected(p, &ItemId::scrap(), 3);
    assert!(system.get_progress(p).unwrap().has_active("gather"));
    system.on_item_collected(p, &ItemId::scrap(), 3);
    assert!(system.get_progress(p).unwrap().has_completed("gather"));
    assert_eq!(system.get_progress(p).unwrap().total_quest_xp(), 10);
}

#[test]
fn abandon_and_pin() {
    let mut system = QuestSystem::new(QuestSystemConfig::default());
    system.register_quest(test_quest());
    let p = PlayerId(5);
    assert_eq!(system.abandon_quest(p, "test_quest"), Err("No progress for player".to_string()));
    system.start_quest(p, "test_quest").unwrap();
    system.take_messages();
    system.pin_quest(p, Some("test_quest"));
    let messages = system.take_messages();
    assert_eq!(messages.len(), 1);
    match &messages[0].1 {
        QuestMessage::Tracker { title, current_step, step_description, progress, target, .. } => {
            assert_eq!(title, "Test Quest");
            assert_eq!(*current_step, 0);
            assert_eq!(step_description, "Kill 3 rats");
            assert_eq!((*progress, *target), (0, 3));
        }
        other => panic!("unexpected {:?}", other),
    }
    assert_eq!(system.get_progress(p).unwrap().pinned_quest().map(|s| s.as_str()), Some("test_quest"));
    assert!(system.abandon_quest(p, "test_quest").is_ok());
    assert_eq!(system.abandon_quest(p, "test_quest"), Err("Quest not active".to_string()));
    assert!(system.take_events().iter().any(|e| matches!(e, QuestEvent::Abandoned { .. })));
}

#[test]
fn sync_lists_active_and_completed_quests() {
    let mut system = QuestSystem::new(QuestSystemConfig::default());
    system.register_quest(test_quest());
    system.register_quest(talk_quest("intro", vec![]));
    let p = PlayerId(9);
    system.send_sync(p);
    match &system.take_messages()[0].1 {
        QuestMessage::Sync { active_quests, completed_quest_ids } => {
            assert!(active_quests.is_empty());
            assert!(completed_quest_ids.is_empty());
        }
        other => panic!("unexpected {:?}", other),
    }
    system.start_quest(p, "intro").unwrap();
    system.on_npc_talked(p, "npc");
    system.start_quest(p, "test_quest").unwrap();
    system.on_mob_killed(p, "cave_rat");
    system.take_messages();
    system.send_sync(p);
    let messages = system.take_messages();
    assert_eq!(messages.len(), 1);
    match &messages[0].1 {
        QuestMessage::Sync { active_quests, completed_quest_ids } => {
            assert_eq!(completed_quest_ids, &vec!["intro".to_string()]);
            assert_eq!(active_quests.len(), 1);
            let info = &active_quests[0];
            assert_eq!(info.quest_id, "test_quest");
            assert_eq!(info.title, "Test Quest");
            assert_eq!(info.description, "A test");
            assert_eq!(info.current_step, 0);
            assert_eq!(info.steps.len(), 2);
            assert_eq!(info.steps[0].description, "Kill 3 rats");
            let first = info.steps[0].progress.unwrap();
            assert_eq!((first.current, first.target, first.completed), (1, 3, false));
            assert!(!info.pinned);
        }
        other => panic!("unexpected {:?}", other),
    }
}
