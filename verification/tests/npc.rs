use plix_server::npc::dialogue::{
    determine_dialogue, DialogueHandler, DialogueOptionType, DialogueResponse, DialogueType,
    NpcDialogue, QuestDialogue,
};
use plix_server::protocol::PlayerId;

fn sample_npc() -> NpcDialogue {
    NpcDialogue {
        npc_id: "elder".to_string(),
        name: "Elder".to_string(),
        quest_giver: vec!["clear_rats".to_string()],
        idle_dialogue: vec!["Greetings!".to_string()],
        quest_offer_dialogue: vec![(
            "clear_rats".to_string(),
            QuestDialogue {
                offer_lines: vec!["Help me clear the rats!".to_string()],
                accept_text: "I'll do it".to_string(),
                decline_text: "Maybe later".to_string(),
            },
        )],
        quest_complete_dialogue: vec![(
            "clear_rats".to_string(),
            vec!["Thank you for your help!".to_string()],
        )],
    }
}

fn ids(v: &[&str]) -> Vec<String> {
    v.iter().map(|s| s.to_string()).collect()
}

#[test]
fn test_start_interaction_idle() {
    let mut handler = DialogueHandler::new();
    let npc = NpcDialogue { quest_complete_dialogue: vec![], ..sample_npc() };

    // No quests available -> idle dialogue
    handler.start_interaction(
        PlayerId(1),
        &npc,
        &ids(&["clear_rats"]), // already active
        &[],
        &[],
    );

    assert!(handler.is_in_dialogue(PlayerId(1)));
    let session = handler.get_session(PlayerId(1)).unwrap();
    assert_eq!(session.dialogue_type, DialogueType::Idle);
}

#[test]
fn test_start_interaction_quest_offer() {
    let mut handler = DialogueHandler::new();
    let npc = sample_npc();

    // Quest available -> offer dialogue
    handler.start_interaction(
        PlayerId(1),
        &npc,
        &[],                     // no active quests
        &[],                     // no completed quests
        &ids(&["clear_rats"]), // quest is available
    );

    assert!(handler.is_in_dialogue(PlayerId(1)));
    let session = handler.get_session(PlayerId(1)).unwrap();
    assert_eq!(session.dialogue_type, DialogueType::QuestOffer);
    assert_eq!(session.quest_id, Some("clear_rats".to_string()));
}

#[test]
fn test_handle_response() {
    let mut handler = DialogueHandler::new();
    let npc = sample_npc();

    handler.start_interaction(PlayerId(1), &npc, &[], &[], &ids(&["clear_rats"]));

    let result = handler.handle_response(PlayerId(1), "accept");
    assert!(result.is_some());

    let (dialogue_type, quest_id, response) = result.unwrap();
    assert_eq!(dialogue_type, DialogueType::QuestOffer);
    assert_eq!(quest_id, Some("clear_rats".to_string()));
    assert_eq!(response, DialogueResponse::Accept);

    // Session should be closed
    assert!(!handler.is_in_dialogue(PlayerId(1)));
}

#[test]
fn test_pending_messages() {
    let mut handler = DialogueHandler::new();
    let npc = sample_npc();

    handler.start_interaction(PlayerId(1), &npc, &[], &[], &ids(&["clear_rats"]));

    let messages = handler.drain_messages();
    assert_eq!(messages.len(), 1);
    assert_eq!(messages[0].1.npc_name, "Elder");
    assert_eq!(messages[0].1.lines, vec!["Help me clear the rats!".to_string()]);
    assert!(handler.drain_messages().is_empty());
}

#[test]
fn active_quest_with_closing_lines_is_turned_in() {
    let (kind, quest, lines, options) =
        determine_dialogue(&sample_npc(), &ids(&["clear_rats"]), &[], &[]);
    assert_eq!(kind, DialogueType::QuestComplete);
    assert_eq!(quest, Some("clear_rats".to_string()));
    assert_eq!(lines, vec!["Thank you for your help!".to_string()]);
    assert_eq!(options.len(), 1);
    assert_eq!(options[0].option_id, "complete");
    assert_eq!(options[0].option_type, DialogueOptionType::Close);
}

#[test]
fn completed_quest_is_not_offered_again() {
    let (kind, quest, lines, options) =
        determine_dialogue(&sample_npc(), &[], &ids(&["clear_rats"]), &ids(&["clear_rats"]));
    assert_eq!(kind, DialogueType::Idle);
    assert_eq!(quest, None);
    assert_eq!(lines, vec!["Greetings!".to_string()]);
    assert_eq!(options[0].text, "Goodbye");
}

#[test]
fn offer_options_carry_texts() {
    let (_, _, _, options) = determine_dialogue(&sample_npc(), &[], &[], &ids(&["clear_rats"]));
    assert_eq!(options.len(), 2);
    assert_eq!(options[0].text, "I'll do it");
    assert_eq!(options[0].option_type, DialogueOptionType::AcceptQuest);
    assert_eq!(options[1].option_id, "decline");
    assert_eq!(options[1].text, "Maybe later");
}

#[test]
fn silent_npc_starts_no_session() {
    let mut handler = DialogueHandler::new();
    let npc = NpcDialogue { idle_dialogue: vec![], ..sample_npc() };
    handler.start_interaction(PlayerId(2), &npc, &[], &[], &[]);
    assert!(!handler.is_in_dialogue(PlayerId(2)));
    assert!(handler.drain_messages().is_empty());
}

#[test]
fn second_interaction_is_ignored_and_unknown_response_closes() {
    let mut handler = DialogueHandler::default();
    let npc = sample_npc();
    handler.start_interaction(PlayerId(1), &npc, &[], &[], &ids(&["clear_rats"]));
    handler.start_interaction(PlayerId(1), &npc, &[], &[], &[]);
    assert_eq!(handler.drain_messages().len(), 1);
    let (_, _, response) = handler.handle_response(PlayerId(1), "shrug").unwrap();
    assert_eq!(response, DialogueResponse::Close);
    assert!(handler.handle_response(PlayerId(1), "accept").is_none());
    handler.start_interaction(PlayerId(1), &npc, &[], &[], &[]);
    handler.close_session(PlayerId(1));
    assert!(!handler.is_in_dialogue(PlayerId(1)));
}
