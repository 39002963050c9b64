use plix_server::inventory::items::ItemId;
use plix_server::mob::damage::DamageTracker;
use plix_server::mob::system::{
    MobDefinition, MobEvent, MobInstanceId, MobMessage, MobSystem, PlayerPayout, Position,
};
use plix_server::protocol::PlayerId;

fn player(id: u64) -> PlayerId {
    PlayerId(id)
}

#[test]
fn test_record_damage() {
    let mut tracker = DamageTracker::new(100);
    tracker.record_damage(player(1), 30);
    tracker.record_damage(player(2), 20);
    tracker.record_damage(player(1), 10); // Player 1 hits again

    assert_eq!(tracker.total_damage(), 60);
    assert_eq!(tracker.get_player_damage(player(1)).unwrap().damage, 40);
    assert_eq!(tracker.get_player_damage(player(2)).unwrap().damage, 20);
}

#[test]
fn test_killer_is_most_recent() {
    let mut tracker = DamageTracker::new(100);
    tracker.record_damage(player(1), 90); // First hit
    tracker.record_damage(player(2), 10); // Last hit

    assert_eq!(tracker.killer(), Some(player(2)));
}

#[test]
fn test_hit_count() {
    let mut tracker = DamageTracker::new(100);
    tracker.record_damage(player(1), 10);
    tracker.record_damage(player(1), 10);
    tracker.record_damage(player(1), 10);

    assert_eq!(tracker.get_player_damage(player(1)).unwrap().hit_count, 3);
}

#[test]
fn repeat_hitter_becomes_killer_again() {
    let mut tracker = DamageTracker::new(50);
    tracker.record_damage(player(1), 5);
    tracker.record_damage(player(2), 5);
    tracker.record_damage(player(1), 5);
    assert_eq!(tracker.killer(), Some(player(1)));
    let order: Vec<u64> = tracker.records().iter().map(|(p, _)| p.0).collect();
    assert_eq!(order, vec![2, 1]);
}

#[test]
fn no_damage_no_killer() {
    let tracker = DamageTracker::new(10);
    assert_eq!(tracker.killer(), None);
    assert!(tracker.get_player_damage(player(1)).is_none());
    assert_eq!(tracker.max_hp(), 10);
}

#[test]
fn damage_saturates() {
    let mut tracker = DamageTracker::new(10);
    tracker.record_damage(player(1), u32::MAX);
    tracker.record_damage(player(1), 5);
    assert_eq!(tracker.total_damage(), u32::MAX);
    assert_eq!(tracker.get_player_damage(player(1)).unwrap().damage, u32::MAX);
}

fn rat_system() -> MobSystem {
    let mut system = MobSystem::new();
    system.register_mob_def(MobDefinition { mob_id: "rat".to_string(), hp: 100, loot_table: "rat_drops".to_string() });
    system.register_loot_table("rat_drops");
    system
}

#[test]
fn spawn_damage_and_kill() {
    let mut system = rat_system();
    let pos = Position { x: 10, y: 0, z: 10 };
    assert!(!system.spawn_mob(MobInstanceId(1), "wolf", "s1", pos));
    assert!(system.spawn_mob(MobInstanceId(1), "rat", "s1", pos));
    assert_eq!(system.active_mob_count(), 1);
    assert_eq!(system.get_mob(MobInstanceId(1)).unwrap().current_hp, 100);

    assert!(!system.apply_damage(MobInstanceId(1), PlayerId(1), 30));
    assert_eq!(system.get_mob(MobInstanceId(1)).unwrap().current_hp, 70);
    assert!(system.apply_damage(MobInstanceId(1), PlayerId(2), 80));
    assert!(system.get_mob(MobInstanceId(1)).unwrap().is_dead());
    // A dead mob takes no more damage
    assert!(!system.apply_damage(MobInstanceId(1), PlayerId(1), 10));
    system.take_events();
    system.take_messages();

    let payouts = vec![
        PlayerPayout { player_id: PlayerId(1), xp: 30, credits: 15, is_killer: false },
        PlayerPayout { player_id: PlayerId(2), xp: 85, credits: 40, is_killer: true },
    ];
    let drops = vec![(ItemId::scrap(), 2), (ItemId::health_pack(), 1)];
    system.handle_mob_death(MobInstanceId(1), payouts, drops, 1_000);

    let events = system.take_events();
    assert!(matches!(events[0], MobEvent::Killed { killer: Some(PlayerId(2)), .. }));
    assert!(matches!(events[1], MobEvent::RewardDistributed { .. }));
    assert!(matches!(events[2], MobEvent::LootDropped { .. }));
    let messages = system.take_messages();
    assert_eq!(messages.len(), 4);
    match &messages[0] {
        (Some(PlayerId(1)), MobMessage::Reward { xp: 30, credits: 15, source }) => assert_eq!(source, "rat"),
        other => panic!("unexpected {:?}", other),
    }
    assert!(matches!(messages[3], (None, MobMessage::Died { killer: Some(PlayerId(2)), .. })));
    assert_eq!(system.loot_drop_count(), 2);
    assert_eq!(system.next_loot_id(), 3);
    let notices = system.take_death_notices();
    assert_eq!(notices.len(), 1);
    assert_eq!(notices[0].spawn_id, "s1");
    assert!(system.get_mob(MobInstanceId(1)).unwrap().pending_removal);

    system.cleanup_dead_mobs();
    assert_eq!(system.active_mob_count(), 0);
    system.cleanup_expired_loot(60_999);
    assert_eq!(system.loot_drop_count(), 2);
    system.cleanup_expired_loot(61_000);
    assert_eq!(system.loot_drop_count(), 0);
}

#[test]
fn death_without_known_loot_table_drops_nothing() {
    let mut system = MobSystem::new();
    system.register_mob_def(MobDefinition { mob_id: "bat".to_string(), hp: 5, loot_table: "none".to_string() });
    system.spawn_mob(MobInstanceId(7), "bat", "cave", Position { x: 0, y: 0, z: 0 });
    system.apply_damage(MobInstanceId(7), PlayerId(3), 5);
    system.handle_mob_death(MobInstanceId(7), vec![], vec![(ItemId::scrap(), 1)], 0);
    assert_eq!(system.loot_drop_count(), 0);
    assert_eq!(system.next_loot_id(), 1);
}

fn test_system() -> MobSystem {
    let mut system = MobSystem::new();
    system.register_mob_def(MobDefinition {
        mob_id: "test_mob".to_string(),
        hp: 100,
        loot_table: "test_drops".to_string(),
    });
    system.register_loot_table("test_drops");
    system
}

#[test]
fn test_spawn_mob() {
    let mut system = test_system();
    // The spawn point "test_spawn" places one test_mob at (100, 0, 100).
    system.spawn_mob(MobInstanceId(1), "test_mob", "test_spawn", Position { x: 100, y: 0, z: 100 });

    assert_eq!(system.active_mob_count(), 1);

    let events = system.take_events();
    assert!(events.iter().any(|e| matches!(e, MobEvent::Spawned { .. })));
}

#[test]
fn test_damage_and_kill() {
    let mut system = test_system();
    system.spawn_mob(MobInstanceId(1), "test_mob", "test_spawn", Position { x: 100, y: 0, z: 100 });
    let mob_id = MobInstanceId(1);

    // Apply damage
    let died = system.apply_damage(mob_id, PlayerId(1), 50);
    assert!(!died);

    let events = system.take_events();
    assert!(events.iter().any(|e| matches!(e, MobEvent::Damaged { damage: 50, .. })));

    // Kill the mob; the rewards (100 xp, 50 credits) all go to the only attacker.
    let died = system.apply_damage(mob_id, PlayerId(1), 50);
    assert!(died);
    let payouts = vec![PlayerPayout { player_id: PlayerId(1), xp: 100, credits: 50, is_killer: true }];
    system.handle_mob_death(mob_id, payouts, vec![(ItemId(1), 1)], 0);

    let events = system.take_events();
    assert!(events.iter().any(|e| matches!(e, MobEvent::Killed { .. })));
    assert!(events.iter().any(|e| matches!(e, MobEvent::RewardDistributed { .. })));
}
