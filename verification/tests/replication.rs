use plix_server::protocol::{PlayerId, Tick};
use plix_server::replication::events::{EventBuffer, MAX_EVENTS};
use plix_server::inventory::items::{Hotbar, ItemId, ItemStack};
use plix_server::replication::snapshot::{create_inventory_snapshot, SlotSnapshot, SnapshotGenerator};

#[derive(Debug, Clone, PartialEq)]
enum GameEvent {
    PlayerLeft { id: PlayerId },
}

#[test]
fn test_push_and_get() {
    let mut buffer = EventBuffer::new();

    buffer.push(Tick(1), GameEvent::PlayerLeft { id: PlayerId(1) });
    buffer.push(Tick(2), GameEvent::PlayerLeft { id: PlayerId(2) });

    assert_eq!(buffer.len(), 2);
    assert_eq!(buffer.all_events().len(), 2);
}

#[test]
fn test_events_since() {
    let mut buffer = EventBuffer::new();

    buffer.push(Tick(1), GameEvent::PlayerLeft { id: PlayerId(1) });
    buffer.push(Tick(5), GameEvent::PlayerLeft { id: PlayerId(2) });
    buffer.push(Tick(10), GameEvent::PlayerLeft { id: PlayerId(3) });

    let events = buffer.events_since(Tick(3));
    assert_eq!(events.len(), 2);
    assert_eq!(*events[0], GameEvent::PlayerLeft { id: PlayerId(2) });
}

#[test]
fn test_prune() {
    let mut buffer = EventBuffer::new();

    buffer.push(Tick(1), GameEvent::PlayerLeft { id: PlayerId(1) });
    buffer.push(Tick(5), GameEvent::PlayerLeft { id: PlayerId(2) });
    buffer.push(Tick(10), GameEvent::PlayerLeft { id: PlayerId(3) });

    buffer.prune(Tick(6));
    assert_eq!(buffer.len(), 1);
}

#[test]
fn full_buffer_drops_oldest() {
    let mut buffer = EventBuffer::new();
    for i in 0..(MAX_EVENTS as u64 + 3) {
        buffer.push(Tick(i), i);
    }
    assert_eq!(buffer.len(), MAX_EVENTS);
    assert_eq!(*buffer.all_events()[0], 3);
    buffer.clear();
    assert!(buffer.is_empty());
}

#[test]
fn prune_stops_at_first_recent_event() {
    let mut buffer = EventBuffer::new();
    buffer.push(Tick(1), 'a');
    buffer.push(Tick(9), 'b');
    buffer.push(Tick(2), 'c');
    buffer.prune(Tick(5));
    let left: Vec<char> = buffer.all_events().into_iter().copied().collect();
    assert_eq!(left, vec!['b', 'c']);
}

#[test]
fn snapshot_generator_new() {
    let _generator = SnapshotGenerator::new();
}

#[test]
fn inventory_snapshot_mirrors_hotbar() {
    let mut hotbar = Hotbar::new(3);
    hotbar.set(1, Some(ItemStack::new(ItemId::health_pack(), 4)));
    hotbar.set_active_slot(1);
    let snap = create_inventory_snapshot(&hotbar);
    assert_eq!(snap.active_slot, 1);
    assert_eq!(
        snap.slots,
        vec![SlotSnapshot::empty(), SlotSnapshot::new(ItemId::health_pack(), 4), SlotSnapshot::empty()]
    );
}
