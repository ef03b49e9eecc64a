use chat_rs::domain::User;
use chat_rs::room::{leave_all, relay_stream_id, relay_track_id, Participant, PresenceRegistry, Room, RoomAction, RoomMessage, Subscriber};

fn part(peer_id: u128, conn_id: u128) -> Participant<&'static str> {
    Participant {
        peer_id,
        user: User { id: peer_id, name: format!("u{peer_id}") },
        conn_id,
        speaking: false,
        muted: false,
        deafened: false,
        handle: "pc",
    }
}

#[test]
fn rejoin_replaces_in_place() {
    let mut room: Room<&'static str> = Room::new(7, 100);
    assert!(room.is_empty());
    assert!(room.join(part(1, 10)).is_none());
    assert!(room.join(part(2, 20)).is_none());
    let old = room.join(part(1, 11)).expect("replaced");
    assert_eq!(old.conn_id, 10);
    assert_eq!(room.len(), 2);
    assert_eq!(room.get(1).map(|p| p.conn_id), Some(11));
    assert_eq!((room.voice_channel_id(), room.server_id()), (7, 100));
}

#[test]
fn stale_teardown_keeps_rejoined_peer() {
    let mut room: Room<&'static str> = Room::new(7, 100);
    room.join(part(1, 10));
    room.join(part(1, 11));
    // the old connection's teardown must not remove the rejoined peer
    assert!(room.leave_if_owner(1, 10).is_none());
    assert!(room.contains(1));
    assert_eq!(room.leave_if_owner(1, 11).map(|p| p.conn_id), Some(11));
    assert!(!room.contains(1));
}

#[test]
fn leave_twice_is_harmless() {
    let mut room: Room<&'static str> = Room::new(7, 100);
    room.join(part(1, 10));
    assert!(room.leave(1).is_some());
    assert!(room.leave(1).is_none());
    assert!(room.is_empty());
}

#[test]
fn others_excludes_me() {
    let mut room: Room<&'static str> = Room::new(7, 100);
    room.join(part(1, 10));
    room.join(part(2, 20));
    room.join(part(3, 30));
    let mut o = room.others(2);
    o.sort();
    assert_eq!(o, vec![1, 3]);
}

#[test]
fn membership_snapshot_hides_speaking() {
    let mut room: Room<&'static str> = Room::new(7, 100);
    room.join(part(1, 10));
    room.join(part(2, 20));
    assert!(room.set_speaking(1, true));
    assert!(room.set_muted(2, true));
    assert!(room.set_deafened(2, true));
    assert!(!room.set_speaking(9, true));
    let full = room.presence_snapshot();
    let public = room.membership_snapshot();
    assert!(full[0].speaking);
    assert!(!public[0].speaking);
    assert!(public[1].muted && public[1].deafened);
    assert_eq!(public[1].user.id, 2);
}

#[test]
fn presence_goes_to_watchers_outside_the_call() {
    let mut room: Room<&'static str> = Room::new(7, 100);
    room.join(part(1, 10));
    let mut reg: PresenceRegistry<u8> = PresenceRegistry::new();
    reg.register(Subscriber { conn_id: 500, user_id: 1, server_id: 100, sink: 0 });
    reg.register(Subscriber { conn_id: 501, user_id: 2, server_id: 100, sink: 1 });
    reg.register(Subscriber { conn_id: 502, user_id: 3, server_id: 999, sink: 2 });
    assert_eq!(reg.recipients(&room), vec![501]);
    assert!(room.shown_on_subscribe(100, 2));
    assert!(!room.shown_on_subscribe(100, 1));
    assert!(!room.shown_on_subscribe(999, 2));
    // re-registering a connection replaces it
    reg.register(Subscriber { conn_id: 501, user_id: 2, server_id: 999, sink: 9 });
    assert!(reg.recipients(&room).is_empty());
    assert_eq!(reg.sink(501), Some(&9));
    reg.unregister(501);
    assert_eq!(reg.sink(501), None);
}

#[test]
fn leaving_peer_is_gone_and_second_leave_changes_nothing() {
    let mut room: Room<&'static str> = Room::new(7, 100);
    room.join(part(1, 10));
    room.join(part(2, 20));
    assert_eq!(room.others(1), vec![2]);
    assert_eq!(room.leave(2).map(|p| p.conn_id), Some(20));
    assert!(!room.contains(2));
    assert!(room.others(1).is_empty());
    assert!(room.leave(2).is_none());
    assert_eq!(room.len(), 1);
    assert!(room.contains(1));
}

#[test]
fn room_messages_are_decided_per_membership() {
    let mut room: Room<&'static str> = Room::new(7, 100);
    assert!(matches!(room.on_message(1, RoomMessage::Speaking(true)), RoomAction::Ignore));
    assert!(matches!(room.on_message(1, RoomMessage::SetMuted(true)), RoomAction::Ignore));
    assert!(matches!(room.on_message(1, RoomMessage::Offer), RoomAction::AcceptOffer));
    room.join(part(1, 10));
    assert!(matches!(room.on_message(1, RoomMessage::Offer), RoomAction::RejectOffer));
    assert!(matches!(room.on_message(1, RoomMessage::Speaking(true)), RoomAction::BroadcastPresence));
    assert!(room.get(1).unwrap().speaking);
    assert!(matches!(room.on_message(1, RoomMessage::SetDeafened(true)), RoomAction::BroadcastPresenceAndServer));
    assert!(room.get(1).unwrap().deafened);
    assert!(matches!(room.on_message(1, RoomMessage::Answer), RoomAction::ApplyAnswer));
    match room.on_message(1, RoomMessage::Leave) {
        RoomAction::TearDown(Some(p)) => assert_eq!(p.conn_id, 10),
        _ => panic!("the member is torn down"),
    }
    assert!(matches!(room.on_message(1, RoomMessage::Leave), RoomAction::TearDown(None)));
}

#[test]
fn stream_end_leaves_every_room() {
    let mut a: Room<&'static str> = Room::new(7, 100);
    let mut b: Room<&'static str> = Room::new(8, 100);
    let c: Room<&'static str> = Room::new(9, 100);
    a.join(part(1, 10));
    a.join(part(2, 20));
    b.join(part(1, 10));
    let (rooms, gone) = leave_all(vec![a, b, c], 1);
    assert_eq!(rooms.len(), 3);
    assert!(rooms.iter().all(|r| !r.contains(1)));
    assert!(rooms[0].contains(2));
    assert_eq!(gone.iter().map(|(vc, p)| (*vc, p.peer_id)).collect::<Vec<_>>(), vec![(7, 1), (8, 1)]);
}

#[test]
fn relay_ids_are_fresh_per_join() {
    let publisher = 0x0123_4567_89ab_cdef_0123_4567_89ab_cdef;
    let first = relay_track_id(publisher, 1);
    let second = relay_track_id(publisher, 2);
    assert!(first.starts_with("audio-01234567-89ab-cdef-0123-456789abcdef-"));
    assert_eq!(first, "audio-01234567-89ab-cdef-0123-456789abcdef-00000000-0000-0000-0000-000000000001");
    assert_ne!(first, second);
    assert_eq!(relay_stream_id(publisher), "relay-01234567-89ab-cdef-0123-456789abcdef");
}
