use matrix_sync_core::changes::{
    AccountDataEvent, PresenceEvent, StateChanges, StrippedMemberEvent, SyncStateEvent,
    TimelineSlice,
};
use matrix_sync_core::room::{RoomInfo, RoomType};

fn state(t: &str, k: &str) -> SyncStateEvent {
    SyncStateEvent { event_type: t.to_string(), state_key: k.to_string() }
}

#[test]
fn repeated_state_event_keeps_last_value() {
    let mut c = StateChanges::new("s1".to_string());
    let room = "!a:x".to_string();
    c.add_state_event(&room, state("m.room.name", ""), "first".to_string());
    c.add_state_event(&room, state("m.room.name", ""), "second".to_string());
    c.add_state_event(&room, state("m.room.topic", ""), "topic".to_string());
    c.add_state_event(&"!b:x".to_string(), state("m.room.name", ""), "other".to_string());
    assert_eq!(
        c.state_event(&room, &"m.room.name".to_string(), &"".to_string()),
        Some(&"second".to_string())
    );
    assert_eq!(
        c.state_event(&"!b:x".to_string(), &"m.room.name".to_string(), &"".to_string()),
        Some(&"other".to_string())
    );
    assert_eq!(c.state_event(&room, &"m.room.create".to_string(), &"".to_string()), None);
    assert_eq!(c.state_event_count(), 3);
    assert_eq!(c.sync_token(), &Some("s1".to_string()));
}

#[test]
fn notifications_accumulate_per_room() {
    let mut c = StateChanges::new("s".to_string());
    let room = "!a:x".to_string();
    assert!(c.notifications(&room).is_none());
    c.add_notification(&room, "n1".to_string());
    c.add_notification(&room, "n2".to_string());
    c.add_notification(&"!b:x".to_string(), "n3".to_string());
    assert_eq!(c.notifications(&room), Some(&vec!["n1".to_string(), "n2".to_string()]));
    assert_eq!(c.notifications(&"!b:x".to_string()), Some(&vec!["n3".to_string()]));
}

#[test]
fn other_upserts_accept_repeated_keys() {
    let mut c = StateChanges::new("s".to_string());
    let room = "!a:x".to_string();
    c.add_presence_event(PresenceEvent { sender: "@u:x".to_string() }, "p1".to_string());
    c.add_presence_event(PresenceEvent { sender: "@u:x".to_string() }, "p2".to_string());
    c.add_room(RoomInfo { room_id: room.clone(), room_type: RoomType::Joined });
    c.add_room(RoomInfo { room_id: room.clone(), room_type: RoomType::Left });
    c.add_stripped_room(RoomInfo { room_id: room.clone(), room_type: RoomType::Invited });
    c.add_account_data(AccountDataEvent { event_type: "m.direct".to_string() }, "d".to_string());
    c.add_room_account_data(&room, AccountDataEvent { event_type: "m.tag".to_string() }, "t".to_string());
    c.add_stripped_member(&room, StrippedMemberEvent { state_key: "@u:x".to_string(), raw: "m".to_string() });
    c.add_receipts(&room, "r1".to_string());
    c.add_receipts(&room, "r2".to_string());
    c.add_timeline(
        &room,
        TimelineSlice { start: "t0".to_string(), end: None, limited: false, events: vec![] },
    );
    assert_eq!(c.state_event_count(), 0);
}

#[test]
fn batch_maps_expose_each_key_once() {
    let mut c = StateChanges::new("s".to_string());
    let room = "!a:x".to_string();
    c.add_receipts(&room, "r1".to_string());
    c.add_receipts(&"!b:x".to_string(), "rb".to_string());
    c.add_receipts(&room, "r2".to_string());
    let entries = c.receipts_map().entries();
    assert_eq!(entries.len(), 2);
    assert_eq!(entries[0], (vec![room.clone()], "r2".to_string()));
    assert_eq!(entries[1], (vec!["!b:x".to_string()], "rb".to_string()));
    c.add_room(RoomInfo { room_id: room.clone(), room_type: RoomType::Joined });
    c.add_room(RoomInfo { room_id: room.clone(), room_type: RoomType::Left });
    let rooms = c.room_infos_map().entries();
    assert_eq!(rooms.len(), 1);
    assert_eq!(rooms[0].1.room_type, RoomType::Left);
    assert_eq!(c.room_infos_map().len(), 1);
}
