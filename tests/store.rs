use matrix_sync_core::error::StoreError;
use matrix_sync_core::room::{RoomInfo, RoomType, Session};
use matrix_sync_core::store::Store;

fn session() -> Session {
    Session {
        access_token: "token".to_string(),
        user_id: "@me:example.org".to_string(),
        device_id: "DEVICE".to_string(),
    }
}

fn info(id: &str, t: RoomType) -> RoomInfo {
    RoomInfo { room_id: id.to_string(), room_type: t }
}

#[test]
fn creating_a_room_without_session_fails() {
    let mut store = Store::new();
    let r = store.get_or_create_room(&"!a:x".to_string(), RoomType::Joined);
    assert_eq!(r.err(), Some(StoreError::NoActiveSession));
    let r = store.get_or_create_room(&"!a:x".to_string(), RoomType::Invited);
    assert_eq!(r.err(), Some(StoreError::NoActiveSession));
    let r = store.get_or_create_stripped_room(&"!a:x".to_string());
    assert_eq!(r.err(), Some(StoreError::NoActiveSession));
    assert!(store.get_room(&"!a:x".to_string()).is_none());
    assert!(store.get_rooms().is_empty());
}

#[test]
fn get_or_create_twice_returns_the_same_room() {
    let mut store = Store::new();
    store.restore_session(session(), vec![], vec![], None);
    let id = "!a:x".to_string();
    let first = store.get_or_create_room(&id, RoomType::Joined).unwrap();
    let second = store.get_or_create_room(&id, RoomType::Joined).unwrap();
    assert_eq!(first.room_id(), second.room_id());
    assert_eq!(first.room_type(), RoomType::Joined);
    assert_eq!(second.room_type(), RoomType::Joined);
    assert_eq!(second.own_user_id(), "@me:example.org");
    assert_eq!(store.get_rooms().len(), 1);
    // An existing room keeps its category.
    let third = store.get_or_create_room(&id, RoomType::Left).unwrap();
    assert_eq!(third.room_type(), RoomType::Joined);
}

#[test]
fn invited_rooms_go_to_the_stripped_partition() {
    let mut store = Store::new();
    store.restore_session(session(), vec![], vec![], None);
    let id = "!inv:x".to_string();
    let r = store.get_or_create_room(&id, RoomType::Invited).unwrap();
    assert_eq!(r.room_type(), RoomType::Invited);
    assert!(store.get_stripped_room(&id).is_some());
    assert!(store.get_rooms().is_empty());
    assert_eq!(store.get_stripped_rooms().len(), 1);
    assert_eq!(store.get_room(&id).unwrap().room_type(), RoomType::Invited);
}

#[test]
fn stale_invited_entry_resolves_via_stripped() {
    let mut store = Store::new();
    store.restore_session(
        session(),
        vec![info("!r:x", RoomType::Invited), info("!j:x", RoomType::Joined)],
        vec![],
        None,
    );
    let id = "!r:x".to_string();
    assert!(store.get_room(&id).is_none());
    store.get_or_create_stripped_room(&id).unwrap();
    let got = store.get_room(&id).unwrap();
    assert_eq!(got.room_type(), RoomType::Invited);
    let listed = store.get_rooms();
    assert_eq!(listed.len(), 2);
    assert!(listed.iter().any(|r| r.room_id() == "!j:x" && r.room_type() == RoomType::Joined));
    assert!(listed.iter().any(|r| r.room_id() == "!r:x" && r.room_type() == RoomType::Invited));
}

#[test]
fn restore_session_loads_partitions_and_token() {
    let mut store = Store::new();
    store.restore_session(
        session(),
        vec![info("!a:x", RoomType::Joined), info("!b:x", RoomType::Left)],
        vec![info("!c:x", RoomType::Invited)],
        Some("s42".to_string()),
    );
    assert_eq!(store.sync_token(), &Some("s42".to_string()));
    assert_eq!(store.session().as_ref().unwrap().user_id, "@me:example.org");
    assert_eq!(store.get_room(&"!b:x".to_string()).unwrap().room_type(), RoomType::Left);
    assert_eq!(store.get_room(&"!c:x".to_string()).unwrap().room_type(), RoomType::Invited);
    assert!(store.get_stripped_room(&"!a:x".to_string()).is_none());
    assert_eq!(store.get_rooms().len(), 2);
    assert_eq!(store.get_stripped_rooms().len(), 1);
    // A created room is not replaced by an existing one of another id.
    let d = store.get_or_create_room(&"!d:x".to_string(), RoomType::Left).unwrap();
    assert_eq!(d.room_id(), "!d:x");
    assert_eq!(store.get_rooms().len(), 3);
}
