use matrix_sync_core::bootstrap::{
    session_storage_key, view_storage_key, Bootstrap, FrozenSlidingSync, FrozenSlidingSyncView,
    PendingRead, SlidingSync, Stage,
};
use matrix_sync_core::config::{SlidingSyncBuilder, SlidingSyncMode, SlidingSyncView, ToDeviceConfig};
use matrix_sync_core::error::StoreError;

enum Record {
    View(FrozenSlidingSyncView),
    Session(FrozenSlidingSync),
    Garbage,
}

fn read<'a>(records: &'a [(Vec<u8>, Record)], key: &[u8]) -> Option<&'a Record> {
    records.iter().find(|(k, _)| k.as_slice() == key).map(|(_, r)| r)
}

fn run(mut b: Bootstrap, records: &[(Vec<u8>, Record)]) -> Result<SlidingSync, StoreError> {
    while let Some(pending) = b.next_read() {
        match pending {
            PendingRead::View(key) => {
                let outcome = match read(records, &key) {
                    None => Ok(None),
                    Some(Record::View(v)) => Ok(Some(v.clone())),
                    Some(_) => Err(StoreError::Json("not a view record".to_string())),
                };
                b.view_loaded(outcome);
            }
            PendingRead::Session(key) => {
                let outcome = match read(records, &key) {
                    None => Ok(None),
                    Some(Record::Session(s)) => Ok(Some(s.clone())),
                    Some(_) => Err(StoreError::Json("not a session record".to_string())),
                };
                b.session_loaded(outcome);
            }
        }
    }
    b.finish()
}

fn view(name: &str) -> SlidingSyncView {
    SlidingSyncView::new(name.to_string(), SlidingSyncMode::Selective)
}

fn to_device() -> ToDeviceConfig {
    ToDeviceConfig { enabled: Some(true), limit: None, since: None }
}

fn persisted_main() -> Vec<(Vec<u8>, Record)> {
    vec![
        (
            b"main".to_vec(),
            Record::Session(FrozenSlidingSync {
                to_device_since: Some("tok1".to_string()),
                delta_token: Some("dt1".to_string()),
            }),
        ),
        (
            b"main::V1".to_vec(),
            Record::View(FrozenSlidingSyncView {
                rooms_count: 2,
                rooms_list: vec!["A".to_string(), "B".to_string()],
                rooms: vec![("A".to_string(), "snapA".to_string())],
            }),
        ),
    ]
}

#[test]
fn record_keys_join_storage_key_and_view_name() {
    assert_eq!(session_storage_key(&"main".to_string()), b"main".to_vec());
    assert_eq!(view_storage_key(&"main".to_string(), &"V1".to_string()), b"main::V1".to_vec());
    assert_eq!(view_storage_key(&"".to_string(), &"".to_string()), b"::".to_vec());
    assert_eq!(view_storage_key(&"k\u{e9}".to_string(), &"v".to_string()), "k\u{e9}::v".as_bytes().to_vec());
}

#[test]
fn round_trip_restores_view_rooms_and_tokens() {
    let b = SlidingSyncBuilder::new()
        .cold_cache("main".to_string())
        .add_view(view("V1"))
        .with_to_device_extension(to_device())
        .build();
    let s = run(b, &persisted_main()).unwrap();
    assert_eq!(s.views()[0].rooms_count, Some(2));
    assert_eq!(s.views()[0].rooms_list, vec!["A".to_string(), "B".to_string()]);
    assert_eq!(s.room(&"A".to_string()), Some(&"snapA".to_string()));
    assert_eq!(s.room(&"B".to_string()), None);
    assert_eq!(s.room_count(), 1);
    assert_eq!(s.delta_token(), &Some("dt1".to_string()));
    let ext = s.extensions().as_ref().unwrap();
    assert_eq!(ext.to_device.as_ref().unwrap().since, Some("tok1".to_string()));
    assert_eq!(s.pos(), &None);
    assert_eq!(s.storage_key(), &Some("main".to_string()));
}

#[test]
fn since_token_creates_no_to_device_extension() {
    let b = SlidingSyncBuilder::new().cold_cache("main".to_string()).add_view(view("V1")).build();
    let s = run(b, &persisted_main()).unwrap();
    assert!(s.extensions().is_none());
    assert_eq!(s.delta_token(), &Some("dt1".to_string()));

    let b = SlidingSyncBuilder::new()
        .cold_cache("main".to_string())
        .add_view(view("V1"))
        .with_all_extensions()
        .without_to_device_extension()
        .build();
    let s = run(b, &persisted_main()).unwrap();
    let ext = s.extensions().as_ref().unwrap();
    assert!(ext.to_device.is_none());
    assert!(ext.e2ee.is_some());
}

#[test]
fn first_view_wins_for_shared_room() {
    let records = vec![
        (
            b"k::V1".to_vec(),
            Record::View(FrozenSlidingSyncView {
                rooms_count: 1,
                rooms_list: vec!["X".to_string()],
                rooms: vec![("X".to_string(), "from V1".to_string())],
            }),
        ),
        (
            b"k::V2".to_vec(),
            Record::View(FrozenSlidingSyncView {
                rooms_count: 2,
                rooms_list: vec!["X".to_string(), "Y".to_string()],
                rooms: vec![
                    ("X".to_string(), "from V2".to_string()),
                    ("Y".to_string(), "only V2".to_string()),
                ],
            }),
        ),
    ];
    let b = SlidingSyncBuilder::new()
        .cold_cache("k".to_string())
        .add_view(view("V1"))
        .add_view(view("V2"))
        .build();
    let s = run(b, &records).unwrap();
    assert_eq!(s.room(&"X".to_string()), Some(&"from V1".to_string()));
    assert_eq!(s.room(&"Y".to_string()), Some(&"only V2".to_string()));
    assert_eq!(s.views()[1].rooms_count, Some(2));

    // Configuration order, not name order, decides.
    let b = SlidingSyncBuilder::new()
        .cold_cache("k".to_string())
        .add_view(view("V2"))
        .add_view(view("V1"))
        .build();
    let s = run(b, &records).unwrap();
    assert_eq!(s.room(&"X".to_string()), Some(&"from V2".to_string()));
}

#[test]
fn missing_records_give_an_empty_session() {
    let b = SlidingSyncBuilder::new().cold_cache("nothing".to_string()).add_view(view("V1")).build();
    let s = run(b, &persisted_main()).unwrap();
    assert_eq!(s.views()[0].rooms_count, None);
    assert!(s.views()[0].rooms_list.is_empty());
    assert_eq!(s.room_count(), 0);
    assert_eq!(s.delta_token(), &None);
}

#[test]
fn no_storage_key_reads_nothing() {
    let b = SlidingSyncBuilder::new().add_view(view("V1")).build();
    assert_eq!(b.stage(), Stage::Assembled);
    assert!(b.next_read().is_none());
    let s = b.finish().unwrap();
    assert_eq!(s.room_count(), 0);
    assert_eq!(s.delta_token(), &None);
}

#[test]
fn reads_come_in_configuration_order() {
    let mut b = SlidingSyncBuilder::new()
        .cold_cache("s".to_string())
        .add_view(view("b"))
        .add_view(view("a"))
        .build();
    assert_eq!(b.stage(), Stage::Views);
    assert!(matches!(b.next_read(), Some(PendingRead::View(k)) if k == b"s::b".to_vec()));
    b.view_loaded(Ok(None));
    assert!(matches!(b.next_read(), Some(PendingRead::View(k)) if k == b"s::a".to_vec()));
    b.view_loaded(Ok(None));
    assert_eq!(b.stage(), Stage::Session);
    assert!(matches!(b.next_read(), Some(PendingRead::Session(k)) if k == b"s".to_vec()));
    b.session_loaded(Ok(None));
    assert_eq!(b.stage(), Stage::Assembled);
}

#[test]
fn undecodable_view_record_aborts() {
    let records = vec![(b"main::V1".to_vec(), Record::Garbage)];
    let b = SlidingSyncBuilder::new().cold_cache("main".to_string()).add_view(view("V1")).build();
    let r = run(b, &records);
    assert!(matches!(r, Err(StoreError::Json(_))));
}

#[test]
fn undecodable_session_record_aborts() {
    let mut records = persisted_main();
    records[0].1 = Record::Garbage;
    let b = SlidingSyncBuilder::new().cold_cache("main".to_string()).add_view(view("V1")).build();
    let r = run(b, &records);
    assert!(matches!(r, Err(StoreError::Json(_))));
}

#[test]
fn backend_failure_aborts_and_stops_reading() {
    let mut b = SlidingSyncBuilder::new()
        .cold_cache("main".to_string())
        .add_view(view("V1"))
        .add_view(view("V2"))
        .build();
    b.view_loaded(Err(StoreError::Backend("disk".to_string())));
    assert_eq!(b.stage(), Stage::Aborted);
    assert!(b.next_read().is_none());
    assert_eq!(b.finish().err(), Some(StoreError::Backend("disk".to_string())));
}
