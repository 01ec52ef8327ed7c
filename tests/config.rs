use matrix_sync_core::config::{
    E2EEConfig, SlidingSyncBuilder, SlidingSyncMode, SlidingSyncView, TypingConfig,
};

#[test]
fn bundles_leave_configured_extensions_untouched() {
    let custom = E2EEConfig { enabled: Some(false) };
    let a = SlidingSyncBuilder::new().with_e2ee_extension(custom).with_all_extensions().build_config();
    let b = SlidingSyncBuilder::new().with_all_extensions().with_e2ee_extension(custom).build_config();
    let ea = a.extensions.unwrap();
    let eb = b.extensions.unwrap();
    assert_eq!(ea.e2ee, Some(custom));
    assert_eq!(eb.e2ee, Some(custom));
    assert_eq!(ea.typing, Some(TypingConfig { enabled: Some(true) }));
    assert_eq!(ea.to_device.unwrap().enabled, Some(true));
}

#[test]
fn common_bundle_skips_typing_and_receipts() {
    let c = SlidingSyncBuilder::new().with_common_extensions().build_config();
    let e = c.extensions.unwrap();
    assert!(e.to_device.is_some());
    assert!(e.e2ee.is_some());
    assert!(e.account_data.is_some());
    assert!(e.typing.is_none());
    assert!(e.receipt.is_none());
}

#[test]
fn unsetting_an_extension_creates_the_set() {
    let c = SlidingSyncBuilder::new().without_typing_extension().build_config();
    let e = c.extensions.unwrap();
    assert!(e.typing.is_none() && e.e2ee.is_none());
    let c = SlidingSyncBuilder::new().build_config();
    assert!(c.extensions.is_none());
}

#[test]
fn add_view_replaces_by_name_in_place() {
    let c = SlidingSyncBuilder::new()
        .add_view(SlidingSyncView::new("a".to_string(), SlidingSyncMode::Selective))
        .add_view(SlidingSyncView::new("b".to_string(), SlidingSyncMode::Selective))
        .add_view(SlidingSyncView::new("a".to_string(), SlidingSyncMode::FullSync))
        .build_config();
    assert_eq!(c.views.len(), 2);
    assert_eq!(c.views[0].name, "a");
    assert_eq!(c.views[0].sync_mode, SlidingSyncMode::FullSync);
    assert_eq!(c.views[1].name, "b");
}

#[test]
fn full_sync_view_and_resets() {
    let c = SlidingSyncBuilder::new()
        .add_fullsync_view()
        .cold_cache("k".to_string())
        .homeserver("https://sync.example.org".to_string())
        .build_config();
    assert_eq!(c.views.len(), 1);
    assert_eq!(c.views[0].name, "full-sync");
    assert_eq!(c.views[0].sync_mode, SlidingSyncMode::FullSync);
    assert_eq!(c.storage_key, Some("k".to_string()));
    assert_eq!(c.homeserver, Some("https://sync.example.org".to_string()));
    let c = SlidingSyncBuilder::new().add_fullsync_view().cold_cache("k".to_string()).no_views().no_cold_cache().build_config();
    assert!(c.views.is_empty());
    assert_eq!(c.storage_key, None);
}
