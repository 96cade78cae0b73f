use stasis::services::dbus::{stream_block_is_browser, DbusInhibitTracker};

#[test]
fn portal_inhibit_stays_active_until_explicit_clear() {
    let mut tracker = DbusInhibitTracker::default();
    tracker.mark_portal_call(":1.26", 100);
    tracker.confirm_portal_handle(
        ":1.26",
        100,
        "/org/freedesktop/portal/desktop/request/1_26/t/abc",
    );
    assert_eq!(tracker.total(), 1);

    tracker.mark_portal_call(":1.26", 101);
    tracker.confirm_portal_handle(
        ":1.26",
        101,
        "/org/freedesktop/portal/desktop/request/1_26/t/def",
    );
    assert_eq!(tracker.total(), 1);

    tracker.clear_portal_handle(
        ":1.26",
        "/org/freedesktop/portal/desktop/request/1_26/t/abc",
    );
    assert_eq!(tracker.total(), 1);

    tracker.clear_portal_handle(
        ":1.26",
        "/org/freedesktop/portal/desktop/request/1_26/t/def",
    );
    assert_eq!(tracker.total(), 0);
}

#[test]
fn sender_removed_when_both_legacy_and_portal_clear() {
    let mut tracker = DbusInhibitTracker::default();

    tracker.mark_legacy_active(":1.99");
    tracker.mark_portal_active(":1.99");
    assert_eq!(tracker.total(), 1);

    tracker.clear_portal(":1.99");
    assert_eq!(tracker.total(), 1);

    tracker.clear_legacy(":1.99");
    assert_eq!(tracker.total(), 0);
}

#[test]
fn browser_block_matches_firefox_properties() {
    let block = r#"
Properties:
    application.name = "Firefox"
"#;
    assert!(stream_block_is_browser(block));
}

#[test]
fn browser_block_ignores_non_browser_properties() {
    let block = r#"
Properties:
    application.name = "zoom"
"#;
    assert!(!stream_block_is_browser(block));
}
