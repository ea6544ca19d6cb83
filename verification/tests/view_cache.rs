use coral::view_cache::{
    bookmark_created, bookmark_deleted, bookmark_renamed, expiry_step, mode_ownership, parse_bookmark_target,
    parse_switch_value, switch_view, ExpiryStep, ModeOwnership, SessionView, SwitchOutcome, SwitchTarget,
    VIEW_TTL_SECS, start_bookmark, BookmarkStart,
};

fn view(current: &str, rendered: &[&str]) -> SessionView {
    SessionView {
        sender_id: 42,
        current_view: current.to_string(),
        rendered: rendered.iter().map(|s| s.to_string()).collect(),
    }
}

fn has(v: &SessionView, k: &str) -> bool {
    v.rendered.iter().any(|r| r == k)
}

#[test]
fn picker_values_are_read() {
    match parse_switch_value("weekly:abc") {
        Some(SwitchTarget::View { cache_key, view_key }) => {
            assert_eq!(cache_key, "abc");
            assert_eq!(view_key, "weekly");
        },
        _ => panic!("expected a view"),
    }
    match parse_switch_value("marker:abc:My Run: two") {
        Some(SwitchTarget::View { cache_key, view_key }) => {
            assert_eq!(cache_key, "abc");
            assert_eq!(view_key, "marker:My Run: two");
        },
        _ => panic!("expected a bookmark view"),
    }
    match parse_switch_value("preset:abc") {
        Some(SwitchTarget::View { view_key, .. }) => assert_eq!(view_key, "preset:"),
        _ => panic!("expected a preset view"),
    }
    match parse_switch_value("create:xyz") {
        Some(SwitchTarget::Create { cache_key }) => assert_eq!(cache_key, "xyz"),
        _ => panic!("expected create"),
    }
    assert!(parse_switch_value("daily").is_none());
}

#[test]
fn only_the_sender_moves_the_message() {
    let mut v = view("daily", &["daily", "weekly"]);
    assert_eq!(switch_view(&mut v, 10, "weekly", 7), SwitchOutcome::Ephemeral);
    assert_eq!(v.current_view, "daily");
    assert_eq!(switch_view(&mut v, 10, "monthly", 7), SwitchOutcome::Expired { evict: false });
    assert_eq!(switch_view(&mut v, 10, "monthly", 42), SwitchOutcome::Expired { evict: false });
    assert_eq!(v.current_view, "daily");
    assert_eq!(switch_view(&mut v, 10, "weekly", 42), SwitchOutcome::Shown);
    assert_eq!(v.current_view, "weekly");
    assert_eq!(switch_view(&mut v, VIEW_TTL_SECS + 1, "daily", 42), SwitchOutcome::Expired { evict: true });
    assert_eq!(switch_view(&mut v, VIEW_TTL_SECS, "daily", 42), SwitchOutcome::Shown);
}

#[test]
fn mode_clicks_and_expiry() {
    assert_eq!(mode_ownership(121, 1, 1), ModeOwnership::Expired);
    assert_eq!(mode_ownership(120, 1, 2), ModeOwnership::Other);
    assert_eq!(mode_ownership(0, 1, 1), ModeOwnership::Sender);
    assert_eq!(expiry_step(Some(30)), ExpiryStep::Wait(90));
    assert_eq!(expiry_step(Some(120)), ExpiryStep::Expire);
    assert_eq!(expiry_step(None), ExpiryStep::Expire);
}

#[test]
fn bookmark_buttons_are_read() {
    let t = parse_bookmark_target("session_mgmt_delete:key:uuid-1:Night: late", "session_mgmt_delete:").unwrap();
    assert_eq!(t.cache_key, "key");
    assert_eq!(t.uuid, "uuid-1");
    assert_eq!(t.name, "Night: late");
    assert!(parse_bookmark_target("session_mgmt_delete:key:uuid", "session_mgmt_delete:").is_none());
    assert!(parse_bookmark_target("other:key:uuid:name", "session_mgmt_delete:").is_none());
}

#[test]
fn bookmarks_come_and_go() {
    let mut v = view("weekly", &["weekly", "monthly"]);
    bookmark_created(&mut v, "Jan 5, 2025", true, true, true);
    assert_eq!(v.current_view, "marker:Jan 5, 2025");
    assert!(has(&v, "marker:Jan 5, 2025"));
    bookmark_renamed(&mut v, "Jan 5, 2025", "Grind", true);
    assert_eq!(v.current_view, "marker:Grind");
    assert!(has(&v, "marker:Grind"));
    assert!(!has(&v, "marker:Jan 5, 2025"));
    bookmark_deleted(&mut v, "Grind", true);
    assert_eq!(v.current_view, "weekly");
    assert!(!has(&v, "marker:Grind"));
    assert_eq!(v.rendered.len(), 2);
}

#[test]
fn other_users_leave_the_view_alone() {
    let mut v = view("marker:a", &["marker:a"]);
    bookmark_deleted(&mut v, "a", false);
    assert_eq!(v.current_view, "marker:a");
    assert!(v.rendered.is_empty());
    let mut v = view("marker:a", &["marker:a"]);
    bookmark_deleted(&mut v, "a", true);
    assert_eq!(v.current_view, "daily");
    let mut v = view("daily", &["daily"]);
    bookmark_created(&mut v, "x", false, false, true);
    assert_eq!(v.current_view, "daily");
    assert_eq!(v.rendered.len(), 1);
    bookmark_created(&mut v, "x", true, false, false);
    assert_eq!(v.current_view, "daily");
    assert_eq!(v.rendered.len(), 1);
}

#[test]
fn bookmark_is_named_after_the_day() {
    match start_bookmark(1_700_000_000_000, true) {
        Some(BookmarkStart::Create { name, key }) => {
            assert_eq!(name, "Nov 14, 2023");
            assert_eq!(key, "marker:Nov 14, 2023");
        },
        other => panic!("bookmark expected, got {other:?}"),
    }
    match start_bookmark(1_704_153_600_000, true) {
        Some(BookmarkStart::Create { name, .. }) => assert_eq!(name, "Jan 2, 2024"),
        other => panic!("bookmark expected, got {other:?}"),
    }
    assert!(matches!(start_bookmark(1_700_000_000_000, false),
        Some(BookmarkStart::NotOwner("You can only create bookmarks for accounts linked to you."))));
    assert!(start_bookmark(i64::MAX, true).is_none());
}
