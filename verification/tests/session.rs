use coral::session::{
    detect_auto_presets, plan_session_views, snapshot_times, BookmarkRef, SnapshotPoint, SnapshotRef, ViewKind,
};
use coral::session::{initial_view, format_duration, last_reset, period_option_label, sanitize, session_placeholder, view_display_name, AutoPreset, Period, SessionType};

#[test]
fn period_keys_and_labels() {
    assert_eq!(Period::Daily.key(), "daily");
    assert_eq!(Period::Weekly.key(), "weekly");
    assert_eq!(Period::Monthly.label(), "Monthly");
    assert_eq!(Period::Yearly.label(), "Yearly");
}

#[test]
fn period_presets() {
    assert_eq!(Period::Daily.fixed_preset(), Some(("past_24h", "Past 24 Hours")));
    assert_eq!(Period::Weekly.fixed_preset(), Some(("past_7d", "Past 7 Days")));
    assert_eq!(Period::Monthly.fixed_preset(), Some(("past_30d", "Past 30 Days")));
    assert_eq!(Period::Yearly.fixed_preset(), None);
}

#[test]
fn period_spans_in_hours() {
    assert_eq!(Period::Daily.duration(), 24);
    assert_eq!(Period::Yearly.duration(), 8760);
    assert_eq!(Period::Weekly.staleness(), 12);
    assert_eq!(Period::Monthly.staleness(), 24);
}

#[test]
fn period_session_types() {
    assert!(matches!(Period::Daily.to_session_type(), SessionType::Daily));
    assert!(matches!(Period::Yearly.to_session_type(), SessionType::Yearly));
}

#[test]
fn sanitize_escapes_markdown() {
    assert_eq!(sanitize("a*b_c"), "a\\*b\\_c");
    assert_eq!(sanitize("[x]|`y`"), "\\[x\\]\\|\\`y\\`");
    assert_eq!(sanitize("plain name"), "plain name");
}

#[test]
fn display_name_of_views() {
    assert_eq!(view_display_name("marker:before finals"), "before finals");
    assert_eq!(view_display_name("daily"), "daily");
}

#[test]
fn durations_as_text() {
    assert_eq!(format_duration(2 * 86400 + 5), "2d");
    assert_eq!(format_duration(3 * 3600 + 25 * 60), "3h 25m");
    assert_eq!(format_duration(5 * 3600), "5h");
    assert_eq!(format_duration(59 * 60 + 59), "59m");
    assert_eq!(format_duration(30), "1m");
    assert_eq!(format_duration(-600), "1m");
}

#[test]
fn picker_placeholders() {
    let presets = vec![AutoPreset { key: "since_login".to_string(), label: "Since Login".to_string(), timestamp_millis: 0 }];
    assert_eq!(session_placeholder("weekly", &presets), "Weekly");
    assert_eq!(session_placeholder("past_7d", &presets), "Past 7 Days");
    assert_eq!(session_placeholder("preset:since_login", &presets), "Since Login");
    assert_eq!(session_placeholder("marker:gg", &presets), "gg");
    assert_eq!(session_placeholder("other", &presets), "other");
}

#[test]
fn periods_reset_at_half_past_nine_eastern() {
    let now = 1736942400000; // 2025-01-15 12:00 UTC, a Wednesday
    assert_eq!(last_reset(Period::Daily, now), Some(1736865000000));
    assert_eq!(last_reset(Period::Weekly, now), Some(1736692200000));
    assert_eq!(last_reset(Period::Monthly, now), Some(1735741800000));
    assert_eq!(last_reset(Period::Yearly, now), Some(1735741800000));
    assert_eq!(period_option_label(Period::Daily, now).unwrap(), "Daily (21h 30m)");
    assert_eq!(period_option_label(Period::Weekly, now).unwrap(), "Weekly (2d)");
}

#[test]
fn summer_resets_come_an_hour_earlier() {
    let now = 1751659200000; // 2025-07-04 20:00 UTC, a Friday
    assert_eq!(last_reset(Period::Daily, now), Some(1751635800000));
    assert_eq!(last_reset(Period::Weekly, now), Some(1751203800000));
    assert_eq!(last_reset(Period::Monthly, now), Some(1751376600000));
    assert_eq!(last_reset(Period::Yearly, now), Some(1735741800000));
}

#[test]
fn a_reset_not_yet_reached_falls_back_a_period() {
    assert_eq!(last_reset(Period::Monthly, 1740834000000), Some(1738420200000));
    assert_eq!(last_reset(Period::Yearly, 1735700400000), Some(1704119400000));
    assert_eq!(last_reset(Period::Daily, i64::MIN), None);
}

fn point(ts: i64, xp: u64, losses: u64) -> SnapshotPoint {
    SnapshotPoint { timestamp_millis: ts, experience: xp, losses }
}

#[test]
fn automatic_presets() {
    let snaps = vec![point(1, 100, 5), point(2, 480, 5), point(3, 520, 6), point(4, 900, 6), point(5, 950, 8), point(6, 990, 8)];
    let presets = detect_auto_presets(&snaps, 150, 500);
    assert_eq!(presets.len(), 2);
    assert_eq!(presets[0].key, "prestige_1");
    assert_eq!(presets[0].label, "Since 100\u{272B}");
    assert_eq!(presets[0].timestamp_millis, 3);
    assert_eq!(presets[1].key, "last_loss");
    assert_eq!(presets[1].label, "Since Last Loss");
    assert_eq!(presets[1].timestamp_millis, 5);
    let presets = detect_auto_presets(&snaps, 99, 500);
    assert_eq!(presets.len(), 1);
    assert_eq!(presets[0].key, "last_loss");
    assert!(detect_auto_presets(&[], 500, 0).is_empty());
    assert!(detect_auto_presets(&[point(1, 10, 1)], 0, 0).is_empty());
}

#[test]
fn session_views_are_planned() {
    let now = 1736942400000; // 2025-01-15 12:00 UTC
    let fresh = |ts: i64| Some(SnapshotRef { timestamp_millis: ts, readable: true });
    let snaps = vec![
        fresh(1736865000000 - 3_600_000),       // daily: exactly at the staleness edge
        fresh(1736692200000 - 12 * 3_600_000 - 1), // weekly: one millisecond too old
        None,                                   // monthly: nothing
        Some(SnapshotRef { timestamp_millis: 0, readable: false }), // yearly: unreadable
        fresh(0),                               // past 24 hours
        None,                                   // past 7 days
        fresh(0),                               // past 30 days
        fresh(5),                               // bookmark
    ];
    let marks = vec![BookmarkRef { name: "grind".to_string(), snapshot_millis: 42 }];
    let plans = plan_session_views(now, &snaps, &marks, &[]);
    let keys: Vec<&str> = plans.iter().map(|p| p.key.as_str()).collect();
    assert_eq!(keys, vec!["daily", "past_24h", "past_30d", "marker:grind"]);
    assert_eq!(plans[0].kind, ViewKind::Period(Period::Daily));
    assert_eq!(plans[0].target_millis, 1736865000000);
    assert_eq!(plans[1].target_millis, now - 24 * 3_600_000);
    assert_eq!(plans[2].kind, ViewKind::Window(Period::Monthly));
    assert_eq!(plans[2].snapshot, 6);
    assert_eq!(plans[3].kind, ViewKind::Bookmark(0));
    assert_eq!(plans[3].target_millis, 42);
}

#[test]
fn snapshot_times_follow_the_views() {
    let now = 1736942400000;
    let marks = vec![BookmarkRef { name: "a".to_string(), snapshot_millis: 11 }];
    let presets = vec![AutoPreset { key: "last_loss".to_string(), label: "Since Last Loss".to_string(), timestamp_millis: 22 }];
    let times = snapshot_times(now, &marks, &presets);
    assert_eq!(times.len(), 9);
    assert_eq!(times[0], last_reset(Period::Daily, now));
    assert_eq!(times[3], last_reset(Period::Yearly, now));
    assert_eq!(times[4], Some(now - 24 * 3_600_000));
    assert_eq!(times[5], Some(now - 7 * 24 * 3_600_000));
    assert_eq!(times[6], Some(now - 30 * 24 * 3_600_000));
    assert_eq!(times[7], Some(11));
    assert_eq!(times[8], Some(22));
}

#[test]
fn first_view_is_the_first_rendered_period() {
    assert_eq!(initial_view(&[]), "daily");
    assert_eq!(initial_view(&["monthly".to_string(), "weekly".to_string()]), "weekly");
    assert_eq!(initial_view(&["marker:x".to_string(), "yearly".to_string()]), "yearly");
    assert_eq!(initial_view(&["past_24h".to_string()]), "daily");
}
