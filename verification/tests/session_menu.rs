use coral::session::{AutoPreset, BookmarkRef};
use coral::session_menu::{plan_session_options, OptionDescription};

const NOW: i64 = 1_700_000_000_000;

fn marker(name: &str) -> BookmarkRef {
    BookmarkRef { name: name.to_string(), snapshot_millis: NOW }
}

#[test]
fn picker_lists_periods_presets_markers_and_create() {
    let presets = vec![
        AutoPreset { key: "prestige".to_string(), label: "Since Prestige".to_string(), timestamp_millis: NOW - 2 * 3_600_000 },
        AutoPreset { key: "loss".to_string(), label: "Since Loss".to_string(), timestamp_millis: NOW - 3 * 86_400_000 },
    ];
    let mut markers = vec![marker("a*b")];
    for i in 0..30 {
        markers.push(marker(&format!("m{i}")));
    }
    let opts = plan_session_options("ck", "preset:prestige", NOW, &markers, &presets, true).unwrap();
    assert_eq!(opts.len(), 25);
    let values: Vec<&str> = opts.iter().take(7).map(|o| o.value.as_str()).collect();
    assert_eq!(values, vec!["daily:ck", "past_24h:ck", "weekly:ck", "past_7d:ck", "monthly:ck", "past_30d:ck", "yearly:ck"]);
    assert!(opts[0].label.starts_with("Daily ("));
    assert_eq!(opts[1].label, "Past 24 Hours");
    assert!(matches!(&opts[1].description, OptionDescription::StoredOrNoData(k) if k == "past_24h"));
    assert_eq!(opts[7].label, "Since Prestige (2h)");
    assert_eq!(opts[7].value, "preset:ck:prestige");
    assert!(opts[7].selected);
    assert_eq!(opts[8].label, "Since Loss (3d)");
    assert!(!opts[8].selected);
    assert_eq!(opts[9].label, "\"a\\*b\" (1m)");
    assert_eq!(opts[9].value, "marker:ck:a*b");
    assert!(matches!(&opts[9].description, OptionDescription::Stored(k) if k == "marker:a*b"));
    assert_eq!(opts[23].value, "marker:ck:m13");
    assert_eq!(opts[24].value, "create:ck");
    assert_eq!(opts[24].label, "Create New Bookmark");
    assert!(opts.iter().filter(|o| o.selected).count() == 1);
}

#[test]
fn without_owner_the_create_option_gives_its_slot_to_a_marker() {
    let markers: Vec<BookmarkRef> = (0..40).map(|i| marker(&format!("m{i}"))).collect();
    let opts = plan_session_options("k", "weekly", NOW, &markers, &[], false).unwrap();
    assert_eq!(opts.len(), 25);
    assert!(opts[2].selected);
    assert_eq!(opts[24].value, "marker:k:m17");
    let few = plan_session_options("k", "daily", NOW, &markers[..2], &[], true).unwrap();
    assert_eq!(few.len(), 10);
}
