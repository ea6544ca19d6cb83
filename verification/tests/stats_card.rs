use coral::stats_card::{
    all_streak_modes, extract_tag_icons, mode_key, streak_entry, winstreak_response, StreakMode, TagInfo,
};

#[test]
fn unknown_tags_draw_no_icon() {
    let tags = vec![
        TagInfo { tag_type: "sniper".to_string() },
        TagInfo { tag_type: "nothing".to_string() },
        TagInfo { tag_type: "closet_cheater".to_string() },
    ];
    let icons = extract_tag_icons(&tags);
    assert_eq!(icons.len(), 2);
    let sniper = coral::tags::lookup("sniper").unwrap();
    let closet = coral::tags::lookup("closet_cheater").unwrap();
    assert_eq!(icons[0], (sniper.icon.to_string(), sniper.color));
    assert_eq!(icons[1], (closet.icon.to_string(), closet.color));
    assert!(extract_tag_icons(&[]).is_empty());
}

#[test]
fn modes_and_their_keys() {
    let modes = all_streak_modes();
    let keys: Vec<&str> = modes.iter().map(|m| mode_key(*m)).collect();
    assert_eq!(keys, vec!["overall", "solos", "doubles", "threes", "fours", "4v4", "core"]);
}

#[test]
fn streaks_are_listed_by_mode() {
    let e = streak_entry(12, true, 0);
    assert_eq!(e.value, 12);
    assert!(e.approximate);
    assert_eq!(e.readable, "Jan 01, 1970 00:00 UTC");
    let r = winstreak_response(
        "abc".to_string(),
        vec![(StreakMode::FourVFour, vec![e.clone()]), (StreakMode::Core, vec![])],
    );
    assert_eq!(r.uuid, "abc");
    assert_eq!(r.modes.len(), 2);
    assert_eq!(r.modes[0].0, "4v4");
    assert_eq!(r.modes[0].1.len(), 1);
    assert_eq!(r.modes[1].0, "core");
    assert!(r.modes[1].1.is_empty());
}
