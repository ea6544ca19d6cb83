use coral::responses::PlayerTagRow;
use coral::tag_view::{names_to_resolve, tag_view_text, timestamp_seconds, view_footer, view_header};

fn row(tag_type: &str, added_by: i64, hide: bool, reviewed_by: Option<Vec<i64>>) -> PlayerTagRow {
    PlayerTagRow {
        id: 1,
        tag_type: tag_type.to_string(),
        reason: "r".to_string(),
        added_by,
        added_on_millis: 1_700_000_000_500,
        hide_username: hide,
        reviewed_by,
    }
}

#[test]
fn names_resolved_once_each() {
    let rows = vec![
        row("sniper", 5, false, None),
        row("caution", 6, true, Some(vec![7, 5])),
        row("closet_cheater", 7, false, Some(vec![8, 8])),
    ];
    assert_eq!(names_to_resolve(&rows), vec![5, 7, 8]);
    assert!(names_to_resolve(&[]).is_empty());
}

#[test]
fn timestamps_round_down() {
    assert_eq!(timestamp_seconds(1_700_000_000_500), 1_700_000_000);
    assert_eq!(timestamp_seconds(0), 0);
    assert_eq!(timestamp_seconds(-1), -1);
    assert_eq!(timestamp_seconds(-1000), -1);
    assert_eq!(timestamp_seconds(-1001), -2);
    assert_eq!(timestamp_seconds(i64::MIN), i64::MIN.div_euclid(1000));
}

#[test]
fn tag_texts() {
    let names = vec![(5, "mod".to_string())];
    assert_eq!(
        tag_view_text(&row("sniper", 5, false, None), "camps", &names, false),
        "<:sniper:1459106167270932618> Sniper\n> camps\n> -# **\\- Added by `@mod` <t:1700000000:R>**"
    );
    assert_eq!(
        tag_view_text(&row("confirmed_cheater", 9, true, Some(vec![5, 6])), "x", &names, true),
        "<:confirmedcheater:1459106129765204049> Confirmed Cheater <:evidencefound:1482666860225888346>\n> x\n> -# **\\- <t:1700000000:R>**\n> -# **\\- Reviewed by `@mod`, `@6`**"
    );
    assert!(tag_view_text(&row("confirmed_cheater", 9, true, None), "x", &names, false).contains("<:noevidence:1482666258938990696>"));
}

#[test]
fn card_header_and_footer() {
    assert_eq!(view_header("Steve", false), "## <:tag:1459106270207545417> Tagged User\nIGN - `Steve`");
    assert_eq!(view_header("Steve", true), "## <:tag:1459106270207545417> Tagged User \u{1F512}\nIGN - `Steve`");
    assert_eq!(view_footer("a-b", None), "-# UUID: a-b");
    assert_eq!(view_footer("a-b", Some("https://t")), "-# UUID: a-b | [Evidence](https://t)");
}
