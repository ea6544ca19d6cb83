use coral::responses::{build_cubelify_response, build_tooltip, capitalize, player_tags_response, CubelifyResponse, PlayerTagRow, TagResponse};

fn row(tag_type: &str, reason: &str) -> PlayerTagRow {
    PlayerTagRow {
        id: 7,
        tag_type: tag_type.to_string(),
        reason: reason.to_string(),
        added_by: 42,
        added_on_millis: 0,
        hide_username: false,
        reviewed_by: None,
    }
}

#[test]
fn capitalize_first_letter() {
    assert_eq!(capitalize("sniper"), "Sniper");
    assert_eq!(capitalize(""), "");
    assert_eq!(capitalize("élan"), "Élan");
    assert_eq!(capitalize("1abc"), "1abc");
}

#[test]
fn tooltip_with_and_without_reason() {
    assert_eq!(build_tooltip("sniper", ""), "Sniper");
    assert_eq!(build_tooltip("blatant_cheater", "flying"), "Blatant_cheater: flying");
}

#[test]
fn cubelify_tags_and_score() {
    let rows = vec![row("sniper", "camps spawn"), row("unknown", "x"), row("closet_cheater", "")];
    let r = build_cubelify_response(&rows);
    assert_eq!(r.score.value_tenths, 115);
    assert_eq!(r.score.mode, "add");
    assert_eq!(r.tags.len(), 2);
    assert_eq!(r.tags[0].icon, "mdi-alert-octagram");
    assert_eq!(r.tags[0].color, 0xFF0000);
    assert_eq!(r.tags[0].tooltip, "Sniper: camps spawn");
    assert_eq!(r.tags[1].tooltip, "Closet_cheater");
    assert_eq!(r.tags[1].color, 0xFFA500);
    assert!(r.tags[1].text.is_none());
}

#[test]
fn cubelify_error_response() {
    let r = CubelifyResponse::error("Invalid Key", "mdi-key-remove");
    assert_eq!(r.score.value_tenths, 0);
    assert_eq!(r.tags.len(), 1);
    assert_eq!(r.tags[0].icon, "mdi-key-remove");
    assert_eq!(r.tags[0].tooltip, "Invalid Key");
    assert_eq!(r.tags[0].color, 0xFF0000);
}

#[test]
fn tag_response_from_row() {
    let t = TagResponse::from_db(&row("caution", "be careful"));
    assert_eq!(t.id, 7);
    assert_eq!(t.tag_type, "caution");
    assert_eq!(t.reason, "be careful");
    assert_eq!(t.added_by, 42);
    assert_eq!(t.added_on, "1970-01-01T00:00:00+00:00");
    assert!(!t.hide_username);
}

#[test]
fn player_tags_keep_order() {
    let r = player_tags_response("abc".to_string(), &[row("sniper", "a"), row("caution", "b")]);
    assert_eq!(r.uuid, "abc");
    assert_eq!(r.tags.len(), 2);
    assert_eq!(r.tags[0].tag_type, "sniper");
    assert_eq!(r.tags[1].reason, "b");
}
