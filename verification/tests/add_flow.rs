use coral::add_flow::{pending_tag_id, read_pending_tag_id, read_reason_form_id, reason_form_id};

#[test]
fn a_player_travels_through_the_menu_and_form() {
    let id = pending_tag_id("0a1b2c3d4e5f67890a1b2c3d4e5f6789", false, 77);
    assert_eq!(id, "review_pending_tag:0a1b2c3d4e5f67890a1b2c3d4e5f6789:0:77");
    let (ident, nicked, sub) = read_pending_tag_id(&id);
    assert_eq!((ident.as_str(), nicked.as_str(), sub.as_str()), ("0a1b2c3d4e5f67890a1b2c3d4e5f6789", "0", "77"));
    let form = reason_form_id(&ident, "sniper", &nicked, &sub);
    assert_eq!(form, "review_addplayer_reason:0a1b2c3d4e5f67890a1b2c3d4e5f6789:sniper:0:77");
    assert_eq!(read_reason_form_id(&form), ("0a1b2c3d4e5f67890a1b2c3d4e5f6789".to_string(), "sniper".to_string(), false));
}

#[test]
fn identifiers_with_colons_survive() {
    let id = pending_tag_id("we:ird", true, 5);
    let (ident, nicked, sub) = read_pending_tag_id(&id);
    assert_eq!((ident.as_str(), nicked.as_str(), sub.as_str()), ("we:ird", "1", "5"));
    let form = reason_form_id(&ident, "closet_cheater", &nicked, &sub);
    assert_eq!(read_reason_form_id(&form), ("we:ird".to_string(), "closet_cheater".to_string(), true));
}

#[test]
fn short_identifiers_fall_back() {
    assert_eq!(read_pending_tag_id("review_pending_tag:abc"), (String::new(), "0".to_string(), "abc".to_string()));
    assert_eq!(read_pending_tag_id("other"), (String::new(), "0".to_string(), String::new()));
    assert_eq!(read_reason_form_id("review_addplayer_reason:x:1"), (String::new(), String::new(), false));
    assert_eq!(read_reason_form_id("review_addplayer_reason:t:1:9"), (String::new(), "t".to_string(), true));
}
