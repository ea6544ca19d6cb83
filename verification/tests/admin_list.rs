use coral::admin_list::{attach_tags, plan_player_list, PanelPlayer, PanelTag, PlayerFilter};

fn player(id: i64, uuid: &str) -> PanelPlayer {
    PanelPlayer { id, uuid: uuid.to_string(), is_locked: false, lock_reason: None, locked_by: None, locked_at_millis: None }
}

fn tag(id: i64, player_id: i64, tag_type: &str) -> PanelTag {
    PanelTag {
        id,
        player_id,
        tag_type: tag_type.to_string(),
        reason: String::new(),
        added_by: 1,
        added_on_millis: 0,
        hide_username: false,
        removed_by: None,
        removed_on_millis: None,
    }
}

#[test]
fn list_requests_are_planned() {
    let p = plan_player_list(None, None, None, None);
    assert!(matches!(p.filter, PlayerFilter::All));
    assert_eq!((p.limit, p.offset, p.runs), (50, 0, true));
    let p = plan_player_list(Some("ab"), None, Some(500), Some(20));
    match p.filter {
        PlayerFilter::Search { pattern } => assert_eq!(pattern, "%ab%"),
        _ => panic!("expected a search"),
    }
    assert_eq!((p.limit, p.offset), (200, 20));
    let p = plan_player_list(Some("ab"), Some("sniper"), Some(10), None);
    match p.filter {
        PlayerFilter::SearchTagged { pattern, tag_type } => {
            assert_eq!(pattern, "%ab%");
            assert_eq!(tag_type, "sniper");
        },
        _ => panic!("expected both"),
    }
    assert_eq!(p.limit, 10);
    let p = plan_player_list(None, Some(""), None, None);
    assert!(!p.runs);
    assert!(plan_player_list(Some(""), None, None, None).runs);
}

#[test]
fn tags_are_grouped_under_their_players() {
    let players = vec![player(1, "u1"), player(2, "u2"), player(3, "u3")];
    let tags = vec![tag(10, 2, "sniper"), tag(11, 1, "caution"), tag(12, 2, "closet_cheater")];
    let listed = attach_tags(&players, &tags);
    assert_eq!(listed.len(), 3);
    let ids: Vec<Vec<i64>> = listed.iter().map(|(_, ts)| ts.iter().map(|t| t.id).collect()).collect();
    assert_eq!(ids, vec![vec![11], vec![10, 12], vec![]]);
    assert_eq!(listed[1].0.uuid, "u2");
}
