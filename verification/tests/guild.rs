use coral::guild::{build_response, calculate_level, find_member, GuildData, GuildMember};

#[test]
fn guild_levels_from_experience() {
    assert_eq!(calculate_level(0), 0);
    assert_eq!(calculate_level(99_999), 0);
    assert_eq!(calculate_level(100_000), 1);
    assert_eq!(calculate_level(250_000), 2);
    assert_eq!(calculate_level(22_999_999), 14);
    assert_eq!(calculate_level(23_000_000), 15);
    assert_eq!(calculate_level(26_000_000), 16);
    assert_eq!(calculate_level(32_000_000), 18);
}

fn member(uuid: &str) -> GuildMember {
    GuildMember {
        uuid: Some(uuid.to_string()),
        rank: Some("Officer".to_string()),
        joined: Some(0),
        exp_history: Some(vec![Some(10), None, Some(32)]),
    }
}

#[test]
fn member_standing() {
    let members = Some(vec![member("aaa"), member("bbb")]);
    let info = find_member(&members, "bbb").unwrap();
    assert_eq!(info.uuid, "bbb");
    assert_eq!(info.rank.as_deref(), Some("Officer"));
    assert_eq!(info.joined, Some(0));
    assert_eq!(info.joined_readable.as_deref(), Some("Jan 01, 1970 00:00 UTC"));
    assert_eq!(info.weekly_gexp, Some(42));
    assert!(find_member(&members, "ccc").is_none());
    assert!(find_member(&None, "aaa").is_none());
}

#[test]
fn guild_answer() {
    let g = GuildData {
        id: Some("g1".to_string()),
        name: Some("Coral".to_string()),
        tag: Some("CRL".to_string()),
        tag_color: None,
        exp: Some(250_000),
        created: None,
        members: Some(vec![member("aaa"), member("bbb"), member("ccc")]),
    };
    let r = build_response(&g, Some("aaa"));
    assert_eq!(r.id, "g1");
    assert_eq!(r.name, "Coral");
    assert_eq!(r.tag.as_deref(), Some("CRL"));
    assert_eq!(r.level, 2);
    assert_eq!(r.members, 3);
    assert_eq!(r.experience, 250_000);
    assert!(r.created_readable.is_none());
    assert_eq!(r.player.unwrap().uuid, "aaa");
    let bare = GuildData { id: None, name: None, tag: None, tag_color: None, exp: None, created: Some(0), members: None };
    let r = build_response(&bare, None);
    assert_eq!(r.id, "");
    assert_eq!(r.level, 0);
    assert_eq!(r.members, 0);
    assert_eq!(r.created_readable.as_deref(), Some("Jan 01, 1970 00:00 UTC"));
    assert!(r.player.is_none());
}
