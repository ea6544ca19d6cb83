use coral::accounts::{check_link, is_discord_linked, HypixelLink, LinkCheck, LinkedPlayer};

#[test]
fn discord_link_ignores_case() {
    assert!(is_discord_linked(Some("CoralUser"), "coraluser"));
    assert!(!is_discord_linked(Some("someone"), "coraluser"));
    assert!(!is_discord_linked(None, "coraluser"));
}

fn player(hypixel: Option<HypixelLink>) -> LinkedPlayer {
    LinkedPlayer { uuid: "u1".to_string(), username: "steve".to_string(), hypixel }
}

#[test]
fn link_outcomes() {
    assert!(matches!(check_link(None, "x"), LinkCheck::PlayerNotFound));
    assert!(matches!(check_link(Some(player(None)), "x"), LinkCheck::HypixelNotFound));
    let linked = HypixelLink { displayname: Some("Steve".to_string()), discord: Some("Me".to_string()) };
    match check_link(Some(player(Some(linked))), "me") {
        LinkCheck::Verified { uuid, username } => {
            assert_eq!(uuid, "u1");
            assert_eq!(username, "Steve");
        },
        _ => panic!("expected a verified link"),
    }
    let unnamed = HypixelLink { displayname: None, discord: Some("me".to_string()) };
    match check_link(Some(player(Some(unnamed))), "me") {
        LinkCheck::Verified { username, .. } => assert_eq!(username, "steve"),
        _ => panic!("expected a verified link"),
    }
    let other = HypixelLink { displayname: None, discord: Some("you".to_string()) };
    match check_link(Some(player(Some(other))), "me") {
        LinkCheck::NotVerified { uuid } => assert_eq!(uuid, "u1"),
        _ => panic!("expected an unverified link"),
    }
}
