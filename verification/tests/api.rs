use coral::access::AccessRank;
use coral::api::{
    check_add_tag, check_batch_size, check_moderator, check_overwrite_request,
    check_overwrite_target, check_player_lock, check_remove_tag, custom_session_start,
    guild_lookup, parse_duration, plan_add_write, plan_overwrite_write, snapshot_limit, validate_marker_name, validate_reason,
    validate_tag_type, ApiError, GuildLookup, SessionStart,
};

fn bad_request(r: Result<(), ApiError>) -> String {
    match r {
        Err(ApiError::BadRequest(m)) => m,
        other => panic!("expected a bad request, got {other:?}"),
    }
}

#[test]
fn tag_type_validation() {
    assert!(validate_tag_type("sniper").is_ok());
    assert!(validate_tag_type("caution").is_ok());
    assert_eq!(
        bad_request(validate_tag_type("confirmed_cheater")),
        "invalid tag type 'confirmed_cheater', allowed: sniper, blatant_cheater, closet_cheater, replays_needed, caution"
    );
}

#[test]
fn reason_and_marker_lengths() {
    assert!(validate_reason(&"a".repeat(500)).is_ok());
    assert_eq!(bad_request(validate_reason(&"a".repeat(501))), "reason exceeds maximum length of 500 characters");
    assert!(validate_reason(&"\u{e9}".repeat(251)).is_err());
    assert!(validate_marker_name("x").is_ok());
    assert_eq!(bad_request(validate_marker_name("")), "marker name must be 1-32 characters");
    assert!(validate_marker_name(&"m".repeat(33)).is_err());
}

#[test]
fn adding_through_the_api() {
    assert!(check_add_tag(false, "0a1b2c3d4e5f6789abcdef0123456789", "sniper", "r").is_ok());
    assert!(matches!(check_add_tag(true, "u", "sniper", "r"), Err(ApiError::Forbidden(_))));
    assert!(matches!(check_add_tag(false, &"u".repeat(37), "sniper", "r"), Err(ApiError::BadRequest(_))));
    assert!(check_add_tag(false, "u", "nope", "r").is_err());
}

#[test]
fn locks_and_removals() {
    assert!(check_player_lock(false, AccessRank::Default).is_ok());
    assert!(matches!(check_player_lock(true, AccessRank::Member), Err(ApiError::Forbidden(m)) if m == "player is locked"));
    assert!(check_player_lock(true, AccessRank::Helper).is_ok());
    assert!(check_remove_tag(AccessRank::Default, 5, 5, "sniper").is_ok());
    assert!(check_remove_tag(AccessRank::Default, 5, 6, "sniper").is_err());
    assert!(check_remove_tag(AccessRank::Helper, 5, 6, "sniper").is_ok());
    assert!(check_moderator(AccessRank::Moderator).is_ok());
    assert!(matches!(check_moderator(AccessRank::Helper), Err(ApiError::Forbidden(m)) if m == "moderator access required"));
}

#[test]
fn overwrites() {
    assert!(check_overwrite_request(false, "sniper", "r").is_ok());
    assert!(check_overwrite_request(true, "sniper", "r").is_err());
    assert!(check_overwrite_target("sniper", "r", "sniper", "r", 1, 1, AccessRank::Default).is_ok());
    assert!(matches!(
        check_overwrite_target("sniper", "r", "sniper", "changed", 1, 1, AccessRank::Admin),
        Err(ApiError::Conflict(m)) if m == "tag has been modified since you last viewed it"
    ));
    assert!(matches!(
        check_overwrite_target("sniper", "r", "sniper", "r", 1, 2, AccessRank::Member),
        Err(ApiError::Forbidden(m)) if m == "you can only overwrite your own tags"
    ));
}

#[test]
fn batch_sizes_and_limits() {
    assert_eq!(bad_request(check_batch_size(0)), "uuids array is empty");
    assert!(check_batch_size(100).is_ok());
    assert_eq!(bad_request(check_batch_size(101)), "batch size exceeds maximum of 100");
    assert_eq!(snapshot_limit(None), 100);
    assert_eq!(snapshot_limit(Some(20)), 20);
    assert_eq!(snapshot_limit(Some(10_000)), 500);
}

#[test]
fn durations_in_hours() {
    assert_eq!(parse_duration("48h"), Some(48));
    assert_eq!(parse_duration("10d"), Some(240));
    assert_eq!(parse_duration("2w"), Some(336));
    assert_eq!(parse_duration("+3h"), Some(3));
    assert_eq!(parse_duration("0h"), None);
    assert_eq!(parse_duration("-1d"), None);
    assert_eq!(parse_duration("5m"), None);
    assert_eq!(parse_duration(""), None);
    assert_eq!(parse_duration("h"), None);
}

#[test]
fn custom_session_parameters() {
    assert!(matches!(custom_session_start(true, false, false), Ok(SessionStart::Duration)));
    assert!(matches!(custom_session_start(false, true, false), Ok(SessionStart::From)));
    assert!(matches!(custom_session_start(false, false, true), Ok(SessionStart::Marker)));
    assert_eq!(
        bad_request(custom_session_start(true, true, false).map(|_| ())),
        "specify exactly one of 'duration', 'from', or 'marker'"
    );
    assert!(custom_session_start(false, false, false).is_err());
}

#[test]
fn guild_lookup_modes() {
    assert!(matches!(guild_lookup(None), Ok(GuildLookup::Auto)));
    assert!(matches!(guild_lookup(Some("name")), Ok(GuildLookup::ByName)));
    assert!(matches!(guild_lookup(Some("player")), Ok(GuildLookup::ByPlayer)));
    assert!(matches!(guild_lookup(Some("uuid")), Err(ApiError::BadRequest(m)) if m == "invalid 'by' parameter: uuid"));
}

#[test]
fn add_route_writes_the_requested_row() {
    const U: &str = "0a1b2c3d4e5f6789abcdef0123456789";
    let w = plan_add_write(U, "sniper", "camps", true, 77, false, AccessRank::Member).unwrap();
    assert_eq!(w.uuid, U);
    assert_eq!(w.tag_type, "sniper");
    assert_eq!(w.reason, "camps");
    assert_eq!(w.added_by, 77);
    assert!(w.hide);
    assert!(matches!(plan_add_write(U, "sniper", "x", false, 1, true, AccessRank::Member), Err(ApiError::Forbidden(m)) if m == "player is locked"));
    assert!(plan_add_write(U, "sniper", "x", false, 1, true, AccessRank::Helper).is_ok());
}

#[test]
fn overwrite_route_replaces_the_tag() {
    const U: &str = "0a1b2c3d4e5f6789abcdef0123456789";
    let w = plan_overwrite_write(U, 9, "sniper", "old", "sniper", "old", 5, 5, AccessRank::Member, "closet_cheater", "new", false).unwrap();
    assert_eq!(w.remove_tag_id, 9);
    assert_eq!(w.removed_by, 5);
    assert_eq!(w.add.tag_type, "closet_cheater");
    assert_eq!(w.add.reason, "new");
    assert_eq!(w.add.added_by, 5);
    assert!(!w.add.hide);
    assert!(matches!(plan_overwrite_write(U, 9, "sniper", "old", "sniper", "older", 5, 5, AccessRank::Admin, "caution", "n", false), Err(ApiError::Conflict(_))));
    assert!(matches!(plan_overwrite_write(U, 9, "sniper", "old", "sniper", "old", 5, 6, AccessRank::Member, "caution", "n", false), Err(ApiError::Forbidden(_))));
}
