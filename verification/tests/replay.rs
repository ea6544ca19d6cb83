use coral::replay::{is_dashed_uuid, looks_like_uuid, parse_replay, Replay};

const ID: &str = "0a1b2c3d-4e5f-6789-abcd-ef0123456789";

#[test]
fn parse_replay_with_timestamp() {
    let r = parse_replay(&format!("  /replay {ID} #12345  ")).unwrap();
    assert_eq!(r.id, ID);
    assert_eq!(r.timestamp.as_deref(), Some("#12345"));
}

#[test]
fn parse_replay_without_timestamp() {
    let r = parse_replay(&format!("watch {ID} please")).unwrap();
    assert_eq!(r.id, ID);
    assert_eq!(r.timestamp, None);
}

#[test]
fn parse_replay_needs_dashed_uuid() {
    assert!(parse_replay("/replay 0a1b2c3d4e5f6789abcdef0123456789 #1").is_none());
    assert!(parse_replay("").is_none());
}

#[test]
fn lone_hash_is_no_timestamp() {
    let r = parse_replay(&format!("{ID} # #7")).unwrap();
    assert_eq!(r.timestamp.as_deref(), Some("#7"));
}

#[test]
fn format_command_forms() {
    let with = Replay { id: ID.to_string(), timestamp: Some("#99".to_string()) };
    assert_eq!(with.format_command(), format!("/replay {ID} #99"));
    let without = Replay { id: ID.to_string(), timestamp: None };
    assert_eq!(without.format_command(), format!("/replay {ID}"));
}

#[test]
fn format_then_parse_gives_replay_back() {
    let r = Replay { id: ID.to_string(), timestamp: Some("#4242".to_string()) };
    let back = parse_replay(&r.format_command()).unwrap();
    assert_eq!(back.id, r.id);
    assert_eq!(back.timestamp, r.timestamp);
}

#[test]
fn dashed_uuid_shapes() {
    assert!(is_dashed_uuid(ID));
    assert!(is_dashed_uuid("0A1B2C3D-4E5F-6789-ABCD-EF0123456789"));
    assert!(!is_dashed_uuid("0a1b2c3d-4e5f-6789-abcd-ef012345678"));
    assert!(!is_dashed_uuid("0a1b2c3d44e5f-6789-abcd-ef0123456789"));
    assert!(!is_dashed_uuid("0a1b2c3d-4e5f-6789-abcd-ef012345678g"));
}

#[test]
fn uuid_with_or_without_dashes() {
    assert!(looks_like_uuid(ID));
    assert!(looks_like_uuid("0a1b2c3d4e5f6789abcdef0123456789"));
    assert!(!looks_like_uuid("Notch"));
    assert!(!looks_like_uuid("0a1b2c3d4e5f6789abcdef012345678z"));
}

#[test]
fn dashed_uuid_also_looks_like_uuid() {
    assert!(is_dashed_uuid(ID) && looks_like_uuid(ID));
    assert!(looks_like_uuid("9f2fa87ded0b471ba2e6cb42777beec8"));
    assert!(!looks_like_uuid("9f2fa87d-ed0b-471b-a2e6-cb42777beec"));
    assert!(looks_like_uuid("--9f2fa87ded0b471ba2e6cb42777beec8-"));
}
