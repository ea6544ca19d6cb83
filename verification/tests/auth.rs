use coral::auth::{
    extract_api_key, gate_finish, gate_member, gate_start, is_internal_key, overlay_key_check, overlay_rate_check,
    Gate, GateOutcome, KeyLookup, RateCheck,
};

#[test]
fn keys_come_from_the_header_first() {
    assert_eq!(extract_api_key(Some(Some("abc")), Some("key=zzz")), Some("abc".to_string()));
    assert_eq!(extract_api_key(Some(None), Some("key=zzz")), None);
    assert_eq!(extract_api_key(None, Some("a=1&key=zzz&key=yyy")), Some("zzz".to_string()));
    assert_eq!(extract_api_key(None, Some("a=1&b=2")), None);
    assert_eq!(extract_api_key(None, Some("key=")), Some(String::new()));
    assert_eq!(extract_api_key(None, None), None);
}

#[test]
fn gates() {
    assert!(is_internal_key(Some("secret"), "secret"));
    assert!(!is_internal_key(None, "secret"));
    assert_eq!(gate_start(Gate::InternalOrAdmin, None, Some("s")), Some(GateOutcome::Refused(401)));
    assert_eq!(gate_start(Gate::InternalOrAdmin, Some("s"), Some("s")), Some(GateOutcome::Internal));
    assert_eq!(gate_start(Gate::Moderator, Some("s"), Some("s")), None);
    assert_eq!(gate_start(Gate::InternalOrMember, Some("k"), Some("s")), None);
    assert_eq!(gate_member(KeyLookup::Failed), Err(GateOutcome::Refused(500)));
    assert_eq!(gate_member(KeyLookup::Unknown), Err(GateOutcome::Refused(401)));
    assert_eq!(gate_member(KeyLookup::Found { access_level: 4, key_locked: true }), Err(GateOutcome::Refused(403)));
    assert_eq!(gate_member(KeyLookup::Found { access_level: 2, key_locked: false }), Ok(1200));
    assert_eq!(gate_finish(Gate::InternalOrAdmin, RateCheck::Allowed, 3), GateOutcome::Refused(403));
    assert_eq!(gate_finish(Gate::InternalOrAdmin, RateCheck::Allowed, 4), GateOutcome::Member);
    assert_eq!(gate_finish(Gate::Moderator, RateCheck::Allowed, 3), GateOutcome::Member);
    assert_eq!(gate_finish(Gate::InternalOrMember, RateCheck::Allowed, 0), GateOutcome::Member);
    assert_eq!(gate_finish(Gate::InternalOrMember, RateCheck::Exceeded, 4), GateOutcome::Refused(429));
    assert_eq!(gate_finish(Gate::Moderator, RateCheck::Failed, 4), GateOutcome::Refused(500));
}

#[test]
fn overlay_checks() {
    let e = overlay_key_check(KeyLookup::Unknown).err().unwrap();
    assert_eq!(e.tags[0].tooltip, "Invalid Key");
    assert_eq!(e.tags[0].icon, "mdi-key-remove");
    let e = overlay_key_check(KeyLookup::Found { access_level: 1, key_locked: true }).err().unwrap();
    assert_eq!(e.tags[0].tooltip, "Your key has been locked");
    assert_eq!(overlay_key_check(KeyLookup::Found { access_level: 1, key_locked: false }).ok(), Some(1));
    assert!(overlay_rate_check(Some(Some(600)), 0).is_ok());
    let e = overlay_rate_check(Some(Some(601)), 0).err().unwrap();
    assert_eq!(e.tags[0].tooltip, "Rate limit exceeded");
    assert!(overlay_rate_check(Some(Some(1200)), 3).is_ok());
    assert!(overlay_rate_check(Some(None), 0).is_ok());
    let e = overlay_rate_check(None, 4).err().unwrap();
    assert_eq!(e.tags[0].tooltip, "Internal Error");
}
