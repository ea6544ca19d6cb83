use coral::access::AccessRank;
use coral::member_panel::{
    access_level_options, can_manage_role, contribution_text, developer_key_text, personal_key_text, check_access_change, may_act, panel_header, plan_main_view, strikes_text,
    tag_stats_text, AccessChangeError, MemberFacts, Strike,
};

#[test]
fn access_options_below_invoker() {
    let opts = access_level_options(AccessRank::Moderator, AccessRank::Member);
    let labels: Vec<&str> = opts.iter().map(|o| o.label).collect();
    assert_eq!(labels, vec!["Default", "Member", "Helper"]);
    assert!(opts[1].selected);
    assert!(!opts[0].selected);
    assert_eq!(opts[2].description, "Helper access");
    assert!(access_level_options(AccessRank::Default, AccessRank::Default).is_empty());
    assert_eq!(access_level_options(AccessRank::Admin, AccessRank::Admin).len(), 4);
}

#[test]
fn panel_plans() {
    let facts = MemberFacts { key_locked: false, has_api_key: true, tagging_disabled: true, strike_count: 7 };
    let p = plan_main_view(AccessRank::Admin, AccessRank::Member, Some(facts));
    assert!(p.can_modify);
    assert_eq!(p.api_status, Some("Active"));
    assert!(!p.offers_unlock);
    assert!(!p.access_disabled);
    assert!(p.shows_tagging_toggle);
    assert!(p.toggle_enables);
    assert_eq!(p.strike_buttons, 5);
    let locked = MemberFacts { key_locked: true, has_api_key: true, tagging_disabled: false, strike_count: 2 };
    let p = plan_main_view(AccessRank::Helper, AccessRank::Moderator, Some(locked));
    assert!(!p.can_modify);
    assert_eq!(p.api_status, Some("Locked"));
    assert!(p.offers_unlock);
    assert!(p.access_disabled);
    assert!(!p.shows_tagging_toggle);
    assert_eq!(p.strike_buttons, 0);
    let none = MemberFacts { key_locked: false, has_api_key: false, tagging_disabled: false, strike_count: 0 };
    assert_eq!(plan_main_view(AccessRank::Admin, AccessRank::Default, Some(none)).api_status, Some("None"));
    let p = plan_main_view(AccessRank::Moderator, AccessRank::Default, None);
    assert!(p.can_modify);
    assert!(p.api_status.is_none());
    assert!(p.access_options.is_empty());
}

#[test]
fn panel_texts() {
    assert_eq!(panel_header(42), "## User Management \u{2014} <@42>");
    assert_eq!(tag_stats_text(3, -1, 0), "**Tag Stats**\nAccepted: 3\nRejected: -1\nAccurate Verdicts: 0");
    assert_eq!(strikes_text(&[]), "**Strikes** None");
    let strikes = vec![
        Strike { reason: Some("spam".to_string()), struck_by: Some(9) },
        Strike { reason: None, struck_by: None },
    ];
    assert_eq!(strikes_text(&strikes), "**Strikes** (2)\n1. \"spam\" \u{2014} <@9>\n2. \"Unknown\" \u{2014} <@0>");
}

#[test]
fn panel_buttons_need_rank_over_the_member() {
    assert!(may_act(AccessRank::Moderator, AccessRank::Helper, AccessRank::Moderator));
    assert!(!may_act(AccessRank::Moderator, AccessRank::Moderator, AccessRank::Moderator));
    assert!(!may_act(AccessRank::Helper, AccessRank::Default, AccessRank::Moderator));
    assert!(may_act(AccessRank::Helper, AccessRank::Member, AccessRank::Helper));
}

#[test]
fn access_changes() {
    assert_eq!(check_access_change(AccessRank::Admin, AccessRank::Member, "x", true), Ok(None));
    assert_eq!(check_access_change(AccessRank::Admin, AccessRank::Member, "2", true), Ok(Some((2, AccessRank::Helper))));
    assert_eq!(check_access_change(AccessRank::Moderator, AccessRank::Member, "3", true), Err(AccessChangeError::RankTooHigh));
    assert_eq!(check_access_change(AccessRank::Helper, AccessRank::Member, "1", true), Err(AccessChangeError::InsufficientPermissions));
    assert_eq!(check_access_change(AccessRank::Moderator, AccessRank::Moderator, "1", true), Err(AccessChangeError::InsufficientPermissions));
    assert_eq!(check_access_change(AccessRank::Moderator, AccessRank::Default, "1", false), Err(AccessChangeError::NotRegistered));
    assert_eq!(check_access_change(AccessRank::Admin, AccessRank::Default, "-1", true), Ok(Some((-1, AccessRank::Default))));
    assert_eq!(check_access_change(AccessRank::Admin, AccessRank::Default, "70000", true), Ok(None));
}

#[test]
fn roles_below_the_members_highest() {
    assert!(!can_manage_role(None, true, Some(&[10])));
    assert!(can_manage_role(Some(50), true, None));
    assert!(can_manage_role(Some(5), false, Some(&[3, 9, 1])));
    assert!(!can_manage_role(Some(9), false, Some(&[3, 9, 1])));
    assert!(!can_manage_role(Some(0), false, Some(&[])));
    assert!(!can_manage_role(Some(1), false, None));
}

#[test]
fn dashboard_texts() {
    assert_eq!(personal_key_text(true, Some("k")), "### Personal Key\nLocked");
    assert_eq!(personal_key_text(false, Some("k")), "### Personal Key (click to reveal)\n||```k```||");
    assert_eq!(personal_key_text(false, None), "### Personal Key\nNone");
    assert_eq!(developer_key_text(true, "d"), "### Developer Key\nLocked");
    assert_eq!(developer_key_text(false, "d"), "### Developer Key (click to reveal)\n||```d```||");
    assert_eq!(
        contribution_text(12, 3, 1, 2),
        "Added **12** tags to the blacklist\n**3** accepted tag reviews \u{b7} **1** rejected\n**2** accurate verdicts"
    );
}
