use coral::responses::PlayerTagRow;
use coral::access::{
    assignable_ranks, can_remove_tag, check_add_command, context_prefix, is_valid_minecraft_name,
    plan_direct_add, rate_limit_for_access, resolve_can_modify, review_after_resolve,
    tc_type_options, AccessRank, AddError, AddPlan, TagChangeEntry,
};

#[test]
fn rate_limits_by_access_level() {
    assert_eq!(rate_limit_for_access(0), 600);
    assert_eq!(rate_limit_for_access(1), 600);
    assert_eq!(rate_limit_for_access(2), 1200);
    assert_eq!(rate_limit_for_access(3), 1200);
    assert_eq!(rate_limit_for_access(4), 3000);
    assert_eq!(rate_limit_for_access(100), 3000);
    assert_eq!(rate_limit_for_access(-5), 600);
}

#[test]
fn rank_levels() {
    assert_eq!(AccessRank::Moderator.to_level(), 3);
    assert!(matches!(AccessRank::from_level(2), AccessRank::Helper));
    assert!(AccessRank::Admin.at_least(AccessRank::Helper));
    assert!(!AccessRank::Member.at_least(AccessRank::Helper));
}

#[test]
fn add_command_refusals() {
    assert_eq!(check_add_command(AccessRank::Member, true, "sniper", "x", false).unwrap_err(), AddError::TaggingDisabled);
    assert_eq!(check_add_command(AccessRank::Admin, false, "confirmed_cheater", "x", false).unwrap_err(), AddError::ConfirmedViaReviewOnly);
    assert_eq!(check_add_command(AccessRank::Helper, false, "caution", "x", false).unwrap_err(), AddError::CautionNeedsModerator);
    assert_eq!(check_add_command(AccessRank::Default, false, "replays_needed", "", false).unwrap_err(), AddError::ReplaysNeededNeedsMember);
    assert_eq!(check_add_command(AccessRank::Member, false, "sniper", "", false).unwrap_err(), AddError::ReasonRequired);
    assert_eq!(AddError::ReasonRequired.message(), "A reason is required for this tag type");
}

#[test]
fn add_command_requests() {
    let r = check_add_command(AccessRank::Member, false, "replays_needed", "ignored", true).unwrap();
    assert_eq!(r.reason, "");
    assert!(!r.hide);
    assert!(!r.needs_review);
    let r = check_add_command(AccessRank::Moderator, true, "caution", "watch", true).unwrap();
    assert!(r.hide);
    let r = check_add_command(AccessRank::Default, false, "closet_cheater", "aim", false).unwrap();
    assert!(r.needs_review);
    let r = check_add_command(AccessRank::Default, false, "sniper", "camps", false).unwrap();
    assert!(!r.needs_review);
}

#[test]
fn minecraft_names() {
    assert!(is_valid_minecraft_name("Steve_01"));
    assert!(!is_valid_minecraft_name("ab"));
    assert!(!is_valid_minecraft_name("a-b-c"));
    assert!(!is_valid_minecraft_name("abcdefghijklmnopq"));
    assert_eq!(review_after_resolve(false, true, "bad name"), Err(AddError::InvalidName));
    assert_eq!(review_after_resolve(false, true, "Nicky"), Ok(true));
    assert_eq!(review_after_resolve(false, false, "bad name"), Ok(false));
}

#[test]
fn direct_add_plans() {
    let existing = vec!["caution".to_string(), "sniper".to_string()];
    assert_eq!(plan_direct_add(true, &existing, "sniper", AccessRank::Admin), Err(AddError::Locked));
    assert_eq!(plan_direct_add(false, &existing, "sniper", AccessRank::Member), Ok(AddPlan::Review));
    assert_eq!(plan_direct_add(false, &existing, "blatant_cheater", AccessRank::Member), Ok(AddPlan::Overwrite(1)));
    assert_eq!(plan_direct_add(false, &existing, "blatant_cheater", AccessRank::Default), Err(AddError::OverwriteNeedsMember));
    assert_eq!(plan_direct_add(false, &existing, "replays_needed", AccessRank::Member), Ok(AddPlan::Add));
    let confirmed = vec!["confirmed_cheater".to_string()];
    assert_eq!(plan_direct_add(false, &confirmed, "sniper", AccessRank::Member), Err(AddError::OverwriteConfirmedNeedsHelper));
    assert_eq!(plan_direct_add(false, &confirmed, "sniper", AccessRank::Helper), Ok(AddPlan::Overwrite(0)));
}

#[test]
fn removing_tags() {
    assert!(can_remove_tag(AccessRank::Moderator, "confirmed_cheater", 1, 2, 999));
    assert!(!can_remove_tag(AccessRank::Helper, "caution", 1, 2, 0));
    assert!(can_remove_tag(AccessRank::Helper, "sniper", 1, 2, 999));
    assert!(can_remove_tag(AccessRank::Member, "sniper", 2, 2, 30));
    assert!(!can_remove_tag(AccessRank::Member, "sniper", 2, 2, 31));
    assert!(!can_remove_tag(AccessRank::Default, "sniper", 1, 2, 0));
}

#[test]
fn change_menu_type_options() {
    let names: Vec<&str> = tc_type_options("sniper", AccessRank::Member).iter().map(|d| d.name).collect();
    assert_eq!(names, vec!["blatant_cheater", "closet_cheater", "replays_needed"]);
    let names: Vec<&str> = tc_type_options("sniper", AccessRank::Moderator).iter().map(|d| d.name).collect();
    assert_eq!(names, vec!["blatant_cheater", "closet_cheater", "replays_needed", "caution"]);
    assert!(tc_type_options("confirmed_cheater", AccessRank::Helper).is_empty());
    let names: Vec<&str> = tc_type_options("caution", AccessRank::Default).iter().map(|d| d.name).collect();
    assert_eq!(names, vec!["sniper", "blatant_cheater", "closet_cheater"]);
}

fn entry() -> TagChangeEntry {
    TagChangeEntry {
        tag_id: 1,
        original: PlayerTagRow {
            id: 1,
            tag_type: "sniper".to_string(),
            reason: "r".to_string(),
            added_by: 5,
            added_on_millis: 0,
            hide_username: false,
            reviewed_by: None,
        },
        new_type: None,
        new_reason: None,
        claimed: false,
        hide: None,
        removed: false,
        editable: true,
    }
}

#[test]
fn change_entries() {
    let mut e = entry();
    assert_eq!(e.effective_type(), "sniper");
    assert_eq!(e.effective_reason(), "r");
    assert_eq!(e.effective_added_by(9), 5);
    assert!(!e.effective_hide());
    assert!(!e.has_changes(9));
    e.hide = Some(false);
    assert!(!e.has_changes(9));
    e.claimed = true;
    assert_eq!(e.effective_added_by(9), 9);
    assert!(e.has_changes(9));
    assert!(!e.has_changes(5));
    e.new_type = Some("caution".to_string());
    assert_eq!(e.effective_type(), "caution");
    assert!(e.has_changes(5));
}

#[test]
fn member_panels() {
    assert_eq!(context_prefix("dashboard_accounts"), "dashboard");
    assert_eq!(context_prefix("link_pick:1"), "link");
    assert_eq!(context_prefix("manage_x"), "manage");
    assert!(resolve_can_modify("dashboard", AccessRank::Default, AccessRank::Admin, false));
    assert!(resolve_can_modify("manage", AccessRank::Default, AccessRank::Admin, true));
    assert!(resolve_can_modify("manage", AccessRank::Moderator, AccessRank::Helper, false));
    assert!(!resolve_can_modify("manage", AccessRank::Helper, AccessRank::Member, false));
    assert!(!resolve_can_modify("manage", AccessRank::Moderator, AccessRank::Moderator, false));
}

#[test]
fn assignable_rank_lists() {
    assert!(assignable_ranks(AccessRank::Default).is_empty());
    let r = assignable_ranks(AccessRank::Moderator);
    assert_eq!(r.len(), 3);
    assert!(matches!(r[2], AccessRank::Helper));
    assert_eq!(assignable_ranks(AccessRank::Admin).len(), 4);
}
