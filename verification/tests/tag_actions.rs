use coral::access::AccessRank;
use coral::responses::PlayerTagRow;
use coral::tag_actions::{
    check_overwrite_confirm, check_own_tag_window, check_remove_command, decide_type_edit, find_tag_by_id,
    find_tag_of_type, may_change_tag, tag_choices_for_edit, OverwriteError, RemoveCommandError, TypeEdit,
    TypeEditError, WindowError,
};

fn row(id: i64, tag_type: &str) -> PlayerTagRow {
    PlayerTagRow {
        id,
        tag_type: tag_type.to_string(),
        reason: "r".to_string(),
        added_by: 5,
        added_on_millis: 0,
        hide_username: false,
        reviewed_by: None,
    }
}

#[test]
fn members_edit_their_own_tags_for_half_an_hour() {
    assert_eq!(check_own_tag_window(5, 5, AccessRank::Member, 30), Ok(()));
    assert_eq!(check_own_tag_window(5, 5, AccessRank::Member, 31), Err(WindowError::WindowPassed));
    assert_eq!(check_own_tag_window(5, 6, AccessRank::Member, 0), Err(WindowError::NotOwner));
    assert_eq!(check_own_tag_window(5, 6, AccessRank::Helper, 1000), Ok(()));
    assert!(may_change_tag(5, 5, AccessRank::Default));
    assert!(!may_change_tag(5, 6, AccessRank::Member));
    assert!(may_change_tag(5, 6, AccessRank::Helper));
}

#[test]
fn type_menu_choices_are_checked() {
    assert_eq!(decide_type_edit(5, 6, AccessRank::Member, "sniper"), Err(TypeEditError::NotPermitted));
    assert_eq!(decide_type_edit(5, 5, AccessRank::Member, "confirmed_cheater"), Err(TypeEditError::ConfirmedOnlyByReview));
    assert_eq!(decide_type_edit(5, 5, AccessRank::Helper, "caution"), Err(TypeEditError::CautionNeedsModerator));
    assert_eq!(decide_type_edit(5, 5, AccessRank::Moderator, "caution"), Ok(TypeEdit::Change));
    assert_eq!(decide_type_edit(5, 6, AccessRank::Helper, "__revert"), Err(TypeEditError::RevertNeedsModerator));
    assert_eq!(decide_type_edit(5, 6, AccessRank::Admin, "__revert"), Ok(TypeEdit::Revert));
    assert_eq!(decide_type_edit(5, 5, AccessRank::Member, "sniper"), Ok(TypeEdit::Change));
}

#[test]
fn type_menu_lists_other_types() {
    let choices = tag_choices_for_edit("sniper");
    let values: Vec<&str> = choices.iter().map(|c| c.1).collect();
    assert_eq!(values, vec!["blatant_cheater", "closet_cheater", "replays_needed", "caution"]);
    let choices = tag_choices_for_edit("confirmed_cheater");
    assert_eq!(choices[0], ("Revert to Unconfirmed", "__revert"));
    assert_eq!(choices.len(), 6);
}

#[test]
fn removing_by_command() {
    assert_eq!(check_remove_command(AccessRank::Member, "sniper"), Err(RemoveCommandError::NotHelper));
    assert_eq!(check_remove_command(AccessRank::Helper, "caution"), Err(RemoveCommandError::NeedsModerator));
    assert_eq!(check_remove_command(AccessRank::Helper, "sniper"), Ok(()));
    assert_eq!(check_remove_command(AccessRank::Moderator, "confirmed_cheater"), Ok(()));
    let tags = vec![row(1, "sniper"), row(2, "caution"), row(3, "sniper")];
    assert_eq!(find_tag_of_type(&tags, "sniper"), Some(0));
    assert_eq!(find_tag_of_type(&tags, "caution"), Some(1));
    assert_eq!(find_tag_of_type(&tags, "closet_cheater"), None);
    assert_eq!(find_tag_by_id(&tags, 3), Some(2));
    assert_eq!(find_tag_by_id(&tags, 9), None);
}

#[test]
fn confirming_an_overwrite() {
    let tags = vec![row(1, "sniper"), row(2, "confirmed_cheater")];
    assert_eq!(check_overwrite_confirm(AccessRank::Default, false, &tags, 1), Err(OverwriteError::NotMember));
    assert_eq!(check_overwrite_confirm(AccessRank::Member, true, &tags, 1), Err(OverwriteError::Locked));
    assert_eq!(check_overwrite_confirm(AccessRank::Member, false, &tags, 7), Err(OverwriteError::OriginalGone));
    assert_eq!(check_overwrite_confirm(AccessRank::Member, false, &tags, 2), Err(OverwriteError::ConfirmedNeedsHelper));
    assert_eq!(check_overwrite_confirm(AccessRank::Helper, false, &tags, 2), Ok(1));
    assert_eq!(check_overwrite_confirm(AccessRank::Member, false, &tags, 1), Ok(0));
}
