//! The permission rules of the tag buttons and commands: editing, undoing and
//! changing the type of a tag, removing a tag by type, and confirming an
//! overwrite.
use vstd::prelude::*;
use crate::access::{rank_level, AccessRank};
use crate::responses::PlayerTagRow;
use crate::tags::{definition, kind_name, user_addable_kinds, TagDefinition, TagKind};
use crate::text::{chars_of, str_eq_chars};

verus! {

/// How long, in minutes, members may still edit or undo their own tag.
pub const OWN_EDIT_WINDOW_MINUTES: i64 = 30;

/// Why editing or undoing a tag from its buttons is refused.
#[derive(Clone, Copy, Debug, PartialEq, Eq, Structural)]
pub enum WindowError {
    /// Below helper, only one's own tags.
    NotOwner,
    /// Below helper, only within the first 30 minutes.
    WindowPassed,
}

/// Whether `user_id` of rank `rank` may edit or undo a tag added by
/// `added_by` `minutes` minutes ago: helpers and above always; others only
/// their own tag, within 30 minutes.
pub fn check_own_tag_window(added_by: i64, user_id: u64, rank: AccessRank, minutes: i64) -> (r: Result<(), WindowError>)
    ensures
        r == (if rank_level(rank) >= 2 {
            Ok(())
        } else if added_by != user_id as i64 {
            Err(WindowError::NotOwner)
        } else if minutes > OWN_EDIT_WINDOW_MINUTES {
            Err(WindowError::WindowPassed)
        } else {
            Ok(())
        }),
{
    if rank.at_least(AccessRank::Helper) {
        return Ok(());
    }
    if added_by != user_id as i64 {
        return Err(WindowError::NotOwner);
    }
    if minutes > OWN_EDIT_WINDOW_MINUTES {
        return Err(WindowError::WindowPassed);
    }
    Ok(())
}

/// Whether `user_id` of rank `rank` may change a tag added by `added_by`:
/// its author, or a helper and above (no time limit applies here).
pub fn may_change_tag(added_by: i64, user_id: u64, rank: AccessRank) -> (r: bool)
    ensures
        r == (added_by == user_id as i64 || rank_level(rank) >= 2),
{
    added_by == user_id as i64 || rank.at_least(AccessRank::Helper)
}

/// What a choice in the tag type menu does.
#[derive(Clone, Copy, Debug, PartialEq, Eq, Structural)]
pub enum TypeEdit {
    /// Turn a confirmed cheater tag back into what it was.
    Revert,
    /// Change the tag to the chosen type.
    Change,
}

/// Why a choice in the tag type menu is refused.
#[derive(Clone, Copy, Debug, PartialEq, Eq, Structural)]
pub enum TypeEditError {
    /// Neither the tag's author nor a helper.
    NotPermitted,
    /// Confirmed cheater tags come from reviews only.
    ConfirmedOnlyByReview,
    /// Only moderators and above assign caution tags.
    CautionNeedsModerator,
    /// Only moderators and above revert confirmed cheater tags.
    RevertNeedsModerator,
}

/// The value of the revert choice in the tag type menu.
pub open spec fn revert_value() -> Seq<char> {
    "__revert"@
}

/// Decides a choice of `new_type` in the type menu of a tag added by
/// `added_by`, made by `user_id` of rank `rank`.
pub fn decide_type_edit(added_by: i64, user_id: u64, rank: AccessRank, new_type: &str) -> (r: Result<TypeEdit, TypeEditError>)
    ensures
        r == (if added_by != user_id as i64 && rank_level(rank) < 2 {
            Err(TypeEditError::NotPermitted)
        } else if new_type@ == "confirmed_cheater"@ {
            Err(TypeEditError::ConfirmedOnlyByReview)
        } else if new_type@ == "caution"@ && rank_level(rank) < 3 {
            Err(TypeEditError::CautionNeedsModerator)
        } else if new_type@ == revert_value() {
            if rank_level(rank) < 3 { Err(TypeEditError::RevertNeedsModerator) } else { Ok(TypeEdit::Revert) }
        } else {
            Ok(TypeEdit::Change)
        }),
{
    if added_by != user_id as i64 && !rank.at_least(AccessRank::Helper) {
        return Err(TypeEditError::NotPermitted);
    }
    let t = chars_of(new_type);
    if str_eq_chars("confirmed_cheater", &t) {
        return Err(TypeEditError::ConfirmedOnlyByReview);
    }
    if str_eq_chars("caution", &t) && !rank.at_least(AccessRank::Moderator) {
        return Err(TypeEditError::CautionNeedsModerator);
    }
    if str_eq_chars("__revert", &t) {
        if !rank.at_least(AccessRank::Moderator) {
            return Err(TypeEditError::RevertNeedsModerator);
        }
        return Ok(TypeEdit::Revert);
    }
    Ok(TypeEdit::Change)
}

/// A type is offered in the type menu of a tag of type `current`.
pub open spec fn offered_for_edit(k: TagKind, current: Seq<char>) -> bool {
    kind_name(k) != current
}

/// A type's choice in the menu, as label and value.
pub open spec fn choice_of(k: TagKind) -> (Seq<char>, Seq<char>) {
    (definition(k).display_name@, definition(k).name@)
}

/// The choices of the tag type menu for a tag of type `current`, as label and
/// value: a revert choice first for a confirmed cheater tag, then each type a
/// user can add other than `current`.
pub open spec fn edit_choices(current: Seq<char>) -> Seq<(Seq<char>, Seq<char>)> {
    let choices = user_addable_kinds().filter(|k: TagKind| offered_for_edit(k, current)).map_values(|k: TagKind| choice_of(k));
    if current == "confirmed_cheater"@ {
        seq![("Revert to Unconfirmed"@, revert_value())] + choices
    } else {
        choices
    }
}

/// The label and value views of menu choices.
pub open spec fn choices_view(v: Seq<(&'static str, &'static str)>) -> Seq<(Seq<char>, Seq<char>)> {
    v.map_values(|c: (&'static str, &'static str)| (c.0@, c.1@))
}

/// The choices of the tag type menu, as label and value.
pub fn tag_choices_for_edit(current: &str) -> (r: Vec<(&'static str, &'static str)>)
    ensures
        choices_view(r@) == edit_choices(current@),
{
    let cur = chars_of(current);
    let kinds = [TagKind::Sniper, TagKind::BlatantCheater, TagKind::ClosetCheater, TagKind::ReplaysNeeded, TagKind::Caution];
    let ghost ks = user_addable_kinds();
    assert(kinds@ =~= ks);
    let mut r: Vec<(&'static str, &'static str)> = Vec::new();
    if str_eq_chars("confirmed_cheater", &cur) {
        r.push(("Revert to Unconfirmed", "__revert"));
    }
    let ghost head = choices_view(r@);
    assert(head =~= (if current@ == "confirmed_cheater"@ { seq![("Revert to Unconfirmed"@, revert_value())] } else { Seq::empty() }));
    let mut i: usize = 0;
    assert(ks.subrange(0, 0).filter(|k: TagKind| offered_for_edit(k, current@)) =~= Seq::<TagKind>::empty());
    assert(choices_view(r@) =~= head + ks.subrange(0, 0).filter(|k: TagKind| offered_for_edit(k, current@)).map_values(|k: TagKind| choice_of(k)));
    while i < 5
        invariant
            i <= 5,
            kinds@ == ks,
            ks == user_addable_kinds(),
            cur@ == current@,
            choices_view(r@) == head + ks.subrange(0, i as int).filter(|k: TagKind| offered_for_edit(k, current@)).map_values(|k: TagKind| choice_of(k)),
        decreases 5 - i,
    {
        let k = kinds[i];
        let ghost pre = ks.subrange(0, i as int);
        assert(ks.subrange(0, i + 1) =~= pre.push(k));
        proof {
            pre.lemma_filter_push(k, |k: TagKind| offered_for_edit(k, current@));
        }
        let d: TagDefinition = crate::tags::definition_of(k);
        let ghost before = choices_view(r@);
        if !str_eq_chars(d.name, &cur) {
            r.push((d.display_name, d.name));
            assert(choices_view(r@) =~= before.push(choice_of(k)));
            assert(pre.filter(|k: TagKind| offered_for_edit(k, current@)).push(k).map_values(|k: TagKind| choice_of(k))
                =~= pre.filter(|k: TagKind| offered_for_edit(k, current@)).map_values(|k: TagKind| choice_of(k)).push(choice_of(k)));
        }
        i = i + 1;
    }
    assert(ks.subrange(0, 5) =~= ks);
    r
}

/// Why the remove command is refused before the player is looked up.
#[derive(Clone, Copy, Debug, PartialEq, Eq, Structural)]
pub enum RemoveCommandError {
    /// Only helpers and above remove tags by command.
    NotHelper,
    /// Only moderators and above remove confirmed cheater and caution tags.
    NeedsModerator,
}

/// Whether a user of rank `rank` may remove tags of type `tag_type` by command.
pub fn check_remove_command(rank: AccessRank, tag_type: &str) -> (r: Result<(), RemoveCommandError>)
    ensures
        r == (if rank_level(rank) < 2 {
            Err(RemoveCommandError::NotHelper)
        } else if (tag_type@ == "confirmed_cheater"@ || tag_type@ == "caution"@) && rank_level(rank) < 3 {
            Err(RemoveCommandError::NeedsModerator)
        } else {
            Ok(())
        }),
{
    if !rank.at_least(AccessRank::Helper) {
        return Err(RemoveCommandError::NotHelper);
    }
    let t = chars_of(tag_type);
    if (str_eq_chars("confirmed_cheater", &t) || str_eq_chars("caution", &t)) && !rank.at_least(AccessRank::Moderator) {
        return Err(RemoveCommandError::NeedsModerator);
    }
    Ok(())
}

/// The position of the first tag of type `tag_type` among `tags`.
pub fn find_tag_of_type(tags: &[PlayerTagRow], tag_type: &str) -> (r: Option<usize>)
    ensures
        match r {
            Some(i) => i < tags@.len() && tags@[i as int].tag_type@ == tag_type@ && forall|j: int|
                0 <= j < i ==> tags@[j].tag_type@ != tag_type@,
            None => forall|j: int| 0 <= j < tags@.len() ==> tags@[j].tag_type@ != tag_type@,
        },
{
    let t = chars_of(tag_type);
    let mut i: usize = 0;
    while i < tags.len()
        invariant
            i <= tags@.len(),
            t@ == tag_type@,
            forall|j: int| 0 <= j < i ==> tags@[j].tag_type@ != tag_type@,
        decreases tags@.len() - i,
    {
        if str_eq_chars(tags[i].tag_type.as_str(), &t) {
            return Some(i);
        }
        i = i + 1;
    }
    None
}

/// The position of the tag with identifier `id` among `tags`.
pub fn find_tag_by_id(tags: &[PlayerTagRow], id: i64) -> (r: Option<usize>)
    ensures
        match r {
            Some(i) => i < tags@.len() && tags@[i as int].id == id && forall|j: int| 0 <= j < i ==> tags@[j].id != id,
            None => forall|j: int| 0 <= j < tags@.len() ==> tags@[j].id != id,
        },
{
    let mut i: usize = 0;
    while i < tags.len()
        invariant
            i <= tags@.len(),
            forall|j: int| 0 <= j < i ==> tags@[j].id != id,
        decreases tags@.len() - i,
    {
        if tags[i].id == id {
            return Some(i);
        }
        i = i + 1;
    }
    None
}

/// Why confirming a pending overwrite is refused.
#[derive(Clone, Copy, Debug, PartialEq, Eq, Structural)]
pub enum OverwriteError {
    /// Only members and above overwrite tags.
    NotMember,
    /// The player's tags are locked.
    Locked,
    /// The tag to overwrite is gone.
    OriginalGone,
    /// Only helpers and above overwrite confirmed cheater tags.
    ConfirmedNeedsHelper,
}

/// Decides whether a pending overwrite of the tag `old_tag_id` goes ahead,
/// for a user of rank `rank`, given the player's lock and current tags; on
/// success, the position of the tag to replace.
pub fn check_overwrite_confirm(rank: AccessRank, locked: bool, tags: &[PlayerTagRow], old_tag_id: i64) -> (r: Result<usize, OverwriteError>)
    ensures
        rank_level(rank) < 1 ==> r == Err::<usize, OverwriteError>(OverwriteError::NotMember),
        rank_level(rank) >= 1 && locked ==> r == Err::<usize, OverwriteError>(OverwriteError::Locked),
        rank_level(rank) >= 1 && !locked ==> match r {
            Ok(i) => i < tags@.len() && tags@[i as int].id == old_tag_id
                && !(tags@[i as int].tag_type@ == "confirmed_cheater"@ && rank_level(rank) < 2)
                && forall|j: int| 0 <= j < i ==> tags@[j].id != old_tag_id,
            Err(OverwriteError::OriginalGone) => forall|j: int| 0 <= j < tags@.len() ==> tags@[j].id != old_tag_id,
            Err(OverwriteError::ConfirmedNeedsHelper) => rank_level(rank) < 2 && exists|i: int|
                0 <= i < tags@.len() && tags@[i].id == old_tag_id && tags@[i].tag_type@ == "confirmed_cheater"@
                && forall|j: int| 0 <= j < i ==> tags@[j].id != old_tag_id,
            Err(_) => false,
        },
{
    if !rank.at_least(AccessRank::Member) {
        return Err(OverwriteError::NotMember);
    }
    if locked {
        return Err(OverwriteError::Locked);
    }
    match find_tag_by_id(tags, old_tag_id) {
        None => Err(OverwriteError::OriginalGone),
        Some(i) => {
            if str_eq_chars(tags[i].tag_type.as_str(), &chars_of("confirmed_cheater")) && !rank.at_least(AccessRank::Helper) {
                Err(OverwriteError::ConfirmedNeedsHelper)
            } else {
                Ok(i)
            }
        },
    }
}

} // verus!
