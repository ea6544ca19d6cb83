//! The posts the bot makes about tags and members in the staff channels: a
//! new or overwritten tag in the blacklist channel, and removals, changes,
//! locks, key locks and tagging switches in the moderation channel.
use vstd::prelude::*;
use crate::responses::PlayerTagRow;
use crate::tag_change::{shown_display, shown_emote};
use crate::tag_view::{added_line_spec, push_name, push_signed, tag_view_text, tag_view_text_spec, timestamp_seconds};
use crate::tags::lookup;
use crate::text::{chars_of, push_str, string_from_chars};

verus! {

/// The header of a post about player `name`: the action's emote and title.
pub open spec fn post_header_spec(emote: Seq<char>, title: Seq<char>, name: Seq<char>) -> Seq<char> {
    "## "@ + emote + " "@ + title + "\nIGN - `"@ + name + "`"@
}

/// The header of a post about a player.
pub fn post_header(emote: &str, title: &str, name: &str) -> (r: String)
    ensures
        r@ == post_header_spec(emote@, title@, name@),
{
    let mut out: Vec<char> = Vec::new();
    push_str(&mut out, "## ");
    push_str(&mut out, emote);
    push_str(&mut out, " ");
    push_str(&mut out, title);
    push_str(&mut out, "\nIGN - `");
    push_str(&mut out, name);
    push_str(&mut out, "`");
    string_from_chars(&out)
}

/// A tag row without its approver list when that list is empty.
pub open spec fn without_empty_approvers(row: PlayerTagRow) -> PlayerTagRow {
    match row.reviewed_by {
        Some(ids) => if ids@.len() == 0 { PlayerTagRow { reviewed_by: None, ..row } } else { row },
        None => row,
    }
}

/// The body of a post in the blacklist channel about a tag: as on the tag
/// card, except that an empty list of approvers is left out.
pub fn blacklist_post_text(row: &PlayerTagRow, reason_text: &str, names: &[(i64, String)], has_evidence: bool) -> (r: String)
    ensures
        r@ == tag_view_text_spec(without_empty_approvers(*row), reason_text@, names@, has_evidence),
{
    let empty = match &row.reviewed_by {
        Some(ids) => ids.len() == 0,
        None => false,
    };
    if empty {
        let bare = PlayerTagRow {
            id: row.id,
            tag_type: string_from_chars(&chars_of(row.tag_type.as_str())),
            reason: string_from_chars(&chars_of(row.reason.as_str())),
            added_by: row.added_by,
            added_on_millis: row.added_on_millis,
            hide_username: row.hide_username,
            reviewed_by: None,
        };
        assert(tag_view_text_spec(bare, reason_text@, names@, has_evidence) == tag_view_text_spec(
            without_empty_approvers(*row),
            reason_text@,
            names@,
            has_evidence,
        ));
        tag_view_text(&bare, reason_text, names, has_evidence)
    } else {
        tag_view_text(row, reason_text, names, has_evidence)
    }
}

/// Appends a tag type's emote (if any), a space and its display name.
fn push_tag(out: &mut Vec<char>, tag_type: &str)
    ensures
        final(out)@ == old(out)@ + shown_emote(tag_type@) + " "@ + shown_display(tag_type@),
{
    match lookup(tag_type) {
        Some(def) => {
            push_str(out, def.emote);
            push_str(out, " ");
            push_str(out, def.display_name);
        },
        None => {
            push_str(out, " ");
            push_str(out, tag_type);
        },
    }
}

/// The body of a post about a removed tag: the tag, its reason as shown, and
/// who removed it.
pub open spec fn removed_post_spec(tag_type: Seq<char>, reason_text: Seq<char>, remover: Seq<char>) -> Seq<char> {
    shown_emote(tag_type) + " "@ + shown_display(tag_type) + "\n> "@ + reason_text + "\n> -# **\\- Removed by `@"@ + remover
        + "`**"@
}

/// The body of a post about a removed tag.
pub fn removed_post_text(tag_type: &str, reason_text: &str, remover: &str) -> (r: String)
    ensures
        r@ == removed_post_spec(tag_type@, reason_text@, remover@),
{
    let mut out: Vec<char> = Vec::new();
    push_tag(&mut out, tag_type);
    push_str(&mut out, "\n> ");
    push_str(&mut out, reason_text);
    push_str(&mut out, "\n> -# **\\- Removed by `@");
    push_str(&mut out, remover);
    push_str(&mut out, "`**");
    string_from_chars(&out)
}

/// One side of a post about a changed tag: `Previous: ` or `New: `, the tag,
/// its reason as shown, and who added it and when.
pub open spec fn changed_side_spec(label: Seq<char>, row: PlayerTagRow, reason_text: Seq<char>, names: Seq<(i64, String)>) -> Seq<char> {
    label + shown_emote(row.tag_type@) + " "@ + shown_display(row.tag_type@) + "\n> "@ + reason_text + "\n"@
        + added_line_spec(row, names)
}

/// One side of a post about a changed tag.
pub fn changed_side_text(label: &str, row: &PlayerTagRow, reason_text: &str, names: &[(i64, String)]) -> (r: String)
    ensures
        r@ == changed_side_spec(label@, *row, reason_text@, names@),
{
    let mut out: Vec<char> = Vec::new();
    push_str(&mut out, label);
    push_tag(&mut out, row.tag_type.as_str());
    push_str(&mut out, "\n> ");
    push_str(&mut out, reason_text);
    push_str(&mut out, "\n");
    let ts = timestamp_seconds(row.added_on_millis);
    if row.hide_username {
        push_str(&mut out, "> -# **\\- <t:");
        push_signed(&mut out, ts);
        push_str(&mut out, ":R>**");
    } else {
        push_str(&mut out, "> -# **\\- Added by `@");
        push_name(&mut out, names, row.added_by);
        push_str(&mut out, "` <t:");
        push_signed(&mut out, ts);
        push_str(&mut out, ":R>**");
    }
    string_from_chars(&out)
}

/// The title of a post about a player's tags being locked or unlocked.
pub fn lock_post_title(locked: bool) -> (r: &'static str)
    ensures
        r@ == (if locked { "Player Locked \u{1F512}"@ } else { "Player Unlocked \u{1F513}"@ }),
{
    if locked {
        "Player Locked \u{1F512}"
    } else {
        "Player Unlocked \u{1F513}"
    }
}

/// The word for who locked or unlocked something.
pub fn lock_action(locked: bool) -> (r: &'static str)
    ensures
        r@ == (if locked { "Locked"@ } else { "Unlocked"@ }),
{
    if locked {
        "Locked"
    } else {
        "Unlocked"
    }
}

/// The title of a post about a member's API key being locked or unlocked.
pub fn key_post_title(locked: bool) -> (r: &'static str)
    ensures
        r@ == (if locked { "API Key Locked \u{1F512}"@ } else { "API Key Unlocked \u{1F513}"@ }),
{
    if locked {
        "API Key Locked \u{1F512}"
    } else {
        "API Key Unlocked \u{1F513}"
    }
}

/// The title of a post about a member's tagging being switched off or on.
pub fn tagging_post_title(disabled: bool) -> (r: &'static str)
    ensures
        r@ == (if disabled { "Tagging Disabled"@ } else { "Tagging Enabled"@ }),
{
    if disabled {
        "Tagging Disabled"
    } else {
        "Tagging Enabled"
    }
}

/// The closing line of a post: what was done and by whom.
pub fn done_by_line(action: &str, who: &str) -> (r: String)
    ensures
        r@ == "-# "@ + action@ + " by `@"@ + who@ + "`"@,
{
    let mut out: Vec<char> = Vec::new();
    push_str(&mut out, "-# ");
    push_str(&mut out, action);
    push_str(&mut out, " by `@");
    push_str(&mut out, who);
    push_str(&mut out, "`");
    string_from_chars(&out)
}

/// An event about the blacklist, as the services announce it to each other.
#[derive(Clone, Debug)]
pub enum BlacklistEvent {
    TagAdded { uuid: String, tag_id: i64 },
    TagOverwritten { uuid: String, old_tag_id: i64, old_tag_type: String, old_reason: String, new_tag_id: i64, overwritten_by: i64 },
    TagRemoved { uuid: String, tag_id: i64, removed_by: i64 },
    PlayerLocked { uuid: String, locked_by: i64, reason: String },
    PlayerUnlocked { uuid: String, unlocked_by: i64 },
    TagEdited { uuid: String, tag_id: i64, old_tag_type: String, old_reason: String, edited_by: i64 },
}

/// A post the bot makes in answer to an event.
#[derive(Clone, Copy, Debug, PartialEq, Eq, Structural)]
pub enum PostKind {
    /// A new tag, in the blacklist channel.
    NewTag,
    /// A tag that replaced another, in the blacklist channel.
    OverwrittenTag,
    /// A change of tag (old against new), in the moderation channel; `true`
    /// for an overwrite, `false` for an edit.
    TagChanged(bool),
    /// A removed tag, in the moderation channel.
    TagRemoved,
    /// A player's tags locked (`true`) or unlocked, in the moderation channel.
    LockChanged(bool),
}

/// The posts an event calls for, in order.
pub open spec fn posts_for(e: BlacklistEvent) -> Seq<PostKind> {
    match e {
        BlacklistEvent::TagAdded { .. } => seq![PostKind::NewTag],
        BlacklistEvent::TagOverwritten { .. } => seq![PostKind::TagChanged(true), PostKind::OverwrittenTag],
        BlacklistEvent::TagRemoved { .. } => seq![PostKind::TagRemoved],
        BlacklistEvent::PlayerLocked { .. } => seq![PostKind::LockChanged(true)],
        BlacklistEvent::PlayerUnlocked { .. } => seq![PostKind::LockChanged(false)],
        BlacklistEvent::TagEdited { .. } => seq![PostKind::TagChanged(false)],
    }
}

/// The posts an event calls for.
pub fn plan_event_posts(e: &BlacklistEvent) -> (r: Vec<PostKind>)
    ensures
        r@ == posts_for(*e),
{
    let r = match e {
        BlacklistEvent::TagAdded { .. } => vec![PostKind::NewTag],
        BlacklistEvent::TagOverwritten { .. } => vec![PostKind::TagChanged(true), PostKind::OverwrittenTag],
        BlacklistEvent::TagRemoved { .. } => vec![PostKind::TagRemoved],
        BlacklistEvent::PlayerLocked { .. } => vec![PostKind::LockChanged(true)],
        BlacklistEvent::PlayerUnlocked { .. } => vec![PostKind::LockChanged(false)],
        BlacklistEvent::TagEdited { .. } => vec![PostKind::TagChanged(false)],
    };
    assert(r@ =~= posts_for(*e));
    r
}

/// The title of a change post.
pub fn change_title(overwrite: bool) -> (r: &'static str)
    ensures
        r@ == (if overwrite { "Tag Overwritten"@ } else { "Tag Modified"@ }),
{
    if overwrite {
        "Tag Overwritten"
    } else {
        "Tag Modified"
    }
}

/// The tag as it was before a change, from what the event kept of it (its
/// identifier, type and reason) and the tag as it is now for the rest.
pub fn previous_tag(id: i64, now: &PlayerTagRow, tag_type: &str, reason: &str) -> (r: PlayerTagRow)
    ensures
        r.id == id,
        r.tag_type@ == tag_type@,
        r.reason@ == reason@,
        r.added_by == now.added_by,
        r.added_on_millis == now.added_on_millis,
        r.hide_username == now.hide_username,
        match (r.reviewed_by, now.reviewed_by) {
            (Some(a), Some(b)) => a@ == b@,
            (None, None) => true,
            _ => false,
        },
{
    let reviewed_by = match &now.reviewed_by {
        Some(ids) => {
            let mut v: Vec<i64> = Vec::new();
            let mut i: usize = 0;
            while i < ids.len()
                invariant
                    i <= ids@.len(),
                    v@ == ids@.subrange(0, i as int),
                decreases ids@.len() - i,
            {
                v.push(ids[i]);
                i = i + 1;
                assert(v@ =~= ids@.subrange(0, i as int));
            }
            assert(v@ =~= ids@);
            Some(v)
        },
        None => None,
    };
    PlayerTagRow {
        id,
        tag_type: string_from_chars(&chars_of(tag_type)),
        reason: string_from_chars(&chars_of(reason)),
        added_by: now.added_by,
        added_on_millis: now.added_on_millis,
        hide_username: now.hide_username,
        reviewed_by,
    }
}

} // verus!
