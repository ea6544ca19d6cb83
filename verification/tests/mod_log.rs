use coral::mod_log::{
    change_title, plan_event_posts, previous_tag, BlacklistEvent, PostKind,
};
use coral::mod_log::{
    blacklist_post_text, changed_side_text, done_by_line, key_post_title, lock_action, lock_post_title,
    post_header, removed_post_text, tagging_post_title,
};
use coral::responses::PlayerTagRow;
use coral::tag_view::tag_view_text;

fn row(tag_type: &str, reviewed_by: Option<Vec<i64>>, hide: bool) -> PlayerTagRow {
    PlayerTagRow {
        id: 1,
        tag_type: tag_type.to_string(),
        reason: "r".to_string(),
        added_by: 42,
        added_on_millis: 1_700_000_000_999,
        hide_username: hide,
        reviewed_by,
    }
}

#[test]
fn blacklist_posts_leave_out_an_empty_reviewer_list() {
    let names = vec![(42, "alice".to_string()), (7, "bob".to_string())];
    let empty = row("sniper", Some(vec![]), false);
    let none = row("sniper", None, false);
    assert_eq!(blacklist_post_text(&empty, "why", &names, false), tag_view_text(&none, "why", &names, false));
    let reviewed = row("confirmed_cheater", Some(vec![7, 9]), false);
    let text = blacklist_post_text(&reviewed, "why", &names, true);
    assert!(text.contains("<:evidencefound:1482666860225888346>"));
    assert!(text.ends_with("> -# **\\- Reviewed by `@bob`, `@9`**"));
    assert!(text.contains("> -# **\\- Added by `@alice` <t:1700000000:R>**"));
}

#[test]
fn moderation_posts() {
    assert_eq!(post_header("<:e:1>", "New Tag", "Steve"), "## <:e:1> New Tag\nIGN - `Steve`");
    let sniper = coral::tags::lookup("sniper").unwrap();
    assert_eq!(
        removed_post_text("sniper", "camping", "mod"),
        format!("{} Sniper\n> camping\n> -# **\\- Removed by `@mod`**", sniper.emote)
    );
    assert_eq!(removed_post_text("odd", "x", "m"), " odd\n> x\n> -# **\\- Removed by `@m`**");
    let hidden = row("sniper", None, true);
    assert_eq!(
        changed_side_text("Previous: ", &hidden, "r", &[]),
        format!("Previous: {} Sniper\n> r\n> -# **\\- <t:1700000000:R>**", sniper.emote)
    );
    let shown = row("sniper", None, false);
    assert_eq!(
        changed_side_text("New: ", &shown, "r", &[]),
        format!("New: {} Sniper\n> r\n> -# **\\- Added by `@42` <t:1700000000:R>**", sniper.emote)
    );
    assert_eq!(lock_post_title(true), "Player Locked \u{1F512}");
    assert_eq!(lock_action(false), "Unlocked");
    assert_eq!(key_post_title(false), "API Key Unlocked \u{1F513}");
    assert_eq!(tagging_post_title(true), "Tagging Disabled");
    assert_eq!(done_by_line("Banned", "mod"), "-# Banned by `@mod`");
}

#[test]
fn events_call_for_posts() {
    let u = || "uuid".to_string();
    assert_eq!(plan_event_posts(&BlacklistEvent::TagAdded { uuid: u(), tag_id: 1 }), vec![PostKind::NewTag]);
    assert_eq!(
        plan_event_posts(&BlacklistEvent::TagOverwritten {
            uuid: u(),
            old_tag_id: 1,
            old_tag_type: "sniper".to_string(),
            old_reason: String::new(),
            new_tag_id: 2,
            overwritten_by: 3,
        }),
        vec![PostKind::TagChanged(true), PostKind::OverwrittenTag]
    );
    assert_eq!(plan_event_posts(&BlacklistEvent::TagRemoved { uuid: u(), tag_id: 1, removed_by: 2 }), vec![PostKind::TagRemoved]);
    assert_eq!(
        plan_event_posts(&BlacklistEvent::PlayerLocked { uuid: u(), locked_by: 1, reason: "x".to_string() }),
        vec![PostKind::LockChanged(true)]
    );
    assert_eq!(plan_event_posts(&BlacklistEvent::PlayerUnlocked { uuid: u(), unlocked_by: 1 }), vec![PostKind::LockChanged(false)]);
    assert_eq!(
        plan_event_posts(&BlacklistEvent::TagEdited {
            uuid: u(),
            tag_id: 1,
            old_tag_type: "sniper".to_string(),
            old_reason: String::new(),
            edited_by: 3,
        }),
        vec![PostKind::TagChanged(false)]
    );
    assert_eq!(change_title(true), "Tag Overwritten");
    assert_eq!(change_title(false), "Tag Modified");
}

#[test]
fn the_previous_tag_keeps_the_rest() {
    let now = row("closet_cheater", Some(vec![4, 5]), true);
    let old = previous_tag(9, &now, "sniper", "old reason");
    assert_eq!(old.id, 9);
    assert_eq!(old.tag_type, "sniper");
    assert_eq!(old.reason, "old reason");
    assert_eq!(old.added_by, now.added_by);
    assert_eq!(old.added_on_millis, now.added_on_millis);
    assert!(old.hide_username);
    assert_eq!(old.reviewed_by, Some(vec![4, 5]));
}
