use coral::access::{AccessRank, TagChangeEntry};
use coral::responses::PlayerTagRow;
use coral::tag_change::{
    change_entries, copy_row, entry_controls, entry_text, menu_title, removed_entry_text,
    save_action, save_summary, SaveAction,
};

fn row(id: i64, tag_type: &str, added_by: i64) -> PlayerTagRow {
    PlayerTagRow {
        id,
        tag_type: tag_type.to_string(),
        reason: "r".to_string(),
        added_by,
        added_on_millis: 60_000,
        hide_username: false,
        reviewed_by: Some(vec![3]),
    }
}

#[test]
fn entries_for_members_and_staff() {
    let rows = vec![row(1, "sniper", 7), row(2, "caution", 8), row(3, "sniper", 7)];
    let es = change_entries(&rows, 7, AccessRank::Member, &[5, 0, 31]);
    assert!(es[0].editable);
    assert!(!es[1].editable);
    assert!(!es[2].editable);
    assert_eq!(es[0].hide, Some(false));
    assert_eq!(es[0].original.reviewed_by, Some(vec![3]));
    let es = change_entries(&rows, 7, AccessRank::Helper, &[5, 0, 31]);
    assert!(es.iter().all(|e| e.editable && e.hide.is_none()));
    let c = copy_row(&rows[1]);
    assert_eq!(c.tag_type, "caution");
    assert_eq!(c.id, 2);
}

fn entry(tag_type: &str, added_by: i64) -> TagChangeEntry {
    TagChangeEntry {
        tag_id: 9,
        original: row(9, tag_type, added_by),
        new_type: None,
        new_reason: None,
        claimed: false,
        hide: None,
        removed: false,
        editable: true,
    }
}

#[test]
fn save_actions() {
    let mut e = entry("confirmed_cheater", 5);
    assert!(matches!(save_action(&e, 5, AccessRank::Member), SaveAction::Skip));
    e.removed = true;
    assert!(matches!(save_action(&e, 5, AccessRank::Member), SaveAction::Remove { tag_id: 9, archive_evidence: true }));
    e.editable = false;
    assert!(matches!(save_action(&e, 5, AccessRank::Admin), SaveAction::Skip));
    let mut e = entry("confirmed_cheater", 5);
    e.new_type = Some("sniper".to_string());
    assert!(matches!(save_action(&e, 5, AccessRank::Helper), SaveAction::Skip));
    match save_action(&e, 5, AccessRank::Moderator) {
        SaveAction::Modify { new_type, archive_evidence, announce, new_added_by, .. } => {
            assert_eq!(new_type.as_deref(), Some("sniper"));
            assert!(archive_evidence);
            assert!(announce);
            assert_eq!(new_added_by, None);
        },
        _ => panic!("expected a modification"),
    }
    let mut e = entry("sniper", 5);
    e.new_type = Some("caution".to_string());
    assert!(matches!(save_action(&e, 5, AccessRank::Helper), SaveAction::Skip));
    let mut e = entry("sniper", 5);
    e.claimed = true;
    e.hide = Some(true);
    match save_action(&e, 6, AccessRank::Helper) {
        SaveAction::Modify { new_added_by, new_hide, announce, archive_evidence, .. } => {
            assert_eq!(new_added_by, Some(6));
            assert_eq!(new_hide, Some(true));
            assert!(!announce);
            assert!(!archive_evidence);
        },
        _ => panic!("expected a modification"),
    }
}

#[test]
fn save_summaries() {
    assert_eq!(save_summary(0, 0, false), None);
    assert_eq!(save_summary(0, 2, false).as_deref(), Some("Removed 2 tag(s)"));
    assert_eq!(save_summary(1, 0, true).as_deref(), Some("Modified 1 tag(s) (silent)"));
    assert_eq!(save_summary(3, 1, false).as_deref(), Some("Modified 3 tag(s), removed 1 tag(s)"));
}

#[test]
fn menu_texts() {
    assert_eq!(menu_title("Steve"), "## <:edittag:1459106301929062430> Manage Tags\nIGN - `Steve`");
    assert_eq!(removed_entry_text(&entry("closet_cheater", 1)), "~~Closet Cheater~~ \u{2014} marked for removal");
    let mut e = entry("sniper", 5);
    let names = vec![(5, "adder".to_string())];
    assert_eq!(
        entry_text(&e, 6, "owner", &names, "shown reason"),
        "<:sniper:1459106167270932618> Sniper\n> shown reason\n> -# **\\- Added by `@adder` <t:60:R>**"
    );
    e.claimed = true;
    e.hide = Some(true);
    assert_eq!(
        entry_text(&e, 6, "owner", &names, "x"),
        "<:sniper:1459106167270932618> Sniper\n> x\n> -# **\\- Added by `@owner` <t:60:R>** *(hidden)*"
    );
    e.claimed = false;
    assert!(entry_text(&e, 6, "owner", &[], "x").contains("`@unknown`"));
}

#[test]
fn entry_control_sets() {
    let mut e = entry("sniper", 5);
    let c = entry_controls(&e, true, AccessRank::Helper, 6, 100);
    assert_eq!(c.hide_label, Some("Hide"));
    assert_eq!(c.claim_label, Some("Claim"));
    assert!(c.removable);
    assert_eq!(c.type_options.len(), 3);
    let c = entry_controls(&e, false, AccessRank::Member, 5, 10);
    assert!(c.hide_label.is_none() && c.claim_label.is_none());
    assert!(c.removable);
    assert!(!entry_controls(&e, false, AccessRank::Member, 5, 31).removable);
    e.editable = false;
    let c = entry_controls(&e, true, AccessRank::Admin, 5, 0);
    assert!(c.type_options.is_empty() && !c.removable);
}
