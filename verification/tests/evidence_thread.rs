use coral::access::AccessRank;
use coral::evidence_thread::{
    add_thread_uploads, archive_outcome, archived_evidence_header, evidence_header, parse_evidence_thread, plan_archive,
    qualifying_tag, remove_thread_evidence, thread_id_of_url, thread_url, ArchiveError, EvidenceThreadState, RemoveEvidenceError,
};
use coral::review_state::MessagePart;

const DASHED: &str = "0a1b2c3d-4e5f-6789-abcd-ef0123456789";

#[test]
fn evidence_headers() {
    assert_eq!(
        evidence_header("Steve", DASHED, "closet_cheater", None),
        format!("## <:confirmedcheater:1459106129765204049> Evidence \u{2014} `Steve`\nUUID: `{DASHED}`\nTag: Confirmed Cheater (was: Closet Cheater)\n-# Originally: closet_cheater")
    );
    assert!(evidence_header("Steve", DASHED, "odd", Some("https://r")).ends_with("(was: odd)\n-# Originally: odd\nReview: https://r"));
    assert_eq!(
        archived_evidence_header("Steve", DASHED, "closet_cheater", "Closet Cheater", None),
        format!("## <:confirmedcheater:1459106129765204049> Evidence \u{2014} `Steve` (Archived)\nUUID: `{DASHED}`\nTag: Reverted to Closet Cheater (was: Confirmed Cheater)\n-# Originally: closet_cheater")
    );
}

#[test]
fn evidence_thread_round_trip() {
    let header = evidence_header("Steve", DASHED, "blatant_cheater", Some("https://discord.com/channels/1/2"));
    let parts = vec![
        MessagePart::Text(Some(header)),
        MessagePart::Other,
        MessagePart::Text(Some("**Evidence**".to_string())),
        MessagePart::Gallery(vec![
            "https://media.discordapp.net/attachments/1/2/clip.mp4?ex=1".to_string(),
            String::new(),
            "attachment://shot.png".to_string(),
        ]),
    ];
    let st = parse_evidence_thread(Some(&parts)).unwrap();
    assert_eq!(st.username, "Steve");
    assert_eq!(st.uuid, "0a1b2c3d4e5f6789abcdef0123456789");
    assert_eq!(st.original_type, "blatant_cheater");
    assert_eq!(st.review_url.as_deref(), Some("https://discord.com/channels/1/2"));
    assert_eq!(st.evidence, vec!["clip.mp4".to_string(), "shot.png".to_string()]);
}

#[test]
fn archived_header_keeps_its_backquote() {
    let header = archived_evidence_header("Steve", DASHED, "sniper", "Sniper", None);
    let st = parse_evidence_thread(Some(&[MessagePart::Text(Some(header))])).unwrap();
    assert_eq!(st.username, "Steve`");
}

#[test]
fn evidence_thread_needs_uuid() {
    assert!(parse_evidence_thread(None).is_none());
    assert!(parse_evidence_thread(Some(&[MessagePart::Text(Some("## x \u{2014} `y`".to_string()))])).is_none());
}

fn thread(original: &str, evidence: &[&str]) -> EvidenceThreadState {
    EvidenceThreadState {
        username: "Steve".to_string(),
        uuid: "u".to_string(),
        original_type: original.to_string(),
        evidence: evidence.iter().map(|e| e.to_string()).collect(),
        review_url: None,
    }
}

#[test]
fn uploads_are_numbered_and_confirm_on_the_first() {
    let mut st = thread("closet_cheater", &[]);
    let up = add_thread_uploads(&mut st, &["clip.mp4".to_string(), "shot".to_string()]);
    assert_eq!(up.filenames, vec!["Steve_1.mp4".to_string(), "Steve_2.shot".to_string()]);
    assert!(up.confirm_original);
    assert_eq!(st.evidence.len(), 2);
    let up = add_thread_uploads(&mut st, &["a.png?x=1".to_string()]);
    assert_eq!(up.filenames, vec!["Steve_3.png".to_string()]);
    assert!(!up.confirm_original);
    let mut st = thread("confirmed_cheater", &[]);
    assert!(!add_thread_uploads(&mut st, &["a.png".to_string()]).confirm_original);
    let mut st = thread("sniper", &[]);
    let up = add_thread_uploads(&mut st, &[]);
    assert!(up.filenames.is_empty());
    assert!(!up.confirm_original);
    assert!(st.evidence.is_empty());
}

#[test]
fn archiving_reverts_the_original_tag() {
    let st = thread("closet_cheater", &["Steve_1.png"]);
    assert_eq!(plan_archive(AccessRank::Member, &st).err(), Some(ArchiveError::NotHelper));
    let plan = plan_archive(AccessRank::Helper, &st).unwrap();
    assert_eq!(plan.revert_to.as_deref(), Some("closet_cheater"));
    assert_eq!(plan.reverted_display, coral::tags::lookup("closet_cheater").unwrap().display_name);
    let plan = plan_archive(AccessRank::Admin, &thread("confirmed_cheater", &[])).unwrap();
    assert!(plan.revert_to.is_none());
    let plan = plan_archive(AccessRank::Moderator, &thread("mystery", &[])).unwrap();
    assert_eq!(plan.revert_to.as_deref(), Some("mystery"));
    assert_eq!(plan.reverted_display, "mystery");
}

#[test]
fn evidence_is_removed_by_helpers_only() {
    let mut st = thread("sniper", &["a.png", "b.png", "c.png"]);
    assert_eq!(remove_thread_evidence(AccessRank::Member, &mut st, Some("1")), Err(RemoveEvidenceError::NotHelper));
    assert_eq!(remove_thread_evidence(AccessRank::Helper, &mut st, Some("7")), Err(RemoveEvidenceError::InvalidIndex));
    assert_eq!(st.evidence.len(), 3);
    assert_eq!(remove_thread_evidence(AccessRank::Helper, &mut st, Some("1")), Ok("b.png".to_string()));
    assert_eq!(remove_thread_evidence(AccessRank::Admin, &mut st, Some("x")), Ok("a.png".to_string()));
    assert_eq!(remove_thread_evidence(AccessRank::Admin, &mut st, None), Ok("c.png".to_string()));
    assert!(st.evidence.is_empty());
    assert_eq!(remove_thread_evidence(AccessRank::Admin, &mut st, None), Err(RemoveEvidenceError::InvalidIndex));
}

#[test]
fn thread_links_and_automatic_archiving() {
    assert_eq!(thread_id_of_url("https://discord.com/channels/1/1234567890"), Some(1234567890));
    assert_eq!(thread_id_of_url("https://discord.com/channels/1/abc"), None);
    assert_eq!(thread_id_of_url("42"), Some(42));
    let plan = archive_outcome(&thread("blatant_cheater", &[]));
    assert_eq!(plan.revert_to.as_deref(), Some("blatant_cheater"));
}

#[test]
fn evidence_threads_need_a_cheater_tag() {
    let row = |t: &str| coral::responses::PlayerTagRow {
        id: 1,
        tag_type: t.to_string(),
        reason: String::new(),
        added_by: 0,
        added_on_millis: 0,
        hide_username: false,
        reviewed_by: None,
    };
    assert_eq!(qualifying_tag(&[row("sniper"), row("blatant_cheater"), row("closet_cheater")]), Some(1));
    assert_eq!(qualifying_tag(&[row("sniper"), row("caution")]), None);
    assert_eq!(qualifying_tag(&[row("confirmed_cheater")]), Some(0));
}

#[test]
fn thread_links_read_back() {
    let url = thread_url(123, 456789);
    assert_eq!(url, "https://discord.com/channels/123/456789");
    assert_eq!(thread_id_of_url(&url), Some(456789));
}
