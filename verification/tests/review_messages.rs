use coral::replay::Replay;
use coral::review::{Evidence, PlayerEntry, PlayerStatus};
use coral::review_messages::{
    attachment_filename_from_url, attachment_id_from_cdn_url, build_header, confirmation_id,
    confirmation_preview, find_submitter, parse_confirmation_data, parse_mention,
    render_evidence_summary, url_extension, vote_message_text,
};

const ID: &str = "0a1b2c3d-4e5f-6789-abcd-ef0123456789";

#[test]
fn header_names_submitter() {
    let h = build_header(123456789);
    assert_eq!(h, "## <:tag:1459106270207545417> Tag Review\n-# Submitted by <@123456789>");
    assert_eq!(parse_mention(&h), Some(123456789));
    assert_eq!(find_submitter(&["nothing".to_string(), h]), Some(123456789));
    assert_eq!(parse_mention("<@abc>"), None);
    assert_eq!(find_submitter(&[]), None);
}

fn with_evidence(evidence: Vec<Evidence>) -> PlayerEntry {
    PlayerEntry {
        username: "a".to_string(),
        uuid: String::new(),
        tag_type: "sniper".to_string(),
        reason: String::new(),
        is_nicked: false,
        status: PlayerStatus::Pending,
        reviewer: None,
        review_note: None,
        evidence,
        conflict_warning: None,
        accept_votes: Vec::new(),
        reject_votes: Vec::new(),
    }
}

#[test]
fn evidence_summaries() {
    assert_eq!(render_evidence_summary(&with_evidence(vec![])), None);
    let replay = Evidence::Replay { replay: Replay { id: ID.to_string(), timestamp: None }, note: None };
    let media = Evidence::Attachment { filename: "a.png".to_string() };
    assert_eq!(
        render_evidence_summary(&with_evidence(vec![replay.clone(), media.clone(), media.clone()])),
        Some(format!("- `/replay {ID}`\n-# 2 media attachments"))
    );
    assert_eq!(render_evidence_summary(&with_evidence(vec![media])), Some("-# 1 media attachment".to_string()));
    assert_eq!(render_evidence_summary(&with_evidence(vec![replay])), Some(format!("- `/replay {ID}`")));
}

#[test]
fn vote_announcements() {
    assert_eq!(
        vote_message_text(7, "accept", "sniper", "Steve", 1, 0),
        "<@7> voted to **accept** the <:sniper:1459106167270932618> **Sniper** tag on `Steve`. [1/3]"
    );
    assert_eq!(
        vote_message_text(7, "reject", "odd", "Steve", 2, 1),
        "<@7> voted to **reject** the  **odd** tag on `Steve`. [1/3]\n-# 2 accept, 1 reject \u{2014} staff required to resolve"
    );
}

#[test]
fn media_url_names() {
    assert_eq!(attachment_filename_from_url("attachment://clip.mp4"), "clip.mp4");
    assert_eq!(attachment_filename_from_url("https://cdn.discordapp.com/attachments/1/2/shot.png?ex=9"), "shot.png");
    assert_eq!(attachment_filename_from_url("plain"), "plain");
}

#[test]
fn media_attachment_ids() {
    assert_eq!(attachment_id_from_cdn_url("https://cdn.discordapp.com/attachments/111/222/f.png?x=1"), Some(222));
    assert_eq!(attachment_id_from_cdn_url("https://cdn.discordapp.com/attachments/111"), None);
    assert_eq!(attachment_id_from_cdn_url("https://example.com/a/b"), None);
    assert_eq!(attachment_id_from_cdn_url("https://cdn.discordapp.com/attachments/111/x2/f.png"), None);
}

#[test]
fn media_url_extensions() {
    assert_eq!(url_extension("https://cdn/x/clip.final.mp4?ex=1"), "mp4");
    assert_eq!(url_extension("https://cdn/x/noext"), "noext");
    assert_eq!(url_extension(""), "");
}

#[test]
fn confirmation_round_trip() {
    let id = confirmation_id(55, "closet_cheater", "abcdef", true);
    assert_eq!(id, "review_confirm:55:closet_cheater:abcdef:true");
    let preview = confirmation_preview("Steve", "closet_cheater", "aim assist");
    assert_eq!(
        preview,
        "## <:addtag:1459106318387249289> Confirm Submission\n<:closetcheater:1459106337039323136> Closet Cheater \u{2014} `Steve`\n> aim assist"
    );
    let c = parse_confirmation_data(&id, &[preview, "-# footer".to_string()]).unwrap();
    assert_eq!(c.player_name, "Steve");
    assert_eq!(c.player_uuid, "abcdef");
    assert_eq!(c.tag_type, "closet_cheater");
    assert_eq!(c.reason, "aim assist");
    assert!(c.is_nicked);
}

#[test]
fn confirmation_without_uuid() {
    let id = confirmation_id(1, "sniper", "", false);
    assert_eq!(id, "review_confirm:1:sniper:none:false");
    let c = parse_confirmation_data(&id, &[confirmation_preview("Nick", "sniper", "r")]).unwrap();
    assert_eq!(c.player_uuid, "");
    assert!(!c.is_nicked);
}

#[test]
fn confirmation_needs_its_parts() {
    assert!(parse_confirmation_data("review_cancel:1", &["x \u{2014} `y`".to_string()]).is_none());
    assert!(parse_confirmation_data("review_confirm:1:sniper", &["x \u{2014} `y`".to_string()]).is_none());
    assert!(parse_confirmation_data("review_confirm:1:sniper:none:false", &["no preview".to_string()]).is_none());
}
