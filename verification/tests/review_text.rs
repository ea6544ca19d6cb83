use coral::replay::Replay;
use coral::review::{Evidence, PlayerEntry, PlayerStatus};
use coral::review_format::{
    find_dash_separator, has_votes, is_player_entry, parse_component_ids, parse_evidence_line,
    parse_player_details, parse_player_header, parse_status_line, parse_submitter_id,
    parse_votes_line, player_card_header, render_player_details, render_replay_line,
    render_status_line, render_vote_status, is_submitter,
};

const ID: &str = "0a1b2c3d-4e5f-6789-abcd-ef0123456789";

fn blank(username: &str, tag_type: &str) -> PlayerEntry {
    PlayerEntry {
        username: username.to_string(),
        uuid: String::new(),
        tag_type: tag_type.to_string(),
        reason: String::new(),
        is_nicked: false,
        status: PlayerStatus::Pending,
        reviewer: None,
        review_note: None,
        evidence: Vec::new(),
        conflict_warning: None,
        accept_votes: Vec::new(),
        reject_votes: Vec::new(),
    }
}

#[test]
fn replay_line_forms() {
    let r = Replay { id: ID.to_string(), timestamp: Some("#5".to_string()) };
    assert_eq!(render_replay_line(&r, None), format!("- `/replay {ID} #5`"));
    assert_eq!(render_replay_line(&r, Some("bhop")), format!("- `/replay {ID} #5` \u{2014} Note: \"bhop\""));
}

#[test]
fn evidence_line_round_trip() {
    let r = Replay { id: ID.to_string(), timestamp: Some("#5".to_string()) };
    let line = render_replay_line(&r, Some("watch the end"));
    match parse_evidence_line(&line) {
        Some(Evidence::Replay { replay, note }) => {
            assert_eq!(replay.id, ID);
            assert_eq!(replay.timestamp.as_deref(), Some("#5"));
            assert_eq!(note.as_deref(), Some("watch the end"));
        },
        _ => panic!("evidence line did not read back"),
    }
    match parse_evidence_line(&render_replay_line(&r, None)) {
        Some(Evidence::Replay { note, .. }) => assert!(note.is_none()),
        _ => panic!("evidence line did not read back"),
    }
}

#[test]
fn evidence_lines_that_name_nothing() {
    assert!(parse_evidence_line("- just text").is_none());
    assert!(parse_evidence_line("- `/replay nope`").is_none());
    assert!(parse_evidence_line(&format!("`/replay {ID}`")).is_some());
}

#[test]
fn player_entry_detection() {
    assert!(is_player_entry("<:sniper:1459106167270932618> Sniper \u{2014} `Steve`\nmore"));
    assert!(!is_player_entry("Sniper - `Steve`"));
    assert!(!is_player_entry("first line\n \u{2014} `x`"));
}

#[test]
fn dash_separator_byte_position() {
    assert_eq!(find_dash_separator("ab \u{2014} c"), Some(2));
    assert_eq!(find_dash_separator("\u{e9} \u{2014} c"), Some(2));
    assert_eq!(find_dash_separator("no dash"), None);
}

#[test]
fn card_header_round_trip() {
    let p = blank("Steve_1", "blatant_cheater");
    let header = player_card_header(&p);
    assert_eq!(header, "<:blatantcheater:1459106183196577812> Blatant Cheater \u{2014} `Steve_1`");
    let back = parse_player_header(&header).unwrap();
    assert_eq!(back.username, "Steve_1");
    assert_eq!(back.tag_type, "blatant_cheater");
    assert_eq!(back.status, PlayerStatus::Pending);
    assert!(back.evidence.is_empty());
}

#[test]
fn header_of_unknown_tag_does_not_read_back() {
    let p = blank("Steve", "mystery");
    assert_eq!(player_card_header(&p), " mystery \u{2014} `Steve`");
    assert!(parse_player_header(&player_card_header(&p)).is_none());
}

#[test]
fn details_round_trip() {
    let mut p = blank("Steve", "sniper");
    p.is_nicked = false;
    let text = render_player_details(&p, "camps mid", "0a1b2c3d-4e5f-6789-abcd-ef0123456789");
    assert_eq!(text, "> camps mid\n> -# UUID: 0a1b2c3d-4e5f-6789-abcd-ef0123456789");
    let mut back = blank("Steve", "sniper");
    parse_player_details(&mut back, &text);
    assert_eq!(back.reason, "camps mid");
    assert_eq!(back.uuid, "0a1b2c3d4e5f6789abcdef0123456789");
    assert!(!back.is_nicked);
}

#[test]
fn nicked_details_and_evidence_lines() {
    let mut p = blank("Nick", "sniper");
    p.is_nicked = true;
    p.conflict_warning = Some("-# warning".to_string());
    let text = render_player_details(&p, "r", "");
    assert_eq!(text, "> r\n> -# Nicked \u{2014} UUID could not be resolved\n-# warning");
    let mut back = blank("Nick", "sniper");
    parse_player_details(&mut back, &format!("{text}\n- `/replay {ID}`"));
    assert!(back.is_nicked);
    assert_eq!(back.evidence.len(), 1);
}

#[test]
fn status_lines() {
    assert_eq!(parse_status_line("-# Pending review"), Some((PlayerStatus::Pending, None, None)));
    assert_eq!(parse_status_line("-# Approved by Mod"), Some((PlayerStatus::Approved, Some("Mod".to_string()), None)));
    assert_eq!(
        parse_status_line("-# Rejected by Mod: \"no proof\""),
        Some((PlayerStatus::Rejected, Some("Mod".to_string()), Some("no proof".to_string())))
    );
    assert_eq!(parse_status_line("-# Rejected by Mod"), Some((PlayerStatus::Rejected, Some("Mod".to_string()), None)));
    assert_eq!(parse_status_line("-# Approved"), None);
    assert_eq!(parse_status_line("Pending"), None);
}

#[test]
fn status_line_rendering() {
    let mut p = blank("a", "sniper");
    assert_eq!(render_status_line(&p), "-# Pending review");
    assert_eq!(parse_status_line(&render_status_line(&p)), Some((PlayerStatus::Pending, None, None)));
    p.status = PlayerStatus::Approved;
    assert_eq!(render_status_line(&p), "-# Approved");
    p.status = PlayerStatus::Rejected;
    p.review_note = Some("fake".to_string());
    assert_eq!(render_status_line(&p), "-# Rejected: \"fake\"");
}

#[test]
fn votes_lines() {
    assert_eq!(parse_votes_line("-# Votes: +1 -2 +3 x"), Some((vec![1, 3], vec![2])));
    assert_eq!(parse_votes_line("-# Votes: nothing"), None);
    assert_eq!(parse_votes_line("Votes: +1"), None);
}

#[test]
fn vote_tallies() {
    let mut p = blank("a", "sniper");
    assert!(!has_votes(&p));
    assert_eq!(render_vote_status(&p), "-# 0/3 rejecting");
    p.accept_votes = vec![1, 2];
    assert!(has_votes(&p));
    assert_eq!(render_vote_status(&p), "-# 2/3 accepting");
    p.reject_votes = vec![3];
    assert_eq!(render_vote_status(&p), "-# 2 accept, 1 reject \u{2014} staff required");
}

#[test]
fn component_ids() {
    assert_eq!(parse_component_ids("review_edit_tag:2:99"), (2, 99));
    assert_eq!(parse_component_ids("review_edit_tag"), (0, 0));
    assert_eq!(parse_component_ids("x:y:z"), (0, 0));
    assert_eq!(parse_submitter_id("review_submit:42"), Some(42));
    assert_eq!(parse_submitter_id("review_submit:abc"), None);
    assert!(is_submitter("review_submit:42", 42));
    assert!(is_submitter("review_submit:abc", 0));
    assert!(!is_submitter("review_submit:42", 41));
}

#[test]
fn status_lines_read_back_only_while_pending() {
    let mut p = blank("Steve", "sniper");
    p.status = PlayerStatus::Pending;
    let line = render_status_line(&p);
    assert_eq!(parse_status_line(&line), Some((PlayerStatus::Pending, None, None)));
    p.status = PlayerStatus::Approved;
    assert_eq!(parse_status_line(&render_status_line(&p)), None);
    p.status = PlayerStatus::Rejected;
    p.review_note = Some("alt".to_string());
    assert_eq!(render_status_line(&p), "-# Rejected: \"alt\"");
    assert_eq!(parse_status_line(&render_status_line(&p)), None);
}

#[test]
fn submitter_id_agrees_with_component_ids() {
    assert_eq!(parse_submitter_id("review_submit:42"), Some(42));
    assert_eq!(parse_submitter_id("review_submit:"), None);
    for id in ["review_approve:3:99", "review_edit_tag:0:18446744073709551615"] {
        assert_eq!(parse_submitter_id(id), Some(parse_component_ids(id).1));
    }
    assert_eq!(parse_component_ids("review_approve:3:99"), (3, 99));
    let odd = "review_approve:007:+0042";
    assert_eq!(parse_component_ids(odd), (7, 42));
    assert_eq!(parse_submitter_id(odd), Some(parse_component_ids(odd).1));
    assert_eq!(parse_submitter_id("review_approve:x:18446744073709551616"), None);
}
