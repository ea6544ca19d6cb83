use coral::replay::Replay;
use coral::review::{Evidence, PlayerEntry, PlayerStatus};
use coral::review_state::{parse_state_from_message, MessagePart};

const ID: &str = "0a1b2c3d-4e5f-6789-abcd-ef0123456789";

fn text(s: &str) -> MessagePart {
    MessagePart::Text(Some(s.to_string()))
}

#[test]
fn state_read_back_from_message() {
    let header = "## <:tag:1459106270207545417> Tag Review\n-# Submitted by <@77>".to_string();
    let card = "<:sniper:1459106167270932618> Sniper \u{2014} `Steve`";
    let parts = vec![
        text(&header),
        MessagePart::Other,
        MessagePart::Section(Some(card.to_string())),
        text("> camps spawn\n> -# UUID: 0a1b2c3d-4e5f-6789-abcd-ef0123456789"),
        text(&format!("- `/replay {ID} #3` \u{2014} Note: \"end\"")),
        MessagePart::Gallery(vec!["attachment://a.png".to_string()]),
        text("-# Votes: +5 -6"),
        text("<:caution:1459106358098923583> Caution \u{2014} `Alex`"),
        text("-# Pending review"),
    ];
    let texts = vec![header.clone(), "-# Submitted \u{2014} awaiting review".to_string()];
    let st = parse_state_from_message(&texts, Some(&parts)).unwrap();
    assert_eq!(st.submitter_id, 77);
    assert!(st.submitted);
    assert!(st.editing.is_none());
    assert!(st.pending_add.is_none());
    assert_eq!(st.players.len(), 2);
    let p = &st.players[0];
    assert_eq!(p.username, "Steve");
    assert_eq!(p.tag_type, "sniper");
    assert_eq!(p.reason, "camps spawn");
    assert_eq!(p.uuid, "0a1b2c3d4e5f6789abcdef0123456789");
    assert_eq!(p.evidence.len(), 2);
    assert_eq!(p.accept_votes, vec![5]);
    assert_eq!(p.reject_votes, vec![6]);
    let q = &st.players[1];
    assert_eq!(q.username, "Alex");
    assert_eq!(q.tag_type, "caution");
    assert_eq!(q.status, PlayerStatus::Pending);
}

#[test]
fn state_needs_container_and_submitter() {
    let texts = vec!["-# Submitted by <@1>".to_string()];
    assert!(parse_state_from_message(&texts, None).is_none());
    assert!(parse_state_from_message(&["no mention".to_string()], Some(&[])).is_none());
    let st = parse_state_from_message(&texts, Some(&[])).unwrap();
    assert!(st.players.is_empty());
    assert!(!st.submitted);
}

#[test]
fn parts_before_any_player_are_ignored() {
    let texts = vec!["<@9>".to_string()];
    let parts = vec![text("> orphan details"), MessagePart::Gallery(vec!["attachment://x.png".to_string()])];
    let st = parse_state_from_message(&texts, Some(&parts)).unwrap();
    assert!(st.players.is_empty());
}

fn card_parts(p: &PlayerEntry, reason: &str, uuid_text: &str) -> Vec<MessagePart> {
    let mut parts = vec![
        text("## <:tag:1459106270207545417> Tag Review\n-# Submitted by <@5>"),
        text(&coral::review_format::player_card_header(p)),
        MessagePart::Other,
        text(&coral::review_format::render_player_details(p, reason, uuid_text)),
    ];
    if let Some(s) = coral::review_messages::render_evidence_summary(p) {
        parts.push(text(&s));
    }
    parts
}

#[test]
fn whole_player_card_reads_back() {
    let p = PlayerEntry {
        username: "Steve".to_string(),
        uuid: "0a1b2c3d4e5f6789abcdef0123456789".to_string(),
        tag_type: "closet_cheater".to_string(),
        reason: "camps spawn".to_string(),
        is_nicked: false,
        status: PlayerStatus::Pending,
        reviewer: None,
        review_note: None,
        evidence: vec![
            Evidence::Replay { replay: Replay { id: ID.to_string(), timestamp: Some("#12".to_string()) }, note: Some("bhop".to_string()) },
            Evidence::Replay { replay: Replay { id: ID.to_string(), timestamp: None }, note: None },
        ],
        conflict_warning: None,
        accept_votes: Vec::new(),
        reject_votes: Vec::new(),
    };
    let parts = card_parts(&p, "camps spawn", ID);
    let texts = vec!["-# Submitted by <@5>".to_string()];
    let st = parse_state_from_message(&texts, Some(&parts)).unwrap();
    assert_eq!(st.players.len(), 1);
    let q = &st.players[0];
    assert_eq!(q.username, p.username);
    assert_eq!(q.tag_type, p.tag_type);
    assert_eq!(q.reason, p.reason);
    assert_eq!(q.is_nicked, p.is_nicked);
    assert_eq!(q.uuid, p.uuid);
    assert_eq!(q.evidence.len(), 2);
    match (&q.evidence[0], &q.evidence[1]) {
        (Evidence::Replay { replay: r0, note: n0 }, Evidence::Replay { replay: r1, note: n1 }) => {
            assert_eq!(r0.id, ID);
            assert_eq!(r0.timestamp.as_deref(), Some("#12"));
            assert_eq!(n0.as_deref(), Some("bhop"));
            assert_eq!(r1.id, ID);
            assert!(r1.timestamp.is_none());
            assert!(n1.is_none());
        }
        _ => panic!("replays expected"),
    }
    assert_eq!(q.status, PlayerStatus::Pending);

    let mut nicked = p.clone();
    nicked.is_nicked = true;
    nicked.uuid = String::new();
    nicked.evidence = Vec::new();
    let st = parse_state_from_message(&texts, Some(&card_parts(&nicked, "camps spawn", ""))).unwrap();
    let q = &st.players[0];
    assert!(q.is_nicked);
    assert_eq!(q.uuid, "");
    assert!(q.evidence.is_empty());
    assert_eq!(q.reason, "camps spawn");
}
