use coral::replay::Replay;
use coral::review::{Evidence, PlayerEntry, PlayerStatus};
use coral::review_block::{parse_player_block, render_player_block};

const ID: &str = "0a1b2c3d-4e5f-6789-abcd-ef0123456789";

fn steve(evidence: Vec<Evidence>, warning: Option<&str>) -> PlayerEntry {
    PlayerEntry {
        username: "Steve".to_string(),
        uuid: "0a1b2c3d4e5f6789abcdef0123456789".to_string(),
        tag_type: "blatant_cheater".to_string(),
        reason: "flies — `fast`".to_string(),
        is_nicked: false,
        status: PlayerStatus::Approved,
        reviewer: Some("x".to_string()),
        review_note: None,
        evidence,
        conflict_warning: warning.map(|w| w.to_string()),
        accept_votes: vec![1],
        reject_votes: Vec::new(),
    }
}

#[test]
fn player_block_reads_back() {
    let evidence = vec![
        Evidence::Replay { replay: Replay { id: ID.to_string(), timestamp: Some("#7".to_string()) }, note: Some("look".to_string()) },
        Evidence::Replay { replay: Replay { id: ID.to_string(), timestamp: None }, note: None },
    ];
    let p = steve(evidence, None);
    let block = render_player_block(&p, &p.reason, ID);
    assert_eq!(
        block,
        format!(
            "<:blatantcheater:1459106183196577812> Blatant Cheater \u{2014} `Steve`\n> flies \u{2014} `fast`\n> -# UUID: {ID}\n- `/replay {ID} #7` \u{2014} Note: \"look\"\n- `/replay {ID}`"
        )
    );
    let q = parse_player_block(&block).unwrap();
    assert_eq!(q.username, p.username);
    assert_eq!(q.tag_type, p.tag_type);
    assert_eq!(q.reason, p.reason);
    assert_eq!(q.uuid, p.uuid);
    assert!(!q.is_nicked);
    assert_eq!(q.status, PlayerStatus::Pending);
    assert!(q.accept_votes.is_empty());
    assert_eq!(q.evidence.len(), 2);
    match &q.evidence[0] {
        Evidence::Replay { replay, note } => {
            assert_eq!(replay.id, ID);
            assert_eq!(replay.timestamp.as_deref(), Some("#7"));
            assert_eq!(note.as_deref(), Some("look"));
        },
        _ => panic!("replay expected"),
    }
}

#[test]
fn player_block_with_media_and_warning() {
    let mut p = steve(vec![Evidence::Attachment { filename: "a.png".to_string() }], Some("⚠ conflict"));
    p.is_nicked = true;
    let block = render_player_block(&p, "r", "");
    assert!(block.ends_with("> -# Nicked \u{2014} UUID could not be resolved\n-# 1 media attachment\n⚠ conflict"));
    let q = parse_player_block(&block).unwrap();
    assert!(q.is_nicked);
    assert_eq!(q.uuid, "");
    assert_eq!(q.reason, "r");
    assert!(q.evidence.is_empty());
    assert!(parse_player_block("").is_none());
    assert!(parse_player_block("no header here").is_none());
}
