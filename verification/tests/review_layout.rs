use coral::replay::Replay;
use coral::review::{Evidence, PendingAdd, PlayerEntry, PlayerStatus, SubmissionState};
use coral::review_layout::{plan_review_message, ButtonStyle, ReviewPiece};

fn player(status: PlayerStatus, evidence: Vec<Evidence>, accepts: Vec<u64>) -> PlayerEntry {
    PlayerEntry {
        username: "Steve".to_string(),
        uuid: String::new(),
        tag_type: "closet_cheater".to_string(),
        reason: String::new(),
        is_nicked: false,
        status,
        reviewer: None,
        review_note: None,
        evidence,
        conflict_warning: None,
        accept_votes: accepts,
        reject_votes: Vec::new(),
    }
}

fn ids(piece: &ReviewPiece) -> Vec<String> {
    match piece {
        ReviewPiece::Buttons(bs) => bs.iter().map(|b| b.custom_id.clone()).collect(),
        _ => panic!("buttons expected, got {piece:?}"),
    }
}

#[test]
fn empty_thread_offers_add_submit_and_cancel() {
    let st = SubmissionState { submitter_id: 7, players: Vec::new(), submitted: false, editing: None, pending_add: None };
    let plan = plan_review_message(&st);
    assert_eq!(plan.len(), 5);
    assert!(matches!(plan[0], ReviewPiece::Header));
    assert!(matches!(plan[1], ReviewPiece::Separator));
    assert!(matches!(plan[2], ReviewPiece::Note("-# No players added yet")));
    assert!(matches!(plan[3], ReviewPiece::Note("-# Add evidence for each player, then submit when ready.")));
    assert_eq!(ids(&plan[4]), vec!["review_add_player:7", "review_submit:7", "review_cancel_thread:7"]);
}

#[test]
fn player_before_submission_has_edit_and_evidence_buttons() {
    let media = Evidence::Attachment { filename: "a.png".to_string() };
    let st = SubmissionState {
        submitter_id: 9,
        players: vec![player(PlayerStatus::Pending, vec![media], Vec::new())],
        submitted: false,
        editing: None,
        pending_add: None,
    };
    let plan = plan_review_message(&st);
    assert!(matches!(plan[2], ReviewPiece::CardHeader(0)));
    assert!(matches!(plan[3], ReviewPiece::CardDetails(0)));
    assert_eq!(ids(&plan[4]), vec!["review_edit_tag:0:9"]);
    assert!(matches!(plan[5], ReviewPiece::EvidenceSummary(0)));
    assert!(matches!(plan[6], ReviewPiece::MediaGallery(0)));
    assert_eq!(ids(&plan[7]), vec!["review_add_replay:0:9", "review_attach_media:0:9", "review_edit_evidence:0:9"]);
    assert!(matches!(plan[8], ReviewPiece::Separator));
    assert_eq!(plan.len(), 11);
}

#[test]
fn submitted_thread_shows_votes_and_verdict_buttons_only_for_pending() {
    let replay = Evidence::Replay { replay: Replay { id: "0a1b2c3d-4e5f-6789-abcd-ef0123456789".to_string(), timestamp: None }, note: None };
    let st = SubmissionState {
        submitter_id: 3,
        players: vec![player(PlayerStatus::Pending, vec![replay], vec![11]), player(PlayerStatus::Approved, Vec::new(), Vec::new())],
        submitted: true,
        editing: None,
        pending_add: None,
    };
    let plan = plan_review_message(&st);
    assert!(matches!(plan[4], ReviewPiece::EvidenceSummary(0)));
    assert!(matches!(plan[5], ReviewPiece::VoteStatus(0)));
    assert_eq!(ids(&plan[6]), vec!["review_approve:0:3", "review_reject:0:3"]);
    match &plan[6] {
        ReviewPiece::Buttons(bs) => {
            assert_eq!(bs[0].label, "Accept");
            assert_eq!(bs[0].style, ButtonStyle::Success);
            assert_eq!(bs[1].style, ButtonStyle::Danger);
        },
        _ => unreachable!(),
    }
    assert!(matches!(plan[7], ReviewPiece::Separator));
    assert!(matches!(plan[8], ReviewPiece::CardHeader(1)));
    assert!(matches!(plan[10], ReviewPiece::StatusLine(1)));
    assert!(matches!(plan[12], ReviewPiece::Note("-# Submitted \u{2014} awaiting review")));
    assert_eq!(ids(&plan[13]), vec!["review_edit_submitted:3"]);
    assert_eq!(plan.len(), 14);
}

#[test]
fn editing_and_adding_replace_the_usual_controls() {
    let st = SubmissionState {
        submitter_id: 5,
        players: vec![player(PlayerStatus::Pending, Vec::new(), Vec::new())],
        submitted: false,
        editing: Some(0),
        pending_add: Some(PendingAdd { identifier: "abc".to_string(), username: "Alex".to_string(), is_nicked: true }),
    };
    let plan = plan_review_message(&st);
    match &plan[4] {
        ReviewPiece::TagSelect { custom_id, selected, .. } => {
            assert_eq!(custom_id, "review_tag_select_edit:0:5");
            assert_eq!(*selected, Some(0));
        },
        other => panic!("tag menu expected, got {other:?}"),
    }
    assert_eq!(ids(&plan[5]), vec!["review_remove_player:0:5", "review_edit_done:0:5"]);
    assert!(matches!(plan[6], ReviewPiece::Separator));
    assert!(matches!(plan[7], ReviewPiece::PendingAddPrompt));
    match &plan[8] {
        ReviewPiece::TagSelect { custom_id, selected, .. } => {
            assert_eq!(custom_id, "review_pending_tag:abc:1:5");
            assert!(selected.is_none());
        },
        other => panic!("tag menu expected, got {other:?}"),
    }
    assert_eq!(ids(&plan[11]), vec!["review_submit:5", "review_cancel_thread:5"]);
}

#[test]
fn control_ids_name_their_player_and_submitter() {
    let st = SubmissionState {
        submitter_id: 424242,
        players: vec![player(PlayerStatus::Pending, Vec::new(), Vec::new()); 3],
        submitted: false,
        editing: None,
        pending_add: None,
    };
    let plan = plan_review_message(&st);
    let mut seen = 0;
    for piece in &plan {
        if let ReviewPiece::Buttons(bs) = piece {
            for b in bs {
                let parts: Vec<&str> = b.custom_id.split(':').collect();
                assert_eq!(coral::review_format::parse_submitter_id(&b.custom_id), Some(424242));
                if parts.len() == 3 {
                    let (idx, sub) = coral::review_format::parse_component_ids(&b.custom_id);
                    assert_eq!(idx.to_string(), parts[1]);
                    assert_eq!(sub, 424242);
                    seen += 1;
                }
            }
        }
    }
    assert_eq!(seen, 9);
}
