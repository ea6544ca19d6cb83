use coral::access::AccessRank;
use coral::review::{
    approval_write, cast_vote, initial_forum_tags, reject_with_reason, submit, thread_resolution, vote_error_text,
    Evidence, ForumTag, PlayerEntry, PlayerStatus, SubmissionState, SubmitError, VoteError,
    VoteKind, VoteOutcome,
};

fn player(name: &str) -> PlayerEntry {
    PlayerEntry {
        username: name.to_string(),
        uuid: "u".to_string(),
        tag_type: "closet_cheater".to_string(),
        reason: "r".to_string(),
        is_nicked: false,
        status: PlayerStatus::Pending,
        reviewer: None,
        review_note: None,
        evidence: Vec::new(),
        conflict_warning: None,
        accept_votes: Vec::new(),
        reject_votes: Vec::new(),
    }
}

fn state(players: Vec<PlayerEntry>) -> SubmissionState {
    SubmissionState { submitter_id: 1, players, submitted: true, editing: None, pending_add: None }
}

#[test]
fn three_member_accepts_approve() {
    let mut st = state(vec![player("a")]);
    assert!(matches!(cast_vote(&mut st, 0, 10, 1, AccessRank::Member, VoteKind::Accept), Ok(VoteOutcome::Recorded { accepts: 1, rejects: 0 })));
    assert!(matches!(cast_vote(&mut st, 0, 11, 1, AccessRank::Member, VoteKind::Accept), Ok(VoteOutcome::Recorded { accepts: 2, rejects: 0 })));
    match cast_vote(&mut st, 0, 12, 1, AccessRank::Member, VoteKind::Accept) {
        Ok(VoteOutcome::Approved { reviewed_by, accurate }) => {
            assert_eq!(reviewed_by, vec![10, 11, 12]);
            assert_eq!(accurate, vec![10, 11, 12]);
        },
        _ => panic!("expected approval"),
    }
    assert_eq!(st.players[0].status, PlayerStatus::Approved);
    assert!(st.players[0].accept_votes.is_empty());
}

#[test]
fn votes_that_are_refused() {
    let mut st = state(vec![player("a")]);
    assert!(matches!(cast_vote(&mut st, 0, 1, 1, AccessRank::Member, VoteKind::Accept), Err(VoteError::OwnSubmission)));
    assert!(matches!(cast_vote(&mut st, 0, 5, 1, AccessRank::Default, VoteKind::Accept), Err(VoteError::NotMember)));
    assert!(matches!(cast_vote(&mut st, 3, 5, 1, AccessRank::Member, VoteKind::Accept), Err(VoteError::NoSuchPlayer)));
    assert!(cast_vote(&mut st, 0, 5, 1, AccessRank::Member, VoteKind::Reject).is_ok());
    assert!(matches!(cast_vote(&mut st, 0, 5, 1, AccessRank::Member, VoteKind::Accept), Err(VoteError::AlreadyVoted)));
    assert_eq!(st.players[0].reject_votes, vec![5]);
}

#[test]
fn staff_accept_decides_at_once() {
    let mut st = state(vec![player("a")]);
    cast_vote(&mut st, 0, 10, 1, AccessRank::Member, VoteKind::Accept).unwrap();
    match cast_vote(&mut st, 0, 20, 1, AccessRank::Helper, VoteKind::Accept) {
        Ok(VoteOutcome::Approved { reviewed_by, accurate }) => {
            assert_eq!(reviewed_by, vec![20]);
            assert_eq!(accurate, vec![10]);
        },
        _ => panic!("expected approval"),
    }
    assert!(matches!(cast_vote(&mut st, 0, 21, 1, AccessRank::Member, VoteKind::Accept), Err(VoteError::AlreadyReviewed)));
}

#[test]
fn staff_reject_asks_for_reason() {
    let mut st = state(vec![player("a")]);
    cast_vote(&mut st, 0, 10, 1, AccessRank::Member, VoteKind::Reject).unwrap();
    assert!(matches!(cast_vote(&mut st, 0, 20, 1, AccessRank::Moderator, VoteKind::Reject), Ok(VoteOutcome::AskRejectReason)));
    assert_eq!(st.players[0].status, PlayerStatus::Pending);
    assert_eq!(reject_with_reason(&mut st, 0, "no proof".to_string()).unwrap(), vec![10]);
    assert_eq!(st.players[0].status, PlayerStatus::Rejected);
    assert_eq!(st.players[0].review_note.as_deref(), Some("no proof"));
    assert!(matches!(reject_with_reason(&mut st, 0, "again".to_string()), Err(VoteError::AlreadyReviewed)));
    assert!(matches!(reject_with_reason(&mut st, 9, "x".to_string()), Err(VoteError::NoSuchPlayer)));
}

#[test]
fn member_rejects_reject() {
    let mut st = state(vec![player("a")]);
    for v in [10, 11] {
        cast_vote(&mut st, 0, v, 1, AccessRank::Member, VoteKind::Reject).unwrap();
    }
    match cast_vote(&mut st, 0, 12, 1, AccessRank::Member, VoteKind::Reject) {
        Ok(VoteOutcome::Rejected { accurate }) => assert_eq!(accurate, vec![10, 11, 12]),
        _ => panic!("expected rejection"),
    }
}

#[test]
fn mixed_votes_stay_pending() {
    let mut st = state(vec![player("a")]);
    cast_vote(&mut st, 0, 10, 1, AccessRank::Member, VoteKind::Accept).unwrap();
    cast_vote(&mut st, 0, 11, 1, AccessRank::Member, VoteKind::Accept).unwrap();
    cast_vote(&mut st, 0, 12, 1, AccessRank::Member, VoteKind::Reject).unwrap();
    assert!(matches!(cast_vote(&mut st, 0, 13, 1, AccessRank::Member, VoteKind::Accept), Ok(VoteOutcome::Recorded { accepts: 3, rejects: 1 })));
    assert_eq!(st.players[0].status, PlayerStatus::Pending);
}

#[test]
fn submitting() {
    let mut st = SubmissionState { submitter_id: 1, players: vec![], submitted: false, editing: None, pending_add: None };
    assert!(matches!(submit(&mut st), Err(SubmitError::NoPlayers)));
    st.players.push(player("a"));
    assert!(matches!(submit(&mut st), Err(SubmitError::NoEvidence)));
    let mut nicked = player("b");
    nicked.is_nicked = true;
    nicked.evidence.push(Evidence::Attachment { filename: "x.png".to_string() });
    st.players.push(nicked);
    let tags = submit(&mut st).unwrap();
    assert!(st.submitted);
    assert_eq!(tags, vec![ForumTag::Pending, ForumTag::Nicked]);
}

#[test]
fn resolving_a_thread() {
    let mut a = player("a");
    let mut b = player("b");
    let st = state(vec![a.clone(), b.clone()]);
    assert_eq!(thread_resolution(&st), None);
    a.status = PlayerStatus::Approved;
    b.status = PlayerStatus::Approved;
    assert_eq!(thread_resolution(&state(vec![a.clone(), b.clone()])), Some(vec![ForumTag::Approved]));
    b.status = PlayerStatus::Rejected;
    let mixed = thread_resolution(&state(vec![a, b])).unwrap();
    assert!(!mixed.is_empty());
}

#[test]
fn forum_tags_of_new_thread() {
    assert_eq!(initial_forum_tags(false), vec![ForumTag::AwaitingEvidence]);
    assert_eq!(initial_forum_tags(true), vec![ForumTag::AwaitingEvidence, ForumTag::Nicked]);
}

#[test]
fn approval_writes() {
    const U: &str = "0a1b2c3d4e5f6789abcdef0123456789";
    assert!(approval_write("sniper", true, false, &[], U, "r", 1, 2).is_none());
    let w = approval_write("closet_cheater", false, true, &["sniper".to_string(), "caution".to_string()], U, "bhop", 11, 22).unwrap();
    assert!(w.confirmed);
    assert_eq!(w.stored_type, "confirmed_cheater");
    assert_eq!(w.remove_conflict, Some(0));
    assert_eq!(w.removed_by, 22);
    assert_eq!(w.uuid, U);
    assert_eq!(w.reason, "bhop");
    assert_eq!(w.added_by, 11);
    assert!(!w.hide);
    let w = approval_write("closet_cheater", false, false, &["caution".to_string()], U, "", 11, 22).unwrap();
    assert!(!w.confirmed);
    assert_eq!(w.stored_type, "closet_cheater");
    assert_eq!(w.remove_conflict, None);
    assert_eq!(w.reason, "");
}

#[test]
fn refused_votes_are_answered() {
    assert_eq!(vote_error_text(VoteError::NotMember), Some("Only members and above can review submissions"));
    assert_eq!(vote_error_text(VoteError::OwnSubmission), Some("You cannot review your own submission"));
    assert_eq!(vote_error_text(VoteError::AlreadyReviewed), Some("This player has already been reviewed"));
    assert_eq!(vote_error_text(VoteError::AlreadyVoted), Some("You have already voted on this player"));
    assert_eq!(vote_error_text(VoteError::NoSuchPlayer), None);
}
