use coral::replay::Replay;
use coral::review::{Evidence, PlayerEntry, PlayerStatus, SubmissionState};
use coral::review_edit::{
    add_media_evidence, add_player, add_replay_evidence, begin_add_player, conflict_warning_text, edit_player,
    new_submission, remove_evidence, remove_player, submission_title, timeout_applies, timeout_warning_text, EditError,
};

fn player(name: &str, uuid: &str, nicked: bool) -> PlayerEntry {
    PlayerEntry {
        username: name.to_string(),
        uuid: uuid.to_string(),
        tag_type: "closet_cheater".to_string(),
        reason: String::new(),
        is_nicked: nicked,
        status: PlayerStatus::Pending,
        reviewer: None,
        review_note: None,
        evidence: Vec::new(),
        conflict_warning: None,
        accept_votes: Vec::new(),
        reject_votes: Vec::new(),
    }
}

fn state(players: Vec<PlayerEntry>) -> SubmissionState {
    SubmissionState { submitter_id: 7, players, submitted: false, editing: None, pending_add: None }
}

fn attachment(name: &str) -> Evidence {
    Evidence::Attachment { filename: name.to_string() }
}

fn replay(id: &str, ts: Option<&str>) -> Replay {
    Replay { id: id.to_string(), timestamp: ts.map(|t| t.to_string()) }
}

#[test]
fn adding_a_player_twice_is_refused() {
    let mut st = state(vec![player("Steve", "abc", false), player("Ghost", "", true)]);
    assert_eq!(begin_add_player(&mut st, "Other".to_string(), "abc".to_string(), false), Err(EditError::AlreadyAdded));
    assert!(st.pending_add.is_none());
    assert_eq!(begin_add_player(&mut st, "GHOST".to_string(), String::new(), true), Err(EditError::AlreadyAdded));
    assert_eq!(begin_add_player(&mut st, "Alex".to_string(), "def".to_string(), false), Ok(()));
    let pending = st.pending_add.clone().unwrap();
    assert_eq!(pending.identifier, "def");
    assert_eq!(pending.username, "Alex");
    assert!(!pending.is_nicked);
    assert_eq!(begin_add_player(&mut st, "Nick".to_string(), String::new(), true), Ok(()));
    assert_eq!(st.pending_add.clone().unwrap().identifier, "Nick");
    assert_eq!(st.players.len(), 2);
}

#[test]
fn adding_a_player_needs_a_known_tag() {
    let mut st = state(vec![]);
    assert_eq!(
        add_player(&mut st, "Alex".to_string(), "def".to_string(), "nonsense".to_string(), String::new(), false),
        Err(EditError::UnknownTag)
    );
    assert!(st.players.is_empty());
    assert_eq!(
        add_player(&mut st, "Alex".to_string(), "def".to_string(), "blatant_cheater".to_string(), "fly".to_string(), false),
        Ok(())
    );
    assert_eq!(st.players.len(), 1);
    assert_eq!(st.players[0].username, "Alex");
    assert_eq!(st.players[0].tag_type, "blatant_cheater");
    assert_eq!(st.players[0].reason, "fly");
    assert_eq!(st.players[0].status, PlayerStatus::Pending);
    assert!(st.players[0].evidence.is_empty());
}

#[test]
fn editing_and_removing_players() {
    let mut st = state(vec![player("A", "1", false), player("B", "2", false)]);
    assert_eq!(edit_player(&mut st, 1, "sniper".to_string(), "why".to_string()), Ok(()));
    assert_eq!(st.players[1].tag_type, "sniper");
    assert_eq!(st.players[1].reason, "why");
    assert_eq!(edit_player(&mut st, 5, "sniper".to_string(), String::new()), Err(EditError::PlayerNotFound));
    assert_eq!(edit_player(&mut st, 0, "bogus".to_string(), String::new()), Err(EditError::UnknownTag));
    assert_eq!(st.players[0].tag_type, "closet_cheater");
    remove_player(&mut st, 9);
    assert_eq!(st.players.len(), 2);
    remove_player(&mut st, 0);
    assert_eq!(st.players.len(), 1);
    assert_eq!(st.players[0].username, "B");
}

#[test]
fn a_replay_is_not_added_twice() {
    let mut st = state(vec![player("A", "1", false)]);
    assert_eq!(add_replay_evidence(&mut st, 0, replay("r1", Some("1:00")), String::new()), Ok(()));
    assert_eq!(add_replay_evidence(&mut st, 0, replay("r1", Some("1:00")), "again".to_string()), Err(EditError::DuplicateReplay));
    assert_eq!(add_replay_evidence(&mut st, 0, replay("r1", None), "whole".to_string()), Ok(()));
    assert_eq!(add_replay_evidence(&mut st, 3, replay("r2", None), String::new()), Err(EditError::PlayerNotFound));
    assert_eq!(st.players[0].evidence.len(), 2);
    match &st.players[0].evidence[0] {
        Evidence::Replay { note, .. } => assert!(note.is_none()),
        _ => panic!("expected a replay"),
    }
    match &st.players[0].evidence[1] {
        Evidence::Replay { note, .. } => assert_eq!(note.as_deref(), Some("whole")),
        _ => panic!("expected a replay"),
    }
    remove_evidence(&mut st, 0, 0);
    assert_eq!(st.players[0].evidence.len(), 1);
    remove_evidence(&mut st, 0, 4);
    assert_eq!(st.players[0].evidence.len(), 1);
}

#[test]
fn media_are_numbered_after_the_existing_ones() {
    let mut p = player("Steve", "1", false);
    p.evidence.push(attachment("Steve_1.png"));
    let mut st = state(vec![p]);
    let uploads = vec![Some("Clip.MP4".to_string()), Some("notes.txt".to_string()), Some("shot.PNG".to_string())];
    let out = add_media_evidence(&mut st, 0, &uploads).unwrap();
    assert_eq!(out.rejected, 1);
    assert_eq!(out.accepted.len(), 2);
    assert_eq!(out.accepted[0].upload, 0);
    assert_eq!(out.accepted[0].filename, "Steve_2.mp4");
    assert_eq!(out.accepted[1].upload, 2);
    assert_eq!(out.accepted[1].filename, "Steve_4.png");
    assert_eq!(st.players[0].evidence.len(), 3);
}

#[test]
fn media_beyond_the_fourth_are_not_looked_at() {
    let mut p = player("A", "1", false);
    for i in 0..3 {
        p.evidence.push(attachment(&format!("A_{}.png", i + 1)));
    }
    let mut st = state(vec![p]);
    let uploads = vec![Some("x.gif".to_string()), Some("y.gif".to_string())];
    let out = add_media_evidence(&mut st, 0, &uploads).unwrap();
    assert_eq!(out.accepted.len(), 1);
    assert_eq!(out.accepted[0].filename, "A_4.gif");
    assert_eq!(st.players[0].evidence.len(), 4);
    let out = add_media_evidence(&mut st, 0, &uploads).unwrap();
    assert!(out.accepted.is_empty());
    assert_eq!(out.rejected, 0);
    assert_eq!(st.players[0].evidence.len(), 4);
}

#[test]
fn refused_media_leave_the_player_unchanged() {
    let mut st = state(vec![player("A", "1", false)]);
    let uploads = vec![Some("archive.zip".to_string()), None];
    assert!(matches!(add_media_evidence(&mut st, 0, &uploads), Err(EditError::UnsupportedMedia)));
    assert!(st.players[0].evidence.is_empty());
    assert!(matches!(add_media_evidence(&mut st, 2, &uploads), Err(EditError::PlayerNotFound)));
    let out = add_media_evidence(&mut st, 5, &[]).unwrap();
    assert!(out.accepted.is_empty());
    let out = add_media_evidence(&mut st, 0, &[Some("noext".to_string())]);
    assert!(matches!(out, Err(EditError::UnsupportedMedia)));
    let out = add_media_evidence(&mut st, 0, &[Some("webm".to_string())]).unwrap();
    assert_eq!(out.accepted[0].filename, "A_1.webm");
}

#[test]
fn a_new_submission_and_its_texts() {
    let st = new_submission(9, "Steve".to_string(), "abc".to_string(), "closet_cheater".to_string(), "aim".to_string(), false);
    assert_eq!(st.submitter_id, 9);
    assert!(!st.submitted);
    assert_eq!(st.players.len(), 1);
    assert_eq!(st.players[0].status, PlayerStatus::Pending);
    assert_eq!(st.players[0].reason, "aim");
    assert_eq!(submission_title("Steve", "closet_cheater"), "Steve \u{2014} Closet Cheater");
    assert_eq!(submission_title("Steve", "weird"), "Steve \u{2014} weird");
    let sniper = coral::tags::lookup("sniper").unwrap();
    assert_eq!(
        conflict_warning_text("sniper", "camping"),
        format!("\u{26A0} Existing tag: {} Sniper \u{2014} \"camping\"", sniper.emote)
    );
    assert_eq!(conflict_warning_text("odd", "x"), "\u{26A0} Existing tag:  odd \u{2014} \"x\"");
}

#[test]
fn the_timeout_spares_submitted_threads() {
    let mut st = state(vec![player("A", "1", false)]);
    assert!(timeout_applies(Some(&st)));
    st.submitted = true;
    assert!(!timeout_applies(Some(&st)));
    assert!(!timeout_applies(None));
    assert_eq!(
        timeout_warning_text(77),
        "<@77> This submission will be automatically cancelled in 10 minutes due to inactivity."
    );
}
