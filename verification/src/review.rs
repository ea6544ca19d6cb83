//! Tag review submissions: the state of a submission thread and the decisions
//! taken on it (submitting, voting, staff verdicts, thread resolution, and what
//! an approval writes to the blacklist).
use vstd::prelude::*;
use crate::access::{rank_level, AccessRank};
use crate::replay::{Replay, ReplayView};
use crate::tags::{conflict_from, find_priority_conflict, string_views};
use crate::text::{chars_of, str_eq_chars, string_from_chars};

verus! {

/// Where a submitted player stands.
#[derive(Clone, Copy, Debug, PartialEq, Eq, Structural)]
pub enum PlayerStatus {
    Pending,
    Approved,
    Rejected,
}

/// A piece of evidence attached to a submitted player.
#[derive(Clone, Debug)]
pub enum Evidence {
    Replay { replay: Replay, note: Option<String> },
    Attachment { filename: String },
}

/// One player in a submission.
#[derive(Clone, Debug)]
pub struct PlayerEntry {
    pub username: String,
    pub uuid: String,
    pub tag_type: String,
    pub reason: String,
    pub is_nicked: bool,
    pub status: PlayerStatus,
    pub reviewer: Option<String>,
    pub review_note: Option<String>,
    pub evidence: Vec<Evidence>,
    pub conflict_warning: Option<String>,
    pub accept_votes: Vec<u64>,
    pub reject_votes: Vec<u64>,
}

/// A player being added to a submission, waiting for its tag type.
#[derive(Clone, Debug)]
pub struct PendingAdd {
    pub identifier: String,
    pub username: String,
    pub is_nicked: bool,
}

/// The whole state of a submission thread.
#[derive(Clone, Debug)]
pub struct SubmissionState {
    pub submitter_id: u64,
    pub players: Vec<PlayerEntry>,
    pub submitted: bool,
    pub editing: Option<usize>,
    pub pending_add: Option<PendingAdd>,
}

/// The abstract content of a piece of evidence.
pub enum EvidenceView {
    Replay(ReplayView, Option<Seq<char>>),
    Attachment(Seq<char>),
}

/// The abstract content of a submitted player.
pub struct PlayerView {
    pub username: Seq<char>,
    pub uuid: Seq<char>,
    pub tag_type: Seq<char>,
    pub reason: Seq<char>,
    pub is_nicked: bool,
    pub status: PlayerStatus,
    pub reviewer: Option<Seq<char>>,
    pub review_note: Option<Seq<char>>,
    pub evidence: Seq<EvidenceView>,
    pub conflict_warning: Option<Seq<char>>,
    pub accept_votes: Seq<u64>,
    pub reject_votes: Seq<u64>,
}

/// The view of an optional string.
pub open spec fn opt_view(o: Option<String>) -> Option<Seq<char>> {
    match o {
        Some(s) => Some(s@),
        None => None,
    }
}

impl View for Evidence {
    type V = EvidenceView;

    open spec fn view(&self) -> EvidenceView {
        match self {
            Evidence::Replay { replay, note } => EvidenceView::Replay(replay@, opt_view(*note)),
            Evidence::Attachment { filename } => EvidenceView::Attachment(filename@),
        }
    }
}

impl View for PlayerEntry {
    type V = PlayerView;

    open spec fn view(&self) -> PlayerView {
        PlayerView {
            username: self.username@,
            uuid: self.uuid@,
            tag_type: self.tag_type@,
            reason: self.reason@,
            is_nicked: self.is_nicked,
            status: self.status,
            reviewer: opt_view(self.reviewer),
            review_note: opt_view(self.review_note),
            evidence: self.evidence@.map_values(|e: Evidence| e@),
            conflict_warning: opt_view(self.conflict_warning),
            accept_votes: self.accept_votes@,
            reject_votes: self.reject_votes@,
        }
    }
}

/// The views of a list of players.
pub open spec fn players_view(ps: Seq<PlayerEntry>) -> Seq<PlayerView> {
    ps.map_values(|p: PlayerEntry| p@)
}

// ---------------------------------------------------------------------------
// Vote bookkeeping
// ---------------------------------------------------------------------------

/// Nobody appears twice among a player's votes: each voter has cast at most
/// one accept or one reject.
pub open spec fn votes_well_formed(p: PlayerView) -> bool {
    &&& p.accept_votes.no_duplicates()
    &&& p.reject_votes.no_duplicates()
    &&& forall|v: u64| p.accept_votes.contains(v) ==> !p.reject_votes.contains(v)
}

/// The invariant of a player in a submission: votes are well formed, and a
/// decided player carries no votes.
pub open spec fn player_inv(p: PlayerView) -> bool {
    &&& votes_well_formed(p)
    &&& p.status != PlayerStatus::Pending ==> p.accept_votes.len() == 0 && p.reject_votes.len()
        == 0
}

/// Every player of the submission satisfies the player invariant.
pub open spec fn submission_inv(ps: Seq<PlayerView>) -> bool {
    forall|i: int| 0 <= i < ps.len() ==> player_inv(#[trigger] ps[i])
}

/// Which way a voter votes.
#[derive(Clone, Copy, Debug, PartialEq, Eq, Structural)]
pub enum VoteKind {
    Accept,
    Reject,
}

/// Why a vote is refused.
#[derive(Clone, Copy, Debug, PartialEq, Eq, Structural)]
pub enum VoteError {
    /// Only members and above can review submissions.
    NotMember,
    /// A submitter cannot review their own submission.
    OwnSubmission,
    /// The vote names no player of the submission.
    NoSuchPlayer,
    /// The player has already been approved or rejected.
    AlreadyReviewed,
    /// The voter has already voted on this player.
    AlreadyVoted,
}

/// What a vote led to.
#[derive(Clone, Debug)]
pub enum VoteOutcome {
    /// The vote was recorded; the player stays pending with these vote counts.
    Recorded { accepts: usize, rejects: usize },
    /// The player was approved. `reviewed_by` is recorded on the tag and
    /// `accurate` are the voters whose verdict is credited.
    Approved { reviewed_by: Vec<u64>, accurate: Vec<u64> },
    /// The player was rejected; `accurate` are the voters credited.
    Rejected { accurate: Vec<u64> },
    /// A staff rejection: the voter is asked for a reason before anything changes.
    AskRejectReason,
}

/// The number of unanimous votes that decide a player without staff.
pub open spec fn votes_needed() -> nat {
    3
}

/// The player after a vote by `voter` is recorded.
pub open spec fn with_vote(p: PlayerView, voter: u64, kind: VoteKind) -> PlayerView {
    match kind {
        VoteKind::Accept => PlayerView { accept_votes: p.accept_votes.push(voter), ..p },
        VoteKind::Reject => PlayerView { reject_votes: p.reject_votes.push(voter), ..p },
    }
}

/// The player once decided: the verdict is set, the voter cleared and the
/// votes emptied.
pub open spec fn decided(p: PlayerView, status: PlayerStatus) -> PlayerView {
    PlayerView {
        status,
        reviewer: None,
        accept_votes: Seq::empty(),
        reject_votes: Seq::empty(),
        ..p
    }
}

/// A vote makes the decision unanimous: enough votes one way, none the other.
pub open spec fn unanimous(p: PlayerView, kind: VoteKind) -> bool {
    match kind {
        VoteKind::Accept => p.reject_votes.len() == 0 && p.accept_votes.len() >= votes_needed(),
        VoteKind::Reject => p.accept_votes.len() == 0 && p.reject_votes.len() >= votes_needed(),
    }
}

/// The refusal a vote meets, if any, in the order the checks are made.
pub open spec fn vote_refusal(
    ps: Seq<PlayerView>,
    idx: int,
    voter: u64,
    submitter_id: u64,
    rank: AccessRank,
    kind: VoteKind,
) -> Option<VoteError> {
    if rank_level(rank) < 1 {
        Some(VoteError::NotMember)
    } else if voter == submitter_id {
        Some(VoteError::OwnSubmission)
    } else if kind == VoteKind::Reject && rank_level(rank) >= 2 {
        None
    } else if !(0 <= idx < ps.len()) {
        Some(VoteError::NoSuchPlayer)
    } else if ps[idx].status != PlayerStatus::Pending {
        Some(VoteError::AlreadyReviewed)
    } else if ps[idx].accept_votes.contains(voter) || ps[idx].reject_votes.contains(voter) {
        Some(VoteError::AlreadyVoted)
    } else {
        None
    }
}

/// The player at `idx` after an accepted vote (for a staff rejection, unchanged).
pub open spec fn voted_player(p: PlayerView, voter: u64, rank: AccessRank, kind: VoteKind) -> PlayerView {
    let staff = rank_level(rank) >= 2;
    match kind {
        VoteKind::Accept => if staff {
            decided(p, PlayerStatus::Approved)
        } else if unanimous(with_vote(p, voter, kind), kind) {
            decided(with_vote(p, voter, kind), PlayerStatus::Approved)
        } else {
            with_vote(p, voter, kind)
        },
        VoteKind::Reject => if staff {
            p
        } else if unanimous(with_vote(p, voter, kind), kind) {
            decided(with_vote(p, voter, kind), PlayerStatus::Rejected)
        } else {
            with_vote(p, voter, kind)
        },
    }
}

/// `v` is in `s`.
fn contains_u64(s: &Vec<u64>, v: u64) -> (r: bool)
    ensures
        r == s@.contains(v),
{
    let mut i: usize = 0;
    while i < s.len()
        invariant
            i <= s@.len(),
            forall|j: int| 0 <= j < i ==> s@[j] != v,
        decreases s@.len() - i,
    {
        if s[i] == v {
            return true;
        }
        i = i + 1;
    }
    false
}

/// A copy of a list of voter ids.
fn copy_ids(s: &Vec<u64>) -> (r: Vec<u64>)
    ensures
        r@ == s@,
{
    let mut r: Vec<u64> = Vec::new();
    let mut i: usize = 0;
    while i < s.len()
        invariant
            i <= s@.len(),
            r@ == s@.subrange(0, i as int),
        decreases s@.len() - i,
    {
        r.push(s[i]);
        i = i + 1;
    }
    assert(s@.subrange(0, s@.len() as int) =~= s@);
    r
}

/// Casts a review vote by `voter` of rank `rank` on the player at
/// `player_index`, for a submission made by `submitter_id`.
///
/// Members vote: a vote is recorded, and the player is decided once
/// `votes_needed()` votes agree with none against. Staff (helpers and above)
/// decide at once when accepting; a staff rejection asks for a reason first
/// and changes nothing. Refusals change nothing.
pub fn cast_vote(
    state: &mut SubmissionState,
    player_index: usize,
    voter: u64,
    submitter_id: u64,
    rank: AccessRank,
    kind: VoteKind,
) -> (r: Result<VoteOutcome, VoteError>)
    ensures
        final(state).submitter_id == old(state).submitter_id,
        final(state).submitted == old(state).submitted,
        vote_refusal(players_view(old(state).players@), player_index as int, voter, submitter_id, rank, kind)
            matches Some(e) ==> r == Err::<VoteOutcome, VoteError>(e) && players_view(final(state).players@) == players_view(old(state).players@),
        vote_refusal(players_view(old(state).players@), player_index as int, voter, submitter_id, rank, kind)
            is None ==> r is Ok,
        r is Ok && kind == VoteKind::Reject && rank_level(rank) >= 2 ==> (r
            matches Ok(VoteOutcome::AskRejectReason)) && players_view(final(state).players@)
            == players_view(old(state).players@),
        r is Ok && !(kind == VoteKind::Reject && rank_level(rank) >= 2) ==> {
            let old_p = players_view(old(state).players@)[player_index as int];
            let new_p = voted_player(old_p, voter, rank, kind);
            &&& players_view(final(state).players@) == players_view(old(state).players@).update(
                player_index as int,
                new_p,
            )
            &&& match r {
                Ok(VoteOutcome::Recorded { accepts, rejects }) => new_p.status == PlayerStatus::Pending
                    && accepts == new_p.accept_votes.len() && rejects == new_p.reject_votes.len(),
                Ok(VoteOutcome::Approved { reviewed_by, accurate }) => new_p.status
                    == PlayerStatus::Approved && kind == VoteKind::Accept && (if rank_level(rank) >= 2 {
                    reviewed_by@ == seq![voter] && accurate@ == old_p.accept_votes
                } else {
                    reviewed_by@ == old_p.accept_votes.push(voter) && accurate@
                        == old_p.accept_votes.push(voter)
                }),
                Ok(VoteOutcome::Rejected { accurate }) => new_p.status == PlayerStatus::Rejected
                    && kind == VoteKind::Reject && accurate@ == old_p.reject_votes.push(voter),
                _ => false,
            }
        },
{
    let ghost old_ps = players_view(state.players@);
    if !rank.at_least(AccessRank::Member) {
        return Err(VoteError::NotMember);
    }
    if voter == submitter_id {
        return Err(VoteError::OwnSubmission);
    }
    let staff = rank.at_least(AccessRank::Helper);
    if kind == VoteKind::Reject && staff {
        return Ok(VoteOutcome::AskRejectReason);
    }
    if player_index >= state.players.len() {
        return Err(VoteError::NoSuchPlayer);
    }
    assert(old_ps[player_index as int] == state.players@[player_index as int]@);
    if state.players[player_index].status != PlayerStatus::Pending {
        return Err(VoteError::AlreadyReviewed);
    }
    if contains_u64(&state.players[player_index].accept_votes, voter) || contains_u64(
        &state.players[player_index].reject_votes,
        voter,
    ) {
        return Err(VoteError::AlreadyVoted);
    }
    let mut p = state.players.remove(player_index);
    let ghost old_p = p@;
    let outcome;
    match kind {
        VoteKind::Accept => {
            if staff {
                let accurate = copy_ids(&p.accept_votes);
                let mut reviewed_by: Vec<u64> = Vec::new();
                reviewed_by.push(voter);
                p.status = PlayerStatus::Approved;
                p.reviewer = None;
                p.accept_votes.clear();
                p.reject_votes.clear();
                outcome = VoteOutcome::Approved { reviewed_by, accurate };
            } else {
                p.accept_votes.push(voter);
                if p.reject_votes.len() == 0 && p.accept_votes.len() >= 3 {
                    let reviewed_by = copy_ids(&p.accept_votes);
                    let accurate = copy_ids(&p.accept_votes);
                    p.status = PlayerStatus::Approved;
                    p.reviewer = None;
                    p.accept_votes.clear();
                    p.reject_votes.clear();
                    outcome = VoteOutcome::Approved { reviewed_by, accurate };
                } else {
                    outcome = VoteOutcome::Recorded {
                        accepts: p.accept_votes.len(),
                        rejects: p.reject_votes.len(),
                    };
                }
            }
        },
        VoteKind::Reject => {
            p.reject_votes.push(voter);
            if p.accept_votes.len() == 0 && p.reject_votes.len() >= 3 {
                let accurate = copy_ids(&p.reject_votes);
                p.status = PlayerStatus::Rejected;
                p.reviewer = None;
                p.accept_votes.clear();
                p.reject_votes.clear();
                outcome = VoteOutcome::Rejected { accurate };
            } else {
                outcome = VoteOutcome::Recorded {
                    accepts: p.accept_votes.len(),
                    rejects: p.reject_votes.len(),
                };
            }
        },
    }
    assert(p@ == voted_player(old_p, voter, rank, kind));
    state.players.insert(player_index, p);
    assert(players_view(state.players@) =~= old_ps.update(player_index as int, p@));
    Ok(outcome)
}

/// Applies a staff rejection with its reason to the player at `player_index`:
/// the player is rejected with `note` as the review note, and the voters
/// who had already voted to reject are returned to be credited.
pub fn reject_with_reason(state: &mut SubmissionState, player_index: usize, note: String) -> (r: Result<Vec<u64>, VoteError>)
    ensures
        final(state).submitter_id == old(state).submitter_id,
        final(state).submitted == old(state).submitted,
        player_index >= old(state).players@.len() ==> r == Err::<Vec<u64>, VoteError>(VoteError::NoSuchPlayer),
        player_index < old(state).players@.len() && old(state).players@[player_index as int].status
            != PlayerStatus::Pending ==> r == Err::<Vec<u64>, VoteError>(VoteError::AlreadyReviewed),
        r is Err ==> players_view(final(state).players@) == players_view(old(state).players@),
        player_index < old(state).players@.len() && old(state).players@[player_index as int].status
            == PlayerStatus::Pending ==> r is Ok,
        r matches Ok(accurate) ==> {
            let old_p = players_view(old(state).players@)[player_index as int];
            &&& accurate@ == old_p.reject_votes
            &&& players_view(final(state).players@) == players_view(old(state).players@).update(
                player_index as int,
                PlayerView { review_note: Some(note@), ..decided(old_p, PlayerStatus::Rejected) },
            )
        },
{
    let ghost old_ps = players_view(state.players@);
    if player_index >= state.players.len() {
        return Err(VoteError::NoSuchPlayer);
    }
    assert(old_ps[player_index as int] == state.players@[player_index as int]@);
    if state.players[player_index].status != PlayerStatus::Pending {
        return Err(VoteError::AlreadyReviewed);
    }
    let mut p = state.players.remove(player_index);
    let ghost old_p = p@;
    let accurate = copy_ids(&p.reject_votes);
    p.status = PlayerStatus::Rejected;
    p.reviewer = None;
    p.review_note = Some(note);
    p.accept_votes.clear();
    p.reject_votes.clear();
    assert(p@ == PlayerView { review_note: Some(note@), ..decided(old_p, PlayerStatus::Rejected) });
    state.players.insert(player_index, p);
    assert(players_view(state.players@) =~= old_ps.update(player_index as int, p@));
    Ok(accurate)
}

// ---------------------------------------------------------------------------
// Submitting and resolving
// ---------------------------------------------------------------------------

/// The forum tags a review thread can carry.
#[derive(Clone, Copy, Debug, PartialEq, Eq, Structural)]
pub enum ForumTag {
    Pending,
    Approved,
    Rejected,
    Nicked,
    AwaitingEvidence,
}

/// Why a submission cannot be sent for review yet.
#[derive(Clone, Copy, Debug, PartialEq, Eq, Structural)]
pub enum SubmitError {
    /// No player has been added.
    NoPlayers,
    /// No player has any evidence.
    NoEvidence,
}

/// Some player of the list is nicked.
pub open spec fn any_nicked(ps: Seq<PlayerView>) -> bool {
    exists|i: int| 0 <= i < ps.len() && (#[trigger] ps[i]).is_nicked
}

/// Some player of the list has evidence.
pub open spec fn any_evidence(ps: Seq<PlayerView>) -> bool {
    exists|i: int| 0 <= i < ps.len() && (#[trigger] ps[i]).evidence.len() > 0
}

/// Every player of the list has the given status.
pub open spec fn all_status(ps: Seq<PlayerView>, st: PlayerStatus) -> bool {
    forall|i: int| 0 <= i < ps.len() ==> (#[trigger] ps[i]).status == st
}

/// No player of the list is pending.
pub open spec fn none_pending(ps: Seq<PlayerView>) -> bool {
    forall|i: int| 0 <= i < ps.len() ==> (#[trigger] ps[i]).status != PlayerStatus::Pending
}

/// `tags`, followed by the nicked tag when some player is nicked.
pub open spec fn with_nicked(tags: Seq<ForumTag>, ps: Seq<PlayerView>) -> Seq<ForumTag> {
    if any_nicked(ps) {
        tags.push(ForumTag::Nicked)
    } else {
        tags
    }
}

/// Some player of the list is nicked.
fn has_nicked(ps: &Vec<PlayerEntry>) -> (r: bool)
    ensures
        r == any_nicked(players_view(ps@)),
{
    let mut i: usize = 0;
    while i < ps.len()
        invariant
            i <= ps@.len(),
            forall|j: int| 0 <= j < i ==> !(#[trigger] players_view(ps@)[j]).is_nicked,
        decreases ps@.len() - i,
    {
        assert(players_view(ps@)[i as int] == ps@[i as int]@);
        if ps[i].is_nicked {
            return true;
        }
        i = i + 1;
    }
    false
}

/// Appends the nicked tag when some player is nicked.
fn push_nicked(tags: &mut Vec<ForumTag>, ps: &Vec<PlayerEntry>)
    ensures
        final(tags)@ == with_nicked(old(tags)@, players_view(ps@)),
{
    if has_nicked(ps) {
        tags.push(ForumTag::Nicked);
    }
}

/// Sends a submission for review. Refused when it has no player, or when no
/// player has evidence; otherwise it is marked submitted, and the forum tags the
/// thread should now carry are returned: pending, and nicked if a player is nicked.
pub fn submit(state: &mut SubmissionState) -> (r: Result<Vec<ForumTag>, SubmitError>)
    ensures
        old(state).players@.len() == 0 ==> r == Err::<Vec<ForumTag>, SubmitError>(SubmitError::NoPlayers),
        old(state).players@.len() > 0 && !any_evidence(players_view(old(state).players@)) ==> r
            == Err::<Vec<ForumTag>, SubmitError>(SubmitError::NoEvidence),
        old(state).players@.len() > 0 && any_evidence(players_view(old(state).players@)) ==> r is Ok,
        r is Err ==> final(state).submitted == old(state).submitted,
        r matches Ok(tags) ==> final(state).submitted && tags@ == with_nicked(
            seq![ForumTag::Pending],
            players_view(old(state).players@),
        ),
        final(state).players@ == old(state).players@,
        final(state).submitter_id == old(state).submitter_id,
{
    if state.players.len() == 0 {
        return Err(SubmitError::NoPlayers);
    }
    let mut i: usize = 0;
    let mut found = false;
    while i < state.players.len()
        invariant
            i <= state.players@.len(),
            !found ==> forall|j: int| 0 <= j < i ==> (#[trigger] players_view(state.players@)[j]).evidence.len() == 0,
            found ==> any_evidence(players_view(state.players@)),
        decreases state.players@.len() - i,
    {
        assert(players_view(state.players@)[i as int] == state.players@[i as int]@);
        if state.players[i].evidence.len() > 0 {
            found = true;
        }
        i = i + 1;
    }
    if !found {
        return Err(SubmitError::NoEvidence);
    }
    state.submitted = true;
    let mut tags: Vec<ForumTag> = Vec::new();
    tags.push(ForumTag::Pending);
    push_nicked(&mut tags, &state.players);
    Ok(tags)
}

/// The forum tags of a thread once every player is decided: approved when all
/// are approved, rejected when all are rejected, pending otherwise; plus nicked
/// if a player is nicked. `None` while some player is still pending.
pub open spec fn resolution_spec(ps: Seq<PlayerView>) -> Option<Seq<ForumTag>> {
    if !none_pending(ps) {
        None
    } else if all_status(ps, PlayerStatus::Approved) {
        Some(with_nicked(seq![ForumTag::Approved], ps))
    } else if all_status(ps, PlayerStatus::Rejected) {
        Some(with_nicked(seq![ForumTag::Rejected], ps))
    } else {
        Some(with_nicked(seq![ForumTag::Pending], ps))
    }
}

/// Every player of the list has status `st`.
fn all_have_status(ps: &Vec<PlayerEntry>, st: PlayerStatus) -> (r: bool)
    ensures
        r == all_status(players_view(ps@), st),
{
    let mut i: usize = 0;
    while i < ps.len()
        invariant
            i <= ps@.len(),
            forall|j: int| 0 <= j < i ==> (#[trigger] players_view(ps@)[j]).status == st,
        decreases ps@.len() - i,
    {
        assert(players_view(ps@)[i as int] == ps@[i as int]@);
        if ps[i].status != st {
            return false;
        }
        i = i + 1;
    }
    true
}

/// No player of the list is pending.
fn no_pending(ps: &Vec<PlayerEntry>) -> (r: bool)
    ensures
        r == none_pending(players_view(ps@)),
{
    let mut i: usize = 0;
    while i < ps.len()
        invariant
            i <= ps@.len(),
            forall|j: int| 0 <= j < i ==> (#[trigger] players_view(ps@)[j]).status != PlayerStatus::Pending,
        decreases ps@.len() - i,
    {
        assert(players_view(ps@)[i as int] == ps@[i as int]@);
        if ps[i].status == PlayerStatus::Pending {
            return false;
        }
        i = i + 1;
    }
    true
}

/// The forum tags a thread takes once all its players are reviewed, or `None`
/// while some player is pending.
pub fn thread_resolution(state: &SubmissionState) -> (r: Option<Vec<ForumTag>>)
    ensures
        r matches Some(tags) ==> resolution_spec(players_view(state.players@)) == Some(tags@),
        r is None ==> resolution_spec(players_view(state.players@)) is None,
{
    if !no_pending(&state.players) {
        return None;
    }
    let mut tags: Vec<ForumTag> = Vec::new();
    if all_have_status(&state.players, PlayerStatus::Approved) {
        tags.push(ForumTag::Approved);
    } else if all_have_status(&state.players, PlayerStatus::Rejected) {
        tags.push(ForumTag::Rejected);
    } else {
        tags.push(ForumTag::Pending);
    }
    push_nicked(&mut tags, &state.players);
    Some(tags)
}

/// The forum tags a new submission thread starts with: awaiting evidence, and
/// nicked when the player is nicked.
pub fn initial_forum_tags(is_nicked: bool) -> (r: Vec<ForumTag>)
    ensures
        r@ == (if is_nicked {
            seq![ForumTag::AwaitingEvidence, ForumTag::Nicked]
        } else {
            seq![ForumTag::AwaitingEvidence]
        }),
{
    let mut tags: Vec<ForumTag> = Vec::new();
    tags.push(ForumTag::AwaitingEvidence);
    if is_nicked {
        tags.push(ForumTag::Nicked);
    }
    tags
}

// ---------------------------------------------------------------------------
// What an approval writes
// ---------------------------------------------------------------------------

/// The tag types that become confirmed cheater when approved with media evidence.
pub open spec fn is_confirmable(t: Seq<char>) -> bool {
    t == "closet_cheater"@ || t == "blatant_cheater"@
}

/// The blacklist write an approval makes.
#[derive(Clone, Debug)]
pub struct ApprovalWrite {
    /// The index, among the player's existing tags, of the tag to remove first.
    pub remove_conflict: Option<usize>,
    /// Who the removal of that tag is recorded as made by: the approver.
    pub removed_by: u64,
    /// The player the tag is written for.
    pub uuid: String,
    /// The tag type stored.
    pub stored_type: String,
    /// The reason stored with the tag.
    pub reason: String,
    /// Who the tag is recorded as added by: the submitter, not the approver.
    pub added_by: u64,
    /// Whether the tag is hidden; an approved tag never is.
    pub hide: bool,
    /// Whether the tag was upgraded to confirmed cheater (an evidence post follows).
    pub confirmed: bool,
}

/// What approving a player writes to the blacklist: nothing for a nicked
/// player; otherwise the player's first existing tag of the same priority is
/// removed in the approver's name, and a visible tag with the player's UUID
/// and reason is added in the submitter's name, upgraded to confirmed
/// cheater when the submission carries media and the tag type is confirmable.
pub fn approval_write(
    tag_type: &str,
    is_nicked: bool,
    has_media: bool,
    existing: &[String],
    uuid: &str,
    reason: &str,
    submitter_id: u64,
    approver_id: u64,
) -> (r: Option<ApprovalWrite>)
    ensures
        is_nicked <==> r is None,
        r matches Some(w) ==> {
            &&& w.remove_conflict matches Some(i) ==> conflict_from(string_views(existing@), tag_type@, 0) == Some(i as int)
            &&& w.remove_conflict is None ==> conflict_from(string_views(existing@), tag_type@, 0) is None
            &&& w.removed_by == approver_id
            &&& w.uuid@ == uuid@
            &&& w.reason@ == reason@
            &&& w.added_by == submitter_id
            &&& !w.hide
            &&& w.confirmed == (has_media && is_confirmable(tag_type@))
            &&& w.stored_type@ == (if w.confirmed { "confirmed_cheater"@ } else { tag_type@ })
        },
{
    if is_nicked {
        return None;
    }
    let remove_conflict = find_priority_conflict(existing, tag_type);
    let cs = chars_of(tag_type);
    let confirmable = str_eq_chars("closet_cheater", &cs) || str_eq_chars("blatant_cheater", &cs);
    let confirmed = has_media && confirmable;
    let stored_type = if confirmed {
        let c = chars_of("confirmed_cheater");
        string_from_chars(&c)
    } else {
        string_from_chars(&cs)
    };
    Some(ApprovalWrite {
        remove_conflict,
        removed_by: approver_id,
        uuid: string_from_chars(&chars_of(uuid)),
        stored_type,
        reason: string_from_chars(&chars_of(reason)),
        added_by: submitter_id,
        hide: false,
        confirmed,
    })
}

/// The reply a refused vote is answered with; a vote naming no player of the
/// submission gets no reply.
pub fn vote_error_text(e: VoteError) -> (r: Option<&'static str>)
    ensures
        match e {
            VoteError::NotMember => r matches Some(t) && t@ == "Only members and above can review submissions"@,
            VoteError::OwnSubmission => r matches Some(t) && t@ == "You cannot review your own submission"@,
            VoteError::AlreadyReviewed => r matches Some(t) && t@ == "This player has already been reviewed"@,
            VoteError::AlreadyVoted => r matches Some(t) && t@ == "You have already voted on this player"@,
            VoteError::NoSuchPlayer => r is None,
        },
{
    match e {
        VoteError::NotMember => Some("Only members and above can review submissions"),
        VoteError::OwnSubmission => Some("You cannot review your own submission"),
        VoteError::AlreadyReviewed => Some("This player has already been reviewed"),
        VoteError::AlreadyVoted => Some("You have already voted on this player"),
        VoteError::NoSuchPlayer => None,
    }
}

/// A thread is resolved exactly when no player is pending. Its first tag
/// then says how the players were decided: approved when every player was
/// approved, rejected when there are players and every one was rejected, and
/// pending when some were approved and some rejected; the nicked tag follows,
/// and only follows, when some player is nicked.
pub proof fn lemma_resolution_follows_statuses(ps: Seq<PlayerView>)
    ensures
        resolution_spec(ps) is None <==> exists|i: int| 0 <= i < ps.len() && ps[i].status == PlayerStatus::Pending,
        resolution_spec(ps) matches Some(tags) ==> {
            &&& tags.len() >= 1
            &&& (forall|i: int| 0 <= i < ps.len() ==> ps[i].status == PlayerStatus::Approved) ==> tags[0]
                == ForumTag::Approved
            &&& (ps.len() > 0 && forall|i: int| 0 <= i < ps.len() ==> ps[i].status == PlayerStatus::Rejected)
                ==> tags[0] == ForumTag::Rejected && !tags.contains(ForumTag::Pending)
            &&& (exists|i: int, j: int|
                0 <= i < ps.len() && 0 <= j < ps.len() && ps[i].status == PlayerStatus::Approved
                    && ps[j].status == PlayerStatus::Rejected) ==> tags[0] == ForumTag::Pending
            &&& (exists|i: int| 0 <= i < ps.len() && ps[i].is_nicked) ==> tags.len() == 2 && tags[1]
                == ForumTag::Nicked
            &&& !(exists|i: int| 0 <= i < ps.len() && ps[i].is_nicked) ==> tags.len() == 1
        },
{
    if resolution_spec(ps) is None {
        assert(!none_pending(ps));
    }
    if exists|i: int| 0 <= i < ps.len() && ps[i].status == PlayerStatus::Pending {
        let i = choose|i: int| 0 <= i < ps.len() && ps[i].status == PlayerStatus::Pending;
        assert(!none_pending(ps));
    }
    if ps.len() > 0 && forall|i: int| 0 <= i < ps.len() ==> ps[i].status == PlayerStatus::Rejected {
        assert(ps[0].status == PlayerStatus::Rejected);
        assert(!all_status(ps, PlayerStatus::Approved));
        assert(all_status(ps, PlayerStatus::Rejected));
    }
    if exists|i: int, j: int|
        0 <= i < ps.len() && 0 <= j < ps.len() && ps[i].status == PlayerStatus::Approved
            && ps[j].status == PlayerStatus::Rejected {
        let (i, j) = choose|i: int, j: int|
            0 <= i < ps.len() && 0 <= j < ps.len() && ps[i].status == PlayerStatus::Approved
                && ps[j].status == PlayerStatus::Rejected;
        assert(!all_status(ps, PlayerStatus::Approved));
        assert(!all_status(ps, PlayerStatus::Rejected));
    }
    if exists|i: int| 0 <= i < ps.len() && ps[i].is_nicked {
        let i = choose|i: int| 0 <= i < ps.len() && ps[i].is_nicked;
        assert(any_nicked(ps));
    }
}

// ---------------------------------------------------------------------------
// Laws of voting
// ---------------------------------------------------------------------------

/// Every accepted vote keeps the player invariant: no voter is counted
/// twice, nobody is on both sides, and a decided player holds no votes.
pub proof fn lemma_vote_keeps_invariant(
    ps: Seq<PlayerView>,
    idx: int,
    voter: u64,
    submitter_id: u64,
    rank: AccessRank,
    kind: VoteKind,
)
    requires
        submission_inv(ps),
        vote_refusal(ps, idx, voter, submitter_id, rank, kind) is None,
        !(kind == VoteKind::Reject && rank_level(rank) >= 2),
    ensures
        submission_inv(ps.update(idx, voted_player(ps[idx], voter, rank, kind))),
{
    let p = ps[idx];
    assert(player_inv(p));
    let w = with_vote(p, voter, kind);
    assert(votes_well_formed(w)) by {
        match kind {
            VoteKind::Accept => {
                assert forall|v: u64| w.accept_votes.contains(v) implies !w.reject_votes.contains(v) by {
                    if v != voter {
                        assert(p.accept_votes.contains(v)) by {
                            let k = choose|k: int| 0 <= k < w.accept_votes.len() && w.accept_votes[k] == v;
                            assert(k < p.accept_votes.len());
                            assert(p.accept_votes[k] == v);
                        }
                    }
                }
                assert(w.accept_votes.no_duplicates()) by {
                    assert forall|i: int, j: int| 0 <= i < w.accept_votes.len() && 0 <= j < w.accept_votes.len() && i != j
                        implies w.accept_votes[i] != w.accept_votes[j] by {
                        if i == p.accept_votes.len() as int {
                            assert(!p.accept_votes.contains(voter));
                            assert(w.accept_votes[j] == p.accept_votes[j]);
                        } else if j == p.accept_votes.len() as int {
                            assert(!p.accept_votes.contains(voter));
                            assert(w.accept_votes[i] == p.accept_votes[i]);
                        }
                    }
                }
            },
            VoteKind::Reject => {
                assert forall|v: u64| w.accept_votes.contains(v) implies !w.reject_votes.contains(v) by {
                    if w.reject_votes.contains(v) && v != voter {
                        let k = choose|k: int| 0 <= k < w.reject_votes.len() && w.reject_votes[k] == v;
                        assert(k < p.reject_votes.len());
                        assert(p.reject_votes[k] == v);
                    }
                }
                assert(w.reject_votes.no_duplicates()) by {
                    assert forall|i: int, j: int| 0 <= i < w.reject_votes.len() && 0 <= j < w.reject_votes.len() && i != j
                        implies w.reject_votes[i] != w.reject_votes[j] by {
                        if i == p.reject_votes.len() as int {
                            assert(!p.reject_votes.contains(voter));
                            assert(w.reject_votes[j] == p.reject_votes[j]);
                        } else if j == p.reject_votes.len() as int {
                            assert(!p.reject_votes.contains(voter));
                            assert(w.reject_votes[i] == p.reject_votes[i]);
                        }
                    }
                }
            },
        }
    }
    let q = voted_player(p, voter, rank, kind);
    assert(player_inv(q)) by {
        let e: Seq<u64> = Seq::empty();
        assert(e.no_duplicates());
    }
    let ps2 = ps.update(idx, q);
    assert forall|i: int| 0 <= i < ps2.len() implies player_inv(#[trigger] ps2[i]) by {
        if i != idx {
            assert(ps2[i] == ps[i]);
        }
    }
}

/// A submitter can never review their own submission.
pub proof fn lemma_submitter_cannot_vote(
    ps: Seq<PlayerView>,
    idx: int,
    submitter_id: u64,
    rank: AccessRank,
    kind: VoteKind,
)
    requires
        rank_level(rank) >= 1,
    ensures
        vote_refusal(ps, idx, submitter_id, submitter_id, rank, kind) == Some(VoteError::OwnSubmission),
{
}

/// Verdicts are final: no vote changes a player who is already approved or rejected.
pub proof fn lemma_decided_players_are_final(
    ps: Seq<PlayerView>,
    idx: int,
    voter: u64,
    submitter_id: u64,
    rank: AccessRank,
    kind: VoteKind,
)
    requires
        0 <= idx < ps.len(),
        ps[idx].status != PlayerStatus::Pending,
    ensures
        vote_refusal(ps, idx, voter, submitter_id, rank, kind) is Some || (kind == VoteKind::Reject
            && rank_level(rank) >= 2),
{
}

/// Without staff, a player is approved only by the third agreeing accept vote
/// with no reject vote, and rejected only by the third agreeing reject vote
/// with no accept vote.
pub proof fn lemma_member_votes_need_unanimity(p: PlayerView, voter: u64, rank: AccessRank, kind: VoteKind)
    requires
        rank_level(rank) < 2,
        p.status == PlayerStatus::Pending,
    ensures
        voted_player(p, voter, rank, kind).status == PlayerStatus::Approved ==> kind == VoteKind::Accept
            && p.reject_votes.len() == 0 && p.accept_votes.len() + 1 >= votes_needed(),
        voted_player(p, voter, rank, kind).status == PlayerStatus::Rejected ==> kind == VoteKind::Reject
            && p.accept_votes.len() == 0 && p.reject_votes.len() + 1 >= votes_needed(),
{
}

} // verus!
