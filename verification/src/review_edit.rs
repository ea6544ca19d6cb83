//! Building a submission before it is reviewed: starting one, adding and
//! removing players, changing a player's tag, adding and removing evidence
//! with the limits the thread keeps (no replay twice, at most four media per
//! player), and the texts of the thread's title, conflict warnings and
//! inactivity timeout.
use vstd::prelude::*;
use crate::replay::{Replay, ReplayView};
use crate::review::{Evidence, EvidenceView, PendingAdd, PlayerEntry, PlayerStatus, PlayerView, SubmissionState, players_view};
use crate::review_format::fresh_player;
use crate::review_messages::media_count;
use crate::evidence_thread::display_of;
use crate::tags::{definition, kind_named, lookup};
use crate::text::{chars_eq, chars_of, decimal, decimal_exec, last_piece, last_piece_exec, push_chars, push_str, string_from_chars};

verus! {

/// The most media attachments one player may carry.
pub const MAX_MEDIA_PER_PLAYER: usize = 4;

/// Why an edit of a submission is refused.
#[derive(Clone, Copy, Debug, PartialEq, Eq, Structural)]
pub enum EditError {
    /// The player is already part of the submission.
    AlreadyAdded,
    /// The tag type is not in the catalogue.
    UnknownTag,
    /// No player has that index.
    PlayerNotFound,
    /// That replay is already among the player's evidence.
    DuplicateReplay,
    /// Every upload that could be taken had a file type other than an image or
    /// a video.
    UnsupportedMedia,
}

/// `c` in ASCII lower case.
pub open spec fn ascii_lower(c: char) -> char {
    if 'A' <= c <= 'Z' {
        ((c as u32) + 32) as char
    } else {
        c
    }
}

/// Two texts are equal ignoring ASCII case (`eq_ignore_ascii_case`).
pub open spec fn eq_ignore_ascii_case(a: Seq<char>, b: Seq<char>) -> bool {
    a.len() == b.len() && forall|i: int| 0 <= i < a.len() ==> ascii_lower(#[trigger] a[i]) == ascii_lower(b[i])
}

/// `c` in ASCII lower case.
fn ascii_lower_exec(c: char) -> (r: char)
    ensures
        r == ascii_lower(c),
{
    if 'A' <= c && c <= 'Z' {
        let v: u8 = (c as u32 + 32) as u8;
        v as char
    } else {
        c
    }
}

/// Whether two texts are equal ignoring ASCII case.
fn eq_ignore_case_exec(a: &[char], b: &[char]) -> (r: bool)
    ensures
        r == eq_ignore_ascii_case(a@, b@),
{
    if a.len() != b.len() {
        return false;
    }
    let mut i: usize = 0;
    while i < a.len()
        invariant
            i <= a@.len(),
            a@.len() == b@.len(),
            forall|j: int| 0 <= j < i ==> ascii_lower(#[trigger] a@[j]) == ascii_lower(b@[j]),
        decreases a@.len() - i,
    {
        if ascii_lower_exec(a[i]) != ascii_lower_exec(b[i]) {
            return false;
        }
        i = i + 1;
    }
    true
}

/// The player is the one being added: the same nick (ignoring ASCII case) for
/// a nicked player, the same UUID otherwise.
pub open spec fn same_player(p: PlayerView, is_nicked: bool, name: Seq<char>, uuid: Seq<char>) -> bool {
    if is_nicked {
        p.is_nicked && eq_ignore_ascii_case(p.username, name)
    } else {
        p.uuid == uuid
    }
}

/// Some player of the submission is the one being added.
pub open spec fn already_in(ps: Seq<PlayerView>, is_nicked: bool, name: Seq<char>, uuid: Seq<char>) -> bool {
    exists|i: int| 0 <= i < ps.len() && same_player(#[trigger] ps[i], is_nicked, name, uuid)
}

/// Starts adding a player, resolved to `name` and `uuid` (a nick when
/// unresolved): refused when the player is already in the submission;
/// otherwise the player waits for a tag type, known by nick or by UUID.
pub fn begin_add_player(state: &mut SubmissionState, name: String, uuid: String, is_nicked: bool) -> (r: Result<(), EditError>)
    ensures
        players_view(final(state).players@) == players_view(old(state).players@),
        final(state).submitter_id == old(state).submitter_id,
        final(state).submitted == old(state).submitted,
        final(state).editing == old(state).editing,
        already_in(players_view(old(state).players@), is_nicked, name@, uuid@) ==> r == Err::<(), EditError>(EditError::AlreadyAdded) && final(state).pending_add == old(state).pending_add,
        !already_in(players_view(old(state).players@), is_nicked, name@, uuid@) ==> r is Ok && (final(state).pending_add matches Some(p)
            && p.identifier@ == (if is_nicked { name@ } else { uuid@ }) && p.username@ == name@ && p.is_nicked == is_nicked),
{
    let n = chars_of(name.as_str());
    let u = chars_of(uuid.as_str());
    let mut i: usize = 0;
    while i < state.players.len()
        invariant
            i <= state.players@.len(),
            n@ == name@,
            u@ == uuid@,
            forall|j: int| 0 <= j < i ==> !same_player(#[trigger] players_view(state.players@)[j], is_nicked, name@, uuid@),
        decreases state.players@.len() - i,
    {
        let p = &state.players[i];
        assert(players_view(state.players@)[i as int] == p@);
        let same = if is_nicked {
            p.is_nicked && eq_ignore_case_exec(&chars_of(p.username.as_str()), &n)
        } else {
            chars_eq(&chars_of(p.uuid.as_str()), &u)
        };
        if same {
            return Err(EditError::AlreadyAdded);
        }
        i = i + 1;
    }
    let identifier = if is_nicked { string_from_chars(&n) } else { string_from_chars(&u) };
    state.pending_add = Some(PendingAdd { identifier, username: name, is_nicked });
    Ok(())
}

/// Adds a player with a known tag type to the submission, pending review and
/// without evidence.
pub fn add_player(state: &mut SubmissionState, username: String, uuid: String, tag_type: String, reason: String, is_nicked: bool) -> (r: Result<(), EditError>)
    ensures
        final(state).submitter_id == old(state).submitter_id,
        final(state).submitted == old(state).submitted,
        kind_named(tag_type@) is None ==> r == Err::<(), EditError>(EditError::UnknownTag) && players_view(final(state).players@) == players_view(old(state).players@),
        kind_named(tag_type@) is Some ==> r is Ok && players_view(final(state).players@) == players_view(old(state).players@).push(
            PlayerView { uuid: uuid@, reason: reason@, is_nicked, ..fresh_player(username@, tag_type@) },
        ),
{
    if lookup(tag_type.as_str()).is_none() {
        return Err(EditError::UnknownTag);
    }
    let ghost before = players_view(state.players@);
    let p = PlayerEntry {
        username,
        uuid,
        tag_type,
        reason,
        is_nicked,
        status: PlayerStatus::Pending,
        reviewer: None,
        review_note: None,
        evidence: Vec::new(),
        conflict_warning: None,
        accept_votes: Vec::new(),
        reject_votes: Vec::new(),
    };
    assert(p@.evidence =~= Seq::<EvidenceView>::empty());
    state.players.push(p);
    assert(players_view(state.players@) =~= before.push(p@));
    Ok(())
}

/// Removes the player at `idx`, if there is one.
pub fn remove_player(state: &mut SubmissionState, idx: usize)
    ensures
        final(state).submitter_id == old(state).submitter_id,
        final(state).submitted == old(state).submitted,
        players_view(final(state).players@) == (if idx < old(state).players@.len() {
            players_view(old(state).players@).remove(idx as int)
        } else {
            players_view(old(state).players@)
        }),
{
    if idx < state.players.len() {
        let ghost before = state.players@;
        state.players.remove(idx);
        assert(players_view(state.players@) =~= players_view(before).remove(idx as int));
    }
}

/// Changes the tag type and reason of the player at `idx`.
pub fn edit_player(state: &mut SubmissionState, idx: usize, tag_type: String, reason: String) -> (r: Result<(), EditError>)
    ensures
        final(state).submitter_id == old(state).submitter_id,
        final(state).submitted == old(state).submitted,
        kind_named(tag_type@) is None ==> r == Err::<(), EditError>(EditError::UnknownTag),
        kind_named(tag_type@) is Some && idx >= old(state).players@.len() ==> r == Err::<(), EditError>(EditError::PlayerNotFound),
        r is Err ==> players_view(final(state).players@) == players_view(old(state).players@),
        r is Ok ==> kind_named(tag_type@) is Some && idx < old(state).players@.len() && players_view(final(state).players@)
            == players_view(old(state).players@).update(
            idx as int,
            PlayerView { tag_type: tag_type@, reason: reason@, ..players_view(old(state).players@)[idx as int] },
        ),
        kind_named(tag_type@) is Some && idx < old(state).players@.len() ==> r is Ok,
{
    if lookup(tag_type.as_str()).is_none() {
        return Err(EditError::UnknownTag);
    }
    if idx >= state.players.len() {
        return Err(EditError::PlayerNotFound);
    }
    let ghost before = players_view(state.players@);
    let mut p = state.players.remove(idx);
    p.tag_type = tag_type;
    p.reason = reason;
    state.players.insert(idx, p);
    assert(players_view(state.players@) =~= before.update(idx as int, p@));
    Ok(())
}

/// The player already has this replay (same identifier and timestamp).
pub open spec fn has_replay(evs: Seq<EvidenceView>, r: ReplayView) -> bool {
    exists|i: int| 0 <= i < evs.len() && (#[trigger] evs[i] matches EvidenceView::Replay(x, _) && x == r)
}

/// No replay appears twice among a player's evidence.
pub open spec fn replays_distinct(evs: Seq<EvidenceView>) -> bool {
    forall|i: int, j: int|
        0 <= i < j < evs.len() ==> !(#[trigger] evs[i] matches EvidenceView::Replay(x, _) && #[trigger] evs[j] matches EvidenceView::Replay(y, _) && x == y)
}

/// Whether two optional strings hold the same text.
fn same_opt(a: &Option<String>, b: &Option<String>) -> (r: bool)
    ensures
        r == (crate::review::opt_view(*a) == crate::review::opt_view(*b)),
{
    match (a, b) {
        (Some(x), Some(y)) => chars_eq(&chars_of(x.as_str()), &chars_of(y.as_str())),
        (None, None) => true,
        _ => false,
    }
}

/// Adds a replay to the evidence of the player at `idx`, with its note (none
/// when the note is empty): refused when there is no such player or the
/// player already has that replay.
pub fn add_replay_evidence(state: &mut SubmissionState, idx: usize, replay: Replay, note: String) -> (r: Result<(), EditError>)
    ensures
        final(state).submitter_id == old(state).submitter_id,
        final(state).submitted == old(state).submitted,
        idx >= old(state).players@.len() ==> r == Err::<(), EditError>(EditError::PlayerNotFound),
        idx < old(state).players@.len() && has_replay(players_view(old(state).players@)[idx as int].evidence, replay@) ==> r
            == Err::<(), EditError>(EditError::DuplicateReplay),
        r is Err ==> players_view(final(state).players@) == players_view(old(state).players@),
        r is Ok ==> idx < old(state).players@.len() && !has_replay(players_view(old(state).players@)[idx as int].evidence, replay@)
            && players_view(final(state).players@) == players_view(old(state).players@).update(
            idx as int,
            PlayerView {
                evidence: players_view(old(state).players@)[idx as int].evidence.push(
                    EvidenceView::Replay(replay@, if note@.len() == 0 { None } else { Some(note@) }),
                ),
                ..players_view(old(state).players@)[idx as int]
            },
        ),
        idx < old(state).players@.len() && !has_replay(players_view(old(state).players@)[idx as int].evidence, replay@) ==> r is Ok,
{
    if idx >= state.players.len() {
        return Err(EditError::PlayerNotFound);
    }
    let ghost before = players_view(state.players@);
    let ghost evs = before[idx as int].evidence;
    assert(before[idx as int] == state.players@[idx as int]@);
    let id = chars_of(replay.id.as_str());
    let mut i: usize = 0;
    while i < state.players[idx].evidence.len()
        invariant
            idx < state.players@.len(),
            before == players_view(state.players@),
            evs == before[idx as int].evidence,
            evs == state.players@[idx as int].evidence@.map_values(|e: Evidence| e@),
            i <= evs.len(),
            id@ == replay@.id,
            forall|j: int| 0 <= j < i ==> !(#[trigger] evs[j] matches EvidenceView::Replay(x, _) && x == replay@),
        decreases evs.len() - i,
    {
        let e = &state.players[idx].evidence[i];
        assert(evs[i as int] == e@);
        match e {
            Evidence::Replay { replay: r, .. } => {
                if chars_eq(&chars_of(r.id.as_str()), &id) && same_opt(&r.timestamp, &replay.timestamp) {
                    assert(r@ == replay@);
                    return Err(EditError::DuplicateReplay);
                }
            },
            Evidence::Attachment { .. } => {},
        }
        i = i + 1;
    }
    let note_opt = if chars_of(note.as_str()).len() == 0 { None } else { Some(note) };
    let mut p = state.players.remove(idx);
    let ghost old_p = p@;
    let e = Evidence::Replay { replay, note: note_opt };
    p.evidence.push(e);
    assert(p@.evidence =~= old_p.evidence.push(e@));
    state.players.insert(idx, p);
    assert(players_view(state.players@) =~= before.update(idx as int, p@));
    Ok(())
}

/// Adding a replay keeps a player's replays distinct.
pub proof fn lemma_replays_stay_distinct(evs: Seq<EvidenceView>, r: ReplayView, note: Option<Seq<char>>)
    requires
        replays_distinct(evs),
        !has_replay(evs, r),
    ensures
        replays_distinct(evs.push(EvidenceView::Replay(r, note))),
{
    let n = evs.push(EvidenceView::Replay(r, note));
    assert forall|i: int, j: int|
        0 <= i < j < n.len() implies !(#[trigger] n[i] matches EvidenceView::Replay(x, _) && #[trigger] n[j] matches EvidenceView::Replay(y, _) && x == y) by {
        if j == evs.len() {
            assert(n[i] == evs[i]);
        } else {
            assert(n[i] == evs[i] && n[j] == evs[j]);
        }
    }
}

/// Removes evidence number `ev_idx` from the player at `idx`, if both exist.
pub fn remove_evidence(state: &mut SubmissionState, idx: usize, ev_idx: usize)
    ensures
        final(state).submitter_id == old(state).submitter_id,
        final(state).submitted == old(state).submitted,
        players_view(final(state).players@) == (if idx < old(state).players@.len() && ev_idx < old(state).players@[idx as int].evidence@.len() {
            players_view(old(state).players@).update(
                idx as int,
                PlayerView {
                    evidence: players_view(old(state).players@)[idx as int].evidence.remove(ev_idx as int),
                    ..players_view(old(state).players@)[idx as int]
                },
            )
        } else {
            players_view(old(state).players@)
        }),
{
    if idx < state.players.len() && ev_idx < state.players[idx].evidence.len() {
        let ghost before = players_view(state.players@);
        assert(before[idx as int] == state.players@[idx as int]@);
        let mut p = state.players.remove(idx);
        let ghost old_p = p@;
        p.evidence.remove(ev_idx);
        assert(p@.evidence =~= old_p.evidence.remove(ev_idx as int));
        state.players.insert(idx, p);
        assert(players_view(state.players@) =~= before.update(idx as int, p@));
    }
}

/// A text in ASCII lower case.
pub open spec fn lower_all(s: Seq<char>) -> Seq<char> {
    Seq::new(s.len(), |i: int| ascii_lower(s[i]))
}

/// The file type of an upload: what follows its last dot (the whole name
/// when it has none), in lower case.
pub open spec fn media_ext(name: Seq<char>) -> Seq<char> {
    lower_all(last_piece(name, seq!['.']))
}

/// The file types taken as images or videos.
pub open spec fn allowed_media_ext(e: Seq<char>) -> bool {
    e == "png"@ || e == "jpg"@ || e == "jpeg"@ || e == "gif"@ || e == "webp"@ || e == "mp4"@ || e == "webm"@ || e == "mov"@
}

/// The name an accepted upload is stored under: the player, its number among
/// the player's media, and its file type.
pub open spec fn media_filename(username: Seq<char>, number: nat, ext: Seq<char>) -> Seq<char> {
    username + seq!['_'] + decimal(number) + seq!['.'] + ext
}

/// How many uploads are looked at: no more than the player has room for.
pub open spec fn media_room(existing: nat, n: nat) -> nat {
    let room: nat = if existing < MAX_MEDIA_PER_PLAYER { (MAX_MEDIA_PER_PLAYER - existing) as nat } else { 0 };
    if n < room { n } else { room }
}

/// The uploads among the first `n` that are accepted, each with its position
/// and stored name; an upload that could not be read (`None`) or has another
/// file type is passed over, and still takes its number.
pub open spec fn media_accepted(existing: nat, username: Seq<char>, uploads: Seq<Option<Seq<char>>>, n: nat) -> Seq<(int, Seq<char>)>
    decreases n,
{
    if n == 0 {
        Seq::empty()
    } else {
        let before = media_accepted(existing, username, uploads, (n - 1) as nat);
        match uploads[n - 1] {
            Some(f) => if allowed_media_ext(media_ext(f)) {
                before.push(((n - 1) as int, media_filename(username, existing + n, media_ext(f))))
            } else {
                before
            },
            None => before,
        }
    }
}

/// How many of the first `n` uploads have a file type that is refused.
pub open spec fn media_rejected(uploads: Seq<Option<Seq<char>>>, n: nat) -> nat
    decreases n,
{
    if n == 0 {
        0
    } else {
        media_rejected(uploads, (n - 1) as nat) + match uploads[n - 1] {
            Some(f) => if allowed_media_ext(media_ext(f)) { 0nat } else { 1nat },
            None => 0nat,
        }
    }
}

/// The evidence that accepted uploads add, in order.
pub open spec fn media_evidence(files: Seq<(int, Seq<char>)>) -> Seq<EvidenceView> {
    files.map_values(|f: (int, Seq<char>)| EvidenceView::Attachment(f.1))
}

/// An accepted upload: its position among the uploads and the name it is
/// stored under.
#[derive(Clone, Debug)]
pub struct MediaFile {
    pub upload: usize,
    pub filename: String,
}

/// The accepted uploads as positions and names.
pub open spec fn media_files_view(fs: Seq<MediaFile>) -> Seq<(int, Seq<char>)> {
    fs.map_values(|f: MediaFile| (f.upload as int, f.filename@))
}

/// What came of an upload of media.
#[derive(Clone, Debug)]
pub struct MediaUpload {
    /// The uploads taken, to be fetched and stored under their names.
    pub accepted: Vec<MediaFile>,
    /// How many uploads were refused for their file type.
    pub rejected: usize,
}

/// `s` in ASCII lower case.
fn lower_all_exec(s: &[char]) -> (r: Vec<char>)
    ensures
        r@ == lower_all(s@),
{
    let mut r: Vec<char> = Vec::new();
    let mut i: usize = 0;
    while i < s.len()
        invariant
            i <= s@.len(),
            r@.len() == i,
            forall|j: int| 0 <= j < i ==> r@[j] == ascii_lower(s@[j]),
        decreases s@.len() - i,
    {
        r.push(ascii_lower_exec(s[i]));
        i = i + 1;
    }
    assert(r@ =~= lower_all(s@));
    r
}

/// Whether a file type is an image or a video.
fn allowed_media_ext_exec(e: &[char]) -> (r: bool)
    ensures
        r == allowed_media_ext(e@),
{
    chars_eq(e, &chars_of("png")) || chars_eq(e, &chars_of("jpg")) || chars_eq(e, &chars_of("jpeg"))
        || chars_eq(e, &chars_of("gif")) || chars_eq(e, &chars_of("webp")) || chars_eq(e, &chars_of("mp4"))
        || chars_eq(e, &chars_of("webm")) || chars_eq(e, &chars_of("mov"))
}

/// How many media a player's evidence holds.
pub(crate) fn count_media(evs: &Vec<Evidence>) -> (n: usize)
    ensures
        n == media_count(evs@.map_values(|e: Evidence| e@)),
{
    let ghost vs = evs@.map_values(|e: Evidence| e@);
    let mut n: usize = 0;
    let mut i: usize = 0;
    assert(vs.subrange(0, 0) =~= Seq::<EvidenceView>::empty());
    while i < evs.len()
        invariant
            i <= evs@.len(),
            vs == evs@.map_values(|e: Evidence| e@),
            n == media_count(vs.subrange(0, i as int)),
            n <= i,
        decreases evs@.len() - i,
    {
        assert(vs.subrange(0, i + 1).drop_last() =~= vs.subrange(0, i as int));
        assert(vs[i as int] == evs@[i as int]@);
        match &evs[i] {
            Evidence::Attachment { .. } => {
                n = n + 1;
            },
            Evidence::Replay { .. } => {},
        }
        i = i + 1;
    }
    assert(vs.subrange(0, evs@.len() as int) =~= vs);
    n
}

/// At most one accepted upload per upload looked at.
proof fn lemma_accepted_len(existing: nat, username: Seq<char>, uploads: Seq<Option<Seq<char>>>, n: nat)
    ensures
        media_accepted(existing, username, uploads, n).len() <= n,
    decreases n,
{
    if n > 0 {
        lemma_accepted_len(existing, username, uploads, (n - 1) as nat);
    }
}

/// Each attachment added counts once among the media.
proof fn lemma_media_count_append(evs: Seq<EvidenceView>, files: Seq<(int, Seq<char>)>)
    ensures
        media_count(evs + media_evidence(files)) == media_count(evs) + files.len(),
    decreases files.len(),
{
    if files.len() > 0 {
        let init = files.drop_last();
        lemma_media_count_append(evs, init);
        assert((evs + media_evidence(files)).drop_last() =~= evs + media_evidence(init));
    } else {
        assert(evs + media_evidence(files) =~= evs);
    }
}

/// Stores uploaded media as evidence of the player at `idx`. `uploads` are the
/// file names of the uploads in order (`None` for one that could not be
/// read). Only as many are looked at as the player has room for, up to four
/// media; those with an image or video file type are stored under
/// `{username}_{number}.{type}`. Nothing changes when nothing was uploaded;
/// an upload to a missing player is refused, and so is one where nothing was
/// taken and some file type was refused.
pub fn add_media_evidence(state: &mut SubmissionState, idx: usize, uploads: &[Option<String>]) -> (r: Result<MediaUpload, EditError>)
    ensures
        final(state).submitter_id == old(state).submitter_id,
        final(state).submitted == old(state).submitted,
        uploads@.len() == 0 ==> (r matches Ok(m) && m.accepted@.len() == 0 && m.rejected == 0),
        uploads@.len() > 0 && idx >= old(state).players@.len() ==> r == Err::<MediaUpload, EditError>(EditError::PlayerNotFound),
        r is Err || uploads@.len() == 0 ==> players_view(final(state).players@) == players_view(old(state).players@),
        uploads@.len() > 0 && idx < old(state).players@.len() ==> ({
            let p = players_view(old(state).players@)[idx as int];
            let existing = media_count(p.evidence);
            let names = uploads@.map_values(|u: Option<String>| crate::review::opt_view(u));
            let n = media_room(existing, uploads@.len());
            let files = media_accepted(existing, p.username, names, n);
            let rejected = media_rejected(names, n);
            &&& files.len() == 0 && rejected > 0 ==> r == Err::<MediaUpload, EditError>(EditError::UnsupportedMedia)
            &&& !(files.len() == 0 && rejected > 0) ==> (r matches Ok(m) && media_files_view(m.accepted@) == files
                && m.rejected == rejected
                && players_view(final(state).players@) == players_view(old(state).players@).update(
                idx as int,
                PlayerView { evidence: p.evidence + media_evidence(files), ..p },
            ))
        }),
{
    if uploads.len() == 0 {
        return Ok(MediaUpload { accepted: Vec::new(), rejected: 0 });
    }
    if idx >= state.players.len() {
        return Err(EditError::PlayerNotFound);
    }
    let ghost before = players_view(state.players@);
    let ghost p = before[idx as int];
    assert(p == state.players@[idx as int]@);
    let ghost names = uploads@.map_values(|u: Option<String>| crate::review::opt_view(u));
    let existing = count_media(&state.players[idx].evidence);
    let room: usize = if existing < MAX_MEDIA_PER_PLAYER { MAX_MEDIA_PER_PLAYER - existing } else { 0 };
    let n: usize = if uploads.len() < room { uploads.len() } else { room };
    assert(n == media_room(existing as nat, uploads@.len()));
    let user = chars_of(state.players[idx].username.as_str());
    let mut accepted: Vec<MediaFile> = Vec::new();
    let mut rejected: usize = 0;
    let mut i: usize = 0;
    while i < n
        invariant
            i <= n,
            n <= uploads@.len(),
            n <= MAX_MEDIA_PER_PLAYER,
            existing + n <= MAX_MEDIA_PER_PLAYER || n == 0,
            names == uploads@.map_values(|u: Option<String>| crate::review::opt_view(u)),
            user@ == p.username,
            media_files_view(accepted@) == media_accepted(existing as nat, p.username, names, i as nat),
            rejected == media_rejected(names, i as nat),
            rejected <= i,
        decreases n - i,
    {
        let ghost acc_before = media_files_view(accepted@);
        assert(names[i as int] == crate::review::opt_view(uploads@[i as int]));
        match &uploads[i] {
            Some(f) => {
                let ext = lower_all_exec(&last_piece_exec(&chars_of(f.as_str()), &['.']));
                assert(seq!['.'] =~= ['.']@);
                if allowed_media_ext_exec(&ext) {
                    let mut name: Vec<char> = Vec::new();
                    push_chars(&mut name, &user);
                    name.push('_');
                    let num = decimal_exec((existing + i + 1) as u64);
                    push_chars(&mut name, &num);
                    name.push('.');
                    push_chars(&mut name, &ext);
                    assert(name@ =~= media_filename(p.username, (existing + i + 1) as nat, media_ext(f@)));
                    let mf = MediaFile { upload: i, filename: string_from_chars(&name) };
                    accepted.push(mf);
                    assert(media_files_view(accepted@) =~= acc_before.push((i as int, mf.filename@)));
                } else {
                    rejected = rejected + 1;
                }
            },
            None => {},
        }
        i = i + 1;
    }
    if accepted.len() == 0 && rejected > 0 {
        return Err(EditError::UnsupportedMedia);
    }
    let ghost files = media_files_view(accepted@);
    let mut pl = state.players.remove(idx);
    let ghost old_p = pl@;
    let mut k: usize = 0;
    while k < accepted.len()
        invariant
            k <= accepted@.len(),
            files == media_files_view(accepted@),
            pl@ == (PlayerView { evidence: old_p.evidence + media_evidence(files.take(k as int)), ..old_p }),
        decreases accepted@.len() - k,
    {
        let ghost ev_before = pl@.evidence;
        let e = Evidence::Attachment { filename: accepted[k].filename.clone() };
        assert(e@ == EvidenceView::Attachment(files[k as int].1));
        pl.evidence.push(e);
        assert(media_evidence(files.take(k + 1)) =~= media_evidence(files.take(k as int)).push(e@));
        assert(pl@.evidence =~= ev_before.push(e@));
        k = k + 1;
    }
    assert(files.take(accepted@.len() as int) =~= files);
    state.players.insert(idx, pl);
    assert(players_view(state.players@) =~= before.update(idx as int, pl@));
    Ok(MediaUpload { accepted, rejected })
}

/// Storing uploaded media never takes a player beyond four media: whatever
/// the uploads, a player with at most four keeps at most four.
pub proof fn lemma_media_cap(evs: Seq<EvidenceView>, username: Seq<char>, uploads: Seq<Option<Seq<char>>>)
    requires
        media_count(evs) <= MAX_MEDIA_PER_PLAYER,
    ensures
        media_count(evs + media_evidence(media_accepted(media_count(evs), username, uploads, media_room(media_count(evs), uploads.len()))))
            <= MAX_MEDIA_PER_PLAYER,
{
    let existing = media_count(evs);
    let n = media_room(existing, uploads.len());
    lemma_accepted_len(existing, username, uploads, n);
    lemma_media_count_append(evs, media_accepted(existing, username, uploads, n));
}

/// A new submission by `submitter_id` with one pending player and nothing
/// submitted, edited or being added yet.
pub fn new_submission(submitter_id: u64, username: String, uuid: String, tag_type: String, reason: String, is_nicked: bool) -> (r: SubmissionState)
    ensures
        r.submitter_id == submitter_id,
        !r.submitted,
        r.editing is None,
        r.pending_add is None,
        players_view(r.players@) == seq![PlayerView { uuid: uuid@, reason: reason@, is_nicked, ..fresh_player(username@, tag_type@) }],
{
    let p = PlayerEntry {
        username,
        uuid,
        tag_type,
        reason,
        is_nicked,
        status: PlayerStatus::Pending,
        reviewer: None,
        review_note: None,
        evidence: Vec::new(),
        conflict_warning: None,
        accept_votes: Vec::new(),
        reject_votes: Vec::new(),
    };
    assert(p@.evidence =~= Seq::<EvidenceView>::empty());
    let mut players: Vec<PlayerEntry> = Vec::new();
    players.push(p);
    assert(players_view(players@) =~= seq![p@]);
    SubmissionState { submitter_id, players, submitted: false, editing: None, pending_add: None }
}

/// Appends the display name of a tag type (the type itself outside the
/// catalogue).
fn push_tag_display(out: &mut Vec<char>, tag_type: &str)
    ensures
        final(out)@ == old(out)@ + display_of(tag_type@),
{
    match lookup(tag_type) {
        Some(def) => push_str(out, def.display_name),
        None => push_str(out, tag_type),
    }
}

/// The title of a submission's thread: the player and the tag's name.
pub fn submission_title(username: &str, tag_type: &str) -> (r: String)
    ensures
        r@ == username@ + " \u{2014} "@ + display_of(tag_type@),
{
    let mut out: Vec<char> = Vec::new();
    push_str(&mut out, username);
    push_str(&mut out, " \u{2014} ");
    push_tag_display(&mut out, tag_type);
    string_from_chars(&out)
}

/// The emote of a tag type, empty outside the catalogue.
pub open spec fn emote_of(tag_type: Seq<char>) -> Seq<char> {
    match kind_named(tag_type) {
        Some(k) => definition(k).emote@,
        None => Seq::empty(),
    }
}

/// The warning shown on a submitted player who already carries a tag of the
/// same priority: that tag's emote, name and reason (already made safe for
/// display).
pub fn conflict_warning_text(tag_type: &str, shown_reason: &str) -> (r: String)
    ensures
        r@ == "\u{26A0} Existing tag: "@ + emote_of(tag_type@) + " "@ + display_of(tag_type@) + " \u{2014} \""@ + shown_reason@ + "\""@,
{
    let mut out: Vec<char> = Vec::new();
    push_str(&mut out, "\u{26A0} Existing tag: ");
    match lookup(tag_type) {
        Some(def) => push_str(&mut out, def.emote),
        None => {},
    }
    push_str(&mut out, " ");
    push_tag_display(&mut out, tag_type);
    push_str(&mut out, " \u{2014} \"");
    push_str(&mut out, shown_reason);
    push_str(&mut out, "\"");
    string_from_chars(&out)
}

/// How long, in seconds, an unsubmitted submission lives.
pub const SUBMISSION_TIMEOUT_SECS: u64 = 1800;
/// When, in seconds, the submitter of an unsubmitted submission is warned.
pub const SUBMISSION_WARNING_SECS: u64 = 1200;

/// Whether the timeout of a submission still acts on its thread (warning,
/// then deleting it): only while it can be read and is not submitted.
pub fn timeout_applies(state: Option<&SubmissionState>) -> (r: bool)
    ensures
        r == (match state { Some(s) => !s.submitted, None => false }),
{
    match state {
        Some(s) => !s.submitted,
        None => false,
    }
}

/// The warning sent before an unsubmitted submission is cancelled.
pub fn timeout_warning_text(submitter_id: u64) -> (r: String)
    ensures
        r@ == "<@"@ + decimal(submitter_id as nat) + "> This submission will be automatically cancelled in 10 minutes due to inactivity."@,
{
    let mut out: Vec<char> = Vec::new();
    push_str(&mut out, "<@");
    let d = decimal_exec(submitter_id);
    push_chars(&mut out, &d);
    push_str(&mut out, "> This submission will be automatically cancelled in 10 minutes due to inactivity.");
    string_from_chars(&out)
}

} // verus!
