//! The layout of a review thread's message: which texts, galleries, menus and
//! buttons it shows, in order, for the state of the submission, and the ids
//! its controls carry. The texts themselves are drawn by the renderers of
//! `review_format` and `review_messages`; this module decides where each one
//! stands and which controls go with it.
use vstd::prelude::*;
use crate::add_flow::{pending_tag_id, pending_tag_id_spec};
use crate::review::{PendingAdd, PlayerEntry, PlayerStatus, PlayerView, SubmissionState, players_view};
use crate::review_edit::count_media;
use crate::review_format::{component_id_spec, component_ids_spec, submitter_id_spec};
use crate::review_messages::media_count;
use crate::text::{decimal, decimal_exec, push_chars, push_str, string_from_chars};

verus! {

/// How a button is drawn.
#[derive(Clone, Copy, Debug, PartialEq, Eq, Structural)]
pub enum ButtonStyle {
    Primary,
    Secondary,
    Success,
    Danger,
}

/// A button: the id its clicks carry, its label and its style.
#[derive(Clone, Debug)]
pub struct ControlButton {
    pub custom_id: String,
    pub label: &'static str,
    pub style: ButtonStyle,
}

/// The abstract content of a button.
pub struct ButtonView {
    pub custom_id: Seq<char>,
    pub label: Seq<char>,
    pub style: ButtonStyle,
}

impl View for ControlButton {
    type V = ButtonView;

    open spec fn view(&self) -> ButtonView {
        ButtonView { custom_id: self.custom_id@, label: self.label@, style: self.style }
    }
}

/// One piece of a review message, in the order shown. Pieces that carry a
/// player's index stand for that player's text or media: its card header, its
/// details block, its evidence summary, its media gallery, its vote tally or
/// its status line.
#[derive(Clone, Debug)]
pub enum ReviewPiece {
    Header,
    Separator,
    Note(&'static str),
    CardHeader(usize),
    CardDetails(usize),
    EvidenceSummary(usize),
    MediaGallery(usize),
    VoteStatus(usize),
    StatusLine(usize),
    PendingAddPrompt,
    TagSelect { custom_id: String, placeholder: &'static str, selected: Option<usize> },
    Buttons(Vec<ControlButton>),
}

/// The abstract content of a piece.
pub enum PieceView {
    Header,
    Separator,
    Note(Seq<char>),
    CardHeader(usize),
    CardDetails(usize),
    EvidenceSummary(usize),
    MediaGallery(usize),
    VoteStatus(usize),
    StatusLine(usize),
    PendingAddPrompt,
    TagSelect(Seq<char>, Seq<char>, Option<usize>),
    Buttons(Seq<ButtonView>),
}

/// The views of a row of buttons.
pub open spec fn buttons_view(bs: Seq<ControlButton>) -> Seq<ButtonView> {
    bs.map_values(|b: ControlButton| b@)
}

impl View for ReviewPiece {
    type V = PieceView;

    open spec fn view(&self) -> PieceView {
        match self {
            ReviewPiece::Header => PieceView::Header,
            ReviewPiece::Separator => PieceView::Separator,
            ReviewPiece::Note(t) => PieceView::Note(t@),
            ReviewPiece::CardHeader(i) => PieceView::CardHeader(*i),
            ReviewPiece::CardDetails(i) => PieceView::CardDetails(*i),
            ReviewPiece::EvidenceSummary(i) => PieceView::EvidenceSummary(*i),
            ReviewPiece::MediaGallery(i) => PieceView::MediaGallery(*i),
            ReviewPiece::VoteStatus(i) => PieceView::VoteStatus(*i),
            ReviewPiece::StatusLine(i) => PieceView::StatusLine(*i),
            ReviewPiece::PendingAddPrompt => PieceView::PendingAddPrompt,
            ReviewPiece::TagSelect { custom_id, placeholder, selected } => PieceView::TagSelect(
                custom_id@,
                placeholder@,
                *selected,
            ),
            ReviewPiece::Buttons(bs) => PieceView::Buttons(buttons_view(bs@)),
        }
    }
}

/// The views of a list of pieces.
pub open spec fn pieces_view(ps: Seq<ReviewPiece>) -> Seq<PieceView> {
    ps.map_values(|p: ReviewPiece| p@)
}

/// A button's content.
pub open spec fn button(custom_id: Seq<char>, label: Seq<char>, style: ButtonStyle) -> ButtonView {
    ButtonView { custom_id, label, style }
}

/// The id of a control that acts on the whole thread: `<action>:<submitter>`.
pub open spec fn thread_control_id(action: Seq<char>, id: u64) -> Seq<char> {
    action + ":"@ + decimal(id as nat)
}

/// The id of a control that acts on one player: `<action>:<index>:<submitter>`.
pub open spec fn player_control_id(action: Seq<char>, idx: usize, id: u64) -> Seq<char> {
    component_id_spec(action, idx as nat, id as nat)
}

/// A player has a vote of either kind.
pub open spec fn has_votes_spec(p: PlayerView) -> bool {
    p.accept_votes.len() > 0 || p.reject_votes.len() > 0
}

/// The evidence buttons under a player being edited before submission.
pub open spec fn evidence_buttons(p: PlayerView, idx: usize, id: u64) -> Seq<ButtonView> {
    seq![
        button(player_control_id("review_add_replay"@, idx, id), "Attach Replay"@, ButtonStyle::Primary),
        button(player_control_id("review_attach_media"@, idx, id), "Attach Media"@, ButtonStyle::Primary),
    ] + if p.evidence.len() > 0 {
        seq![button(player_control_id("review_edit_evidence"@, idx, id), "Edit Evidence"@, ButtonStyle::Secondary)]
    } else {
        Seq::empty()
    }
}

/// A player's card: its header and details, with an edit button before
/// submission unless the player's tag is being edited.
pub open spec fn card_pieces(idx: usize, submitted: bool, is_editing: bool, id: u64) -> Seq<PieceView> {
    seq![PieceView::CardHeader(idx), PieceView::CardDetails(idx)] + if !submitted && !is_editing {
        seq![PieceView::Buttons(seq![button(player_control_id("review_edit_tag"@, idx, id), "Edit Tag"@, ButtonStyle::Secondary)])]
    } else {
        Seq::empty()
    }
}

/// The controls shown while a player's tag is being edited: the tag type
/// menu with the current type selected, and the remove and done buttons.
pub open spec fn edit_pieces(idx: usize, is_editing: bool, id: u64) -> Seq<PieceView> {
    if is_editing {
        seq![
            PieceView::TagSelect(player_control_id("review_tag_select_edit"@, idx, id), "Change tag type"@, Some(idx)),
            PieceView::Buttons(seq![
                button(player_control_id("review_remove_player"@, idx, id), "Remove Tag"@, ButtonStyle::Danger),
                button(player_control_id("review_edit_done"@, idx, id), "Done"@, ButtonStyle::Secondary),
            ]),
        ]
    } else {
        Seq::empty()
    }
}

/// The evidence summary when the player has evidence, and the media gallery
/// when some of it is media.
pub open spec fn media_pieces(p: PlayerView, idx: usize) -> Seq<PieceView> {
    (if p.evidence.len() > 0 { seq![PieceView::EvidenceSummary(idx)] } else { Seq::empty() })
        + if media_count(p.evidence) > 0 { seq![PieceView::MediaGallery(idx)] } else { Seq::empty() }
}

/// Once submitted: the vote tally (when there are votes) and the accept and
/// reject buttons of a pending player, or the status line of a decided one;
/// before submission, the evidence buttons unless the tag is being edited.
pub open spec fn control_pieces(p: PlayerView, idx: usize, submitted: bool, is_editing: bool, id: u64) -> Seq<PieceView> {
    if submitted {
        if p.status == PlayerStatus::Pending {
            (if has_votes_spec(p) { seq![PieceView::VoteStatus(idx)] } else { Seq::empty() }) + seq![
                PieceView::Buttons(seq![
                    button(player_control_id("review_approve"@, idx, id), "Accept"@, ButtonStyle::Success),
                    button(player_control_id("review_reject"@, idx, id), "Reject"@, ButtonStyle::Danger),
                ]),
            ]
        } else {
            seq![PieceView::StatusLine(idx)]
        }
    } else if !is_editing {
        seq![PieceView::Buttons(evidence_buttons(p, idx, id))]
    } else {
        Seq::empty()
    }
}

/// The pieces of one player: its card, its editing controls, its evidence
/// summary and gallery, its review controls, then a separator.
pub open spec fn player_pieces(p: PlayerView, idx: usize, submitted: bool, editing: Option<usize>, id: u64) -> Seq<PieceView> {
    let is_editing = editing == Some(idx);
    card_pieces(idx, submitted, is_editing, id) + edit_pieces(idx, is_editing, id) + media_pieces(p, idx)
        + control_pieces(p, idx, submitted, is_editing, id) + seq![PieceView::Separator]
}

/// The pieces of the first `n` players, in order.
pub open spec fn players_pieces(ps: Seq<PlayerView>, n: int, submitted: bool, editing: Option<usize>, id: u64) -> Seq<PieceView>
    decreases n,
{
    if n <= 0 {
        Seq::empty()
    } else {
        players_pieces(ps, n - 1, submitted, editing, id) + player_pieces(ps[n - 1], (n - 1) as usize, submitted, editing, id)
    }
}

/// Some player is still pending.
pub open spec fn any_pending(ps: Seq<PlayerView>) -> bool {
    exists|i: int| 0 <= i < ps.len() && (#[trigger] ps[i]).status == PlayerStatus::Pending
}

/// The end of the message: once submitted, the note that the submission
/// awaits review and, while a player is pending, the button to edit it;
/// before, the note asking for evidence and the buttons to add a player
/// (under four players and none being added), submit, and cancel.
pub open spec fn footer_pieces(ps: Seq<PlayerView>, submitted: bool, adding: bool, id: u64) -> Seq<PieceView> {
    if submitted {
        seq![PieceView::Note("-# Submitted \u{2014} awaiting review"@)] + if any_pending(ps) {
            seq![PieceView::Buttons(seq![button(thread_control_id("review_edit_submitted"@, id), "Edit"@, ButtonStyle::Secondary)])]
        } else {
            Seq::empty()
        }
    } else {
        seq![
            PieceView::Note("-# Add evidence for each player, then submit when ready."@),
            PieceView::Buttons((if ps.len() < 4 && !adding {
                seq![button(thread_control_id("review_add_player"@, id), "Add Player"@, ButtonStyle::Primary)]
            } else {
                Seq::empty()
            }) + seq![
                button(thread_control_id("review_submit"@, id), "Submit for Review"@, ButtonStyle::Success),
                button(thread_control_id("review_cancel_thread"@, id), "Cancel"@, ButtonStyle::Secondary),
            ]),
        ]
    }
}

/// The player being added, as its identifier and nick flag.
pub open spec fn adding_view(pending: Option<PendingAdd>) -> Option<(Seq<char>, bool)> {
    match pending {
        Some(pa) => Some((pa.identifier@, pa.is_nicked)),
        None => None,
    }
}

/// The whole message: the header and a separator; a note when there are no
/// players and none is being added; each player's pieces; the prompt and tag
/// type menu of a player being added, then a separator; and the footer.
pub open spec fn review_pieces(
    ps: Seq<PlayerView>,
    submitted: bool,
    editing: Option<usize>,
    adding: Option<(Seq<char>, bool)>,
    id: u64,
) -> Seq<PieceView> {
    seq![PieceView::Header, PieceView::Separator] + (if ps.len() == 0 && adding is None {
        seq![PieceView::Note("-# No players added yet"@)]
    } else {
        Seq::empty()
    }) + players_pieces(ps, ps.len() as int, submitted, editing, id) + match adding {
        Some((identifier, nicked)) => seq![
            PieceView::PendingAddPrompt,
            PieceView::TagSelect(pending_tag_id_spec(identifier, nicked, id), "Select tag type"@, None),
            PieceView::Separator,
        ],
        None => Seq::empty(),
    } + footer_pieces(ps, submitted, adding is Some, id)
}

/// The id of a control on the whole thread.
fn thread_control(action: &str, id: u64) -> (r: String)
    ensures
        r@ == thread_control_id(action@, id),
{
    let mut out: Vec<char> = Vec::new();
    push_str(&mut out, action);
    push_str(&mut out, ":");
    let d = decimal_exec(id);
    push_chars(&mut out, &d);
    string_from_chars(&out)
}

/// The id of a control on one player.
fn player_control(action: &str, idx: usize, id: u64) -> (r: String)
    ensures
        r@ == player_control_id(action@, idx, id),
{
    let mut out: Vec<char> = Vec::new();
    push_str(&mut out, action);
    push_str(&mut out, ":");
    let di = decimal_exec(idx as u64);
    push_chars(&mut out, &di);
    push_str(&mut out, ":");
    let d = decimal_exec(id);
    push_chars(&mut out, &d);
    string_from_chars(&out)
}

/// Appends a piece.
fn push_piece(out: &mut Vec<ReviewPiece>, piece: ReviewPiece)
    ensures
        pieces_view(final(out)@) == pieces_view(old(out)@).push(piece@),
{
    let ghost v = piece@;
    out.push(piece);
    assert(pieces_view(out@) =~= pieces_view(old(out)@).push(v));
}

/// Appends a button.
fn add_button(row: &mut Vec<ControlButton>, b: ControlButton)
    ensures
        buttons_view(final(row)@) == buttons_view(old(row)@).push(b@),
{
    let ghost v = b@;
    row.push(b);
    assert(buttons_view(row@) =~= buttons_view(old(row)@).push(v));
}

/// A row of buttons acting on one player.
fn player_buttons(idx: usize, id: u64, first: (&str, &'static str, ButtonStyle), second: (&str, &'static str, ButtonStyle)) -> (r: ReviewPiece)
    ensures
        r@ == PieceView::Buttons(seq![
            button(player_control_id(first.0@, idx, id), first.1@, first.2),
            button(player_control_id(second.0@, idx, id), second.1@, second.2),
        ]),
{
    let mut row: Vec<ControlButton> = Vec::new();
    add_button(&mut row, ControlButton { custom_id: player_control(first.0, idx, id), label: first.1, style: first.2 });
    add_button(&mut row, ControlButton { custom_id: player_control(second.0, idx, id), label: second.1, style: second.2 });
    assert(buttons_view(row@) =~= seq![
        button(player_control_id(first.0@, idx, id), first.1@, first.2),
        button(player_control_id(second.0@, idx, id), second.1@, second.2),
    ]);
    ReviewPiece::Buttons(row)
}

/// Appends a player's card.
fn push_card(out: &mut Vec<ReviewPiece>, idx: usize, submitted: bool, is_editing: bool, id: u64)
    ensures
        pieces_view(final(out)@) == pieces_view(old(out)@) + card_pieces(idx, submitted, is_editing, id),
{
    push_piece(out, ReviewPiece::CardHeader(idx));
    push_piece(out, ReviewPiece::CardDetails(idx));
    if !submitted && !is_editing {
        let mut row: Vec<ControlButton> = Vec::new();
        add_button(&mut row, ControlButton { custom_id: player_control("review_edit_tag", idx, id), label: "Edit Tag", style: ButtonStyle::Secondary });
        assert(buttons_view(row@) =~= seq![button(player_control_id("review_edit_tag"@, idx, id), "Edit Tag"@, ButtonStyle::Secondary)]);
        push_piece(out, ReviewPiece::Buttons(row));
    }
    assert(pieces_view(out@) =~= pieces_view(old(out)@) + card_pieces(idx, submitted, is_editing, id));
}

/// Appends the tag editing controls of a player.
fn push_edit(out: &mut Vec<ReviewPiece>, idx: usize, is_editing: bool, id: u64)
    ensures
        pieces_view(final(out)@) == pieces_view(old(out)@) + edit_pieces(idx, is_editing, id),
{
    if is_editing {
        push_piece(out, ReviewPiece::TagSelect { custom_id: player_control("review_tag_select_edit", idx, id), placeholder: "Change tag type", selected: Some(idx) });
        let row = player_buttons(idx, id, ("review_remove_player", "Remove Tag", ButtonStyle::Danger), ("review_edit_done", "Done", ButtonStyle::Secondary));
        push_piece(out, row);
    }
    assert(pieces_view(out@) =~= pieces_view(old(out)@) + edit_pieces(idx, is_editing, id));
}

/// Appends a player's evidence summary and gallery.
fn push_media(out: &mut Vec<ReviewPiece>, p: &PlayerEntry, idx: usize)
    ensures
        pieces_view(final(out)@) == pieces_view(old(out)@) + media_pieces(p@, idx),
{
    if p.evidence.len() > 0 {
        push_piece(out, ReviewPiece::EvidenceSummary(idx));
    }
    if count_media(&p.evidence) > 0 {
        push_piece(out, ReviewPiece::MediaGallery(idx));
    }
    assert(pieces_view(out@) =~= pieces_view(old(out)@) + media_pieces(p@, idx));
}

/// Appends a player's review or evidence controls.
fn push_controls(out: &mut Vec<ReviewPiece>, p: &PlayerEntry, idx: usize, submitted: bool, is_editing: bool, id: u64)
    ensures
        pieces_view(final(out)@) == pieces_view(old(out)@) + control_pieces(p@, idx, submitted, is_editing, id),
{
    if submitted {
        if p.status == PlayerStatus::Pending {
            if p.accept_votes.len() > 0 || p.reject_votes.len() > 0 {
                push_piece(out, ReviewPiece::VoteStatus(idx));
            }
            let row = player_buttons(idx, id, ("review_approve", "Accept", ButtonStyle::Success), ("review_reject", "Reject", ButtonStyle::Danger));
            push_piece(out, row);
        } else {
            push_piece(out, ReviewPiece::StatusLine(idx));
        }
    } else if !is_editing {
        let mut row: Vec<ControlButton> = Vec::new();
        add_button(&mut row, ControlButton { custom_id: player_control("review_add_replay", idx, id), label: "Attach Replay", style: ButtonStyle::Primary });
        add_button(&mut row, ControlButton { custom_id: player_control("review_attach_media", idx, id), label: "Attach Media", style: ButtonStyle::Primary });
        if p.evidence.len() > 0 {
            add_button(&mut row, ControlButton { custom_id: player_control("review_edit_evidence", idx, id), label: "Edit Evidence", style: ButtonStyle::Secondary });
        }
        assert(buttons_view(row@) =~= evidence_buttons(p@, idx, id));
        push_piece(out, ReviewPiece::Buttons(row));
    }
    assert(pieces_view(out@) =~= pieces_view(old(out)@) + control_pieces(p@, idx, submitted, is_editing, id));
}

/// Appends the pieces of one player.
fn push_player_pieces(out: &mut Vec<ReviewPiece>, p: &PlayerEntry, idx: usize, submitted: bool, editing: Option<usize>, id: u64)
    ensures
        pieces_view(final(out)@) == pieces_view(old(out)@) + player_pieces(p@, idx, submitted, editing, id),
{
    let is_editing = match editing {
        Some(e) => e == idx,
        None => false,
    };
    push_card(out, idx, submitted, is_editing, id);
    push_edit(out, idx, is_editing, id);
    push_media(out, p, idx);
    push_controls(out, p, idx, submitted, is_editing, id);
    push_piece(out, ReviewPiece::Separator);
    assert(pieces_view(out@) =~= pieces_view(old(out)@) + player_pieces(p@, idx, submitted, editing, id));
}

/// Appends the end of the message.
fn push_footer(out: &mut Vec<ReviewPiece>, state: &SubmissionState, adding: bool)
    ensures
        pieces_view(final(out)@) == pieces_view(old(out)@) + footer_pieces(players_view(state.players@), state.submitted, adding, state.submitter_id),
{
    let id = state.submitter_id;
    let ghost ps = players_view(state.players@);
    if state.submitted {
        push_piece(out, ReviewPiece::Note("-# Submitted \u{2014} awaiting review"));
        let mut any: bool = false;
        let mut j: usize = 0;
        while j < state.players.len()
            invariant
                j <= state.players@.len(),
                ps == players_view(state.players@),
                any == exists|k: int| 0 <= k < j && (#[trigger] ps[k]).status == PlayerStatus::Pending,
            decreases state.players@.len() - j,
        {
            assert(ps[j as int] == state.players@[j as int]@);
            if state.players[j].status == PlayerStatus::Pending {
                any = true;
            }
            j = j + 1;
        }
        assert(any == any_pending(ps));
        if any {
            let mut row: Vec<ControlButton> = Vec::new();
            add_button(&mut row, ControlButton { custom_id: thread_control("review_edit_submitted", id), label: "Edit", style: ButtonStyle::Secondary });
            assert(buttons_view(row@) =~= seq![button(thread_control_id("review_edit_submitted"@, id), "Edit"@, ButtonStyle::Secondary)]);
            push_piece(out, ReviewPiece::Buttons(row));
        }
    } else {
        push_piece(out, ReviewPiece::Note("-# Add evidence for each player, then submit when ready."));
        let mut row: Vec<ControlButton> = Vec::new();
        if state.players.len() < 4 && !adding {
            add_button(&mut row, ControlButton { custom_id: thread_control("review_add_player", id), label: "Add Player", style: ButtonStyle::Primary });
        }
        add_button(&mut row, ControlButton { custom_id: thread_control("review_submit", id), label: "Submit for Review", style: ButtonStyle::Success });
        add_button(&mut row, ControlButton { custom_id: thread_control("review_cancel_thread", id), label: "Cancel", style: ButtonStyle::Secondary });
        assert(buttons_view(row@) =~= (if ps.len() < 4 && !adding {
            seq![button(thread_control_id("review_add_player"@, id), "Add Player"@, ButtonStyle::Primary)]
        } else {
            Seq::empty()
        }) + seq![
            button(thread_control_id("review_submit"@, id), "Submit for Review"@, ButtonStyle::Success),
            button(thread_control_id("review_cancel_thread"@, id), "Cancel"@, ButtonStyle::Secondary),
        ]);
        push_piece(out, ReviewPiece::Buttons(row));
    }
    assert(pieces_view(out@) =~= pieces_view(old(out)@) + footer_pieces(ps, state.submitted, adding, id));
}

/// The pieces of a review message for the state of its submission.
pub fn plan_review_message(state: &SubmissionState) -> (r: Vec<ReviewPiece>)
    ensures
        pieces_view(r@) == review_pieces(
            players_view(state.players@),
            state.submitted,
            state.editing,
            adding_view(state.pending_add),
            state.submitter_id,
        ),
{
    let id = state.submitter_id;
    let ghost ps = players_view(state.players@);
    let mut out: Vec<ReviewPiece> = Vec::new();
    push_piece(&mut out, ReviewPiece::Header);
    push_piece(&mut out, ReviewPiece::Separator);
    let adding = match &state.pending_add {
        Some(_) => true,
        None => false,
    };
    if state.players.len() == 0 && !adding {
        push_piece(&mut out, ReviewPiece::Note("-# No players added yet"));
    }
    let ghost head = pieces_view(out@);
    let mut i: usize = 0;
    while i < state.players.len()
        invariant
            i <= state.players@.len(),
            ps == players_view(state.players@),
            id == state.submitter_id,
            pieces_view(out@) == head + players_pieces(ps, i as int, state.submitted, state.editing, id),
        decreases state.players@.len() - i,
    {
        assert(ps[i as int] == state.players@[i as int]@);
        push_player_pieces(&mut out, &state.players[i], i, state.submitted, state.editing, id);
        assert(head + players_pieces(ps, i + 1, state.submitted, state.editing, id) =~= head + players_pieces(ps, i as int, state.submitted, state.editing, id) + player_pieces(ps[i as int], i, state.submitted, state.editing, id));
        i = i + 1;
    }
    let ghost mid = pieces_view(out@);
    match &state.pending_add {
        Some(pa) => {
            push_piece(&mut out, ReviewPiece::PendingAddPrompt);
            push_piece(&mut out, ReviewPiece::TagSelect { custom_id: pending_tag_id(pa.identifier.as_str(), pa.is_nicked, id), placeholder: "Select tag type", selected: None });
            push_piece(&mut out, ReviewPiece::Separator);
        },
        None => {},
    }
    let ghost before_footer = pieces_view(out@);
    assert(before_footer =~= mid + match adding_view(state.pending_add) {
        Some((identifier, nicked)) => seq![
            PieceView::PendingAddPrompt,
            PieceView::TagSelect(pending_tag_id_spec(identifier, nicked, id), "Select tag type"@, None),
            PieceView::Separator,
        ],
        None => Seq::empty(),
    });
    push_footer(&mut out, state, adding);
    assert(pieces_view(out@) =~= review_pieces(ps, state.submitted, state.editing, adding_view(state.pending_add), id));
    out
}

/// The controls of a review message name what they act on: a player's
/// control id reads back as that player's index and the submitter, and a
/// thread control's id reads back as the submitter, for every action without
/// `:`.
pub proof fn lemma_control_ids_read_back(action: Seq<char>, idx: usize, id: u64)
    requires
        forall|i: int| 0 <= i < action.len() ==> #[trigger] action[i] != ':',
    ensures
        component_ids_spec(player_control_id(action, idx, id)) == (idx, id),
        submitter_id_spec(player_control_id(action, idx, id)) == Some(id),
        submitter_id_spec(thread_control_id(action, id)) == Some(id),
{
    reveal_strlit(":");
    crate::review_format::lemma_component_ids_read_back(action, idx, id);
    let d = decimal(id as nat);
    crate::review_messages::lemma_decimal_parses(id as nat);
    assert forall|i: int| 0 <= i < d.len() implies #[trigger] d[i] != ':' by {
        assert(crate::text::is_digit(d[i]));
    }
    assert(thread_control_id(action, id) =~= action + seq![':'] + d);
    assert(":"@ =~= seq![':']);
    crate::text::lemma_last_piece_after(action, ':', d);
}

} // verus!
