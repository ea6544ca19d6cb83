//! Reading a whole submission back from the message of its review thread: the
//! message's parts are walked in order, each player card opening a player and
//! the texts and media after it filling that player in.
use vstd::prelude::*;
use crate::review::{Evidence, EvidenceView, PlayerEntry, PlayerStatus, PlayerView, SubmissionState, opt_view, players_view};
use crate::review_format::{
    card_header_spec, details_text, evidence_line, hex_or_dash, replay_reads_back, details_spec, evidence_of_lines, fresh_player, is_player_entry_chars, is_player_entry_spec,
    parse_evidence_chars, parse_header_spec, parse_player_details, parse_player_header,
    parse_status_line, parse_status_spec, parse_votes_line, parse_votes_spec,
};
use crate::review_messages::{attachment_filename_from_url, attachment_filename_spec, evidence_summary_spec, find_submitter, submitter_spec};
use crate::tags::{kind_name, string_views, TagKind};
use crate::text::{chars_of, contains, find_exec, first_line, has_prefix, lines, lines_exec, starts_with, string_from_chars, trim, trim_exec, views, without};

verus! {

/// One part of a review message's container, as far as reading it back needs:
/// a section with the content of its first text, a text with its content, a
/// media gallery with the URLs of its items, or anything else.
#[derive(Clone, Debug)]
pub enum MessagePart {
    Section(Option<String>),
    Text(Option<String>),
    Gallery(Vec<String>),
    Other,
}

/// The players after a player card is met: a card that reads back adds a player.
pub open spec fn after_card(ps: Seq<PlayerView>, header: Seq<char>) -> Seq<PlayerView> {
    if is_player_entry_spec(header) {
        match parse_header_spec(header) {
            Some((u, t)) => ps.push(fresh_player(u, t)),
            None => ps,
        }
    } else {
        ps
    }
}

/// The last player after a text that is not a card: a details block, a status
/// line, a votes line, or lines of evidence.
pub open spec fn after_text(p: PlayerView, t: Seq<char>) -> PlayerView {
    if has_prefix(t, ">"@) {
        details_spec(p, t)
    } else {
        match parse_status_spec(t) {
            Some((status, reviewer, note)) => PlayerView { status, reviewer, review_note: note, ..p },
            None => match parse_votes_spec(t) {
                Some((a, r)) => PlayerView { accept_votes: a, reject_votes: r, ..p },
                None => PlayerView { evidence: p.evidence + evidence_of_lines(lines(t)), ..p },
            },
        }
    }
}

/// The attachments that media URLs stand for.
pub open spec fn attachments_of(urls: Seq<Seq<char>>) -> Seq<EvidenceView>
    decreases urls.len(),
{
    if urls.len() == 0 {
        Seq::empty()
    } else {
        attachments_of(urls.drop_last()).push(EvidenceView::Attachment(attachment_filename_spec(urls.last())))
    }
}

/// The players after one part of the message.
pub open spec fn after_part(ps: Seq<PlayerView>, part: MessagePart) -> Seq<PlayerView> {
    match part {
        MessagePart::Section(Some(h)) => after_card(ps, h@),
        MessagePart::Text(Some(c)) => {
            let t = trim(c@);
            if is_player_entry_spec(t) {
                after_card(ps, t)
            } else if ps.len() > 0 {
                ps.update(ps.len() - 1, after_text(ps.last(), t))
            } else {
                ps
            }
        },
        MessagePart::Gallery(urls) => if ps.len() > 0 {
            ps.update(
                ps.len() - 1,
                PlayerView {
                    evidence: ps.last().evidence + attachments_of(urls@.map_values(|u: String| u@)),
                    ..ps.last()
                },
            )
        } else {
            ps
        },
        _ => ps,
    }
}

/// The players read from the parts of a message, in order.
pub open spec fn players_of(parts: Seq<MessagePart>) -> Seq<PlayerView>
    decreases parts.len(),
{
    if parts.len() == 0 {
        Seq::empty()
    } else {
        after_part(players_of(parts.drop_last()), parts.last())
    }
}

/// A text shows that the submission was sent for review or decided.
pub open spec fn marks_submitted(t: Seq<char>) -> bool {
    contains(t, "Approved by"@) || contains(t, "Rejected by"@) || contains(t, "awaiting review"@)
}

/// Some text shows that the submission was sent for review or decided.
pub open spec fn any_submitted(texts: Seq<Seq<char>>) -> bool {
    exists|i: int| 0 <= i < texts.len() && marks_submitted(#[trigger] texts[i])
}

/// `r` is the state read back from a message with these texts and parts.
pub open spec fn state_read_ok(r: SubmissionState, texts: Seq<Seq<char>>, parts: Seq<MessagePart>) -> bool {
    &&& submitter_spec(texts) == Some(r.submitter_id)
    &&& players_view(r.players@) == players_of(parts)
    &&& r.submitted == any_submitted(texts)
    &&& r.editing is None
    &&& r.pending_add is None
}

/// The player after the evidence lines of a text.
fn add_evidence_lines(p: &mut PlayerEntry, t: &[char])
    ensures
        final(p)@ == (PlayerView { evidence: old(p)@.evidence + evidence_of_lines(lines(t@)), ..old(p)@ }),
{
    let ls = lines_exec(t);
    let ghost lv = views(ls@);
    let ghost start = p@;
    let mut i: usize = 0;
    assert(lv.subrange(0, 0) =~= Seq::<Seq<char>>::empty());
    assert(start.evidence + Seq::<EvidenceView>::empty() =~= start.evidence);
    while i < ls.len()
        invariant
            i <= ls@.len(),
            lv == views(ls@),
            lv == lines(t@),
            p@ == (PlayerView { evidence: p@.evidence, ..start }),
            p@.evidence == start.evidence + evidence_of_lines(lv.subrange(0, i as int)),
        decreases ls@.len() - i,
    {
        assert(lv.subrange(0, i + 1).drop_last() =~= lv.subrange(0, i as int));
        assert(lv.subrange(0, i + 1).last() == ls@[i as int]@);
        let line = trim_exec(&ls[i]);
        match parse_evidence_chars(&line) {
            Some(e) => {
                let ghost before = p@.evidence;
                p.evidence.push(e);
                assert(p@.evidence =~= before.push(e@));
            },
            None => {},
        }
        i = i + 1;
    }
    assert(lv.subrange(0, lv.len() as int) =~= lv);
}

/// Applies a text that is not a player card to the player it follows.
fn apply_text(p: &mut PlayerEntry, t: &[char])
    ensures
        final(p)@ == after_text(old(p)@, t@),
{
    proof {
        reveal_strlit(">");
    }
    let gt = chars_of(">");
    if starts_with(t, &gt) {
        let s = string_from_chars(t);
        parse_player_details(p, s.as_str());
        return;
    }
    let s = string_from_chars(t);
    match parse_status_line(s.as_str()) {
        Some((status, reviewer, note)) => {
            p.status = status;
            p.reviewer = reviewer;
            p.review_note = note;
            return;
        },
        None => {},
    }
    match parse_votes_line(s.as_str()) {
        Some((a, r)) => {
            p.accept_votes = a;
            p.reject_votes = r;
            return;
        },
        None => {},
    }
    add_evidence_lines(p, t);
}

/// Adds the player a card header names, if it reads back.
fn apply_card(players: &mut Vec<PlayerEntry>, header: &[char])
    ensures
        players_view(final(players)@) == after_card(players_view(old(players)@), header@),
{
    if !is_player_entry_chars(header) {
        return;
    }
    let s = string_from_chars(header);
    match parse_player_header(s.as_str()) {
        Some(p) => {
            let ghost before = players_view(players@);
            players.push(p);
            assert(players_view(players@) =~= before.push(p@));
        },
        None => {},
    }
}

/// Applies one part of the message to the players read so far.
fn apply_part(players: &mut Vec<PlayerEntry>, part: &MessagePart)
    ensures
        players_view(final(players)@) == after_part(players_view(old(players)@), *part),
{
    let ghost before = players_view(players@);
    match part {
        MessagePart::Section(Some(h)) => {
            let cs = chars_of(h.as_str());
            apply_card(players, &cs);
        },
        MessagePart::Text(Some(c)) => {
            let cs = chars_of(c.as_str());
            let t = trim_exec(&cs);
            if is_player_entry_chars(&t) {
                apply_card(players, &t);
            } else if players.len() > 0 {
                let mut last = players.pop().unwrap();
                assert(players_view(players@) =~= before.drop_last());
                apply_text(&mut last, &t);
                players.push(last);
                assert(players_view(players@) =~= before.update(before.len() - 1, after_text(before.last(), t@)));
            }
        },
        MessagePart::Gallery(urls) => {
            if players.len() > 0 {
                let mut last = players.pop().unwrap();
                assert(players_view(players@) =~= before.drop_last());
                let ghost start = last@;
                let ghost uv = urls@.map_values(|u: String| u@);
                let mut i: usize = 0;
                assert(uv.subrange(0, 0) =~= Seq::<Seq<char>>::empty());
                assert(start.evidence + Seq::<EvidenceView>::empty() =~= start.evidence);
                while i < urls.len()
                    invariant
                        i <= urls@.len(),
                        uv == urls@.map_values(|u: String| u@),
                        last@ == (PlayerView { evidence: last@.evidence, ..start }),
                        last@.evidence == start.evidence + attachments_of(uv.subrange(0, i as int)),
                    decreases urls@.len() - i,
                {
                    assert(uv.subrange(0, i + 1).drop_last() =~= uv.subrange(0, i as int));
                    assert(uv.subrange(0, i + 1).last() == urls@[i as int]@);
                    let filename = attachment_filename_from_url(urls[i].as_str());
                    let ghost ev = last@.evidence;
                    let e = Evidence::Attachment { filename };
                    last.evidence.push(e);
                    assert(last@.evidence =~= ev.push(e@));
                    i = i + 1;
                }
                assert(uv.subrange(0, uv.len() as int) =~= uv);
                players.push(last);
                assert(players_view(players@) =~= before.update(
                    before.len() - 1,
                    PlayerView { evidence: before.last().evidence + attachments_of(uv), ..before.last() },
                ));
            }
        },
        _ => {},
    }
}

/// Whether any text shows that the submission was sent for review or decided.
fn any_marks_submitted(texts: &[String]) -> (r: bool)
    ensures
        r == any_submitted(string_views(texts@)),
{
    proof {
        reveal_strlit("Approved by");
        reveal_strlit("Rejected by");
        reveal_strlit("awaiting review");
    }
    let ghost tv = string_views(texts@);
    let a = chars_of("Approved by");
    let rj = chars_of("Rejected by");
    let w = chars_of("awaiting review");
    let mut i: usize = 0;
    while i < texts.len()
        invariant
            i <= texts@.len(),
            tv == string_views(texts@),
            a@ == "Approved by"@,
            rj@ == "Rejected by"@,
            w@ == "awaiting review"@,
            forall|j: int| 0 <= j < i ==> !marks_submitted(#[trigger] tv[j]),
        decreases texts@.len() - i,
    {
        let t = chars_of(texts[i].as_str());
        assert(tv[i as int] == t@);
        if find_exec(&t, &a).is_some() || find_exec(&t, &rj).is_some() || find_exec(&t, &w).is_some() {
            return true;
        }
        i = i + 1;
    }
    false
}

/// Reads a submission back from its review message: `texts` are all the
/// message's texts, `parts` the parts of its container (`None` when it has
/// none). `None` when there is no container or no text mentions a submitter.
pub fn parse_state_from_message(texts: &[String], parts: Option<&[MessagePart]>) -> (r: Option<SubmissionState>)
    ensures
        match parts {
            None => r is None,
            Some(ps) => match submitter_spec(string_views(texts@)) {
                None => r is None,
                Some(_) => r matches Some(st) && state_read_ok(st, string_views(texts@), ps@),
            },
        },
{
    let container = match parts {
        Some(ps) => ps,
        None => return None,
    };
    let submitter_id = match find_submitter(texts) {
        Some(id) => id,
        None => return None,
    };
    let mut players: Vec<PlayerEntry> = Vec::new();
    let mut i: usize = 0;
    assert(container@.subrange(0, 0) =~= Seq::<MessagePart>::empty());
    assert(players_view(players@) =~= players_of(container@.subrange(0, 0)));
    while i < container.len()
        invariant
            i <= container@.len(),
            players_view(players@) == players_of(container@.subrange(0, i as int)),
        decreases container@.len() - i,
    {
        assert(container@.subrange(0, i + 1).drop_last() =~= container@.subrange(0, i as int));
        apply_part(&mut players, &container[i]);
        i = i + 1;
    }
    assert(container@.subrange(0, container@.len() as int) =~= container@);
    let submitted = any_marks_submitted(texts);
    Some(SubmissionState { submitter_id, players, submitted, editing: None, pending_add: None })
}

// ---------------------------------------------------------------------------
// Reading a player card back
// ---------------------------------------------------------------------------

/// The players after the texts of one player card are met: the card's header,
/// its details block, and its evidence summary when it has one. (The controls
/// that stand between them are not texts and leave the players as they are.)
pub open spec fn after_card_texts(ps: Seq<PlayerView>, header: String, details: String, summary: Option<String>) -> Seq<PlayerView> {
    let read = after_part(
        after_part(ps, MessagePart::Text(Some(header))),
        MessagePart::Text(Some(details)),
    );
    match summary {
        Some(s) => after_part(read, MessagePart::Text(Some(s))),
        None => read,
    }
}

/// The player that a card for this tag type, name, reason, nick flag, UUID
/// text and evidence gives back: pending, with no voter, note, warning or
/// votes, and the UUID without its dashes unless the player is nicked.
pub open spec fn card_player(
    k: TagKind,
    username: Seq<char>,
    reason_text: Seq<char>,
    is_nicked: bool,
    uuid_text: Seq<char>,
    evidence: Seq<EvidenceView>,
) -> PlayerView {
    PlayerView {
        reason: reason_text,
        is_nicked,
        uuid: if is_nicked { Seq::empty() } else { without(uuid_text, '-') },
        evidence,
        ..fresh_player(username, kind_name(k))
    }
}

/// A whole player card, read back from the texts it is shown with, gives the
/// player it was drawn from: the name, the tag type, the reason as shown, the
/// nick flag, the UUID without its dashes, and the replays in order, with a
/// pending status. This holds for every catalogue tag, every name without
/// backquote or newline, every reason without newline that does not end in
/// a carriage return and whose line holds no `` — ` ``, every UUID text of
/// hexadecimal digits and dashes, no conflict warning, and replays whose
/// lines read back (the first of which holds no `` — ` ``).
pub proof fn lemma_player_card_reads_back(
    ps: Seq<PlayerView>,
    k: TagKind,
    username: Seq<char>,
    reason_text: Seq<char>,
    is_nicked: bool,
    uuid_text: Seq<char>,
    evidence: Seq<EvidenceView>,
    header: String,
    details: String,
    summary: Option<String>,
)
    requires
        forall|i: int| 0 <= i < username.len() ==> #[trigger] username[i] != '`' && username[i] != '\n',
        forall|i: int| 0 <= i < reason_text.len() ==> #[trigger] reason_text[i] != '\n',
        reason_text.len() == 0 || reason_text.last() != '\r',
        !contains("> "@ + reason_text, " \u{2014} `"@),
        hex_or_dash(uuid_text),
        forall|i: int| 0 <= i < evidence.len() ==> replay_reads_back(#[trigger] evidence[i]),
        evidence.len() > 0 ==> !contains(evidence_line(evidence[0]), " \u{2014} `"@),
        header@ == card_header_spec(kind_name(k), username),
        details@ == details_text(reason_text, is_nicked, uuid_text, None),
        summary matches Some(s) ==> evidence_summary_spec(evidence) == Some(s@),
        summary is None ==> evidence_summary_spec(evidence) is None,
    ensures
        after_card_texts(ps, header, details, summary) == ps.push(
            card_player(k, username, reason_text, is_nicked, uuid_text, evidence),
        ),
{
    reveal_strlit(">");
    reveal_strlit("-# ");
    reveal_strlit("-# Votes: ");
    let fresh = fresh_player(username, kind_name(k));
    crate::review_format::lemma_card_header_text(k, username);
    let ps1 = after_part(ps, MessagePart::Text(Some(header)));
    assert(ps1 == ps.push(fresh));
    crate::review_format::lemma_details_text_reads_back(fresh, reason_text, is_nicked, uuid_text);
    let ps2 = after_part(ps1, MessagePart::Text(Some(details)));
    let p2 = PlayerView { reason: reason_text, is_nicked, uuid: if is_nicked { Seq::empty() } else { without(uuid_text, '-') }, ..fresh };
    let dt = trim(details_text(reason_text, is_nicked, uuid_text, None));
    assert(trim(details@) == dt);
    assert(has_prefix(dt, ">"@));
    assert(after_text(fresh, dt) == details_spec(fresh, dt));
    if !is_nicked && uuid_text.len() == 0 {
        assert(uuid_text =~= Seq::<char>::empty());
    }
    assert(after_text(fresh, trim(details@)) == p2);
    assert(ps2 =~= ps.push(p2));
    match summary {
        Some(s) => {
            crate::review_messages::lemma_replay_summary_reads_back(evidence);
            let t = s@;
            assert(trim(t) == t);
            assert(first_line(t) == evidence_line(evidence[0]));
            assert(!is_player_entry_spec(t));
            if has_prefix(t, ">"@) {
                assert(t.subrange(0, 1)[0] == t[0]);
            }
            if has_prefix(t, "-# "@) {
                assert(t.subrange(0, 3)[1] == t[1]);
            }
            if has_prefix(t, "-# Votes: "@) {
                assert(t.subrange(0, 10)[1] == t[1]);
            }
            assert(parse_status_spec(t) is None);
            assert(parse_votes_spec(t) is None);
            assert(p2.evidence + evidence =~= evidence);
            assert(after_text(p2, t) == card_player(k, username, reason_text, is_nicked, uuid_text, evidence));
            assert(after_card_texts(ps, header, details, summary) =~= ps.push(
                card_player(k, username, reason_text, is_nicked, uuid_text, evidence),
            ));
        },
        None => {
            if evidence.len() > 0 {
                crate::review_messages::lemma_replay_summary_reads_back(evidence);
            }
            assert(evidence =~= Seq::<EvidenceView>::empty());
            assert(p2 == card_player(k, username, reason_text, is_nicked, uuid_text, evidence));
        },
    }
}

} // verus!
