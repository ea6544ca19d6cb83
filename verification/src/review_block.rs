//! The one-text form of a player card: the card header, the details block,
//! the evidence summary and the conflict warning written as a single text, one
//! part per line, and read back from its lines.
use vstd::prelude::*;
use crate::review::{EvidenceView, PlayerEntry, PlayerView, opt_view};
use crate::review_format::{
    card_header_spec, details_meta, details_of_lines, details_text,
    evidence_of_lines, first_word, fresh_player, hex_or_dash, parse_header_spec, parse_player_header,
    player_card_header, read_detail_lines, replay_reads_back,
};
use crate::review_messages::{evidence_summary_spec, render_evidence_summary, replay_lines};
use crate::review_state::card_player;
use crate::tags::{kind_name, TagKind};
use crate::text::{chars_of, contains, is_hex, joined, lines, lines_exec, push_str, slice_vec, string_from_chars, views};

verus! {

/// The one-text card of a player: the card header, then the details block,
/// then the evidence summary when there is evidence, then the conflict
/// warning when there is one, each after a newline.
pub open spec fn block_text(
    tag_type: Seq<char>,
    username: Seq<char>,
    reason_text: Seq<char>,
    is_nicked: bool,
    uuid_text: Seq<char>,
    evidence: Seq<EvidenceView>,
    warning: Option<Seq<char>>,
) -> Seq<char> {
    let head = card_header_spec(tag_type, username) + seq!['\n'] + details_text(reason_text, is_nicked, uuid_text, None);
    let body = match evidence_summary_spec(evidence) {
        Some(s) => head + seq!['\n'] + s,
        None => head,
    };
    match warning {
        Some(w) => body + seq!['\n'] + w,
        None => body,
    }
}

/// A player read back from a one-text card: the name and tag type from the
/// first line as a card header reads them, and the reason, nick flag, UUID
/// and evidence from the lines after it as a details block reads them;
/// `None` for a text without lines or whose first line is no card header.
pub open spec fn parse_player_block_spec(content: Seq<char>) -> Option<PlayerView> {
    let ls = lines(content);
    if ls.len() == 0 {
        None
    } else {
        match parse_header_spec(ls[0]) {
            Some((u, t)) => Some(details_of_lines(fresh_player(u, t), ls.drop_first())),
            None => None,
        }
    }
}

/// Writes a player as a one-text card; the caller gives the reason as it is
/// shown and the UUID with its dashes.
pub fn render_player_block(player: &PlayerEntry, reason_text: &str, uuid_text: &str) -> (r: String)
    requires
        player.evidence@.len() <= u64::MAX,
    ensures
        r@ == block_text(
            player.tag_type@,
            player.username@,
            reason_text@,
            player.is_nicked,
            uuid_text@,
            player@.evidence,
            opt_view(player.conflict_warning),
        ),
{
    let header = player_card_header(player);
    let mut out: Vec<char> = chars_of(header.as_str());
    out.push('\n');
    push_str(&mut out, "> ");
    push_str(&mut out, reason_text);
    push_str(&mut out, "\n> -# ");
    if player.is_nicked {
        push_str(&mut out, "Nicked \u{2014} UUID could not be resolved");
    } else {
        push_str(&mut out, "UUID: ");
        push_str(&mut out, uuid_text);
    }
    assert(out@ =~= card_header_spec(player.tag_type@, player.username@) + seq!['\n'] + details_text(
        reason_text@,
        player.is_nicked,
        uuid_text@,
        None,
    ));
    match render_evidence_summary(player) {
        Some(s) => {
            out.push('\n');
            push_str(&mut out, s.as_str());
        },
        None => {},
    }
    match &player.conflict_warning {
        Some(w) => {
            out.push('\n');
            push_str(&mut out, w.as_str());
        },
        None => {},
    }
    string_from_chars(&out)
}

/// Reads a player back from a one-text card.
pub fn parse_player_block(content: &str) -> (r: Option<PlayerEntry>)
    ensures
        match r {
            Some(p) => parse_player_block_spec(content@) == Some(p@),
            None => parse_player_block_spec(content@) is None,
        },
{
    let cs = chars_of(content);
    let ls = lines_exec(&cs);
    let ghost lv = views(ls@);
    if ls.len() == 0 {
        return None;
    }
    assert(lv[0] == ls@[0]@);
    let header = string_from_chars(&ls[0]);
    let mut player = match parse_player_header(header.as_str()) {
        Some(p) => p,
        None => return None,
    };
    let mut rest: Vec<Vec<char>> = Vec::new();
    let mut i: usize = 1;
    while i < ls.len()
        invariant
            1 <= i <= ls@.len(),
            lv == views(ls@),
            views(rest@) == lv.subrange(1, i as int),
        decreases ls@.len() - i,
    {
        let line = slice_vec(&ls[i], 0, ls[i].len());
        assert(ls@[i as int]@.subrange(0, ls@[i as int]@.len() as int) =~= ls@[i as int]@);
        let ghost before = views(rest@);
        rest.push(line);
        assert(views(rest@) =~= before.push(lv[i as int]));
        assert(lv.subrange(1, i + 1) =~= lv.subrange(1, i as int).push(lv[i as int]));
        i = i + 1;
    }
    assert(lv.subrange(1, lv.len() as int) =~= lv.drop_first());
    read_detail_lines(&mut player, &rest);
    Some(player)
}

/// A UUID text of hexadecimal digits and dashes is one word, holds no
/// newline, and does not mention `Nicked`.
proof fn lemma_uuid_text_plain(uuid_text: Seq<char>)
    requires
        hex_or_dash(uuid_text),
    ensures
        first_word(uuid_text) == uuid_text,
        forall|i: int| 0 <= i < uuid_text.len() ==> #[trigger] uuid_text[i] != '\n',
        !contains(uuid_text, "Nicked"@),
{
    reveal_strlit("Nicked");
    assert forall|i: int| 0 <= i < uuid_text.len() implies #[trigger] uuid_text[i] != '\n' by {
        assert(is_hex(uuid_text[i]) || uuid_text[i] == '-');
    }
    let nk: Seq<char> = "Nicked"@;
    crate::text::lemma_find_from(uuid_text, nk, 0);
    if contains(uuid_text, nk) {
        let j = crate::text::find(uuid_text, nk)->0;
        assert(uuid_text.subrange(j, j + 6)[0] == uuid_text[j]);
        assert(is_hex(uuid_text[j]) || uuid_text[j] == '-');
    }
    if uuid_text.len() > 0 {
        assert(is_hex(uuid_text[0]) || uuid_text[0] == '-');
        assert forall|i: int| 0 <= i < uuid_text.len() implies !crate::text::is_ws(#[trigger] uuid_text[i]) by {
            assert(is_hex(uuid_text[i]) || uuid_text[i] == '-');
        }
        crate::replay::lemma_words_lead(uuid_text, Seq::<char>::empty());
        assert(uuid_text + Seq::<char>::empty() =~= uuid_text);
        assert(crate::text::words(Seq::<char>::empty()).len() == 0);
        assert(crate::text::words(uuid_text) =~= seq![uuid_text]);
    } else {
        assert(crate::text::words(uuid_text).len() == 0);
    }
}

/// Three lines without newlines, the first two without a final carriage
/// return and the last not empty, joined by newlines and followed by nothing
/// or by a newline and a text, are read back as those three lines and then
/// the lines of that text.
proof fn lemma_three_lines(h: Seq<char>, l1: Seq<char>, l2: Seq<char>, rest: Option<Seq<char>>)
    requires
        forall|i: int| 0 <= i < h.len() ==> #[trigger] h[i] != '\n',
        forall|i: int| 0 <= i < l1.len() ==> #[trigger] l1[i] != '\n',
        forall|i: int| 0 <= i < l2.len() ==> #[trigger] l2[i] != '\n',
        crate::text::strip_cr(h) == h,
        crate::text::strip_cr(l1) == l1,
        crate::text::strip_cr(l2) == l2,
        l2.len() > 0,
    ensures
        lines(h + seq!['\n'] + l1 + seq!['\n'] + l2 + match rest {
            Some(t) => seq!['\n'] + t,
            None => Seq::empty(),
        }) == seq![h, l1, l2] + match rest {
            Some(t) => lines(t),
            None => Seq::empty(),
        },
{
    let nl = seq!['\n'];
    let all = h + nl + l1 + nl + l2 + match rest {
        Some(t) => nl + t,
        None => Seq::empty(),
    };
    match rest {
        Some(t) => {
            assert(all =~= h + nl + (l1 + nl + (l2 + nl + t)));
            crate::text::lemma_lines_cons(l2, t);
            crate::text::lemma_lines_cons(l1, l2 + nl + t);
            crate::text::lemma_lines_cons(h, l1 + nl + (l2 + nl + t));
            assert(lines(all) =~= seq![h, l1, l2] + lines(t));
        },
        None => {
            assert(all =~= h + nl + (l1 + nl + l2));
            crate::text::lemma_last_line(l2);
            crate::text::lemma_lines_cons(l1, l2);
            crate::text::lemma_lines_cons(h, l1 + nl + l2);
            assert(lines(all) =~= seq![h, l1, l2]);
        },
    }
}

/// The pieces of a one-text card's first three lines: the header, the
/// reason line and the meta line hold no newline and end in no carriage
/// return, the meta line is not empty, and the details block is the reason
/// line and the meta line.
proof fn lemma_block_pieces(k: TagKind, username: Seq<char>, reason_text: Seq<char>, is_nicked: bool, uuid_text: Seq<char>)
    requires
        forall|i: int| 0 <= i < username.len() ==> #[trigger] username[i] != '`' && username[i] != '\n',
        forall|i: int| 0 <= i < reason_text.len() ==> #[trigger] reason_text[i] != '\n',
        reason_text.len() == 0 || reason_text.last() != '\r',
        hex_or_dash(uuid_text),
    ensures
        forall|i: int| 0 <= i < card_header_spec(kind_name(k), username).len()
            ==> #[trigger] card_header_spec(kind_name(k), username)[i] != '\n',
        crate::text::strip_cr(card_header_spec(kind_name(k), username)) == card_header_spec(kind_name(k), username),
        forall|i: int| 0 <= i < ("> "@ + reason_text).len() ==> #[trigger] ("> "@ + reason_text)[i] != '\n',
        crate::text::strip_cr("> "@ + reason_text) == "> "@ + reason_text,
        forall|i: int| 0 <= i < details_meta(is_nicked, uuid_text).len() ==> #[trigger] details_meta(is_nicked, uuid_text)[i] != '\n',
        crate::text::strip_cr(details_meta(is_nicked, uuid_text)) == details_meta(is_nicked, uuid_text),
        details_meta(is_nicked, uuid_text).len() > 0,
        details_text(reason_text, is_nicked, uuid_text, None) == ("> "@ + reason_text) + seq!['\n'] + details_meta(is_nicked, uuid_text),
        first_word(uuid_text) == uuid_text,
        forall|i: int| 0 <= i < uuid_text.len() ==> #[trigger] uuid_text[i] != '\n',
        !contains(uuid_text, "Nicked"@),
{
    reveal_strlit("> ");
    reveal_strlit("\n> -# ");
    reveal_strlit("> -# ");
    reveal_strlit("Nicked \u{2014} UUID could not be resolved");
    reveal_strlit("UUID: ");
    crate::review_format::lemma_card_header_text(k, username);
    lemma_uuid_text_plain(uuid_text);
    let l1 = "> "@ + reason_text;
    let l2 = details_meta(is_nicked, uuid_text);
    assert(details_text(reason_text, is_nicked, uuid_text, None) =~= l1 + seq!['\n'] + l2);
    assert forall|i: int| 0 <= i < l1.len() implies #[trigger] l1[i] != '\n' by {
        if i >= 2 {
            assert(l1[i] == reason_text[i - 2]);
        }
    }
    assert forall|i: int| 0 <= i < l2.len() implies #[trigger] l2[i] != '\n' by {
        if !is_nicked && i >= 11 {
            assert(l2[i] == uuid_text[i - 11]);
        }
    }
    if is_nicked {
        assert(l2.last() == 'd');
    } else if uuid_text.len() > 0 {
        assert(l2.last() == uuid_text.last());
        assert(is_hex(uuid_text[uuid_text.len() - 1]) || uuid_text[uuid_text.len() - 1] == '-');
    } else {
        assert(l2.last() == ' ');
    }
}

/// Reading the lines of a details block that has more lines after its two
/// first reads those two, and adds the evidence the further lines name.
proof fn lemma_details_more_lines(p: PlayerView, l1: Seq<char>, l2: Seq<char>, more: Seq<Seq<char>>)
    ensures
        details_of_lines(p, seq![l1, l2] + more) == (PlayerView {
            evidence: details_of_lines(p, seq![l1, l2]).evidence + evidence_of_lines(more),
            ..details_of_lines(p, seq![l1, l2])
        }),
{
    let all = seq![l1, l2] + more;
    assert(all[0] == l1);
    assert(all[1] == l2);
    assert(all.subrange(2, all.len() as int) =~= more);
    assert(evidence_of_lines(Seq::<Seq<char>>::empty()) =~= Seq::<EvidenceView>::empty());
    let two = details_of_lines(p, seq![l1, l2]);
    assert(two.evidence + evidence_of_lines(more) =~= (details_of_lines(p, seq![l1, l2]).evidence
        + Seq::<EvidenceView>::empty()) + evidence_of_lines(more));
}

/// The lines of a one-text card without conflict warning: the header, the
/// reason line, the meta line, then the replay lines.
proof fn lemma_block_lines(
    k: TagKind,
    username: Seq<char>,
    reason_text: Seq<char>,
    is_nicked: bool,
    uuid_text: Seq<char>,
    evidence: Seq<EvidenceView>,
)
    requires
        forall|i: int| 0 <= i < username.len() ==> #[trigger] username[i] != '`' && username[i] != '\n',
        forall|i: int| 0 <= i < reason_text.len() ==> #[trigger] reason_text[i] != '\n',
        reason_text.len() == 0 || reason_text.last() != '\r',
        hex_or_dash(uuid_text),
        forall|i: int| 0 <= i < evidence.len() ==> replay_reads_back(#[trigger] evidence[i]),
    ensures
        lines(block_text(kind_name(k), username, reason_text, is_nicked, uuid_text, evidence, None)) == seq![
            card_header_spec(kind_name(k), username),
            "> "@ + reason_text,
            details_meta(is_nicked, uuid_text),
        ] + replay_lines(evidence),
{
    let nl = seq!['\n'];
    let h = card_header_spec(kind_name(k), username);
    let l1 = "> "@ + reason_text;
    let l2 = details_meta(is_nicked, uuid_text);
    lemma_block_pieces(k, username, reason_text, is_nicked, uuid_text);
    let block = block_text(kind_name(k), username, reason_text, is_nicked, uuid_text, evidence, None);
    if evidence.len() > 0 {
        crate::review_messages::lemma_replay_summary_reads_back(evidence);
        let t = joined(replay_lines(evidence), nl);
        assert(block =~= h + nl + l1 + nl + l2 + (nl + t));
        lemma_three_lines(h, l1, l2, Some(t));
    } else {
        crate::review_messages::lemma_replay_lines_of_replays(evidence);
        assert(evidence_summary_spec(evidence) is None);
        assert(block =~= h + nl + l1 + nl + l2 + Seq::<char>::empty());
        lemma_three_lines(h, l1, l2, None);
        assert(replay_lines(evidence) =~= Seq::<Seq<char>>::empty());
        assert(seq![h, l1, l2] + Seq::<Seq<char>>::empty() =~= seq![h, l1, l2] + replay_lines(evidence));
    }
}

/// A one-text card read back gives the player it was drawn from: the name,
/// the tag type, the reason as shown, the nick flag, the UUID without its
/// dashes, and the replays in order, with a pending status. This holds for
/// every catalogue tag, every name without backquote or newline, every reason
/// without newline that does not end in a carriage return, every UUID text of
/// hexadecimal digits and dashes, no conflict warning, and replays whose lines
/// read back.
pub proof fn lemma_player_block_reads_back(
    k: TagKind,
    username: Seq<char>,
    reason_text: Seq<char>,
    is_nicked: bool,
    uuid_text: Seq<char>,
    evidence: Seq<EvidenceView>,
)
    requires
        forall|i: int| 0 <= i < username.len() ==> #[trigger] username[i] != '`' && username[i] != '\n',
        forall|i: int| 0 <= i < reason_text.len() ==> #[trigger] reason_text[i] != '\n',
        reason_text.len() == 0 || reason_text.last() != '\r',
        hex_or_dash(uuid_text),
        forall|i: int| 0 <= i < evidence.len() ==> replay_reads_back(#[trigger] evidence[i]),
    ensures
        parse_player_block_spec(block_text(kind_name(k), username, reason_text, is_nicked, uuid_text, evidence, None))
            == Some(card_player(k, username, reason_text, is_nicked, uuid_text, evidence)),
{
    let h = card_header_spec(kind_name(k), username);
    let l1 = "> "@ + reason_text;
    let l2 = details_meta(is_nicked, uuid_text);
    let fresh = fresh_player(username, kind_name(k));
    let rl = replay_lines(evidence);
    lemma_block_lines(k, username, reason_text, is_nicked, uuid_text, evidence);
    lemma_block_pieces(k, username, reason_text, is_nicked, uuid_text);
    crate::review_format::lemma_card_header_roundtrip(k, username);
    crate::review_messages::lemma_replay_lines_of_replays(evidence);
    let ls = lines(block_text(kind_name(k), username, reason_text, is_nicked, uuid_text, evidence, None));
    assert(ls[0] == h);
    assert(ls.drop_first() =~= seq![l1, l2] + rl);
    crate::review_format::lemma_details_roundtrip(fresh, reason_text, is_nicked, uuid_text);
    crate::text::lemma_two_lines(l1, l2);
    lemma_details_more_lines(fresh, l1, l2, rl);
    assert(fresh.evidence + evidence =~= evidence);
}

} // verus!
