//! The text format of review threads: how players, evidence, statuses and votes
//! are written into a thread's message, and how they are read back.
use vstd::prelude::*;
use crate::replay::{dash_position, format_command_spec, is_dashed_uuid_spec, is_timestamp_word, parse_replay, parse_replay_spec, Replay, ReplayView};
use crate::review::{Evidence, EvidenceView, PlayerEntry, PlayerStatus, PlayerView};
use crate::tags::{TagKind, definition, kind_display, kind_displayed, kind_name, kind_named, lookup, lookup_tag_name_from_display};
use crate::text::{
    chars_of, contains, decimal, decimal_exec, find, find_exec, first_line, has_prefix, has_suffix,
    is_hex, is_ws, last_piece, lemma_find_from, lemma_find_from_first, lines, occurs_at, trim, without, lines_exec, parse_u64_exec, parse_u64_spec, parse_usize_exec,
    parse_usize_spec, push_chars, push_str, slice_vec, split, split_exec, split_nth,
    split_nth_exec, starts_with, string_from_chars, strip_prefix, strip_suffix, utf8_len,
    utf8_prefix_len, views, words, words_exec,
};

verus! {

// ---------------------------------------------------------------------------
// Evidence lines
// ---------------------------------------------------------------------------

/// The line that lists a replay as evidence, with its note if any.
pub open spec fn replay_line_spec(r: ReplayView, note: Option<Seq<char>>) -> Seq<char> {
    match note {
        Some(n) => "- `"@ + format_command_spec(r) + "` \u{2014} Note: \""@ + n + "\""@,
        None => "- `"@ + format_command_spec(r) + "`"@,
    }
}

/// The note of an evidence line: the text after the first `Note: "`, up to the
/// next one, which must end with a quote.
pub open spec fn evidence_note(l: Seq<char>) -> Option<Seq<char>> {
    match split_nth(l, "Note: \""@, 1) {
        Some(x) => if has_suffix(x, "\""@) {
            Some(x.subrange(0, x.len() - 1))
        } else {
            None
        },
        None => None,
    }
}

/// The evidence an evidence line names: after an optional `- `, a backquoted
/// `/replay` command, and an optional note.
pub open spec fn parse_evidence_spec(line: Seq<char>) -> Option<EvidenceView> {
    let l = if has_prefix(line, "- "@) { line.subrange(2, line.len() as int) } else { line };
    if !has_prefix(l, "`/replay"@) {
        None
    } else {
        match split_nth(l, "`"@, 1) {
            Some(cmd) => match parse_replay_spec(cmd) {
                Some(r) => Some(EvidenceView::Replay(r, evidence_note(l))),
                None => None,
            },
            None => None,
        }
    }
}

/// The evidence line for a replay: `- `/replay ...``, followed by
/// ` — Note: "..."` when there is a note.
pub fn render_replay_line(replay: &Replay, note: Option<&str>) -> (r: String)
    ensures
        r@ == replay_line_spec(replay@, match note {
            Some(n) => Some(n@),
            None => None,
        }),
{
    let cmd = replay.format_command();
    let mut out: Vec<char> = Vec::new();
    push_str(&mut out, "- `");
    push_str(&mut out, cmd.as_str());
    match note {
        Some(n) => {
            push_str(&mut out, "` \u{2014} Note: \"");
            push_str(&mut out, n);
            push_str(&mut out, "\"");
        },
        None => {
            push_str(&mut out, "`");
        },
    }
    string_from_chars(&out)
}

/// Reads an evidence line back: the replay command between the first two
/// backquotes and the note, if any. `None` unless the line (after an optional
/// `- `) starts with `` `/replay`` and the command names a replay.
pub fn parse_evidence_line(line: &str) -> (r: Option<Evidence>)
    ensures
        r matches Some(e) ==> parse_evidence_spec(line@) == Some(e@),
        r is None ==> parse_evidence_spec(line@) is None,
{
    let cs = chars_of(line);
    parse_evidence_chars(&cs)
}

/// `parse_evidence_line` over characters.
pub fn parse_evidence_chars(cs: &[char]) -> (r: Option<Evidence>)
    ensures
        r matches Some(e) ==> parse_evidence_spec(cs@) == Some(e@),
        r is None ==> parse_evidence_spec(cs@) is None,
{
    proof {
        reveal_strlit("- ");
        reveal_strlit("`/replay");
        reveal_strlit("`");
        reveal_strlit("Note: \"");
        reveal_strlit("\"");
    }
    let dash = chars_of("- ");
    let l = match strip_prefix(cs, &dash) {
        Some(rest) => rest,
        None => slice_vec(cs, 0, cs.len()),
    };
    assert(cs@.subrange(0, cs@.len() as int) =~= cs@);
    let marker = chars_of("`/replay");
    if !starts_with(&l, &marker) {
        return None;
    }
    let tick = chars_of("`");
    let cmd = match split_nth_exec(&l, &tick, 1) {
        Some(c) => c,
        None => return None,
    };
    let cmd_s = string_from_chars(&cmd);
    let replay = match parse_replay(cmd_s.as_str()) {
        Some(r) => r,
        None => return None,
    };
    let note_pat = chars_of("Note: \"");
    let quote = chars_of("\"");
    let note = match split_nth_exec(&l, &note_pat, 1) {
        Some(x) => match strip_suffix(&x, &quote) {
            Some(n) => Some(string_from_chars(&n)),
            None => None,
        },
        None => None,
    };
    let e = Evidence::Replay { replay, note };
    Some(e)
}

/// A timestamp that can stand in an evidence line: a timestamp word without
/// whitespace or backquotes.
pub open spec fn line_safe_timestamp(t: Seq<char>) -> bool {
    &&& is_timestamp_word(t)
    &&& forall|i: int| 0 <= i < t.len() ==> !is_ws(#[trigger] t[i]) && t[i] != '`'
}

/// The shape of a formatted replay command: `/replay `, the 36 characters of
/// the identifier, then a space and the timestamp; spaces stand only after
/// `/replay` and before the timestamp, and no backquote stands anywhere.
proof fn lemma_command_shape(r: ReplayView)
    requires
        is_dashed_uuid_spec(r.id),
        r.timestamp matches Some(t) ==> line_safe_timestamp(t),
    ensures
        format_command_spec(r).len() >= 44,
        format_command_spec(r).subrange(0, 7) == "/replay"@,
        format_command_spec(r)[6] == 'y',
        is_hex(format_command_spec(r)[43]),
        forall|k: int|
            0 <= k < format_command_spec(r).len() && #[trigger] format_command_spec(r)[k] == ' '
                ==> k == 7 || k == 44,
        forall|k: int|
            0 <= k < format_command_spec(r).len() ==> #[trigger] format_command_spec(r)[k] != '`',
        forall|k: int|
            0 <= k < format_command_spec(r).len() ==> #[trigger] format_command_spec(r)[k] != '\n',
{
    reveal_strlit("/replay ");
    reveal_strlit("/replay");
    reveal_strlit(" ");
    let c = format_command_spec(r);
    let head: Seq<char> = "/replay "@;
    assert(head.len() == 8);
    assert(is_hex(r.id[35]));
    assert forall|k: int| 0 <= k < c.len() implies (c[k] == ' ' ==> k == 7 || k == 44) && c[k] != '`'
        && c[k] != '\n' by {
        if k < 8 {
            assert(c[k] == head[k]);
        } else if k < 44 {
            assert(c[k] == r.id[k - 8]);
            if dash_position(k - 8) {
            } else {
                assert(is_hex(r.id[k - 8]));
            }
        } else if k == 44 {
        } else {
            let t = r.timestamp->0;
            assert(c[k] == t[k - 45]);
            assert(!is_ws(t[k - 45]));
        }
    }
    assert(c.subrange(0, 7) =~= "/replay"@);
}

/// An evidence line without its leading `- `.
pub open spec fn evidence_body(r: ReplayView, note: Option<Seq<char>>) -> Seq<char> {
    match note {
        Some(n) => "`"@ + format_command_spec(r) + "` \u{2014} Note: \""@ + n + "\""@,
        None => "`"@ + format_command_spec(r) + "`"@,
    }
}

/// An evidence line is `- ` before its body, and the body starts with `` `/replay``.
proof fn lemma_line_body(r: ReplayView, note: Option<Seq<char>>)
    requires
        is_dashed_uuid_spec(r.id),
        r.timestamp matches Some(t) ==> line_safe_timestamp(t),
    ensures
        has_prefix(replay_line_spec(r, note), "- "@),
        replay_line_spec(r, note).subrange(2, replay_line_spec(r, note).len() as int)
            == evidence_body(r, note),
        has_prefix(evidence_body(r, note), "`/replay"@),
{
    reveal_strlit("- `");
    reveal_strlit("- ");
    reveal_strlit("`");
    reveal_strlit("`/replay");
    reveal_strlit("/replay");
    lemma_command_shape(r);
    let cmd = format_command_spec(r);
    let line = replay_line_spec(r, note);
    let body = evidence_body(r, note);
    assert(line.subrange(0, 2) =~= "- "@);
    assert(line.subrange(2, line.len() as int) =~= body);
    assert(body.subrange(0, 8) =~= "`"@ + cmd.subrange(0, 7));
    assert(body.subrange(0, 8) =~= "`/replay"@);
}

/// The second backquote-separated piece of an evidence body is the command.
proof fn lemma_body_command(r: ReplayView, note: Option<Seq<char>>)
    requires
        is_dashed_uuid_spec(r.id),
        r.timestamp matches Some(t) ==> line_safe_timestamp(t),
    ensures
        split_nth(evidence_body(r, note), "`"@, 1) == Some(format_command_spec(r)),
{
    reveal_strlit("`");
    reveal_strlit("` \u{2014} Note: \"");
    lemma_command_shape(r);
    let cmd = format_command_spec(r);
    let tick: Seq<char> = "`"@;
    let mid: Seq<char> = "` \u{2014} Note: \""@;
    let tail: Seq<char> = match note {
        Some(n) => mid.subrange(1, 11) + n + "\""@,
        None => Seq::empty(),
    };
    let body = evidence_body(r, note);
    assert(body =~= tick + cmd + tick + tail);
    assert forall|j: int| 0 <= j < cmd.len() implies !occurs_at(cmd + tick + tail, tick, j) by {
        if occurs_at(cmd + tick + tail, tick, j) {
            assert((cmd + tick + tail).subrange(j, j + 1)[0] == (cmd + tick + tail)[j]);
        }
    }
    crate::text::lemma_split_at_first(cmd, tick, tail);
    assert(Seq::<char>::empty() + tick + (cmd + tick + tail) =~= body);
    crate::text::lemma_split_at_first(Seq::<char>::empty(), tick, cmd + tick + tail);
    crate::text::lemma_split_nonempty(tail, tick);
}

/// `Note: "` does not start anywhere before the note's own marker: not in the
/// command (it holds spaces only after `/replay` and after the identifier),
/// and not across the backquote that closes it.
proof fn lemma_no_early_note(r: ReplayView, note: Option<Seq<char>>, j: int)
    requires
        is_dashed_uuid_spec(r.id),
        r.timestamp matches Some(t) ==> line_safe_timestamp(t),
        0 <= j < format_command_spec(r).len() + 5,
    ensures
        !occurs_at(evidence_body(r, note), "Note: \""@, j),
{
    reveal_strlit("`");
    reveal_strlit("` \u{2014} Note: \"");
    reveal_strlit("Note: \"");
    lemma_command_shape(r);
    let cmd = format_command_spec(r);
    let l = evidence_body(r, note);
    let pat: Seq<char> = "Note: \""@;
    let q: int = cmd.len() + 1int;
    assert(l[0] == '`');
    assert(forall|k: int| 1 <= k < q ==> #[trigger] l[k] == cmd[k - 1]);
    assert(l[q] == '`');
    if note is Some {
        assert(l[q + 1] == ' ' && l[q + 2] == '\u{2014}' && l[q + 3] == ' ');
    }
    if occurs_at(l, pat, j) {
        let w = l.subrange(j, j + 7);
        assert(w == pat);
        assert(w[0] == l[j] && w[4] == l[j + 4] && w[5] == l[j + 5]);
        if j + 5 < q {
            assert(cmd[j + 4] == ' ');
        } else if j <= q {
            let d = q - j;
            assert(w[d] == l[q]);
        } else {
        }
    }
}

/// Writing a replay as an evidence line and reading the line back gives the
/// same replay and note, for every well-formed replay whose timestamp has no
/// backquote, and every note `n` such that `n` followed by a quote holds no
/// `Note: "`.
pub proof fn lemma_evidence_line_roundtrip(r: ReplayView, note: Option<Seq<char>>)
    requires
        is_dashed_uuid_spec(r.id),
        r.timestamp matches Some(t) ==> line_safe_timestamp(t),
        note matches Some(n) ==> !contains(n + "\""@, "Note: \""@),
    ensures
        parse_evidence_spec(replay_line_spec(r, note)) == Some(EvidenceView::Replay(r, note)),
{
    reveal_strlit("`");
    reveal_strlit("` \u{2014} Note: \"");
    reveal_strlit("Note: \"");
    reveal_strlit("\"");
    lemma_line_body(r, note);
    lemma_body_command(r, note);
    crate::replay::lemma_parse_format_roundtrip(r);
    let cmd = format_command_spec(r);
    let l = evidence_body(r, note);
    let pat: Seq<char> = "Note: \""@;
    let quote: Seq<char> = "\""@;
    let mid: Seq<char> = "` \u{2014} Note: \""@;
    match note {
        Some(n) => {
            let pre = "`"@ + cmd + mid.subrange(0, 4);
            assert(l =~= pre + pat + (n + quote));
            assert forall|j: int| 0 <= j < pre.len() implies !occurs_at(pre + pat + (n + quote), pat, j) by {
                lemma_no_early_note(r, note, j);
            }
            crate::text::lemma_split_at_first(pre, pat, n + quote);
            crate::text::lemma_split_none(n + quote, pat);
            assert(split(l, pat) =~= seq![pre, n + quote]);
            assert((n + quote).subrange(0, n.len() as int) =~= n);
            assert((n + quote).subrange(n.len() as int, n.len() + 1int) =~= quote);
            assert(evidence_note(l) == Some(n));
        },
        None => {
            assert forall|j: int| 0 <= j implies !occurs_at(l, pat, j) by {
                if j < cmd.len() + 5 {
                    lemma_no_early_note(r, note, j);
                }
            }
            crate::text::lemma_not_contains(l, pat);
            crate::text::lemma_split_none(l, pat);
            assert(evidence_note(l) is None);
        },
    }
}

/// A piece of evidence that its evidence line gives back whole: a replay with
/// a dashed-UUID identifier, a timestamp without whitespace or backquotes, and
/// a note without newline that, followed by a quote, holds no `Note: "`.
pub open spec fn replay_reads_back(e: EvidenceView) -> bool {
    match e {
        EvidenceView::Replay(r, note) => {
            &&& is_dashed_uuid_spec(r.id)
            &&& r.timestamp matches Some(t) ==> line_safe_timestamp(t)
            &&& note matches Some(n) ==> !contains(n + "\""@, "Note: \""@) && forall|i: int|
                0 <= i < n.len() ==> #[trigger] n[i] != '\n'
        },
        EvidenceView::Attachment(_) => false,
    }
}

/// The evidence line of a piece of evidence that is a replay.
pub open spec fn evidence_line(e: EvidenceView) -> Seq<char> {
    match e {
        EvidenceView::Replay(r, note) => replay_line_spec(r, note),
        EvidenceView::Attachment(_) => Seq::empty(),
    }
}

/// The evidence line of a replay that reads back is one line that starts
/// with `- ` and ends with neither whitespace nor a carriage return, and it
/// reads back as that replay.
pub proof fn lemma_evidence_line_shape(e: EvidenceView)
    requires
        replay_reads_back(e),
    ensures
        evidence_line(e).len() > 2,
        evidence_line(e)[0] == '-',
        evidence_line(e)[1] == ' ',
        !is_ws(evidence_line(e).last()),
        evidence_line(e).last() != '\r',
        forall|i: int| 0 <= i < evidence_line(e).len() ==> #[trigger] evidence_line(e)[i] != '\n',
        trim(evidence_line(e)) == evidence_line(e),
        parse_evidence_spec(evidence_line(e)) == Some(e),
{
    reveal_strlit("- `");
    reveal_strlit("`");
    reveal_strlit("` \u{2014} Note: \"");
    reveal_strlit("\"");
    if let EvidenceView::Replay(r, note) = e {
        lemma_command_shape(r);
        lemma_evidence_line_roundtrip(r, note);
        let c = format_command_spec(r);
        let l = replay_line_spec(r, note);
        let head: Seq<char> = "- `"@;
        match note {
            Some(n) => {
                let mid: Seq<char> = "` \u{2014} Note: \""@;
                assert(l =~= head + c + mid + n + "\""@);
                assert forall|i: int| 0 <= i < l.len() implies #[trigger] l[i] != '\n' by {
                    if i < 3 {
                        assert(l[i] == head[i]);
                    } else if i < 3 + c.len() {
                        assert(l[i] == c[i - 3]);
                    } else if i < 3 + c.len() + mid.len() {
                        assert(l[i] == mid[i - 3 - c.len()]);
                    } else if i < 3 + c.len() + mid.len() + n.len() {
                        assert(l[i] == n[i - 3 - c.len() - mid.len()]);
                    }
                }
            },
            None => {
                assert(l =~= head + c + "`"@);
                assert forall|i: int| 0 <= i < l.len() implies #[trigger] l[i] != '\n' by {
                    if i < 3 {
                        assert(l[i] == head[i]);
                    } else if i < 3 + c.len() {
                        assert(l[i] == c[i - 3]);
                    }
                }
            },
        }
        crate::replay::lemma_trim_identity(l);
    }
}

// ---------------------------------------------------------------------------
// Player headers, statuses and votes
// ---------------------------------------------------------------------------

/// The separator between a tag's display name and the player.
pub open spec fn dash_sep() -> Seq<char> {
    " \u{2014} "@
}

/// A text display starts a player entry: its first line holds `` — ` ``.
pub open spec fn is_player_entry_spec(text: Seq<char>) -> bool {
    contains(first_line(text), " \u{2014} `"@) && contains(first_line(text), "`"@)
}

/// Whether a text display starts a player entry: its first line holds the
/// separator before a backquoted name.
pub fn is_player_entry(text: &str) -> (r: bool)
    ensures
        r == is_player_entry_spec(text@),
{
    let cs = chars_of(text);
    is_player_entry_chars(&cs)
}

/// `is_player_entry` over characters.
pub fn is_player_entry_chars(cs: &[char]) -> (r: bool)
    ensures
        r == is_player_entry_spec(cs@),
{
    let ls = lines_exec(cs);
    let first: Vec<char> = if ls.len() > 0 {
        assert(views(ls@)[0] == ls@[0]@);
        slice_vec(&ls[0], 0, ls[0].len())
    } else {
        Vec::new()
    };
    assert(first@ =~= first_line(cs@));
    let sep = chars_of(" \u{2014} `");
    let tick = chars_of("`");
    find_exec(&first, &sep).is_some() && find_exec(&first, &tick).is_some()
}

/// The byte position of the first ` — ` in `s`, if any (`str::find`).
pub fn find_dash_separator(s: &str) -> (r: Option<usize>)
    requires
        utf8_len(s@) <= usize::MAX,
    ensures
        r matches Some(b) ==> find(s@, dash_sep()) matches Some(i) && b == utf8_len(s@.subrange(0, i)),
        r is None ==> find(s@, dash_sep()) is None,
{
    let cs = chars_of(s);
    let sep = chars_of(" \u{2014} ");
    match find_exec(&cs, &sep) {
        Some(i) => {
            proof {
                crate::text::lemma_find_from(s@, dash_sep(), 0);
                crate::text::lemma_utf8_len_prefix_le(s@, i as int);
            }
            Some(utf8_prefix_len(&cs, i))
        },
        None => None,
    }
}

/// A player read from a card header: the name and the tag type, the rest blank.
pub open spec fn fresh_player(username: Seq<char>, tag_type: Seq<char>) -> PlayerView {
    PlayerView {
        username,
        uuid: Seq::empty(),
        tag_type,
        reason: Seq::empty(),
        is_nicked: false,
        status: PlayerStatus::Pending,
        reviewer: None,
        review_note: None,
        evidence: Seq::empty(),
        conflict_warning: None,
        accept_votes: Seq::empty(),
        reject_votes: Seq::empty(),
    }
}

/// The tag's display name in the part of a card header before the dash: the
/// text after the last `>` (which closes the tag's emote), or the whole part,
/// trimmed.
pub open spec fn header_display(tag_part: Seq<char>) -> Seq<char> {
    if contains(tag_part, ">"@) {
        trim(last_piece(tag_part, ">"@))
    } else {
        trim(tag_part)
    }
}

/// A card header read back: the backquoted player name and the tag type whose
/// display name stands before the dash.
pub open spec fn parse_header_spec(header: Seq<char>) -> Option<(Seq<char>, Seq<char>)> {
    match split_nth(header, "`"@, 1) {
        None => None,
        Some(username) => match find(header, dash_sep()) {
            None => None,
            Some(d) => match kind_displayed(header_display(header.subrange(0, d))) {
                Some(k) => Some((username, kind_name(k))),
                None => None,
            },
        },
    }
}

/// Reads a player card header back into a blank player with that name and
/// tag type: `None` unless the header holds a backquoted name, a dash, and a
/// known tag's display name before the dash.
pub fn parse_player_header(header: &str) -> (r: Option<PlayerEntry>)
    ensures
        r matches Some(p) ==> parse_header_spec(header@) matches Some((u, t)) && p@ == fresh_player(u, t),
        r is None ==> parse_header_spec(header@) is None,
{
    proof {
        reveal_strlit("`");
        reveal_strlit(">");
    }
    let cs = chars_of(header);
    let tick = chars_of("`");
    let username = match split_nth_exec(&cs, &tick, 1) {
        Some(u) => u,
        None => return None,
    };
    let sep = chars_of(" \u{2014} ");
    let d = match find_exec(&cs, &sep) {
        Some(d) => d,
        None => return None,
    };
    proof {
        crate::text::lemma_find_from(cs@, sep@, 0);
    }
    let tag_part = slice_vec(&cs, 0, d);
    let gt = chars_of(">");
    let display = if find_exec(&tag_part, &gt).is_some() {
        let last = crate::text::last_piece_exec(&tag_part, &gt);
        crate::text::trim_exec(&last)
    } else {
        crate::text::trim_exec(&tag_part)
    };
    let display_s = string_from_chars(&display);
    let tag_type = match lookup_tag_name_from_display(display_s.as_str()) {
        Some(t) => t,
        None => return None,
    };
    let p = PlayerEntry {
        username: string_from_chars(&username),
        uuid: String::new(),
        tag_type: string_from_chars(&chars_of(tag_type)),
        reason: String::new(),
        is_nicked: false,
        status: PlayerStatus::Pending,
        reviewer: None,
        review_note: None,
        evidence: Vec::new(),
        conflict_warning: None,
        accept_votes: Vec::new(),
        reject_votes: Vec::new(),
    };
    assert(p@.evidence =~= Seq::<EvidenceView>::empty());
    Some(p)
}

/// The first line of a player card: the tag's emote and display name, a dash,
/// and the backquoted player name; a tag type outside the catalogue shows as
/// itself, without emote.
pub open spec fn card_header_spec(tag_type: Seq<char>, username: Seq<char>) -> Seq<char> {
    let (emote, display) = match kind_named(tag_type) {
        Some(k) => (definition(k).emote@, kind_display(k)),
        None => (Seq::empty(), tag_type),
    };
    emote + " "@ + display + " \u{2014} `"@ + username + "`"@
}

/// The first line of a player's card.
pub fn player_card_header(player: &PlayerEntry) -> (r: String)
    ensures
        r@ == card_header_spec(player.tag_type@, player.username@),
{
    let mut out: Vec<char> = Vec::new();
    match lookup(player.tag_type.as_str()) {
        Some(def) => {
            push_str(&mut out, def.emote);
            push_str(&mut out, " ");
            push_str(&mut out, def.display_name);
        },
        None => {
            push_str(&mut out, " ");
            push_str(&mut out, player.tag_type.as_str());
        },
    }
    push_str(&mut out, " \u{2014} `");
    push_str(&mut out, player.username.as_str());
    push_str(&mut out, "`");
    string_from_chars(&out)
}

/// The display name and emote of every catalogue tag can stand in a card
/// header: the emote ends with `>` and holds no backquote or dash, the display
/// name holds neither those nor `>` and has no surrounding whitespace.
pub proof fn lemma_header_safe(k: TagKind)
    ensures
        header_safe(definition(k).emote@, kind_display(k)),
{
    reveal_strlit("<:sniper:1459106167270932618>");
    reveal_strlit("<:blatantcheater:1459106183196577812>");
    reveal_strlit("<:closetcheater:1459106337039323136>");
    reveal_strlit("<:replaysneeded:1482502914835615745>");
    reveal_strlit("<:caution:1459106358098923583>");
    reveal_strlit("<:confirmedcheater:1459106129765204049>");
    reveal_strlit("Sniper");
    reveal_strlit("Blatant Cheater");
    reveal_strlit("Closet Cheater");
    reveal_strlit("Replays Needed");
    reveal_strlit("Caution");
    reveal_strlit("Confirmed Cheater");
    let e = definition(k).emote@;
    let d = kind_display(k);
    assert forall|i: int| 0 <= i < e.len() implies e[i] != '`' && e[i] != '\u{2014}' && e[i] != '\n' by {}
    assert forall|i: int| 0 <= i < d.len() implies d[i] != '`' && d[i] != '\u{2014}' && d[i] != '>' && d[i] != '\n' by {}
}

/// An emote and display name that a card header can carry and give back.
pub open spec fn header_safe(e: Seq<char>, d: Seq<char>) -> bool {
    &&& e.len() > 0 && e[0] == '<' && e.last() == '>'
    &&& forall|i: int| 0 <= i < e.len() ==> #[trigger] e[i] != '`' && e[i] != '\u{2014}' && e[i] != '\n'
    &&& d.len() > 0 && !is_ws(d[0]) && !is_ws(d.last())
    &&& forall|i: int|
        0 <= i < d.len() ==> #[trigger] d[i] != '`' && d[i] != '\u{2014}' && d[i] != '>' && d[i] != '\n'
}

/// The pieces of a card header: the name is the second backquoted piece, the
/// dash stands right after the display name, and the display name is what
/// follows the emote.
proof fn lemma_header_parts(e: Seq<char>, d: Seq<char>, u: Seq<char>)
    requires
        header_safe(e, d),
        forall|i: int| 0 <= i < u.len() ==> #[trigger] u[i] != '`',
    ensures
        split_nth(e + " "@ + d + " \u{2014} `"@ + u + "`"@, "`"@, 1) == Some(u),
        find(e + " "@ + d + " \u{2014} `"@ + u + "`"@, dash_sep()) == Some(e.len() + 1 + d.len() as int),
        header_display((e + " "@ + d + " \u{2014} `"@ + u + "`"@).subrange(0, e.len() + 1 + d.len() as int)) == d,
{
    reveal_strlit(" ");
    reveal_strlit(" \u{2014} `");
    reveal_strlit(" \u{2014} ");
    reveal_strlit("`");
    reveal_strlit(">");
    let h = e + " "@ + d + " \u{2014} `"@ + u + "`"@;
    let tick: Seq<char> = "`"@;
    let n: int = e.len() + 1 + d.len() as int;
    let pre = e + " "@ + d + dash_sep();
    // The name.
    assert(h =~= pre + tick + (u + tick + Seq::<char>::empty()));
    assert forall|j: int| 0 <= j < pre.len() implies !occurs_at(h, tick, j) by {
        if occurs_at(h, tick, j) {
            assert(h.subrange(j, j + 1)[0] == h[j]);
        }
    }
    crate::text::lemma_split_at_first(pre, tick, u + tick + Seq::<char>::empty());
    assert forall|j: int| 0 <= j < u.len() implies !occurs_at(u + tick + Seq::<char>::empty(), tick, j) by {
        if occurs_at(u + tick + Seq::<char>::empty(), tick, j) {
            assert((u + tick + Seq::<char>::empty()).subrange(j, j + 1)[0] == u[j]);
        }
    }
    crate::text::lemma_split_at_first(u, tick, Seq::<char>::empty());
    crate::text::lemma_split_nonempty(Seq::<char>::empty(), tick);
    // The dash.
    assert(occurs_at(h, dash_sep(), n)) by {
        assert(h.subrange(n, n + 3) =~= dash_sep());
    }
    assert forall|j: int| 0 <= j < n implies !occurs_at(h, dash_sep(), j) by {
        if occurs_at(h, dash_sep(), j) {
            assert(h.subrange(j, j + 3)[1] == h[j + 1]);
            if j + 1 < e.len() {
                assert(h[j + 1] == e[j + 1]);
            } else if j + 1 == e.len() {
            } else if j + 1 < n {
                assert(h[j + 1] == d[j + 1 - e.len() - 1]);
            }
        }
    }
    crate::text::lemma_find_from_first(h, dash_sep(), 0, n);
    // The display name.
    let tp = h.subrange(0, n);
    let gt: Seq<char> = ">"@;
    assert(tp =~= e.drop_last() + gt + (" "@ + d));
    assert forall|i: int| 0 <= i < (" "@ + d).len() implies (" "@ + d)[i] != '>' by {
        if i > 0 {
            assert((" "@ + d)[i] == d[i - 1]);
        }
    }
    assert(gt =~= seq!['>']);
    crate::text::lemma_last_piece_after(e.drop_last(), '>', " "@ + d);
    assert(last_piece(tp, gt) == " "@ + d);
    assert(occurs_at(tp, gt, e.len() - 1)) by {
        assert(tp.subrange(e.len() - 1, e.len() as int) =~= gt);
    }
    crate::text::lemma_find_from(tp, gt, 0);
    assert((" "@ + d).drop_first() =~= d);
    assert(crate::text::trim_start(" "@ + d) == crate::text::trim_start(d));
    assert(crate::text::trim_start(d) == d);
    assert(crate::text::trim_end(d) == d);
    assert(trim(" "@ + d) == d);
}

/// A player card header of a catalogue tag reads back as that tag and the
/// player's name, for every name without a backquote.
pub proof fn lemma_card_header_roundtrip(k: TagKind, username: Seq<char>)
    requires
        forall|i: int| 0 <= i < username.len() ==> #[trigger] username[i] != '`',
    ensures
        parse_header_spec(card_header_spec(kind_name(k), username)) == Some((username, kind_name(k))),
{
    crate::tags::lemma_lookup_finds_every_tag(k);
    lemma_header_safe(k);
    lemma_header_parts(definition(k).emote@, kind_display(k), username);
}

/// A player card header of a catalogue tag, for a name without backquote or
/// newline, is one line, is its own trim, starts a player entry, and reads
/// back as that tag and name.
pub proof fn lemma_card_header_text(k: TagKind, username: Seq<char>)
    requires
        forall|i: int| 0 <= i < username.len() ==> #[trigger] username[i] != '`' && username[i] != '\n',
    ensures
        trim(card_header_spec(kind_name(k), username)) == card_header_spec(kind_name(k), username),
        forall|i: int| 0 <= i < card_header_spec(kind_name(k), username).len()
            ==> #[trigger] card_header_spec(kind_name(k), username)[i] != '\n',
        crate::text::strip_cr(card_header_spec(kind_name(k), username)) == card_header_spec(kind_name(k), username),
        is_player_entry_spec(card_header_spec(kind_name(k), username)),
        parse_header_spec(card_header_spec(kind_name(k), username)) == Some((username, kind_name(k))),
{
    reveal_strlit(" ");
    reveal_strlit(" \u{2014} `");
    reveal_strlit("`");
    lemma_card_header_roundtrip(k, username);
    crate::tags::lemma_lookup_finds_every_tag(k);
    lemma_header_safe(k);
    let e = definition(k).emote@;
    let d = kind_display(k);
    let h = card_header_spec(kind_name(k), username);
    let pat: Seq<char> = " \u{2014} `"@;
    let tick: Seq<char> = "`"@;
    assert(h =~= e + " "@ + d + pat + username + tick);
    let n: int = e.len() + 1 + d.len() as int;
    assert forall|i: int| 0 <= i < h.len() implies #[trigger] h[i] != '\n' by {
        if i < e.len() {
            assert(h[i] == e[i]);
        } else if i == e.len() {
        } else if i < n {
            assert(h[i] == d[i - e.len() - 1]);
        } else if i < n + 4 {
            assert(h[i] == pat[i - n]);
        } else if i < n + 4 + username.len() {
            assert(h[i] == username[i - n - 4]);
        }
    }
    crate::text::lemma_last_line(h);
    assert(crate::text::first_line(h) == h);
    assert(occurs_at(h, pat, n)) by {
        assert(h.subrange(n, n + 4) =~= pat);
    }
    assert(occurs_at(h, tick, n + 3)) by {
        assert(h.subrange(n + 3, n + 4) =~= tick);
    }
    lemma_find_from(h, pat, 0);
    lemma_find_from(h, tick, 0);
    assert(h[0] == e[0]);
    crate::replay::lemma_trim_identity(h);
}

/// The first whitespace-separated word of `s`, or nothing.
pub open spec fn first_word(s: Seq<char>) -> Seq<char> {
    if words(s).len() > 0 {
        words(s)[0]
    } else {
        Seq::empty()
    }
}

/// The evidence named by lines, in order; lines that name none are skipped.
pub open spec fn evidence_of_lines(ls: Seq<Seq<char>>) -> Seq<EvidenceView>
    decreases ls.len(),
{
    if ls.len() == 0 {
        Seq::empty()
    } else {
        match parse_evidence_spec(trim(ls.last())) {
            Some(e) => evidence_of_lines(ls.drop_last()).push(e),
            None => evidence_of_lines(ls.drop_last()),
        }
    }
}

/// The meta line of a details block without its `> -# ` prefix.
pub open spec fn meta_text(line: Seq<char>) -> Seq<char> {
    if has_prefix(line, "> -# "@) {
        line.subrange(5, line.len() as int)
    } else {
        line
    }
}

/// A player after reading a details block: the reason from a first line
/// `> <reason>`; from the second line, the nick flag when it mentions
/// `Nicked`, else the UUID (dashes removed) after `UUID: `; and the evidence
/// named by the lines after.
pub open spec fn details_spec(p: PlayerView, content: Seq<char>) -> PlayerView {
    details_of_lines(p, lines(content))
}

/// A player after reading the lines of a details block, as `details_spec`
/// reads them.
pub open spec fn details_of_lines(p: PlayerView, ls: Seq<Seq<char>>) -> PlayerView {
    let p1 = if ls.len() > 0 && has_prefix(ls[0], "> "@) {
        PlayerView { reason: ls[0].subrange(2, ls[0].len() as int), ..p }
    } else {
        p
    };
    let p2 = if ls.len() > 1 {
        let meta = meta_text(ls[1]);
        if contains(meta, "Nicked"@) {
            PlayerView { is_nicked: true, ..p1 }
        } else if has_prefix(meta, "UUID: "@) {
            PlayerView { uuid: without(first_word(meta.subrange(6, meta.len() as int)), '-'), ..p1 }
        } else {
            p1
        }
    } else {
        p1
    };
    let more = if ls.len() > 2 {
        evidence_of_lines(ls.subrange(2, ls.len() as int))
    } else {
        Seq::empty()
    };
    PlayerView { evidence: p2.evidence + more, ..p2 }
}

/// Reads a player's details block into the player.
pub fn parse_player_details(player: &mut PlayerEntry, content: &str)
    ensures
        final(player)@ == details_spec(old(player)@, content@),
{
    let cs = chars_of(content);
    let ls = lines_exec(&cs);
    read_detail_lines(player, &ls);
}

/// Reads the lines of a details block into the player.
pub(crate) fn read_detail_lines(player: &mut PlayerEntry, ls: &Vec<Vec<char>>)
    ensures
        final(player)@ == details_of_lines(old(player)@, views(ls@)),
{
    proof {
        reveal_strlit("> ");
        reveal_strlit("> -# ");
        reveal_strlit("UUID: ");
    }
    let ghost lv = views(ls@);
    let ghost p0 = player@;
    if ls.len() > 0 {
        assert(lv[0] == ls@[0]@);
        let pre = chars_of("> ");
        if let Some(reason) = strip_prefix(&ls[0], &pre) {
            player.reason = string_from_chars(&reason);
        }
    }
    let ghost p1 = player@;
    assert(p1 == (if lv.len() > 0 && has_prefix(lv[0], "> "@) {
        PlayerView { reason: lv[0].subrange(2, lv[0].len() as int), ..p0 }
    } else {
        p0
    }));
    if ls.len() > 1 {
        assert(lv[1] == ls@[1]@);
        let mpre = chars_of("> -# ");
        let meta = match strip_prefix(&ls[1], &mpre) {
            Some(m) => m,
            None => slice_vec(&ls[1], 0, ls[1].len()),
        };
        assert(ls@[1]@.subrange(0, ls@[1]@.len() as int) =~= ls@[1]@);
        assert(meta@ == meta_text(lv[1]));
        let nicked = chars_of("Nicked");
        let upre = chars_of("UUID: ");
        if find_exec(&meta, &nicked).is_some() {
            player.is_nicked = true;
        } else if let Some(rest) = strip_prefix(&meta, &upre) {
            let ws = words_exec(&rest);
            let first: Vec<char> = if ws.len() > 0 {
                assert(views(ws@)[0] == ws@[0]@);
                slice_vec(&ws[0], 0, ws[0].len())
            } else {
                Vec::new()
            };
            assert(first@ =~= first_word(rest@));
            player.uuid = string_from_chars(&crate::text::without_exec(&first, '-'));
        }
    }
    let ghost p2 = player@;
    let mut i: usize = 2;
    let ghost start = player@.evidence;
    assert(lv.len() > 2 ==> lv.subrange(2, 2) =~= Seq::<Seq<char>>::empty());
    while i < ls.len()
        invariant
            2 <= i,
            i <= ls@.len() || ls@.len() < 2,
            lv == views(ls@),
            player@ == (PlayerView { evidence: player@.evidence, ..p2 }),
            start == p2.evidence,
            i <= ls@.len() ==> player@.evidence == start + evidence_of_lines(lv.subrange(2, i as int)),
            ls@.len() < i ==> player@.evidence == start,
        decreases ls@.len() - i,
    {
        assert(lv.subrange(2, i + 1).drop_last() =~= lv.subrange(2, i as int));
        assert(lv.subrange(2, i + 1).last() == ls@[i as int]@);
        let t = crate::text::trim_exec(&ls[i]);
        match parse_evidence_chars(&t) {
            Some(e) => {
                let ghost before = player@.evidence;
                player.evidence.push(e);
                assert(player@.evidence =~= before.push(e@));
            },
            None => {},
        }
        i = i + 1;
    }
    if ls.len() > 2 {
        assert(lv.subrange(2, lv.len() as int) == lv.subrange(2, i as int));
    } else {
        if ls.len() == 2 {
            assert(lv.subrange(2, 2) =~= Seq::<Seq<char>>::empty());
        }
        assert(player@.evidence =~= start + Seq::<EvidenceView>::empty());
    }
}

/// Reading back the details block of a card without a conflict warning gives
/// the reason as shown, and the nick flag or the UUID without its dashes, and
/// leaves the rest of the player as it was; this holds for every reason
/// without a newline that does not end in a carriage return, and every UUID
/// text without a newline or `Nicked`.
pub proof fn lemma_details_roundtrip(p: PlayerView, reason_text: Seq<char>, is_nicked: bool, uuid_text: Seq<char>)
    requires
        forall|i: int| 0 <= i < reason_text.len() ==> #[trigger] reason_text[i] != '\n',
        reason_text.len() == 0 || reason_text.last() != '\r',
        forall|i: int| 0 <= i < uuid_text.len() ==> #[trigger] uuid_text[i] != '\n',
        !contains(uuid_text, "Nicked"@),
    ensures
        details_spec(p, details_text(reason_text, is_nicked, uuid_text, None)) == if is_nicked {
            PlayerView { reason: reason_text, is_nicked: true, ..p }
        } else {
            PlayerView { reason: reason_text, uuid: without(first_word(uuid_text), '-'), ..p }
        },
{
    reveal_strlit("> ");
    reveal_strlit("\n> -# ");
    reveal_strlit("> -# ");
    reveal_strlit("Nicked \u{2014} UUID could not be resolved");
    reveal_strlit("UUID: ");
    reveal_strlit("Nicked");
    let line_one = "> "@ + reason_text;
    let uuid_line: Seq<char> = if is_nicked {
        "Nicked \u{2014} UUID could not be resolved"@
    } else {
        "UUID: "@ + uuid_text
    };
    let line_two = "> -# "@ + uuid_line;
    let content = details_text(reason_text, is_nicked, uuid_text, None);
    assert(content =~= line_one + seq!['\n'] + line_two);
    assert forall|i: int| 0 <= i < line_one.len() implies line_one[i] != '\n' by {
        if i >= 2 {
            assert(line_one[i] == reason_text[i - 2]);
        }
    }
    assert forall|i: int| 0 <= i < line_two.len() implies line_two[i] != '\n' by {
        if i >= 5 {
            assert(line_two[i] == uuid_line[i - 5]);
            if !is_nicked && i >= 11 {
                assert(uuid_line[i - 5] == uuid_text[i - 11]);
            }
        }
    }
    crate::text::lemma_two_lines(line_one, line_two);
    assert(crate::text::strip_cr(line_one) == line_one);
    let ls = lines(content);
    assert(ls[0].subrange(0, 2) =~= "> "@);
    assert(ls[0].subrange(2, ls[0].len() as int) =~= reason_text);
    assert(ls[1].subrange(0, 5) =~= "> -# "@);
    assert(meta_text(ls[1]) =~= uuid_line);
    let nk: Seq<char> = "Nicked"@;
    if is_nicked {
        assert(occurs_at(uuid_line, nk, 0)) by {
            assert(uuid_line.subrange(0, 6) =~= nk);
        }
        crate::text::lemma_find_from(uuid_line, nk, 0);
    } else {
        crate::text::lemma_find_from(uuid_text, nk, 0);
        assert forall|j: int| 0 <= j implies !occurs_at(uuid_line, nk, j) by {
            if occurs_at(uuid_line, nk, j) {
                let w = uuid_line.subrange(j, j + 6);
                assert(w == nk);
                if j < 6 {
                    assert(w[0] == uuid_line[j]);
                } else {
                    assert(uuid_text.subrange(j - 6, j) =~= w);
                    assert(occurs_at(uuid_text, nk, j - 6));
                }
            }
        }
        crate::text::lemma_not_contains(uuid_line, nk);
        assert(uuid_line.subrange(0, 6) =~= "UUID: "@);
        assert(uuid_line.subrange(6, uuid_line.len() as int) =~= uuid_text);
    }
    assert(p.evidence + Seq::<EvidenceView>::empty() =~= p.evidence);
}

/// A text of hexadecimal digits and dashes.
pub open spec fn hex_or_dash(s: Seq<char>) -> bool {
    forall|i: int| 0 <= i < s.len() ==> is_hex(#[trigger] s[i]) || s[i] == '-'
}

/// The meta line of a details block.
pub open spec fn details_meta(is_nicked: bool, uuid_text: Seq<char>) -> Seq<char> {
    "> -# "@ + if is_nicked {
        "Nicked \u{2014} UUID could not be resolved"@
    } else {
        "UUID: "@ + uuid_text
    }
}

/// A details block without conflict warning, for a reason without newline
/// that does not end in a carriage return and whose first line holds no
/// `` — ` ``, and a UUID text of hexadecimal digits and dashes, read back as
/// a message text: it does not start a player entry, it starts with `>`, and
/// it gives the reason as shown, and the nick flag or the UUID without its
/// dashes (an empty UUID text leaves the UUID as it was).
pub proof fn lemma_details_text_reads_back(p: PlayerView, reason_text: Seq<char>, is_nicked: bool, uuid_text: Seq<char>)
    requires
        forall|i: int| 0 <= i < reason_text.len() ==> #[trigger] reason_text[i] != '\n',
        reason_text.len() == 0 || reason_text.last() != '\r',
        !contains("> "@ + reason_text, " \u{2014} `"@),
        hex_or_dash(uuid_text),
    ensures
        !is_player_entry_spec(trim(details_text(reason_text, is_nicked, uuid_text, None))),
        has_prefix(trim(details_text(reason_text, is_nicked, uuid_text, None)), ">"@),
        details_spec(p, trim(details_text(reason_text, is_nicked, uuid_text, None))) == if is_nicked {
            PlayerView { reason: reason_text, is_nicked: true, ..p }
        } else {
            PlayerView {
                reason: reason_text,
                uuid: if uuid_text.len() == 0 { p.uuid } else { without(uuid_text, '-') },
                ..p
            }
        },
{
    reveal_strlit("> ");
    reveal_strlit("\n> -# ");
    reveal_strlit("> -# ");
    reveal_strlit("Nicked \u{2014} UUID could not be resolved");
    reveal_strlit("UUID: ");
    reveal_strlit("UUID:");
    reveal_strlit("Nicked");
    reveal_strlit(">");
    let nl = seq!['\n'];
    let line_one = "> "@ + reason_text;
    let line_two = details_meta(is_nicked, uuid_text);
    let t = details_text(reason_text, is_nicked, uuid_text, None);
    assert(t =~= line_one + nl + line_two);
    assert forall|i: int| 0 <= i < line_one.len() implies #[trigger] line_one[i] != '\n' by {
        if i >= 2 {
            assert(line_one[i] == reason_text[i - 2]);
        }
    }
    assert(forall|i: int| 0 <= i < uuid_text.len() ==> is_hex(#[trigger] uuid_text[i]) || uuid_text[i] == '-');
    assert(crate::text::strip_cr(line_one) == line_one);
    if !is_nicked && uuid_text.len() == 0 {
        reveal_strlit("> -# UUID:");
        let short: Seq<char> = "> -# UUID:"@;
        assert(line_two =~= short.push(' '));
        assert forall|i: int| 0 <= i < short.len() implies #[trigger] short[i] != '\n' by {}
        let t2 = line_one + nl + short;
        assert(t.drop_last() =~= t2);
        assert(crate::text::trim_start(t) == t);
        assert(crate::text::trim_end(t2) == t2);
        assert(crate::text::trim_end(t) == crate::text::trim_end(t.drop_last()));
        assert(trim(t) == t2);
        crate::text::lemma_two_lines(line_one, short);
        let ls = lines(t2);
        assert(ls[0].subrange(0, 2) =~= "> "@);
        assert(ls[0].subrange(2, ls[0].len() as int) =~= reason_text);
        assert(ls[1].subrange(0, 5) =~= "> -# "@);
        let meta = meta_text(ls[1]);
        assert(meta =~= "UUID:"@);
        assert(find(meta, "Nicked"@) is None);
        assert(!has_prefix(meta, "UUID: "@));
        assert(p.evidence + Seq::<EvidenceView>::empty() =~= p.evidence);
        assert(crate::text::first_line(t2) == line_one);
        assert(t2.subrange(0, 1) =~= ">"@);
    } else {
        let nk: Seq<char> = "Nicked"@;
        crate::text::lemma_find_from(uuid_text, nk, 0);
        if contains(uuid_text, nk) {
            let k = find(uuid_text, nk)->0;
            assert(uuid_text.subrange(k, k + 6)[0] == uuid_text[k]);
            assert(false);
        }
        assert forall|i: int| 0 <= i < uuid_text.len() implies #[trigger] uuid_text[i] != '\n' by {
            assert(is_hex(uuid_text[i]) || uuid_text[i] == '-');
        }
        lemma_details_roundtrip(p, reason_text, is_nicked, uuid_text);
        assert forall|i: int| 0 <= i < line_two.len() implies #[trigger] line_two[i] != '\n' by {
            if i >= 5 && !is_nicked && i >= 11 {
                assert(line_two[i] == uuid_text[i - 11]);
            }
        }
        crate::text::lemma_two_lines(line_one, line_two);
        assert(crate::text::first_line(t) == line_one);
        if is_nicked {
            assert(t.last() == 'd');
        } else {
            assert(t.last() == uuid_text.last());
            assert(is_hex(uuid_text[uuid_text.len() - 1]) || uuid_text[uuid_text.len() - 1] == '-');
            crate::replay::lemma_words_lead(uuid_text, Seq::<char>::empty());
            assert(uuid_text + Seq::<char>::empty() =~= uuid_text);
            assert(crate::text::words(Seq::<char>::empty()).len() == 0);
            assert(crate::text::words(uuid_text) =~= seq![uuid_text]);
            assert(first_word(uuid_text) == uuid_text);
        }
        crate::replay::lemma_trim_identity(t);
        assert(t.subrange(0, 1) =~= ">"@);
    }
}

/// The details block of a player card: the reason as shown, then a meta line
/// naming the UUID (dashed) or saying the player is nicked, then the conflict
/// warning if there is one.
pub open spec fn details_text(reason_text: Seq<char>, is_nicked: bool, uuid_text: Seq<char>, warning: Option<Seq<char>>) -> Seq<char> {
    let uuid_line = if is_nicked {
        "Nicked \u{2014} UUID could not be resolved"@
    } else {
        "UUID: "@ + uuid_text
    };
    let block = "> "@ + reason_text + "\n> -# "@ + uuid_line;
    match warning {
        Some(w) => block.push('\n') + w,
        None => block,
    }
}

/// The details block of a player card; the caller gives the reason as it is
/// shown and the UUID with its dashes.
pub fn render_player_details(player: &PlayerEntry, reason_text: &str, uuid_text: &str) -> (r: String)
    ensures
        r@ == details_text(reason_text@, player.is_nicked, uuid_text@, crate::review::opt_view(player.conflict_warning)),
{
    let mut out: Vec<char> = Vec::new();
    push_str(&mut out, "> ");
    push_str(&mut out, reason_text);
    push_str(&mut out, "\n> -# ");
    if player.is_nicked {
        push_str(&mut out, "Nicked \u{2014} UUID could not be resolved");
    } else {
        push_str(&mut out, "UUID: ");
        push_str(&mut out, uuid_text);
    }
    match &player.conflict_warning {
        Some(w) => {
            out.push('\n');
            push_str(&mut out, w.as_str());
        },
        None => {},
    }
    string_from_chars(&out)
}

/// A status line read back: the status, the voter and the review note.
pub open spec fn parse_status_spec(text: Seq<char>) -> Option<(PlayerStatus, Option<Seq<char>>, Option<Seq<char>>)> {
    if !has_prefix(text, "-# "@) {
        None
    } else {
        let line = text.subrange(3, text.len() as int);
        if contains(line, "Pending"@) {
            Some((PlayerStatus::Pending, None, None))
        } else if has_prefix(line, "Approved by "@) {
            Some((PlayerStatus::Approved, Some(line.subrange(12, line.len() as int)), None))
        } else if has_prefix(line, "Rejected by "@) {
            let rest = line.subrange(12, line.len() as int);
            match find(rest, ": \""@) {
                Some(pos) => {
                    let after = rest.subrange(pos + 3, rest.len() as int);
                    let note = if has_suffix(after, "\""@) {
                        after.subrange(0, after.len() - 1)
                    } else {
                        after
                    };
                    Some((PlayerStatus::Rejected, Some(rest.subrange(0, pos)), Some(note)))
                },
                None => Some((PlayerStatus::Rejected, Some(rest), None)),
            }
        } else {
            None
        }
    }
}

/// Reads a status line back: `-# ` then `Pending`, `Approved by <voter>`
/// or `Rejected by <voter>` with an optional `: "<note>"`.
pub fn parse_status_line(text: &str) -> (r: Option<(PlayerStatus, Option<String>, Option<String>)>)
    ensures
        r matches Some(t) ==> parse_status_spec(text@) == Some((t.0, crate::review::opt_view(t.1), crate::review::opt_view(t.2))),
        r is None ==> parse_status_spec(text@) is None,
{
    proof {
        reveal_strlit("-# ");
        reveal_strlit("Approved by ");
        reveal_strlit("Rejected by ");
        reveal_strlit(": \"");
        reveal_strlit("\"");
    }
    let cs = chars_of(text);
    let pre = chars_of("-# ");
    let line = match strip_prefix(&cs, &pre) {
        Some(l) => l,
        None => return None,
    };
    let pending = chars_of("Pending");
    if find_exec(&line, &pending).is_some() {
        return Some((PlayerStatus::Pending, None, None));
    }
    let approved = chars_of("Approved by ");
    if let Some(rest) = strip_prefix(&line, &approved) {
        return Some((PlayerStatus::Approved, Some(string_from_chars(&rest)), None));
    }
    let rejected = chars_of("Rejected by ");
    if let Some(rest) = strip_prefix(&line, &rejected) {
        let sep = chars_of(": \"");
        let rest_len = rest.len();
        match find_exec(&rest, &sep) {
            Some(pos) => {
                proof {
                    crate::text::lemma_find_from(rest@, sep@, 0);
                    assert(sep@.len() == 3);
                    assert(crate::text::occurs_at(rest@, sep@, pos as int));
                }
                let after = slice_vec(&rest, pos + 3, rest_len);
                let quote = chars_of("\"");
                let note = match strip_suffix(&after, &quote) {
                    Some(n) => n,
                    None => after,
                };
                let reviewer = slice_vec(&rest, 0, pos);
                return Some(
                    (
                        PlayerStatus::Rejected,
                        Some(string_from_chars(&reviewer)),
                        Some(string_from_chars(&note)),
                    ),
                );
            },
            None => {
                return Some((PlayerStatus::Rejected, Some(string_from_chars(&rest)), None));
            },
        }
    }
    None
}

/// The voter ids of the tokens with the given sign, in order: a token is the
/// sign followed by a number.
pub open spec fn signed_ids(tokens: Seq<Seq<char>>, sign: char) -> Seq<u64>
    decreases tokens.len(),
{
    if tokens.len() == 0 {
        Seq::empty()
    } else {
        let t = tokens.last();
        let rest = signed_ids(tokens.drop_last(), sign);
        if t.len() > 0 && t[0] == sign {
            match parse_u64_spec(t.subrange(1, t.len() as int)) {
                Some(v) => rest.push(v),
                None => rest,
            }
        } else {
            rest
        }
    }
}

/// A votes line read back: the accept and reject voter ids; `None` when neither has any.
pub open spec fn parse_votes_spec(text: Seq<char>) -> Option<(Seq<u64>, Seq<u64>)> {
    if !has_prefix(text, "-# Votes: "@) {
        None
    } else {
        let toks = words(text.subrange(10, text.len() as int));
        let a = signed_ids(toks, '+');
        let r = signed_ids(toks, '-');
        if a.len() == 0 && r.len() == 0 {
            None
        } else {
            Some((a, r))
        }
    }
}

/// Reads a votes line back: `-# Votes: ` then tokens `+<id>` (accept) and
/// `-<id>` (reject); other tokens are ignored. `None` when no vote is read.
pub fn parse_votes_line(text: &str) -> (r: Option<(Vec<u64>, Vec<u64>)>)
    ensures
        r matches Some(v) ==> parse_votes_spec(text@) == Some((v.0@, v.1@)),
        r is None ==> parse_votes_spec(text@) is None,
{
    proof {
        reveal_strlit("-# Votes: ");
    }
    let cs = chars_of(text);
    let pre = chars_of("-# Votes: ");
    let line = match strip_prefix(&cs, &pre) {
        Some(l) => l,
        None => return None,
    };
    let toks = words_exec(&line);
    let ghost tv = views(toks@);
    let mut accepts: Vec<u64> = Vec::new();
    let mut rejects: Vec<u64> = Vec::new();
    let mut i: usize = 0;
    assert(tv.subrange(0, 0) =~= Seq::<Seq<char>>::empty());
    while i < toks.len()
        invariant
            i <= toks@.len(),
            tv == views(toks@),
            accepts@ == signed_ids(tv.subrange(0, i as int), '+'),
            rejects@ == signed_ids(tv.subrange(0, i as int), '-'),
        decreases toks@.len() - i,
    {
        let t = &toks[i];
        assert(tv.subrange(0, i + 1).drop_last() =~= tv.subrange(0, i as int));
        assert(tv.subrange(0, i + 1).last() == t@);
        if t.len() > 0 && t[0] == '+' {
            let digits = slice_vec(t, 1, t.len());
            match parse_u64_exec(&digits) {
                Some(v) => accepts.push(v),
                None => {},
            }
        } else if t.len() > 0 && t[0] == '-' {
            let digits = slice_vec(t, 1, t.len());
            match parse_u64_exec(&digits) {
                Some(v) => rejects.push(v),
                None => {},
            }
        }
        i = i + 1;
    }
    assert(tv.subrange(0, toks@.len() as int) =~= tv);
    if accepts.len() == 0 && rejects.len() == 0 {
        return None;
    }
    Some((accepts, rejects))
}

/// The status line of a decided player.
pub open spec fn status_line_spec(status: PlayerStatus, note: Option<Seq<char>>) -> Seq<char> {
    match status {
        PlayerStatus::Pending => "-# Pending review"@,
        PlayerStatus::Approved => "-# Approved"@,
        PlayerStatus::Rejected => match note {
            Some(n) => "-# Rejected: \""@ + n + "\""@,
            None => "-# Rejected"@,
        },
    }
}

/// The status line shown for a player: pending, approved, or rejected with the note.
pub fn render_status_line(player: &PlayerEntry) -> (r: String)
    ensures
        r@ == status_line_spec(player.status, crate::review::opt_view(player.review_note)),
{
    let mut out: Vec<char> = Vec::new();
    match player.status {
        PlayerStatus::Pending => push_str(&mut out, "-# Pending review"),
        PlayerStatus::Approved => push_str(&mut out, "-# Approved"),
        PlayerStatus::Rejected => match &player.review_note {
            Some(n) => {
                push_str(&mut out, "-# Rejected: \"");
                push_str(&mut out, n.as_str());
                push_str(&mut out, "\"");
            },
            None => push_str(&mut out, "-# Rejected"),
        },
    }
    string_from_chars(&out)
}

/// A pending player's status line reads back as pending, with no voter and
/// no note. (Decided players' lines, `-# Approved` and `-# Rejected...`, lack
/// the `Approved by ` / `Rejected by ` the reader looks for and read back as
/// nothing.)
pub proof fn lemma_pending_status_roundtrip(note: Option<Seq<char>>)
    ensures
        parse_status_spec(status_line_spec(PlayerStatus::Pending, note)) == Some((PlayerStatus::Pending, None::<Seq<char>>, None::<Seq<char>>)),
{
    reveal_strlit("-# Pending review");
    reveal_strlit("-# ");
    reveal_strlit("Pending");
    let text = status_line_spec(PlayerStatus::Pending, note);
    assert(text.subrange(0, 3) =~= "-# "@);
    let line = text.subrange(3, text.len() as int);
    assert(line.subrange(0, 7) =~= "Pending"@);
    lemma_find_from_first(line, "Pending"@, 0, 0);
}

/// An approved player's status line does not read back.
pub proof fn lemma_approved_status_unread()
    ensures
        parse_status_spec(status_line_spec(PlayerStatus::Approved, None)) is None,
{
    reveal_strlit("-# Approved");
    reveal_strlit("-# ");
    reveal_strlit("Pending");
    reveal_strlit("Approved by ");
    reveal_strlit("Rejected by ");
    let text = status_line_spec(PlayerStatus::Approved, None);
    assert(text.subrange(0, 3) =~= "-# "@);
    let line = text.subrange(3, text.len() as int);
    assert(line.len() == 8);
    lemma_find_from(line, "Pending"@, 0);
    assert(line[0] == 'A' && line[1] == 'p');
    assert("Pending"@[0] == 'P');
    assert(line.subrange(0, 7)[0] == line[0]);
    assert(line.subrange(1, 8)[0] == line[1]);
    assert(!occurs_at(line, "Pending"@, 0));
    assert(!occurs_at(line, "Pending"@, 1));
    assert(!has_prefix(line, "Approved by "@));
    assert(!has_prefix(line, "Rejected by "@));
}

/// The vote tally shown while a player is pending.
pub open spec fn vote_status_spec(accepts: nat, rejects: nat) -> Seq<char> {
    if accepts > 0 && rejects > 0 {
        "-# "@ + decimal(accepts) + " accept, "@ + decimal(rejects) + " reject \u{2014} staff required"@
    } else if accepts > 0 {
        "-# "@ + decimal(accepts) + "/3 accepting"@
    } else {
        "-# "@ + decimal(rejects) + "/3 rejecting"@
    }
}

/// The vote tally of a pending player: both counts and a call for staff when
/// the votes disagree, otherwise progress towards three.
pub fn render_vote_status(player: &PlayerEntry) -> (r: String)
    ensures
        r@ == vote_status_spec(player.accept_votes@.len(), player.reject_votes@.len()),
{
    let a = player.accept_votes.len();
    let rj = player.reject_votes.len();
    let mut out: Vec<char> = Vec::new();
    push_str(&mut out, "-# ");
    if a > 0 && rj > 0 {
        let da = decimal_exec(a as u64);
        push_chars(&mut out, &da);
        push_str(&mut out, " accept, ");
        let dr = decimal_exec(rj as u64);
        push_chars(&mut out, &dr);
        push_str(&mut out, " reject \u{2014} staff required");
    } else if a > 0 {
        let da = decimal_exec(a as u64);
        push_chars(&mut out, &da);
        push_str(&mut out, "/3 accepting");
    } else {
        let dr = decimal_exec(rj as u64);
        push_chars(&mut out, &dr);
        push_str(&mut out, "/3 rejecting");
    }
    string_from_chars(&out)
}

/// Whether a player has any vote.
pub fn has_votes(player: &PlayerEntry) -> (r: bool)
    ensures
        r == (player.accept_votes@.len() > 0 || player.reject_votes@.len() > 0),
{
    player.accept_votes.len() > 0 || player.reject_votes.len() > 0
}

// ---------------------------------------------------------------------------
// Component ids
// ---------------------------------------------------------------------------

/// The player index and submitter id of a component id `<action>:<index>:<submitter>`;
/// a part that is missing or not a number reads as 0.
pub open spec fn component_ids_spec(custom_id: Seq<char>) -> (usize, u64) {
    let parts = split(custom_id, ":"@);
    let idx = if parts.len() > 1 {
        match parse_usize_spec(parts[1]) {
            Some(v) => v,
            None => 0,
        }
    } else {
        0
    };
    let sub = if parts.len() > 2 {
        match parse_u64_spec(parts[2]) {
            Some(v) => v,
            None => 0,
        }
    } else {
        0
    };
    (idx, sub)
}

/// The player index and submitter id carried by a review component id.
pub fn parse_component_ids(custom_id: &str) -> (r: (usize, u64))
    ensures
        r == component_ids_spec(custom_id@),
{
    proof {
        reveal_strlit(":");
    }
    let cs = chars_of(custom_id);
    let colon = chars_of(":");
    let parts = split_exec(&cs, &colon);
    let ghost pv = views(parts@);
    let idx: usize = if parts.len() > 1 {
        assert(pv[1] == parts@[1]@);
        match parse_usize_exec(&parts[1]) {
            Some(v) => v,
            None => 0,
        }
    } else {
        0
    };
    let sub: u64 = if parts.len() > 2 {
        assert(pv[2] == parts@[2]@);
        match parse_u64_exec(&parts[2]) {
            Some(v) => v,
            None => 0,
        }
    } else {
        0
    };
    (idx, sub)
}

/// The submitter id at the end of a component id: the number after the last `:`.
pub open spec fn submitter_id_spec(custom_id: Seq<char>) -> Option<u64> {
    parse_u64_spec(last_piece(custom_id, ":"@))
}

/// The submitter id at the end of a component id.
pub fn parse_submitter_id(custom_id: &str) -> (r: Option<u64>)
    ensures
        r == submitter_id_spec(custom_id@),
{
    proof {
        reveal_strlit(":");
    }
    let cs = chars_of(custom_id);
    let colon = chars_of(":");
    let last = crate::text::last_piece_exec(&cs, &colon);
    parse_u64_exec(&last)
}

/// Whether `user_id` is the submitter named by a component id (an unreadable id reads as 0).
pub fn is_submitter(custom_id: &str, user_id: u64) -> (r: bool)
    ensures
        r == (match submitter_id_spec(custom_id@) {
            Some(v) => v,
            None => 0,
        } == user_id),
{
    let id = match parse_submitter_id(custom_id) {
        Some(v) => v,
        None => 0,
    };
    id == user_id
}

/// The component id `<action>:<index>:<submitter>` of a review control.
pub open spec fn component_id_spec(action: Seq<char>, idx: nat, submitter: nat) -> Seq<char> {
    action + ":"@ + decimal(idx) + ":"@ + decimal(submitter)
}

/// A run of characters in which `:` does not occur.
proof fn lemma_no_colon_occurs(s: Seq<char>, t: Seq<char>, n: int)
    requires
        0 <= n <= s.len(),
        forall|i: int| 0 <= i < n ==> #[trigger] s[i] != ':',
        t == seq![':'],
    ensures
        forall|j: int| 0 <= j < n ==> !occurs_at(s, t, j),
{
    assert forall|j: int| 0 <= j < n implies !occurs_at(s, t, j) by {
        if occurs_at(s, t, j) {
            assert(s.subrange(j, j + 1)[0] == s[j]);
        }
    }
}

/// A component id `<action>:<index>:<submitter>` whose three parts hold no
/// `:` reads back, in `parse_component_ids`, as the index text and the
/// submitter text parsed (a part that does not parse reading as 0), and the
/// submitter read alone by `parse_submitter_id` is the submitter text parsed;
/// so, whenever the submitter text is a number in range (with or without
/// leading zeros or `+`), both readers give the same submitter.
pub proof fn lemma_component_ids_agree(action: Seq<char>, idx_text: Seq<char>, sub_text: Seq<char>)
    requires
        forall|i: int| 0 <= i < action.len() ==> #[trigger] action[i] != ':',
        forall|i: int| 0 <= i < idx_text.len() ==> #[trigger] idx_text[i] != ':',
        forall|i: int| 0 <= i < sub_text.len() ==> #[trigger] sub_text[i] != ':',
    ensures
        component_ids_spec(action + ":"@ + idx_text + ":"@ + sub_text) == (
            match parse_usize_spec(idx_text) {
                Some(v) => v,
                None => 0,
            },
            match parse_u64_spec(sub_text) {
                Some(v) => v,
                None => 0,
            },
        ),
        submitter_id_spec(action + ":"@ + idx_text + ":"@ + sub_text) == parse_u64_spec(sub_text),
        parse_u64_spec(sub_text) is Some ==> submitter_id_spec(action + ":"@ + idx_text + ":"@ + sub_text)
            == Some(component_ids_spec(action + ":"@ + idx_text + ":"@ + sub_text).1),
{
    reveal_strlit(":");
    let p = seq![':'];
    assert(":"@ =~= p);
    let id = action + ":"@ + idx_text + ":"@ + sub_text;
    let rest = idx_text + p + sub_text;
    assert(id =~= action + p + rest);
    lemma_no_colon_occurs(action + p + rest, p, action.len() as int);
    crate::text::lemma_split_at_first(action, p, rest);
    lemma_no_colon_occurs(idx_text + p + sub_text, p, idx_text.len() as int);
    crate::text::lemma_split_at_first(idx_text, p, sub_text);
    assert forall|j: int| 0 <= j implies !occurs_at(sub_text, p, j) by {
        lemma_no_colon_occurs(sub_text, p, sub_text.len() as int);
    }
    crate::text::lemma_not_contains(sub_text, p);
    crate::text::lemma_split_none(sub_text, p);
    let parts = split(id, p);
    assert(parts =~= seq![action, idx_text, sub_text]);
    assert(parts[1] == idx_text);
    assert(parts[2] == sub_text);
    assert(last_piece(id, p) == sub_text);
}

/// A review control's component id written with canonical numbers reads back
/// as the index and submitter it was written with, when its action holds no
/// `:`, and the submitter read alone is the same number.
pub proof fn lemma_component_ids_read_back(action: Seq<char>, idx: usize, submitter: u64)
    requires
        forall|i: int| 0 <= i < action.len() ==> #[trigger] action[i] != ':',
    ensures
        component_ids_spec(component_id_spec(action, idx as nat, submitter as nat)) == (idx, submitter),
        submitter_id_spec(component_id_spec(action, idx as nat, submitter as nat)) == Some(submitter),
{
    let di = decimal(idx as nat);
    let ds = decimal(submitter as nat);
    crate::review_messages::lemma_decimal_parses(idx as nat);
    crate::review_messages::lemma_decimal_parses(submitter as nat);
    assert forall|i: int| 0 <= i < di.len() implies #[trigger] di[i] != ':' by {
        assert(crate::text::is_digit(di[i]));
    }
    assert forall|i: int| 0 <= i < ds.len() implies #[trigger] ds[i] != ':' by {
        assert(crate::text::is_digit(ds[i]));
    }
    lemma_component_ids_agree(action, di, ds);
}

} // verus!
