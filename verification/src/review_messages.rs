//! The smaller texts of a review thread: the header that names the submitter,
//! the evidence summary under a player card, the message announcing a vote,
//! the confirmation a member sees before a review thread is opened, and the
//! file names and attachment ids read from media URLs.
use vstd::prelude::*;
use crate::review::{Evidence, EvidenceView, PlayerEntry};
use crate::review_format::{evidence_line, evidence_of_lines, lemma_evidence_line_shape, replay_line_spec, replay_reads_back};
use crate::tags::{definition, kind_display, kind_name, kind_named, lookup, TagKind, EMOTE_ADDTAG, EMOTE_TAG};
use crate::text::{
    all_digits, chars_eq, chars_of, contains, first_line, lines, trim, decimal, decimal_exec, digits_value, find, find_exec,
    has_prefix, joined, last_piece, occurs_at, parse_u64_exec, parse_u64_spec, push_chars,
    push_joined, push_str, slice_vec, split, split_exec, split_nth, split_nth_exec, splitn,
    splitn_exec, str_eq_chars, string_from_chars, strip_prefix, views,
};

verus! {

// ---------------------------------------------------------------------------
// Header
// ---------------------------------------------------------------------------

/// The header of a review thread's message.
pub open spec fn header_text(submitter_id: u64) -> Seq<char> {
    "## "@ + EMOTE_TAG@ + " Tag Review\n-# Submitted by <@"@ + decimal(submitter_id as nat) + ">"@
}

/// The header of a review thread's message: the title and a mention of the submitter.
pub fn build_header(submitter_id: u64) -> (r: String)
    ensures
        r@ == header_text(submitter_id),
{
    let mut out: Vec<char> = Vec::new();
    push_str(&mut out, "## ");
    push_str(&mut out, EMOTE_TAG);
    push_str(&mut out, " Tag Review\n-# Submitted by <@");
    let d = decimal_exec(submitter_id);
    push_chars(&mut out, &d);
    push_str(&mut out, ">");
    string_from_chars(&out)
}

/// The user mentioned first in a text: the number between the first `<@` and
/// the next `>` after it, if that is a number.
pub open spec fn mention_spec(t: Seq<char>) -> Option<u64> {
    match find(t, "<@"@) {
        None => None,
        Some(i) => {
            let rest = t.subrange(i + 2, t.len() as int);
            match find(rest, ">"@) {
                None => None,
                Some(j) => parse_u64_spec(rest.subrange(0, j)),
            }
        },
    }
}

/// The submitter named by a thread's texts: the first text with a readable mention.
pub open spec fn submitter_spec(texts: Seq<Seq<char>>) -> Option<u64>
    decreases texts.len(),
{
    if texts.len() == 0 {
        None
    } else {
        match mention_spec(texts[0]) {
            Some(v) => Some(v),
            None => submitter_spec(texts.drop_first()),
        }
    }
}

/// The user mentioned first in a text.
pub fn parse_mention(t: &str) -> (r: Option<u64>)
    ensures
        r == mention_spec(t@),
{
    proof {
        reveal_strlit("<@");
        reveal_strlit(">");
    }
    let cs = chars_of(t);
    let open = chars_of("<@");
    let i = match find_exec(&cs, &open) {
        Some(i) => i,
        None => return None,
    };
    proof {
        crate::text::lemma_find_from(cs@, open@, 0);
        assert(open@.len() == 2);
        assert(occurs_at(cs@, open@, i as int));
    }
    let n = cs.len();
    let rest = slice_vec(&cs, i + 2, n);
    let close = chars_of(">");
    let j = match find_exec(&rest, &close) {
        Some(j) => j,
        None => return None,
    };
    proof {
        crate::text::lemma_find_from(rest@, close@, 0);
    }
    let digits = slice_vec(&rest, 0, j);
    parse_u64_exec(&digits)
}

/// The submitter named by a thread's texts.
pub fn find_submitter(texts: &[String]) -> (r: Option<u64>)
    ensures
        r == submitter_spec(texts@.map_values(|t: String| t@)),
{
    let ghost tv = texts@.map_values(|t: String| t@);
    let mut i: usize = 0;
    assert(tv.subrange(0, tv.len() as int) =~= tv);
    while i < texts.len()
        invariant
            i <= texts@.len(),
            tv == texts@.map_values(|t: String| t@),
            submitter_spec(tv) == submitter_spec(tv.subrange(i as int, tv.len() as int)),
        decreases texts@.len() - i,
    {
        let ghost rest = tv.subrange(i as int, tv.len() as int);
        assert(rest[0] == texts@[i as int]@);
        assert(rest.drop_first() =~= tv.subrange(i + 1, tv.len() as int));
        match parse_mention(texts[i].as_str()) {
            Some(v) => return Some(v),
            None => {},
        }
        i = i + 1;
    }
    None
}

/// The decimal text of a number reads back as that number.
pub proof fn lemma_decimal_parses(n: nat)
    requires
        n <= u64::MAX,
    ensures
        decimal(n).len() > 0,
        all_digits(decimal(n)),
        digits_value(decimal(n)) == n,
        decimal(n)[0] != '+',
        parse_u64_spec(decimal(n)) == Some(n as u64),
    decreases n,
{
    let d = decimal(n);
    let c = crate::text::digit_char(n % 10);
    crate::text::lemma_digit_char(n % 10);
    if n < 10 {
        assert(d =~= seq![c]);
        assert(d.drop_last() =~= Seq::<char>::empty());
        assert(digits_value(d) == digits_value(Seq::<char>::empty()) * 10 + ((c as int - '0' as int) as nat));
    } else {
        lemma_decimal_parses(n / 10);
        let s = decimal(n / 10);
        assert(d =~= s.push(c));
        assert(d.drop_last() =~= s);
        assert(d.last() == c);
        assert(digits_value(d) == digits_value(s) * 10 + ((c as int - '0' as int) as nat));
        assert(d[0] == s[0]);
        assert forall|i: int| 0 <= i < d.len() implies crate::text::is_digit(#[trigger] d[i]) by {
            if i < s.len() {
                assert(d[i] == s[i]);
            }
        }
    }
}

/// The header of a thread names its submitter: reading the submitter back from
/// the header gives the id it was written with.
pub proof fn lemma_header_names_submitter(submitter_id: u64)
    ensures
        mention_spec(header_text(submitter_id)) == Some(submitter_id),
{
    reveal_strlit("## ");
    reveal_strlit("<:tag:1459106270207545417>");
    reveal_strlit(" Tag Review\n-# Submitted by <@");
    reveal_strlit("<@");
    reveal_strlit(">");
    lemma_decimal_parses(submitter_id as nat);
    let d = decimal(submitter_id as nat);
    let pre = "## "@ + EMOTE_TAG@ + " Tag Review\n-# Submitted by "@;
    let open: Seq<char> = "<@"@;
    let close: Seq<char> = ">"@;
    let t = header_text(submitter_id);
    reveal_strlit(" Tag Review\n-# Submitted by ");
    assert(t =~= pre + open + (d + close));
    assert forall|j: int| 0 <= j < pre.len() implies !occurs_at(t, open, j) by {
        if occurs_at(t, open, j) {
            assert(t.subrange(j, j + 2)[1] == t[j + 1]);
            assert(t[j + 1] == pre[j + 1]);
        }
    }
    assert(occurs_at(t, open, pre.len() as int)) by {
        assert(t.subrange(pre.len() as int, pre.len() + 2int) =~= open);
    }
    crate::text::lemma_find_from_first(t, open, 0, pre.len() as int);
    let rest = t.subrange(pre.len() + 2int, t.len() as int);
    assert(rest =~= d + close);
    assert forall|j: int| 0 <= j < d.len() implies !occurs_at(rest, close, j) by {
        if occurs_at(rest, close, j) {
            assert(rest.subrange(j, j + 1)[0] == rest[j]);
            assert(crate::text::is_digit(d[j]));
        }
    }
    assert(occurs_at(rest, close, d.len() as int)) by {
        assert(rest.subrange(d.len() as int, d.len() + 1int) =~= close);
    }
    crate::text::lemma_find_from_first(rest, close, 0, d.len() as int);
    assert(rest.subrange(0, d.len() as int) =~= d);
}

// ---------------------------------------------------------------------------
// Evidence summary
// ---------------------------------------------------------------------------

/// The lines of a player's replays, in order.
pub open spec fn replay_lines(evs: Seq<EvidenceView>) -> Seq<Seq<char>>
    decreases evs.len(),
{
    if evs.len() == 0 {
        Seq::empty()
    } else {
        match evs.last() {
            EvidenceView::Replay(r, n) => replay_lines(evs.drop_last()).push(replay_line_spec(r, n)),
            EvidenceView::Attachment(_) => replay_lines(evs.drop_last()),
        }
    }
}

/// The number of a player's media attachments.
pub open spec fn media_count(evs: Seq<EvidenceView>) -> nat
    decreases evs.len(),
{
    if evs.len() == 0 {
        0
    } else {
        media_count(evs.drop_last()) + match evs.last() {
            EvidenceView::Replay(_, _) => 0nat,
            EvidenceView::Attachment(_) => 1nat,
        }
    }
}

/// The line counting media attachments.
pub open spec fn media_line(count: nat) -> Seq<char> {
    "-# "@ + decimal(count) + if count == 1 {
        " media attachment"@
    } else {
        " media attachments"@
    }
}

/// The summary under a player card: the replay lines, then a line counting the
/// media attachments when there are any; `None` when there is no evidence.
pub open spec fn evidence_summary_spec(evs: Seq<EvidenceView>) -> Option<Seq<char>> {
    let ls = replay_lines(evs);
    let m = media_count(evs);
    if ls.len() == 0 && m == 0 {
        None
    } else {
        let block = joined(ls, seq!['\n']);
        if m > 0 {
            if block.len() > 0 {
                Some(block.push('\n') + media_line(m))
            } else {
                Some(block + media_line(m))
            }
        } else {
            Some(block)
        }
    }
}

/// The evidence summary shown under a player card.
pub fn render_evidence_summary(player: &PlayerEntry) -> (r: Option<String>)
    requires
        player.evidence@.len() <= u64::MAX,
    ensures
        r matches Some(s) ==> evidence_summary_spec(player@.evidence) == Some(s@),
        r is None ==> evidence_summary_spec(player@.evidence) is None,
{
    let ghost evs = player@.evidence;
    let mut ls: Vec<Vec<char>> = Vec::new();
    let mut media: u64 = 0;
    let mut i: usize = 0;
    assert(evs.subrange(0, 0) =~= Seq::<EvidenceView>::empty());
    assert(views(ls@) =~= replay_lines(evs.subrange(0, 0)));
    while i < player.evidence.len()
        invariant
            i <= player.evidence@.len(),
            evs == player@.evidence,
            evs.len() == player.evidence@.len(),
            player.evidence@.len() <= u64::MAX,
            views(ls@) == replay_lines(evs.subrange(0, i as int)),
            media == media_count(evs.subrange(0, i as int)),
            media <= i,
        decreases player.evidence@.len() - i,
    {
        assert(evs.subrange(0, i + 1).drop_last() =~= evs.subrange(0, i as int));
        assert(evs[i as int] == player.evidence@[i as int]@);
        match &player.evidence[i] {
            Evidence::Replay { replay, note } => {
                let line = match note {
                    Some(n) => crate::review_format::render_replay_line(replay, Some(n.as_str())),
                    None => crate::review_format::render_replay_line(replay, None),
                };
                let ghost before = views(ls@);
                ls.push(chars_of(line.as_str()));
                assert(views(ls@) =~= before.push(line@));
            },
            Evidence::Attachment { .. } => {
                media = media + 1;
            },
        }
        i = i + 1;
    }
    assert(evs.subrange(0, evs.len() as int) =~= evs);
    if ls.len() == 0 && media == 0 {
        return None;
    }
    let mut out: Vec<char> = Vec::new();
    let nl: Vec<char> = vec!['\n'];
    assert(nl@ =~= seq!['\n']);
    push_joined(&mut out, &ls, &nl);
    assert(out@ =~= joined(views(ls@), seq!['\n']));
    if media > 0 {
        if out.len() > 0 {
            out.push('\n');
        }
        push_str(&mut out, "-# ");
        let d = decimal_exec(media);
        push_chars(&mut out, &d);
        if media == 1 {
            push_str(&mut out, " media attachment");
        } else {
            push_str(&mut out, " media attachments");
        }
    }
    Some(string_from_chars(&out))
}

/// Replays that read back have one evidence line each, in order, and no
/// media count; reading those lines back gives the replays.
pub proof fn lemma_replay_lines_of_replays(evs: Seq<EvidenceView>)
    requires
        forall|i: int| 0 <= i < evs.len() ==> replay_reads_back(#[trigger] evs[i]),
    ensures
        replay_lines(evs).len() == evs.len(),
        forall|i: int| 0 <= i < evs.len() ==> #[trigger] replay_lines(evs)[i] == evidence_line(evs[i]),
        media_count(evs) == 0,
        evidence_of_lines(replay_lines(evs)) == evs,
    decreases evs.len(),
{
    if evs.len() > 0 {
        let front = evs.drop_last();
        assert forall|i: int| 0 <= i < front.len() implies replay_reads_back(#[trigger] front[i]) by {
            assert(front[i] == evs[i]);
        }
        lemma_replay_lines_of_replays(front);
        let e = evs.last();
        assert(replay_reads_back(evs[evs.len() - 1]));
        lemma_evidence_line_shape(e);
        let ls = replay_lines(evs);
        assert(ls == replay_lines(front).push(evidence_line(e)));
        assert(ls.drop_last() =~= replay_lines(front));
        assert(ls.last() == evidence_line(e));
        assert(evs =~= front.push(e));
    }
}

/// The evidence summary of replays that read back, and nothing else, is their
/// lines joined by newlines: a text that starts with `- `, is its own trim,
/// and whose lines read back as the replays.
pub proof fn lemma_replay_summary_reads_back(evs: Seq<EvidenceView>)
    requires
        evs.len() > 0,
        forall|i: int| 0 <= i < evs.len() ==> replay_reads_back(#[trigger] evs[i]),
    ensures
        evidence_summary_spec(evs) == Some(joined(replay_lines(evs), seq!['\n'])),
        joined(replay_lines(evs), seq!['\n']).len() > 2,
        joined(replay_lines(evs), seq!['\n'])[0] == '-',
        joined(replay_lines(evs), seq!['\n'])[1] == ' ',
        trim(joined(replay_lines(evs), seq!['\n'])) == joined(replay_lines(evs), seq!['\n']),
        lines(joined(replay_lines(evs), seq!['\n'])) == replay_lines(evs),
        evidence_of_lines(lines(joined(replay_lines(evs), seq!['\n']))) == evs,
        first_line(joined(replay_lines(evs), seq!['\n'])) == evidence_line(evs[0]),
{
    lemma_replay_lines_of_replays(evs);
    let ls = replay_lines(evs);
    let nl = seq!['\n'];
    assert forall|k: int| 0 <= k < ls.len() implies (#[trigger] ls[k]).len() > 0 && ls[k].last() != '\r'
        && forall|i: int| 0 <= i < ls[k].len() ==> ls[k][i] != '\n' by {
        assert(ls[k] == evidence_line(evs[k]));
        lemma_evidence_line_shape(evs[k]);
    }
    assert forall|k: int, i: int| 0 <= k < ls.len() && 0 <= i < ls[k].len() implies #[trigger] ls[k][i] != '\n' by {
        assert(forall|j: int| 0 <= j < ls[k].len() ==> ls[k][j] != '\n');
    }
    crate::text::lemma_lines_of_joined(ls);
    let t = joined(ls, nl);
    lemma_evidence_line_shape(evs[0]);
    lemma_evidence_line_shape(evs.last());
    assert(ls[ls.len() - 1] == evidence_line(evs.last()));
    if ls.len() == 1 {
        assert(t == ls[0]);
    } else {
        crate::text::lemma_joined_front(ls[0], ls.drop_first(), nl);
        assert(ls =~= seq![ls[0]] + ls.drop_first());
        assert(t == joined(ls.drop_last(), nl) + nl + ls.last());
        assert(t.last() == ls.last().last());
        assert(t[0] == ls[0][0]);
        assert(t[1] == ls[0][1]);
    }
    crate::replay::lemma_trim_identity(t);
}

// ---------------------------------------------------------------------------
// Vote announcement
// ---------------------------------------------------------------------------

/// The emote and display name a tag type is announced with; a type outside
/// the catalogue shows as itself, without emote.
pub open spec fn tag_presentation(tag_type: Seq<char>) -> (Seq<char>, Seq<char>) {
    match kind_named(tag_type) {
        Some(k) => (definition(k).emote@, kind_display(k)),
        None => (Seq::empty(), tag_type),
    }
}

/// The message announcing a vote: who voted which way on which tag, the votes
/// so far out of three, and a call for staff when the votes disagree.
pub open spec fn vote_message_spec(
    voter_id: u64,
    vote_type: Seq<char>,
    tag_type: Seq<char>,
    username: Seq<char>,
    accepts: nat,
    rejects: nat,
) -> Seq<char> {
    let (emote, display) = tag_presentation(tag_type);
    let total = if vote_type == "accept"@ {
        accepts
    } else {
        rejects
    };
    let head = "<@"@ + decimal(voter_id as nat) + "> voted to **"@ + vote_type + "** the "@ + emote
        + " **"@ + display + "** tag on `"@ + username + "`. ["@ + decimal(total) + "/3]"@;
    if accepts > 0 && rejects > 0 {
        head + "\n-# "@ + decimal(accepts) + " accept, "@ + decimal(rejects)
            + " reject \u{2014} staff required to resolve"@
    } else {
        head
    }
}

/// The text of the message announcing a vote.
pub fn vote_message_text(
    voter_id: u64,
    vote_type: &str,
    tag_type: &str,
    username: &str,
    accept_count: usize,
    reject_count: usize,
) -> (r: String)
    ensures
        r@ == vote_message_spec(voter_id, vote_type@, tag_type@, username@, accept_count as nat, reject_count as nat),
{
    let mut out: Vec<char> = Vec::new();
    push_str(&mut out, "<@");
    let v = decimal_exec(voter_id);
    push_chars(&mut out, &v);
    push_str(&mut out, "> voted to **");
    push_str(&mut out, vote_type);
    push_str(&mut out, "** the ");
    match lookup(tag_type) {
        Some(def) => {
            push_str(&mut out, def.emote);
            push_str(&mut out, " **");
            push_str(&mut out, def.display_name);
        },
        None => {
            push_str(&mut out, " **");
            push_str(&mut out, tag_type);
        },
    }
    push_str(&mut out, "** tag on `");
    push_str(&mut out, username);
    push_str(&mut out, "`. [");
    let total = if crate::text::str_eq(vote_type, "accept") {
        accept_count
    } else {
        reject_count
    };
    let t = decimal_exec(total as u64);
    push_chars(&mut out, &t);
    push_str(&mut out, "/3]");
    if accept_count > 0 && reject_count > 0 {
        push_str(&mut out, "\n-# ");
        let a = decimal_exec(accept_count as u64);
        push_chars(&mut out, &a);
        push_str(&mut out, " accept, ");
        let rj = decimal_exec(reject_count as u64);
        push_chars(&mut out, &rj);
        push_str(&mut out, " reject \u{2014} staff required to resolve");
    }
    string_from_chars(&out)
}

// ---------------------------------------------------------------------------
// Media URLs
// ---------------------------------------------------------------------------

/// The file name a media URL stands for: what follows `attachment://`, or the
/// last path segment without its query.
pub open spec fn attachment_filename_spec(url: Seq<char>) -> Seq<char> {
    if has_prefix(url, "attachment://"@) {
        url.subrange(13, url.len() as int)
    } else {
        split(last_piece(url, "/"@), "?"@)[0]
    }
}

/// The first piece of a split, which always exists.
fn first_piece(s: &[char], p: &[char]) -> (r: Vec<char>)
    requires
        p@.len() > 0,
    ensures
        r@ == split(s@, p@)[0],
{
    proof {
        crate::text::lemma_split_nonempty(s@, p@);
    }
    let parts = split_exec(s, p);
    assert(views(parts@)[0] == parts@[0]@);
    slice_vec(&parts[0], 0, parts[0].len())
}

/// The file name a media URL stands for.
pub fn attachment_filename_from_url(url: &str) -> (r: String)
    ensures
        r@ == attachment_filename_spec(url@),
{
    proof {
        reveal_strlit("attachment://");
        reveal_strlit("/");
        reveal_strlit("?");
    }
    let cs = chars_of(url);
    let scheme = chars_of("attachment://");
    match strip_prefix(&cs, &scheme) {
        Some(name) => string_from_chars(&name),
        None => {
            let slash = chars_of("/");
            let last = crate::text::last_piece_exec(&cs, &slash);
            let q = chars_of("?");
            string_from_chars(&first_piece(&last, &q))
        },
    }
}

/// The attachment id in a CDN URL: the path segment after the channel that
/// follows `/attachments/`, without its query, if it is a number.
pub open spec fn attachment_id_spec(url: Seq<char>) -> Option<u64> {
    match split_nth(url, "/attachments/"@, 1) {
        None => None,
        Some(path) => match split_nth(path, "/"@, 1) {
            None => None,
            Some(id) => parse_u64_spec(split(id, "?"@)[0]),
        },
    }
}

/// The attachment id in a CDN URL.
pub fn attachment_id_from_cdn_url(url: &str) -> (r: Option<u64>)
    ensures
        r == attachment_id_spec(url@),
{
    proof {
        reveal_strlit("/attachments/");
        reveal_strlit("/");
        reveal_strlit("?");
    }
    let cs = chars_of(url);
    let marker = chars_of("/attachments/");
    let path = match split_nth_exec(&cs, &marker, 1) {
        Some(p) => p,
        None => return None,
    };
    let slash = chars_of("/");
    let id = match split_nth_exec(&path, &slash, 1) {
        Some(i) => i,
        None => return None,
    };
    let q = chars_of("?");
    parse_u64_exec(&first_piece(&id, &q))
}

/// The extension of the file a URL names: the part after the last `.` of the
/// last path segment, without its query (the whole segment when it has no `.`).
pub open spec fn url_extension_spec(url: Seq<char>) -> Seq<char> {
    last_piece(split(last_piece(url, "/"@), "?"@)[0], "."@)
}

/// The extension of the file a URL names.
pub fn url_extension(url: &str) -> (r: String)
    ensures
        r@ == url_extension_spec(url@),
{
    proof {
        reveal_strlit("/");
        reveal_strlit("?");
        reveal_strlit(".");
    }
    let cs = chars_of(url);
    let slash = chars_of("/");
    let last = crate::text::last_piece_exec(&cs, &slash);
    let q = chars_of("?");
    let name = first_piece(&last, &q);
    let dot = chars_of(".");
    string_from_chars(&crate::text::last_piece_exec(&name, &dot))
}

// ---------------------------------------------------------------------------
// Confirmation of a submission
// ---------------------------------------------------------------------------

/// What the confirm button of a submission preview carries back to the bot.
#[derive(Clone, Debug)]
pub struct ConfirmationData {
    pub player_name: String,
    pub player_uuid: String,
    pub tag_type: String,
    pub reason: String,
    pub is_nicked: bool,
}

/// The content of confirmation data.
pub struct ConfirmationView {
    pub player_name: Seq<char>,
    pub player_uuid: Seq<char>,
    pub tag_type: Seq<char>,
    pub reason: Seq<char>,
    pub is_nicked: bool,
}

impl View for ConfirmationData {
    type V = ConfirmationView;

    open spec fn view(&self) -> ConfirmationView {
        ConfirmationView {
            player_name: self.player_name@,
            player_uuid: self.player_uuid@,
            tag_type: self.tag_type@,
            reason: self.reason@,
            is_nicked: self.is_nicked,
        }
    }
}

/// The id of the confirm button: the submitter, the tag type, the player's
/// UUID (`none` when it is unknown) and whether the player is nicked.
pub open spec fn confirm_id_spec(submitter_id: u64, tag_type: Seq<char>, uuid: Seq<char>, is_nicked: bool) -> Seq<char> {
    "review_confirm:"@ + decimal(submitter_id as nat) + ":"@ + tag_type + ":"@ + (if uuid.len() == 0 {
        "none"@
    } else {
        uuid
    }) + ":"@ + (if is_nicked {
        "true"@
    } else {
        "false"@
    })
}

/// The id of the confirm button of a submission preview.
pub fn confirmation_id(submitter_id: u64, tag_type: &str, player_uuid: &str, is_nicked: bool) -> (r: String)
    ensures
        r@ == confirm_id_spec(submitter_id, tag_type@, player_uuid@, is_nicked),
{
    let mut out: Vec<char> = Vec::new();
    push_str(&mut out, "review_confirm:");
    let d = decimal_exec(submitter_id);
    push_chars(&mut out, &d);
    push_str(&mut out, ":");
    push_str(&mut out, tag_type);
    push_str(&mut out, ":");
    let u = chars_of(player_uuid);
    if u.len() == 0 {
        push_str(&mut out, "none");
    } else {
        push_chars(&mut out, &u);
    }
    push_str(&mut out, ":");
    if is_nicked {
        push_str(&mut out, "true");
    } else {
        push_str(&mut out, "false");
    }
    string_from_chars(&out)
}

/// The preview text of a submission: the title, the tag and player as a card
/// header shows them, and the reason as it is shown.
pub open spec fn confirm_preview_spec(player_name: Seq<char>, tag_type: Seq<char>, reason_text: Seq<char>) -> Seq<char> {
    let (emote, display) = tag_presentation(tag_type);
    "## "@ + EMOTE_ADDTAG@ + " Confirm Submission\n"@ + emote + " "@ + display + " \u{2014} `"@
        + player_name + "`\n> "@ + reason_text
}

/// The preview text of a submission; `reason_text` is the reason as it is shown.
pub fn confirmation_preview(player_name: &str, tag_type: &str, reason_text: &str) -> (r: String)
    ensures
        r@ == confirm_preview_spec(player_name@, tag_type@, reason_text@),
{
    let mut out: Vec<char> = Vec::new();
    push_str(&mut out, "## ");
    push_str(&mut out, EMOTE_ADDTAG);
    push_str(&mut out, " Confirm Submission\n");
    match lookup(tag_type) {
        Some(def) => {
            push_str(&mut out, def.emote);
            push_str(&mut out, " ");
            push_str(&mut out, def.display_name);
        },
        None => {
            push_str(&mut out, " ");
            push_str(&mut out, tag_type);
        },
    }
    push_str(&mut out, " \u{2014} `");
    push_str(&mut out, player_name);
    push_str(&mut out, "`\n> ");
    push_str(&mut out, reason_text);
    string_from_chars(&out)
}

/// The first text that previews a player (it holds `` — ` ``).
pub open spec fn first_preview(texts: Seq<Seq<char>>) -> Option<Seq<char>>
    decreases texts.len(),
{
    if texts.len() == 0 {
        None
    } else if contains(texts[0], " \u{2014} `"@) {
        Some(texts[0])
    } else {
        first_preview(texts.drop_first())
    }
}

/// Confirmation data read back from a confirm button's id and the texts of its
/// message: the id gives the tag type, the UUID and the nick flag, the first
/// preview text the backquoted player name and the reason after `\n> `.
pub open spec fn parse_confirmation_spec(custom_id: Seq<char>, texts: Seq<Seq<char>>) -> Option<ConfirmationView> {
    if !has_prefix(custom_id, "review_confirm:"@) {
        None
    } else {
        let parts = splitn(custom_id.subrange(15, custom_id.len() as int), ":"@, 4);
        if parts.len() < 4 {
            None
        } else {
            match first_preview(texts) {
                None => None,
                Some(t) => match split_nth(t, "`"@, 1) {
                    None => None,
                    Some(name) => Some(
                        ConfirmationView {
                            player_name: name,
                            player_uuid: if parts[2] == "none"@ {
                                Seq::empty()
                            } else {
                                parts[2]
                            },
                            tag_type: parts[1],
                            reason: match split_nth(t, "\n> "@, 1) {
                                Some(x) => x,
                                None => Seq::empty(),
                            },
                            is_nicked: parts[3] == "true"@,
                        },
                    ),
                },
            }
        }
    }
}

/// Reads confirmation data back from a confirm button's id and the texts of
/// the message that carries it.
pub fn parse_confirmation_data(custom_id: &str, texts: &[String]) -> (r: Option<ConfirmationData>)
    ensures
        r matches Some(c) ==> parse_confirmation_spec(custom_id@, texts@.map_values(|t: String| t@)) == Some(c@),
        r is None ==> parse_confirmation_spec(custom_id@, texts@.map_values(|t: String| t@)) is None,
{
    proof {
        reveal_strlit("review_confirm:");
        reveal_strlit(":");
        reveal_strlit("`");
        reveal_strlit("\n> ");
    }
    let cs = chars_of(custom_id);
    let prefix = chars_of("review_confirm:");
    let stripped = match strip_prefix(&cs, &prefix) {
        Some(s) => s,
        None => return None,
    };
    let colon = chars_of(":");
    let parts = splitn_exec(&stripped, &colon, 4);
    if parts.len() < 4 {
        return None;
    }
    let ghost pv = views(parts@);
    assert(pv[1] == parts@[1]@ && pv[2] == parts@[2]@ && pv[3] == parts@[3]@);
    let ghost tv = texts@.map_values(|t: String| t@);
    let sep = chars_of(" \u{2014} `");
    let mut i: usize = 0;
    assert(tv.subrange(0, tv.len() as int) =~= tv);
    while i < texts.len()
        invariant
            i <= texts@.len(),
            tv == texts@.map_values(|t: String| t@),
            sep@ == " \u{2014} `"@,
            parts@.len() >= 4,
            views(parts@) == splitn(stripped@, ":"@, 4),
            has_prefix(custom_id@, "review_confirm:"@),
            stripped@ == custom_id@.subrange(15, custom_id@.len() as int),
            first_preview(tv) == first_preview(tv.subrange(i as int, tv.len() as int)),
        decreases texts@.len() - i,
    {
        let ghost rest = tv.subrange(i as int, tv.len() as int);
        assert(rest[0] == texts@[i as int]@);
        assert(rest.drop_first() =~= tv.subrange(i + 1, tv.len() as int));
        let t = chars_of(texts[i].as_str());
        proof {
            reveal_strlit("`");
            reveal_strlit("\n> ");
        }
        if find_exec(&t, &sep).is_some() {
            let tick = chars_of("`");
            let name = match split_nth_exec(&t, &tick, 1) {
                Some(n) => n,
                None => return None,
            };
            let nl = chars_of("\n> ");
            let reason = match split_nth_exec(&t, &nl, 1) {
                Some(x) => x,
                None => Vec::new(),
            };
            let none = chars_of("none");
            let uuid = if chars_eq(&parts[2], &none) {
                String::new()
            } else {
                string_from_chars(&parts[2])
            };
            let tru = chars_of("true");
            let c = ConfirmationData {
                player_name: string_from_chars(&name),
                player_uuid: uuid,
                tag_type: string_from_chars(&parts[1]),
                reason: string_from_chars(&reason),
                is_nicked: chars_eq(&parts[3], &tru),
            };
            return Some(c);
        }
        i = i + 1;
    }
    None
}

/// The pieces of a confirm button's id after its prefix: the submitter, the
/// tag type, the UUID (or `none`) and the nick flag.
proof fn lemma_confirm_id_parts(submitter_id: u64, tag_type: Seq<char>, uuid: Seq<char>, is_nicked: bool)
    requires
        forall|i: int| 0 <= i < tag_type.len() ==> #[trigger] tag_type[i] != ':',
        forall|i: int| 0 <= i < uuid.len() ==> #[trigger] uuid[i] != ':',
    ensures
        has_prefix(confirm_id_spec(submitter_id, tag_type, uuid, is_nicked), "review_confirm:"@),
        splitn(
            confirm_id_spec(submitter_id, tag_type, uuid, is_nicked).subrange(
                15,
                confirm_id_spec(submitter_id, tag_type, uuid, is_nicked).len() as int,
            ),
            ":"@,
            4,
        ) == seq![
            decimal(submitter_id as nat),
            tag_type,
            if uuid.len() == 0 { "none"@ } else { uuid },
            if is_nicked { "true"@ } else { "false"@ },
        ],
{
    reveal_strlit("review_confirm:");
    reveal_strlit(":");
    reveal_strlit("none");
    reveal_strlit("true");
    reveal_strlit("false");
    lemma_decimal_parses(submitter_id as nat);
    let colon: Seq<char> = ":"@;
    assert(colon =~= seq![':']);
    let d = decimal(submitter_id as nat);
    let u: Seq<char> = if uuid.len() == 0 { "none"@ } else { uuid };
    let f: Seq<char> = if is_nicked { "true"@ } else { "false"@ };
    let id = confirm_id_spec(submitter_id, tag_type, uuid, is_nicked);
    let body = id.subrange(15, id.len() as int);
    assert(id.subrange(0, 15) =~= "review_confirm:"@);
    assert(body =~= d + colon + (tag_type + colon + (u + colon + f)));
    assert forall|i: int| 0 <= i < d.len() implies d[i] != ':' by {
        assert(crate::text::is_digit(d[i]));
    }
    assert forall|i: int| 0 <= i < u.len() implies u[i] != ':' by {}
    crate::text::lemma_char_absent(d, ':');
    crate::text::lemma_char_absent(tag_type, ':');
    crate::text::lemma_char_absent(u, ':');
    assert forall|j: int| 0 <= j < d.len() implies !occurs_at(d + colon + (tag_type + colon + (u + colon + f)), colon, j) by {
        assert((d + colon + (tag_type + colon + (u + colon + f))).subrange(j, j + 1)[0] == d[j]);
    }
    crate::text::lemma_splitn_at_first(d, colon, tag_type + colon + (u + colon + f), 4);
    assert forall|j: int| 0 <= j < tag_type.len() implies !occurs_at(tag_type + colon + (u + colon + f), colon, j) by {
        assert((tag_type + colon + (u + colon + f)).subrange(j, j + 1)[0] == tag_type[j]);
    }
    crate::text::lemma_splitn_at_first(tag_type, colon, u + colon + f, 3);
    assert forall|j: int| 0 <= j < u.len() implies !occurs_at(u + colon + f, colon, j) by {
        assert((u + colon + f).subrange(j, j + 1)[0] == u[j]);
    }
    crate::text::lemma_splitn_at_first(u, colon, f, 2);
    assert(splitn(f, colon, 1) == seq![f]);
}

/// The pieces of a submission preview: it previews a player, the name is its
/// second backquoted piece, and the reason follows its first `\n> `.
proof fn lemma_preview_parts(k: TagKind, name: Seq<char>, reason_text: Seq<char>)
    requires
        forall|i: int| 0 <= i < name.len() ==> #[trigger] name[i] != '`',
        !contains(name, "\n> "@),
        !contains(reason_text, "\n> "@),
    ensures
        contains(confirm_preview_spec(name, kind_name(k), reason_text), " \u{2014} `"@),
        split_nth(confirm_preview_spec(name, kind_name(k), reason_text), "`"@, 1) == Some(name),
        split_nth(confirm_preview_spec(name, kind_name(k), reason_text), "\n> "@, 1) == Some(reason_text),
{
    reveal_strlit("## ");
    reveal_strlit("<:addtag:1459106318387249289>");
    reveal_strlit(" Confirm Submission\n");
    reveal_strlit(" ");
    reveal_strlit(" \u{2014} `");
    reveal_strlit("`\n> ");
    reveal_strlit("`");
    reveal_strlit("\n> ");
    crate::tags::lemma_lookup_finds_every_tag(k);
    crate::review_format::lemma_header_safe(k);
    let e = definition(k).emote@;
    let d = kind_display(k);
    let head: Seq<char> = "## "@ + EMOTE_ADDTAG@ + " Confirm Submission\n"@;
    let add: Seq<char> = EMOTE_ADDTAG@;
    assert forall|i: int| 0 <= i < add.len() implies add[i] != '`' && add[i] != '\n' by {}
    let tick: Seq<char> = "`"@;
    let nl: Seq<char> = "\n> "@;
    let dash: Seq<char> = " \u{2014} `"@;
    let pre = head + e + " "@ + d + " \u{2014} "@;
    reveal_strlit(" \u{2014} ");
    let t = confirm_preview_spec(name, kind_name(k), reason_text);
    assert(t =~= pre + tick + (name + tick + ("\n> "@ + reason_text)));
    assert(head.len() == 3 + add.len() + 20);
    assert(head[head.len() - 1] == '\n');
    // No backquote before the name.
    assert forall|i: int| 0 <= i < pre.len() implies pre[i] != '`' && (pre[i] == '\n' ==> i == head.len() - 1) by {
        if i < 3 {
        } else if i < 3 + add.len() {
            assert(pre[i] == add[i - 3]);
        } else if i < head.len() {
            assert(pre[i] == head[i]);
        } else if i < head.len() + e.len() {
            assert(pre[i] == e[i - head.len()]);
        } else if i == head.len() + e.len() {
        } else if i < head.len() + e.len() + 1 + d.len() {
            assert(pre[i] == d[i - head.len() - e.len() - 1]);
        } else {
        }
    }
    // The preview mark.
    assert(occurs_at(t, dash, pre.len() - 3)) by {
        assert(t.subrange(pre.len() - 3, pre.len() as int) =~= " \u{2014} "@);
        assert(t.subrange(pre.len() - 3, pre.len() + 1int) =~= dash);
    }
    crate::text::lemma_find_from(t, dash, 0);
    // The name.
    let after = name + tick + ("\n> "@ + reason_text);
    assert forall|j: int| 0 <= j < pre.len() implies !occurs_at(pre + tick + after, tick, j) by {
        if occurs_at(pre + tick + after, tick, j) {
            assert((pre + tick + after).subrange(j, j + 1)[0] == pre[j]);
        }
    }
    crate::text::lemma_split_at_first(pre, tick, after);
    assert forall|j: int| 0 <= j < name.len() implies !occurs_at(name + tick + ("\n> "@ + reason_text), tick, j) by {
        if occurs_at(name + tick + ("\n> "@ + reason_text), tick, j) {
            assert((name + tick + ("\n> "@ + reason_text)).subrange(j, j + 1)[0] == name[j]);
        }
    }
    crate::text::lemma_split_at_first(name, tick, "\n> "@ + reason_text);
    crate::text::lemma_split_nonempty("\n> "@ + reason_text, tick);
    // The reason.
    let before = pre + tick + name + tick;
    assert(t =~= before + nl + reason_text);
    crate::text::lemma_find_from(name, nl, 0);
    assert forall|j: int| 0 <= j < before.len() implies !occurs_at(before + nl + reason_text, nl, j) by {
        let w = before + nl + reason_text;
        if occurs_at(w, nl, j) {
            let x = w.subrange(j, j + 3);
            assert(x == nl);
            assert(x[0] == w[j] && x[1] == w[j + 1] && x[2] == w[j + 2]);
            if j < pre.len() {
                assert(w[j] == pre[j]);
                assert(j == head.len() - 1);
                assert(w[j + 1] == e[0]);
            } else if j == pre.len() {
            } else if j < pre.len() + 1 + name.len() {
                let o = j - pre.len() - 1;
                assert(w[j] == name[o]);
                if o + 3 <= name.len() {
                    assert(name.subrange(o, o + 3) =~= x);
                    assert(occurs_at(name, nl, o));
                } else if o + 2 == name.len() {
                    assert(w[j + 2] == '`');
                } else {
                    assert(w[j + 1] == '`');
                }
            } else {
            }
        }
    }
    crate::text::lemma_split_at_first(before, nl, reason_text);
    crate::text::lemma_split_none(reason_text, nl);
}

/// The confirm button and preview of a submission carry its data to the bot:
/// reading them back gives the player's name and UUID, the tag type, the reason
/// as shown, and the nick flag, whatever texts follow the preview. This holds
/// for every catalogue tag, every UUID without `:` other than `none`, every
/// name without a backquote or `\n> `, and every reason without `\n> `.
pub proof fn lemma_confirmation_roundtrip(
    submitter_id: u64,
    k: TagKind,
    uuid: Seq<char>,
    is_nicked: bool,
    name: Seq<char>,
    reason_text: Seq<char>,
    rest: Seq<Seq<char>>,
)
    requires
        forall|i: int| 0 <= i < uuid.len() ==> #[trigger] uuid[i] != ':',
        uuid != "none"@,
        forall|i: int| 0 <= i < name.len() ==> #[trigger] name[i] != '`',
        !contains(name, "\n> "@),
        !contains(reason_text, "\n> "@),
    ensures
        parse_confirmation_spec(
            confirm_id_spec(submitter_id, kind_name(k), uuid, is_nicked),
            seq![confirm_preview_spec(name, kind_name(k), reason_text)] + rest,
        ) == Some(
            ConfirmationView {
                player_name: name,
                player_uuid: uuid,
                tag_type: kind_name(k),
                reason: reason_text,
                is_nicked,
            },
        ),
{
    reveal_strlit("none");
    reveal_strlit("true");
    reveal_strlit("false");
    reveal_strlit("sniper");
    reveal_strlit("blatant_cheater");
    reveal_strlit("closet_cheater");
    reveal_strlit("replays_needed");
    reveal_strlit("caution");
    reveal_strlit("confirmed_cheater");
    let tag = kind_name(k);
    assert forall|i: int| 0 <= i < tag.len() implies tag[i] != ':' by {}
    lemma_confirm_id_parts(submitter_id, tag, uuid, is_nicked);
    lemma_preview_parts(k, name, reason_text);
    let texts = seq![confirm_preview_spec(name, tag, reason_text)] + rest;
    assert(texts[0] == confirm_preview_spec(name, tag, reason_text));
    assert(first_preview(texts) == Some(confirm_preview_spec(name, tag, reason_text)));
    let id = confirm_id_spec(submitter_id, tag, uuid, is_nicked);
    let parts = splitn(id.subrange(15, id.len() as int), ":"@, 4);
    assert(parts.len() == 4);
    let empty = Seq::<char>::empty();
    assert((if parts[2] == "none"@ { empty } else { parts[2] }) == uuid);
    assert("false"@ != "true"@) by {
        assert("false"@.len() != "true"@.len());
    }
    assert((parts[3] == "true"@) == is_nicked);
    assert(parts[1] == tag);
}

} // verus!
