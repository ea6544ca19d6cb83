//! Evidence threads of confirmed cheaters: the header that records who was
//! tagged, their UUID, the tag type they had before and the review that led
//! there, and how that record is read back from the thread's message.
use vstd::prelude::*;
use crate::access::{rank_level, AccessRank};
use crate::review_messages::{lemma_decimal_parses, url_extension, url_extension_spec};
use crate::responses::PlayerTagRow;
use crate::review_state::MessagePart;
use crate::tags::{definition, kind_display, kind_named, lookup, TagKind};
use crate::text::{
    chars_of, chars_eq, is_digit, lemma_last_piece_after, decimal, decimal_exec, last_piece_exec, parse_u64_exec, parse_u64_spec, parse_usize_exec,
    parse_usize_spec, push_chars, has_prefix, has_suffix, last_piece, lines, lines_exec, push_str, split, split_nth,
    split_nth_exec, starts_with, string_from_chars, strip_cr, strip_prefix, trim, trim_end_all,
    trim_end_all_exec, trim_exec, trim_start_all, trim_start_all_exec, views, without,
    without_exec,
};

verus! {

/// The emote of the confirmed cheater tag.
pub open spec fn confirmed_emote() -> Seq<char> {
    definition(TagKind::ConfirmedCheater).emote@
}

/// The display name a tag type is shown under; a type outside the catalogue shows as itself.
pub open spec fn display_of(tag_type: Seq<char>) -> Seq<char> {
    match kind_named(tag_type) {
        Some(k) => kind_display(k),
        None => tag_type,
    }
}

/// The header of an evidence thread.
pub open spec fn evidence_header_spec(
    username: Seq<char>,
    dashed_uuid: Seq<char>,
    original_type: Seq<char>,
    review_url: Option<Seq<char>>,
) -> Seq<char> {
    let head = "## "@ + confirmed_emote() + " Evidence \u{2014} `"@ + username + "`\nUUID: `"@ + dashed_uuid
        + "`\nTag: Confirmed Cheater (was: "@ + display_of(original_type) + ")\n-# Originally: "@
        + original_type;
    match review_url {
        Some(u) => head + "\nReview: "@ + u,
        None => head,
    }
}

/// Appends the display name a tag type is shown under.
fn push_display(out: &mut Vec<char>, tag_type: &str)
    ensures
        final(out)@ == old(out)@ + display_of(tag_type@),
{
    match lookup(tag_type) {
        Some(def) => push_str(out, def.display_name),
        None => push_str(out, tag_type),
    }
}

/// The header of an evidence thread: the player, the UUID with dashes, the
/// tag type before the upgrade to confirmed cheater, and the review thread.
pub fn evidence_header(username: &str, dashed_uuid: &str, original_type: &str, review_url: Option<&str>) -> (r: String)
    ensures
        r@ == evidence_header_spec(
            username@,
            dashed_uuid@,
            original_type@,
            match review_url {
                Some(u) => Some(u@),
                None => None,
            },
        ),
{
    let mut out: Vec<char> = Vec::new();
    push_str(&mut out, "## ");
    push_str(&mut out, "<:confirmedcheater:1459106129765204049>");
    push_str(&mut out, " Evidence \u{2014} `");
    push_str(&mut out, username);
    push_str(&mut out, "`\nUUID: `");
    push_str(&mut out, dashed_uuid);
    push_str(&mut out, "`\nTag: Confirmed Cheater (was: ");
    push_display(&mut out, original_type);
    push_str(&mut out, ")\n-# Originally: ");
    push_str(&mut out, original_type);
    match review_url {
        Some(u) => {
            push_str(&mut out, "\nReview: ");
            push_str(&mut out, u);
        },
        None => {},
    }
    string_from_chars(&out)
}

/// The header of an archived evidence thread, whose tag was reverted to the
/// type shown as `reverted_display`.
pub open spec fn archived_header_spec(
    username: Seq<char>,
    dashed_uuid: Seq<char>,
    original_type: Seq<char>,
    reverted_display: Seq<char>,
    review_url: Option<Seq<char>>,
) -> Seq<char> {
    let head = "## "@ + confirmed_emote() + " Evidence \u{2014} `"@ + username + "` (Archived)\nUUID: `"@
        + dashed_uuid + "`\nTag: Reverted to "@ + reverted_display + " (was: Confirmed Cheater)\n-# Originally: "@
        + original_type;
    match review_url {
        Some(u) => head + "\nReview: "@ + u,
        None => head,
    }
}

/// The header of an archived evidence thread.
pub fn archived_evidence_header(
    username: &str,
    dashed_uuid: &str,
    original_type: &str,
    reverted_display: &str,
    review_url: Option<&str>,
) -> (r: String)
    ensures
        r@ == archived_header_spec(
            username@,
            dashed_uuid@,
            original_type@,
            reverted_display@,
            match review_url {
                Some(u) => Some(u@),
                None => None,
            },
        ),
{
    let mut out: Vec<char> = Vec::new();
    push_str(&mut out, "## ");
    push_str(&mut out, "<:confirmedcheater:1459106129765204049>");
    push_str(&mut out, " Evidence \u{2014} `");
    push_str(&mut out, username);
    push_str(&mut out, "` (Archived)\nUUID: `");
    push_str(&mut out, dashed_uuid);
    push_str(&mut out, "`\nTag: Reverted to ");
    push_str(&mut out, reverted_display);
    push_str(&mut out, " (was: Confirmed Cheater)\n-# Originally: ");
    push_str(&mut out, original_type);
    match review_url {
        Some(u) => {
            push_str(&mut out, "\nReview: ");
            push_str(&mut out, u);
        },
        None => {},
    }
    string_from_chars(&out)
}

/// The record of an evidence thread as read back.
#[derive(Clone, Debug)]
pub struct EvidenceThreadState {
    pub username: String,
    pub uuid: String,
    pub original_type: String,
    pub evidence: Vec<String>,
    pub review_url: Option<String>,
}

/// The content of a thread record.
pub struct ThreadView {
    pub username: Seq<char>,
    pub uuid: Seq<char>,
    pub original_type: Seq<char>,
    pub evidence: Seq<Seq<char>>,
    pub review_url: Option<Seq<char>>,
}

impl View for EvidenceThreadState {
    type V = ThreadView;

    open spec fn view(&self) -> ThreadView {
        ThreadView {
            username: self.username@,
            uuid: self.uuid@,
            original_type: self.original_type@,
            evidence: self.evidence@.map_values(|f: String| f@),
            review_url: match self.review_url {
                Some(u) => Some(u@),
                None => None,
            },
        }
    }
}

/// A record with nothing read yet.
pub open spec fn empty_thread() -> ThreadView {
    ThreadView {
        username: Seq::empty(),
        uuid: Seq::empty(),
        original_type: Seq::empty(),
        evidence: Seq::empty(),
        review_url: None,
    }
}

/// The record after one line of a text: a `UUID: `` ` line gives the UUID
/// (dashes removed), a `## ` line the name after `` — ` ``, an
/// `-# Originally: ` line the original type and a `Review: ` line the review.
pub open spec fn after_line(st: ThreadView, line: Seq<char>) -> ThreadView {
    let st1 = if has_prefix(line, "UUID: `"@) {
        ThreadView { uuid: without(trim_end_all(trim_start_all(line, "UUID: `"@), "`"@), '-'), ..st }
    } else {
        st
    };
    let st2 = if has_prefix(line, "## "@) {
        match split_nth(line.subrange(3, line.len() as int), " \u{2014} `"@, 1) {
            Some(after) => ThreadView { username: trim_end_all(trim_end_all(after, "`"@), " (Archived)"@), ..st1 },
            None => st1,
        }
    } else {
        st1
    };
    let st3 = if has_prefix(line, "-# Originally: "@) {
        ThreadView { original_type: trim(line.subrange(15, line.len() as int)), ..st2 }
    } else {
        st2
    };
    if has_prefix(line, "Review: "@) {
        ThreadView { review_url: Some(trim(line.subrange(8, line.len() as int))), ..st3 }
    } else {
        st3
    }
}

/// The record after several lines.
pub open spec fn after_lines(st: ThreadView, ls: Seq<Seq<char>>) -> ThreadView
    decreases ls.len(),
{
    if ls.len() == 0 {
        st
    } else {
        after_line(after_lines(st, ls.drop_last()), ls.last())
    }
}

/// The file a media URL names: its last path segment without the query.
pub open spec fn url_file_name(url: Seq<char>) -> Seq<char> {
    split(last_piece(url, "/"@), "?"@)[0]
}

/// The files of a gallery's URLs; empty URLs are skipped.
pub open spec fn gallery_files(urls: Seq<Seq<char>>) -> Seq<Seq<char>>
    decreases urls.len(),
{
    if urls.len() == 0 {
        Seq::empty()
    } else if urls.last().len() == 0 {
        gallery_files(urls.drop_last())
    } else {
        gallery_files(urls.drop_last()).push(url_file_name(urls.last()))
    }
}

/// The record after one part of the message: texts are read line by line,
/// galleries add their files; other parts are skipped.
pub open spec fn after_thread_part(st: ThreadView, part: MessagePart) -> ThreadView {
    match part {
        MessagePart::Text(Some(c)) => after_lines(st, lines(c@)),
        MessagePart::Gallery(urls) => ThreadView {
            evidence: st.evidence + gallery_files(urls@.map_values(|u: String| u@)),
            ..st
        },
        _ => st,
    }
}

/// The record after the parts of a message.
pub open spec fn thread_of(parts: Seq<MessagePart>) -> ThreadView
    decreases parts.len(),
{
    if parts.len() == 0 {
        empty_thread()
    } else {
        after_thread_part(thread_of(parts.drop_last()), parts.last())
    }
}

/// The record read back from a thread whose container has these parts; none
/// without a container or without a UUID.
pub open spec fn parse_thread_spec(parts: Option<Seq<MessagePart>>) -> Option<ThreadView> {
    match parts {
        None => None,
        Some(ps) => if thread_of(ps).uuid.len() == 0 {
            None
        } else {
            Some(thread_of(ps))
        },
    }
}

/// Applies one line of a text to the record.
fn apply_line(st: &mut EvidenceThreadState, line: &[char])
    ensures
        final(st)@ == after_line(old(st)@, line@),
{
    proof {
        reveal_strlit("UUID: `");
        reveal_strlit("`");
        reveal_strlit("## ");
        reveal_strlit(" \u{2014} `");
        reveal_strlit(" (Archived)");
        reveal_strlit("-# Originally: ");
        reveal_strlit("Review: ");
    }
    let uuid_pre = chars_of("UUID: `");
    if starts_with(line, &uuid_pre) {
        let a = trim_start_all_exec(line, &uuid_pre);
        let b = trim_end_all_exec(&a, &chars_of("`"));
        st.uuid = string_from_chars(&without_exec(&b, '-'));
    }
    let h = chars_of("## ");
    if let Some(name_part) = strip_prefix(line, &h) {
        let sep = chars_of(" \u{2014} `");
        if let Some(after) = split_nth_exec(&name_part, &sep, 1) {
            let a = trim_end_all_exec(&after, &chars_of("`"));
            let b = trim_end_all_exec(&a, &chars_of(" (Archived)"));
            st.username = string_from_chars(&b);
        }
    }
    let o = chars_of("-# Originally: ");
    if let Some(rest) = strip_prefix(line, &o) {
        st.original_type = string_from_chars(&trim_exec(&rest));
    }
    let rv = chars_of("Review: ");
    if let Some(rest) = strip_prefix(line, &rv) {
        st.review_url = Some(string_from_chars(&trim_exec(&rest)));
    }
}

/// The file a media URL names.
fn file_name_of(url: &[char]) -> (r: Vec<char>)
    ensures
        r@ == url_file_name(url@),
{
    proof {
        reveal_strlit("/");
        reveal_strlit("?");
    }
    let last = crate::text::last_piece_exec(url, &chars_of("/"));
    let q = chars_of("?");
    proof {
        crate::text::lemma_split_nonempty(last@, q@);
    }
    let parts = crate::text::split_exec(&last, &q);
    assert(views(parts@)[0] == parts@[0]@);
    crate::text::slice_vec(&parts[0], 0, parts[0].len())
}

/// Applies one part of the message to the record.
fn apply_thread_part(st: &mut EvidenceThreadState, part: &MessagePart)
    ensures
        final(st)@ == after_thread_part(old(st)@, *part),
{
    match part {
        MessagePart::Text(Some(c)) => {
            let cs = chars_of(c.as_str());
            let ls = lines_exec(&cs);
            let ghost lv = views(ls@);
            let ghost start = st@;
            let mut i: usize = 0;
            assert(lv.subrange(0, 0) =~= Seq::<Seq<char>>::empty());
            while i < ls.len()
                invariant
                    i <= ls@.len(),
                    lv == views(ls@),
                    st@ == after_lines(start, lv.subrange(0, i as int)),
                decreases ls@.len() - i,
            {
                assert(lv.subrange(0, i + 1).drop_last() =~= lv.subrange(0, i as int));
                assert(lv.subrange(0, i + 1).last() == ls@[i as int]@);
                apply_line(st, &ls[i]);
                i = i + 1;
            }
            assert(lv.subrange(0, lv.len() as int) =~= lv);
        },
        MessagePart::Gallery(urls) => {
            let ghost uv = urls@.map_values(|u: String| u@);
            let ghost start = st@;
            let mut i: usize = 0;
            assert(uv.subrange(0, 0) =~= Seq::<Seq<char>>::empty());
            assert(start.evidence + Seq::<Seq<char>>::empty() =~= start.evidence);
            while i < urls.len()
                invariant
                    i <= urls@.len(),
                    uv == urls@.map_values(|u: String| u@),
                    st@ == (ThreadView { evidence: st@.evidence, ..start }),
                    st@.evidence == start.evidence + gallery_files(uv.subrange(0, i as int)),
                decreases urls@.len() - i,
            {
                assert(uv.subrange(0, i + 1).drop_last() =~= uv.subrange(0, i as int));
                assert(uv.subrange(0, i + 1).last() == urls@[i as int]@);
                let u = chars_of(urls[i].as_str());
                if u.len() > 0 {
                    let ghost before = st@.evidence;
                    let f = string_from_chars(&file_name_of(&u));
                    st.evidence.push(f);
                    assert(st@.evidence =~= before.push(url_file_name(u@)));
                }
                i = i + 1;
            }
            assert(uv.subrange(0, uv.len() as int) =~= uv);
        },
        _ => {},
    }
}

/// Reads an evidence thread's record back from the parts of its container
/// (`None` when the message has none); `None` when no UUID is read. Gallery
/// items are given by their URLs.
pub fn parse_evidence_thread(parts: Option<&[MessagePart]>) -> (r: Option<EvidenceThreadState>)
    ensures
        match r {
            Some(st) => parse_thread_spec(
                match parts {
                    Some(ps) => Some(ps@),
                    None => None,
                },
            ) == Some(st@),
            None => parse_thread_spec(
                match parts {
                    Some(ps) => Some(ps@),
                    None => None,
                },
            ) is None,
        },
{
    let ps = match parts {
        Some(ps) => ps,
        None => return None,
    };
    let mut st = EvidenceThreadState {
        username: String::new(),
        uuid: String::new(),
        original_type: String::new(),
        evidence: Vec::new(),
        review_url: None,
    };
    assert(st@.evidence =~= Seq::<Seq<char>>::empty());
    let mut i: usize = 0;
    assert(ps@.subrange(0, 0) =~= Seq::<MessagePart>::empty());
    while i < ps.len()
        invariant
            i <= ps@.len(),
            st@ == thread_of(ps@.subrange(0, i as int)),
        decreases ps@.len() - i,
    {
        assert(ps@.subrange(0, i + 1).drop_last() =~= ps@.subrange(0, i as int));
        apply_thread_part(&mut st, &ps[i]);
        i = i + 1;
    }
    assert(ps@.subrange(0, ps@.len() as int) =~= ps@);
    if chars_of(st.uuid.as_str()).len() == 0 {
        return None;
    }
    Some(st)
}

/// The first line of an evidence header.
pub open spec fn header_line_one(u: Seq<char>) -> Seq<char> {
    "## "@ + confirmed_emote() + " Evidence \u{2014} `"@ + u + "`"@
}

/// The second line of an evidence header.
pub open spec fn header_line_two(d: Seq<char>) -> Seq<char> {
    "UUID: `"@ + d + "`"@
}

/// The third line of an evidence header.
pub open spec fn header_line_three(o: Seq<char>) -> Seq<char> {
    "Tag: Confirmed Cheater (was: "@ + display_of(o) + ")"@
}

/// The fourth line of an evidence header.
pub open spec fn header_line_four(o: Seq<char>) -> Seq<char> {
    "-# Originally: "@ + o
}

/// No newline stands in the first two lines of a header.
proof fn lemma_first_lines_plain(u: Seq<char>, d: Seq<char>)
    requires
        forall|i: int| 0 <= i < u.len() ==> #[trigger] u[i] != '\n',
        forall|i: int| 0 <= i < d.len() ==> #[trigger] d[i] != '\n',
    ensures
        forall|i: int| 0 <= i < header_line_one(u).len() ==> #[trigger] header_line_one(u)[i] != '\n',
        forall|i: int| 0 <= i < header_line_two(d).len() ==> #[trigger] header_line_two(d)[i] != '\n',
        header_line_one(u).last() == '`',
        header_line_two(d).last() == '`',
{
    reveal_strlit("## ");
    reveal_strlit("<:confirmedcheater:1459106129765204049>");
    reveal_strlit(" Evidence \u{2014} `");
    reveal_strlit("`");
    reveal_strlit("UUID: `");
    let e = confirmed_emote();
    let l1 = header_line_one(u);
    let l2 = header_line_two(d);
    assert forall|i: int| 0 <= i < e.len() implies e[i] != '\n' by {}
    assert forall|i: int| 0 <= i < l1.len() implies l1[i] != '\n' by {
        if i < 3 {
        } else if i < 3 + e.len() {
            assert(l1[i] == e[i - 3]);
        } else if i < 3 + e.len() + 13 {
        } else if i < 3 + e.len() + 13 + u.len() {
            assert(l1[i] == u[i - 3 - e.len() - 13]);
        }
    }
    assert forall|i: int| 0 <= i < l2.len() implies l2[i] != '\n' by {
        if 7 <= i < 7 + d.len() {
            assert(l2[i] == d[i - 7]);
        }
    }
}

/// No newline stands in the third and fourth lines of a header, nor a
/// carriage return at the end of the fourth.
proof fn lemma_last_lines_plain(o: Seq<char>)
    requires
        forall|i: int| 0 <= i < o.len() ==> #[trigger] o[i] != '\n' && o[i] != '\r',
    ensures
        forall|i: int| 0 <= i < header_line_three(o).len() ==> #[trigger] header_line_three(o)[i] != '\n',
        forall|i: int| 0 <= i < header_line_four(o).len() ==> #[trigger] header_line_four(o)[i] != '\n',
        header_line_three(o).last() == ')',
        header_line_four(o).len() > 0 && header_line_four(o).last() != '\r',
{
    reveal_strlit("Tag: Confirmed Cheater (was: ");
    reveal_strlit(")");
    reveal_strlit("-# Originally: ");
    reveal_strlit("Sniper");
    reveal_strlit("Blatant Cheater");
    reveal_strlit("Closet Cheater");
    reveal_strlit("Replays Needed");
    reveal_strlit("Caution");
    reveal_strlit("Confirmed Cheater");
    let disp = display_of(o);
    assert forall|i: int| 0 <= i < disp.len() implies disp[i] != '\n' by {}
    let l3 = header_line_three(o);
    let l4 = header_line_four(o);
    assert forall|i: int| 0 <= i < l3.len() implies l3[i] != '\n' by {
        if 29 <= i < 29 + disp.len() {
            assert(l3[i] == disp[i - 29]);
        }
    }
    assert forall|i: int| 0 <= i < l4.len() implies l4[i] != '\n' && l4[i] != '\r' by {
        if 15 <= i {
            assert(l4[i] == o[i - 15]);
        }
    }
}

/// The lines of an evidence header.
#[verifier::rlimit(40)]
proof fn lemma_header_lines(u: Seq<char>, d: Seq<char>, o: Seq<char>, url: Option<Seq<char>>)
    requires
        forall|i: int| 0 <= i < u.len() ==> #[trigger] u[i] != '\n',
        forall|i: int| 0 <= i < d.len() ==> #[trigger] d[i] != '\n',
        forall|i: int| 0 <= i < o.len() ==> #[trigger] o[i] != '\n' && o[i] != '\r',
        url matches Some(x) ==> forall|i: int| 0 <= i < x.len() ==> #[trigger] x[i] != '\n',
    ensures
        lines(evidence_header_spec(u, d, o, url)) == match url {
            Some(x) => seq![header_line_one(u), header_line_two(d), header_line_three(o), header_line_four(o), "Review: "@ + x],
            None => seq![header_line_one(u), header_line_two(d), header_line_three(o), header_line_four(o)],
        },
{
    reveal_strlit("`\nUUID: `");
    reveal_strlit("`\nTag: Confirmed Cheater (was: ");
    reveal_strlit(")\n-# Originally: ");
    reveal_strlit("\nReview: ");
    reveal_strlit("Review: ");
    reveal_strlit("`");
    reveal_strlit("UUID: `");
    reveal_strlit("Tag: Confirmed Cheater (was: ");
    reveal_strlit(")");
    reveal_strlit("-# Originally: ");
    lemma_first_lines_plain(u, d);
    lemma_last_lines_plain(o);
    let nl = seq!['\n'];
    let l1 = header_line_one(u);
    let l2 = header_line_two(d);
    let l3 = header_line_three(o);
    let l4 = header_line_four(o);
    let tail: Seq<char> = match url {
        Some(x) => l4 + nl + ("Review: "@ + x),
        None => l4,
    };
    let h = evidence_header_spec(u, d, o, url);
    assert(h =~= l1 + nl + (l2 + nl + (l3 + nl + tail)));
    crate::text::lemma_lines_cons(l1, l2 + nl + (l3 + nl + tail));
    crate::text::lemma_lines_cons(l2, l3 + nl + tail);
    crate::text::lemma_lines_cons(l3, tail);
    match url {
        Some(x) => {
            let l5 = "Review: "@ + x;
            assert forall|i: int| 0 <= i < l5.len() implies l5[i] != '\n' by {
                if 8 <= i {
                    assert(l5[i] == x[i - 8]);
                }
            }
            crate::text::lemma_lines_cons(l4, l5);
            crate::text::lemma_last_line(l5);
        },
        None => {
            crate::text::lemma_last_line(l4);
        },
    }
}

/// What each header line leaves in the record.
proof fn lemma_header_line_effects(st: ThreadView, u: Seq<char>, d: Seq<char>, o: Seq<char>, x: Seq<char>)
    requires
        forall|i: int| 0 <= i < u.len() ==> #[trigger] u[i] != '`',
        !crate::text::contains(u + "`"@, " \u{2014} `"@),
        !has_suffix(u, " (Archived)"@),
        forall|i: int| 0 <= i < d.len() ==> #[trigger] d[i] != '`',
        !has_prefix(d + "`"@, "UUID: `"@),
    ensures
        after_line(st, header_line_one(u)) == (ThreadView { username: u, ..st }),
        after_line(st, header_line_two(d)) == (ThreadView { uuid: without(d, '-'), ..st }),
        after_line(st, header_line_three(o)) == st,
        after_line(st, header_line_four(o)) == (ThreadView { original_type: trim(o), ..st }),
        after_line(st, "Review: "@ + x) == (ThreadView { review_url: Some(trim(x)), ..st }),
{
    reveal_strlit("## ");
    reveal_strlit("<:confirmedcheater:1459106129765204049>");
    reveal_strlit(" Evidence \u{2014} `");
    reveal_strlit(" \u{2014} `");
    reveal_strlit("`");
    reveal_strlit(" (Archived)");
    reveal_strlit("UUID: `");
    reveal_strlit("Tag: Confirmed Cheater (was: ");
    reveal_strlit(")");
    reveal_strlit("-# Originally: ");
    reveal_strlit("Review: ");
    let e = confirmed_emote();
    let tick: Seq<char> = "`"@;
    let sep: Seq<char> = " \u{2014} `"@;
    // The name line.
    let l1 = "## "@ + e + " Evidence \u{2014} `"@ + u + tick;
    let name_part = l1.subrange(3, l1.len() as int);
    let pre = e + " Evidence"@;
    reveal_strlit(" Evidence");
    assert(name_part =~= pre + sep + (u + tick));
    assert forall|j: int| 0 <= j < pre.len() implies !crate::text::occurs_at(pre + sep + (u + tick), sep, j) by {
        let w = pre + sep + (u + tick);
        if crate::text::occurs_at(w, sep, j) {
            assert(w.subrange(j, j + 4)[1] == w[j + 1]);
            if j + 1 < e.len() {
                assert(w[j + 1] == e[j + 1]);
            } else if j + 1 < pre.len() {
                assert(w[j + 1] == pre[j + 1]);
            }
        }
    }
    crate::text::lemma_split_at_first(pre, sep, u + tick);
    crate::text::lemma_split_none(u + tick, sep);
    assert(split(name_part, sep) =~= seq![pre, u + tick]);
    assert(has_suffix(u + tick, tick)) by {
        assert((u + tick).subrange(u.len() as int, u.len() + 1int) =~= tick);
    }
    assert((u + tick).subrange(0, u.len() as int) =~= u);
    if u.len() > 0 {
        assert(u.last() != '`');
    }
    assert(!has_suffix(u, tick)) by {
        if has_suffix(u, tick) {
            assert(u.subrange(u.len() - 1, u.len() as int)[0] == u.last());
        }
    }
    assert(trim_end_all(u + tick, tick) == trim_end_all(u, tick));
    assert(trim_end_all(u, tick) == u);
    assert(trim_end_all(u, " (Archived)"@) == u);
    assert(!has_prefix(l1, "UUID: `"@)) by {
        if has_prefix(l1, "UUID: `"@) {
            assert(l1.subrange(0, 7)[0] == l1[0]);
        }
    }
    assert(has_prefix(l1, "## "@)) by {
        assert(l1.subrange(0, 3) =~= "## "@);
    }
    assert(!has_prefix(l1, "-# Originally: "@)) by {
        if has_prefix(l1, "-# Originally: "@) {
            assert(l1.subrange(0, 15)[0] == l1[0]);
        }
    }
    assert(!has_prefix(l1, "Review: "@)) by {
        if has_prefix(l1, "Review: "@) {
            assert(l1.subrange(0, 8)[0] == l1[0]);
        }
    }
    // The UUID line.
    let l2 = "UUID: `"@ + d + tick;
    assert(has_prefix(l2, "UUID: `"@)) by {
        assert(l2.subrange(0, 7) =~= "UUID: `"@);
    }
    assert(l2.subrange(7, l2.len() as int) =~= d + tick);
    assert(trim_start_all(d + tick, "UUID: `"@) == d + tick);
    assert(trim_start_all(l2, "UUID: `"@) == d + tick);
    assert(has_suffix(d + tick, tick)) by {
        assert((d + tick).subrange(d.len() as int, d.len() + 1int) =~= tick);
    }
    assert((d + tick).subrange(0, d.len() as int) =~= d);
    assert(!has_suffix(d, tick)) by {
        if has_suffix(d, tick) {
            assert(d.subrange(d.len() - 1, d.len() as int)[0] == d.last());
        }
    }
    assert(trim_end_all(d, tick) == d);
    assert(trim_end_all(d + tick, tick) == trim_end_all(d, tick));
    assert(!has_prefix(l2, "## "@)) by {
        if has_prefix(l2, "## "@) {
            assert(l2.subrange(0, 3)[0] == l2[0]);
        }
    }
    assert(!has_prefix(l2, "-# Originally: "@)) by {
        if has_prefix(l2, "-# Originally: "@) {
            assert(l2.subrange(0, 15)[0] == l2[0]);
        }
    }
    assert(!has_prefix(l2, "Review: "@)) by {
        if has_prefix(l2, "Review: "@) {
            assert(l2.subrange(0, 8)[1] == l2[1]);
        }
    }
    // The tag line.
    let l3 = "Tag: Confirmed Cheater (was: "@ + display_of(o) + ")"@;
    assert(!has_prefix(l3, "UUID: `"@)) by {
        if has_prefix(l3, "UUID: `"@) {
            assert(l3.subrange(0, 7)[0] == l3[0]);
        }
    }
    assert(!has_prefix(l3, "## "@)) by {
        if has_prefix(l3, "## "@) {
            assert(l3.subrange(0, 3)[0] == l3[0]);
        }
    }
    assert(!has_prefix(l3, "-# Originally: "@)) by {
        if has_prefix(l3, "-# Originally: "@) {
            assert(l3.subrange(0, 15)[0] == l3[0]);
        }
    }
    assert(!has_prefix(l3, "Review: "@)) by {
        if has_prefix(l3, "Review: "@) {
            assert(l3.subrange(0, 8)[0] == l3[0]);
        }
    }
    // The original-type line.
    let l4 = "-# Originally: "@ + o;
    assert(has_prefix(l4, "-# Originally: "@)) by {
        assert(l4.subrange(0, 15) =~= "-# Originally: "@);
    }
    assert(l4.subrange(15, l4.len() as int) =~= o);
    assert(!has_prefix(l4, "UUID: `"@)) by {
        if has_prefix(l4, "UUID: `"@) {
            assert(l4.subrange(0, 7)[0] == l4[0]);
        }
    }
    assert(!has_prefix(l4, "## "@)) by {
        if has_prefix(l4, "## "@) {
            assert(l4.subrange(0, 3)[0] == l4[0]);
        }
    }
    assert(!has_prefix(l4, "Review: "@)) by {
        if has_prefix(l4, "Review: "@) {
            assert(l4.subrange(0, 8)[0] == l4[0]);
        }
    }
    // The review line.
    let l5 = "Review: "@ + x;
    assert(has_prefix(l5, "Review: "@)) by {
        assert(l5.subrange(0, 8) =~= "Review: "@);
    }
    assert(l5.subrange(8, l5.len() as int) =~= x);
    assert(!has_prefix(l5, "UUID: `"@)) by {
        if has_prefix(l5, "UUID: `"@) {
            assert(l5.subrange(0, 7)[0] == l5[0]);
        }
    }
    assert(!has_prefix(l5, "## "@)) by {
        if has_prefix(l5, "## "@) {
            assert(l5.subrange(0, 3)[0] == l5[0]);
        }
    }
    assert(!has_prefix(l5, "-# Originally: "@)) by {
        if has_prefix(l5, "-# Originally: "@) {
            assert(l5.subrange(0, 15)[0] == l5[0]);
        }
    }
}

/// An evidence thread's header reads back as the record it was written from:
/// the player's name, the UUID without its dashes, the original type and the
/// review thread, trimmed, with no evidence yet. This holds for every name
/// without a newline or backquote that does not end with ` (Archived)` or
/// `` — `` before its closing backquote, every UUID text without a newline or
/// backquote that is not `UUID: ` and has a character other than a dash, every
/// original type without a newline or carriage return, and every review URL
/// without a newline.
pub proof fn lemma_evidence_header_roundtrip(
    text: String,
    username: Seq<char>,
    dashed_uuid: Seq<char>,
    original_type: Seq<char>,
    review_url: Option<Seq<char>>,
)
    requires
        text@ == evidence_header_spec(username, dashed_uuid, original_type, review_url),
        forall|i: int| 0 <= i < username.len() ==> #[trigger] username[i] != '\n' && username[i] != '`',
        !crate::text::contains(username + "`"@, " \u{2014} `"@),
        !has_suffix(username, " (Archived)"@),
        forall|i: int| 0 <= i < dashed_uuid.len() ==> #[trigger] dashed_uuid[i] != '\n' && dashed_uuid[i] != '`',
        !has_prefix(dashed_uuid + "`"@, "UUID: `"@),
        without(dashed_uuid, '-').len() > 0,
        forall|i: int| 0 <= i < original_type.len() ==> #[trigger] original_type[i] != '\n' && original_type[i] != '\r',
        review_url matches Some(x) ==> forall|i: int| 0 <= i < x.len() ==> #[trigger] x[i] != '\n',
    ensures
        parse_thread_spec(Some(seq![MessagePart::Text(Some(text))])) == Some(
            ThreadView {
                username,
                uuid: without(dashed_uuid, '-'),
                original_type: trim(original_type),
                evidence: Seq::empty(),
                review_url: match review_url {
                    Some(x) => Some(trim(x)),
                    None => None,
                },
            },
        ),
{
    lemma_header_lines(username, dashed_uuid, original_type, review_url);
    let x = match review_url {
        Some(x) => x,
        None => Seq::empty(),
    };
    lemma_header_fold(username, dashed_uuid, original_type, x, lines(text@), review_url is Some);
    let parts = seq![MessagePart::Text(Some(text))];
    assert(parts.drop_last() =~= Seq::<MessagePart>::empty());
    assert(thread_of(Seq::<MessagePart>::empty()) == empty_thread());
    assert(parts.last() == MessagePart::Text(Some(text)));
    assert(thread_of(parts) == after_thread_part(empty_thread(), MessagePart::Text(Some(text))));
}

/// Reading the lines of a header one by one fills in the record.
#[verifier::rlimit(40)]
proof fn lemma_header_fold(u: Seq<char>, d: Seq<char>, o: Seq<char>, x: Seq<char>, ls: Seq<Seq<char>>, with_review: bool)
    requires
        forall|i: int| 0 <= i < u.len() ==> #[trigger] u[i] != '`',
        !crate::text::contains(u + "`"@, " \u{2014} `"@),
        !has_suffix(u, " (Archived)"@),
        forall|i: int| 0 <= i < d.len() ==> #[trigger] d[i] != '`',
        !has_prefix(d + "`"@, "UUID: `"@),
        ls == (if with_review {
            seq![header_line_one(u), header_line_two(d), header_line_three(o), header_line_four(o), "Review: "@ + x]
        } else {
            seq![header_line_one(u), header_line_two(d), header_line_three(o), header_line_four(o)]
        }),
    ensures
        after_lines(empty_thread(), ls) == (ThreadView {
            username: u,
            uuid: without(d, '-'),
            original_type: trim(o),
            evidence: Seq::empty(),
            review_url: if with_review { Some(trim(x)) } else { None },
        }),
{
    let s0 = empty_thread();
    let s1 = ThreadView { username: u, ..s0 };
    let s2 = ThreadView { uuid: without(d, '-'), ..s1 };
    let s4 = ThreadView { original_type: trim(o), ..s2 };
    lemma_header_line_effects(s0, u, d, o, x);
    lemma_header_line_effects(s1, u, d, o, x);
    lemma_header_line_effects(s2, u, d, o, x);
    lemma_header_line_effects(s4, u, d, o, x);
    let p1 = seq![header_line_one(u)];
    let p2 = p1.push(header_line_two(d));
    let p3 = p2.push(header_line_three(o));
    let p4 = p3.push(header_line_four(o));
    assert(p1.drop_last() =~= Seq::<Seq<char>>::empty());
    assert(after_lines(s0, Seq::<Seq<char>>::empty()) == s0);
    assert(p1.last() == header_line_one(u));
    assert(after_lines(s0, p1) == s1);
    assert(p2.drop_last() =~= p1);
    assert(after_lines(s0, p2) == s2);
    assert(p3.drop_last() =~= p2);
    assert(after_lines(s0, p3) == s2);
    assert(p4.drop_last() =~= p3);
    assert(after_lines(s0, p4) == s4);
    if with_review {
        let p5 = p4.push("Review: "@ + x);
        assert(p5.drop_last() =~= p4);
        assert(ls =~= p5);
    } else {
        assert(ls =~= p4);
    }
}

/// The names uploads are stored under in an evidence thread: the player,
/// the upload's number after the files already there, and the extension of
/// the uploaded file's name.
pub open spec fn upload_names(username: Seq<char>, existing: nat, names: Seq<Seq<char>>) -> Seq<Seq<char>> {
    Seq::new(names.len(), |i: int| username + seq!['_'] + decimal((existing + i + 1) as nat) + seq!['.'] + url_extension_spec(names[i]))
}

/// The first upload to a thread upgrades the player's original tag to
/// confirmed cheater, when there was one and it was not that already.
pub open spec fn confirms_on_upload(st: ThreadView) -> bool {
    st.evidence.len() == 0 && st.original_type.len() > 0 && st.original_type != "confirmed_cheater"@
}

/// What an upload to an evidence thread comes to.
#[derive(Clone, Debug)]
pub struct EvidenceUpload {
    /// The names the uploads are stored under, in order.
    pub filenames: Vec<String>,
    /// Whether the player's original tag is now upgraded to confirmed cheater.
    pub confirm_original: bool,
}

/// Files uploaded to an evidence thread, given by their original names, are
/// numbered after the evidence already there and added to it. Nothing happens
/// when nothing was uploaded.
pub fn add_thread_uploads(state: &mut EvidenceThreadState, names: &[String]) -> (r: EvidenceUpload)
    requires
        old(state).evidence@.len() + names@.len() < u64::MAX,
    ensures
        r.filenames@.map_values(|f: String| f@) == upload_names(old(state)@.username, old(state)@.evidence.len(), names@.map_values(|n: String| n@)),
        final(state)@ == (ThreadView { evidence: old(state)@.evidence + upload_names(old(state)@.username, old(state)@.evidence.len(), names@.map_values(|n: String| n@)), ..old(state)@ }),
        r.confirm_original == (names@.len() > 0 && confirms_on_upload(old(state)@)),
{
    let ghost before = state@;
    let ghost ns = names@.map_values(|n: String| n@);
    let ghost want = upload_names(before.username, before.evidence.len(), ns);
    if names.len() == 0 {
        assert(want =~= Seq::<Seq<char>>::empty());
        assert(before.evidence + want =~= before.evidence);
        return EvidenceUpload { filenames: Vec::new(), confirm_original: false };
    }
    let existing = state.evidence.len();
    let confirm = existing == 0 && chars_of(state.original_type.as_str()).len() > 0 && !str_eq_chars_local(state.original_type.as_str(), "confirmed_cheater");
    let user = chars_of(state.username.as_str());
    let mut filenames: Vec<String> = Vec::new();
    let mut i: usize = 0;
    while i < names.len()
        invariant
            i <= names@.len(),
            existing == before.evidence.len(),
            existing + names@.len() < u64::MAX,
            user@ == before.username,
            ns == names@.map_values(|n: String| n@),
            want == upload_names(before.username, before.evidence.len(), ns),
            state@ == (ThreadView { evidence: before.evidence + filenames@.map_values(|f: String| f@), ..before }),
            filenames@.map_values(|f: String| f@) == want.subrange(0, i as int),
        decreases names@.len() - i,
    {
        let mut name: Vec<char> = Vec::new();
        push_chars(&mut name, &user);
        name.push('_');
        let num = decimal_exec(existing as u64 + i as u64 + 1);
        push_chars(&mut name, &num);
        name.push('.');
        let ext = url_extension(names[i].as_str());
        push_str(&mut name, ext.as_str());
        assert(ns[i as int] == names@[i as int]@);
        assert(name@ =~= want[i as int]);
        let f = string_from_chars(&name);
        let ghost fs_before = filenames@.map_values(|f: String| f@);
        let ghost ev_before = state@.evidence;
        let ghost fv = f@;
        filenames.push(f);
        assert(filenames@.map_values(|f: String| f@) =~= fs_before.push(fv));
        assert(filenames@.map_values(|f: String| f@) =~= want.subrange(0, i + 1));
        let g = string_from_chars(&name);
        state.evidence.push(g);
        assert(state@.evidence =~= ev_before.push(fv));
        assert(state@.evidence =~= before.evidence + filenames@.map_values(|f: String| f@));
        i = i + 1;
    }
    assert(want.subrange(0, names@.len() as int) =~= want);
    EvidenceUpload { filenames, confirm_original: confirm }
}

/// Whether a string equals a literal.
fn str_eq_chars_local(s: &str, t: &str) -> (r: bool)
    ensures
        r == (s@ == t@),
{
    chars_eq(&chars_of(s), &chars_of(t))
}

/// Why archiving an evidence thread is refused.
#[derive(Clone, Copy, Debug, PartialEq, Eq, Structural)]
pub enum ArchiveError {
    /// Only helpers and above archive evidence.
    NotHelper,
}

/// What archiving an evidence thread does.
#[derive(Clone, Debug)]
pub struct ArchivePlan {
    /// The tag type the player's confirmed cheater tag goes back to, if any.
    pub revert_to: Option<String>,
    /// The name the reverted tag is shown under in the archived header.
    pub reverted_display: String,
}

/// What archiving an evidence thread does: the confirmed cheater tag goes
/// back to the original type, when there was one other than confirmed
/// cheater, and the archived header shows that type.
pub open spec fn archive_outcome_ok(state: ThreadView, p: ArchivePlan) -> bool {
    &&& p.reverted_display@ == display_of(state.original_type)
    &&& match p.revert_to {
        Some(t) => t@ == state.original_type && state.original_type.len() > 0 && state.original_type != "confirmed_cheater"@,
        None => state.original_type.len() == 0 || state.original_type == "confirmed_cheater"@,
    }
}

/// What archiving an evidence thread does, whoever asked (a thread archived
/// along with its review is not asked about).
pub fn archive_outcome(state: &EvidenceThreadState) -> (r: ArchivePlan)
    ensures
        archive_outcome_ok(state@, r),
{
    let revert_to = if chars_of(state.original_type.as_str()).len() > 0 && !str_eq_chars_local(state.original_type.as_str(), "confirmed_cheater") {
        Some(string_from_chars(&chars_of(state.original_type.as_str())))
    } else {
        None
    };
    let mut d: Vec<char> = Vec::new();
    push_display(&mut d, state.original_type.as_str());
    ArchivePlan { revert_to, reverted_display: string_from_chars(&d) }
}

/// Archiving an evidence thread from its button: refused below helper.
pub fn plan_archive(rank: AccessRank, state: &EvidenceThreadState) -> (r: Result<ArchivePlan, ArchiveError>)
    ensures
        rank_level(rank) < 2 ==> r == Err::<ArchivePlan, ArchiveError>(ArchiveError::NotHelper),
        rank_level(rank) >= 2 ==> (r matches Ok(p) && archive_outcome_ok(state@, p)),
{
    if !rank.at_least(AccessRank::Helper) {
        return Err(ArchiveError::NotHelper);
    }
    Ok(archive_outcome(state))
}

/// Why removing evidence from a thread is refused.
#[derive(Clone, Copy, Debug, PartialEq, Eq, Structural)]
pub enum RemoveEvidenceError {
    /// Only helpers and above remove evidence.
    NotHelper,
    /// No evidence has that number.
    InvalidIndex,
}

/// Removes the evidence chosen in the removal menu (`choice`, the first
/// selected value; a value that is not a number picks the first evidence)
/// and returns the removed file's name.
pub fn remove_thread_evidence(rank: AccessRank, state: &mut EvidenceThreadState, choice: Option<&str>) -> (r: Result<String, RemoveEvidenceError>)
    ensures
        rank_level(rank) < 2 ==> r == Err::<String, RemoveEvidenceError>(RemoveEvidenceError::NotHelper),
        ({
            let idx: int = match choice {
                Some(c) => match parse_usize_spec(c@) {
                    Some(n) => n as int,
                    None => 0,
                },
                None => 0,
            };
            &&& rank_level(rank) >= 2 && idx >= old(state)@.evidence.len() ==> r == Err::<String, RemoveEvidenceError>(RemoveEvidenceError::InvalidIndex)
            &&& rank_level(rank) >= 2 && idx < old(state)@.evidence.len() ==> (r matches Ok(f) && f@ == old(state)@.evidence[idx]
                && final(state)@ == (ThreadView { evidence: old(state)@.evidence.remove(idx), ..old(state)@ }))
        }),
        r is Err ==> final(state)@ == old(state)@,
{
    if !rank.at_least(AccessRank::Helper) {
        return Err(RemoveEvidenceError::NotHelper);
    }
    let idx: usize = match choice {
        Some(c) => match parse_usize_exec(&chars_of(c)) {
            Some(n) => n,
            None => 0,
        },
        None => 0,
    };
    if idx >= state.evidence.len() {
        return Err(RemoveEvidenceError::InvalidIndex);
    }
    let ghost before = state@;
    let removed = state.evidence.remove(idx);
    assert(state@.evidence =~= before.evidence.remove(idx as int));
    Ok(removed)
}

/// The thread a thread link points to: the number after its last `/`.
pub fn thread_id_of_url(url: &str) -> (r: Option<u64>)
    ensures
        r == parse_u64_spec(last_piece(url@, seq!['/'])),
{
    let last = last_piece_exec(&chars_of(url), &['/']);
    assert(seq!['/'] =~= ['/']@);
    parse_u64_exec(&last)
}

/// The tag types a player must carry for an evidence thread to be opened.
pub open spec fn qualifies(tag_type: Seq<char>) -> bool {
    tag_type == "closet_cheater"@ || tag_type == "blatant_cheater"@ || tag_type == "confirmed_cheater"@
}

/// The first of a player's tags that lets an evidence thread be opened.
pub fn qualifying_tag(tags: &[PlayerTagRow]) -> (r: Option<usize>)
    ensures
        match r {
            Some(i) => i < tags@.len() && qualifies(tags@[i as int].tag_type@) && forall|j: int|
                0 <= j < i ==> !qualifies(tags@[j].tag_type@),
            None => forall|j: int| 0 <= j < tags@.len() ==> !qualifies(tags@[j].tag_type@),
        },
{
    let mut i: usize = 0;
    while i < tags.len()
        invariant
            i <= tags@.len(),
            forall|j: int| 0 <= j < i ==> !qualifies(tags@[j].tag_type@),
        decreases tags@.len() - i,
    {
        let t = tags[i].tag_type.as_str();
        if str_eq_chars_local(t, "closet_cheater") || str_eq_chars_local(t, "blatant_cheater") || str_eq_chars_local(t, "confirmed_cheater") {
            return Some(i);
        }
        i = i + 1;
    }
    None
}

/// The link to a thread: `https://discord.com/channels/{guild}/{thread}`.
pub fn thread_url(guild_id: u64, thread_id: u64) -> (r: String)
    ensures
        r@ == "https://discord.com/channels/"@ + decimal(guild_id as nat) + "/"@ + decimal(thread_id as nat),
{
    let mut out: Vec<char> = Vec::new();
    push_str(&mut out, "https://discord.com/channels/");
    let g = decimal_exec(guild_id);
    push_chars(&mut out, &g);
    push_str(&mut out, "/");
    let t = decimal_exec(thread_id);
    push_chars(&mut out, &t);
    string_from_chars(&out)
}

/// The thread a link made by `thread_url` points to is the thread it was made
/// for.
pub proof fn lemma_thread_url_roundtrip(guild_id: u64, thread_id: u64)
    ensures
        parse_u64_spec(last_piece("https://discord.com/channels/"@ + decimal(guild_id as nat) + "/"@ + decimal(thread_id as nat), seq!['/']))
            == Some(thread_id),
{
    reveal_strlit("https://discord.com/channels/");
    reveal_strlit("/");
    let x = "https://discord.com/channels/"@ + decimal(guild_id as nat);
    lemma_decimal_parses(thread_id as nat);
    let d = decimal(thread_id as nat);
    assert forall|i: int| 0 <= i < d.len() implies #[trigger] d[i] != '/' by {
        assert(is_digit(d[i]));
    }
    assert(x + "/"@ + decimal(thread_id as nat) =~= x + seq!['/'] + decimal(thread_id as nat));
    lemma_last_piece_after(x, '/', decimal(thread_id as nat));
}

} // verus!
