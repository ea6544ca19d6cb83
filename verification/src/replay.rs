//! Replay references: the `/replay <id> [#timestamp]` command, its parsing from
//! free text, and the identifier shapes it relies on.
use vstd::prelude::*;
use crate::text::{
    chars_of, is_hex, is_hex_exec, is_ws, push_chars, push_str, string_from_chars, trim, trim_end,
    trim_exec, trim_start, views, word_len, words, words_exec,
};

verus! {

/// A reference to a replay: its identifier and, optionally, a `#timestamp` within it.
#[derive(Clone, Debug)]
pub struct Replay {
    pub id: String,
    pub timestamp: Option<String>,
}

/// The abstract content of a replay reference.
pub struct ReplayView {
    pub id: Seq<char>,
    pub timestamp: Option<Seq<char>>,
}

impl View for Replay {
    type V = ReplayView;

    open spec fn view(&self) -> ReplayView {
        ReplayView {
            id: self.id@,
            timestamp: match self.timestamp {
                Some(t) => Some(t@),
                None => None,
            },
        }
    }
}

/// A dashed UUID: 36 characters, hexadecimal digits in groups of 8, 4, 4, 4 and
/// 12, separated by dashes at positions 8, 13, 18 and 23.
pub open spec fn dash_position(i: int) -> bool {
    i == 8 || i == 13 || i == 18 || i == 23
}

/// `s` is a dashed UUID.
pub open spec fn is_dashed_uuid_spec(s: Seq<char>) -> bool {
    &&& s.len() == 36
    &&& forall|i: int|
        0 <= i < 36 ==> (if dash_position(i) {
            s[i] == '-'
        } else {
            is_hex(#[trigger] s[i])
        })
}

/// `s` has 32 hexadecimal digits once its dashes are removed.
pub open spec fn looks_like_uuid_spec(s: Seq<char>) -> bool {
    let d = s.filter(|c: char| c != '-');
    d.len() == 32 && forall|i: int| 0 <= i < d.len() ==> is_hex(#[trigger] d[i])
}

/// A word that marks a timestamp: `#` followed by at least one more character.
pub open spec fn is_timestamp_word(w: Seq<char>) -> bool {
    w.len() > 1 && w[0] == '#'
}

/// The first word that is a dashed UUID.
pub open spec fn first_uuid_word(ws: Seq<Seq<char>>) -> Option<Seq<char>>
    decreases ws.len(),
{
    if ws.len() == 0 {
        None
    } else if is_dashed_uuid_spec(ws[0]) {
        Some(ws[0])
    } else {
        first_uuid_word(ws.drop_first())
    }
}

/// The first word that is a timestamp.
pub open spec fn first_timestamp_word(ws: Seq<Seq<char>>) -> Option<Seq<char>>
    decreases ws.len(),
{
    if ws.len() == 0 {
        None
    } else if is_timestamp_word(ws[0]) {
        Some(ws[0])
    } else {
        first_timestamp_word(ws.drop_first())
    }
}

/// The replay reference found in free text: the first dashed-UUID word, with
/// the first timestamp word if there is one.
pub open spec fn parse_replay_spec(input: Seq<char>) -> Option<ReplayView> {
    let ws = words(trim(input));
    match first_uuid_word(ws) {
        Some(id) => Some(ReplayView { id, timestamp: first_timestamp_word(ws) }),
        None => None,
    }
}

/// The chat command that opens a replay.
pub open spec fn format_command_spec(r: ReplayView) -> Seq<char> {
    match r.timestamp {
        Some(ts) => "/replay "@ + r.id + " "@ + ts,
        None => "/replay "@ + r.id,
    }
}

/// `s` is a dashed UUID (`8-4-4-4-12` hexadecimal groups).
pub fn is_dashed_uuid(s: &str) -> (r: bool)
    ensures
        r == is_dashed_uuid_spec(s@),
{
    let cs = chars_of(s);
    is_dashed_uuid_chars(&cs)
}

/// `is_dashed_uuid` over characters.
pub fn is_dashed_uuid_chars(cs: &[char]) -> (r: bool)
    ensures
        r == is_dashed_uuid_spec(cs@),
{
    if cs.len() != 36 {
        return false;
    }
    let mut i: usize = 0;
    while i < 36
        invariant
            i <= 36,
            cs@.len() == 36,
            forall|j: int|
                0 <= j < i ==> (if dash_position(j) {
                    cs@[j] == '-'
                } else {
                    is_hex(#[trigger] cs@[j])
                }),
        decreases 36 - i,
    {
        let c = cs[i];
        if i == 8 || i == 13 || i == 18 || i == 23 {
            if c != '-' {
                return false;
            }
        } else if !is_hex_exec(c) {
            return false;
        }
        i = i + 1;
    }
    true
}

/// `s` is a UUID written with or without dashes: 32 hexadecimal digits once
/// dashes are removed.
pub fn looks_like_uuid(s: &str) -> (r: bool)
    ensures
        r == looks_like_uuid_spec(s@),
{
    let cs = chars_of(s);
    let mut d: Vec<char> = Vec::new();
    let mut i: usize = 0;
    assert(cs@.subrange(0, 0).filter(|c: char| c != '-') =~= Seq::<char>::empty());
    while i < cs.len()
        invariant
            i <= cs@.len(),
            d@ == cs@.subrange(0, i as int).filter(|c: char| c != '-'),
        decreases cs@.len() - i,
    {
        let ghost pre = cs@.subrange(0, i as int);
        assert(cs@.subrange(0, i + 1) =~= pre.push(cs@[i as int]));
        proof {
            pre.lemma_filter_push(cs@[i as int], |c: char| c != '-');
        }
        if cs[i] != '-' {
            d.push(cs[i]);
        }
        i = i + 1;
    }
    assert(cs@.subrange(0, cs@.len() as int) =~= cs@);
    if d.len() != 32 {
        return false;
    }
    let mut j: usize = 0;
    while j < d.len()
        invariant
            j <= d@.len(),
            d@ == cs@.filter(|c: char| c != '-'),
            cs@ == s@,
            forall|k: int| 0 <= k < j ==> is_hex(#[trigger] d@[k]),
        decreases d@.len() - j,
    {
        if !is_hex_exec(d[j]) {
            return false;
        }
        j = j + 1;
    }
    true
}

impl Replay {
    /// The chat command that opens this replay: `/replay <id>`, followed by the
    /// timestamp when there is one.
    pub fn format_command(&self) -> (r: String)
        ensures
            r@ == format_command_spec(self@),
    {
        let mut out: Vec<char> = Vec::new();
        push_str(&mut out, "/replay ");
        push_str(&mut out, self.id.as_str());
        match &self.timestamp {
            Some(ts) => {
                push_str(&mut out, " ");
                push_str(&mut out, ts.as_str());
            },
            None => {},
        }
        string_from_chars(&out)
    }
}

/// Finds a replay reference in free text: the first word that is a dashed UUID
/// is the identifier, and the first word of the form `#...` (at least two
/// characters) is the timestamp. `None` when no word is a dashed UUID.
pub fn parse_replay(input: &str) -> (r: Option<Replay>)
    ensures
        r matches Some(rep) ==> parse_replay_spec(input@) == Some(rep@),
        r is None ==> parse_replay_spec(input@) is None,
{
    let cs = chars_of(input);
    let trimmed = trim_exec(&cs);
    parse_replay_chars(&trimmed)
}

/// `parse_replay` over already trimmed characters.
fn parse_replay_chars(cs: &[char]) -> (r: Option<Replay>)
    ensures
        r matches Some(rep) ==> first_uuid_word(words(cs@)) == Some(rep@.id)
            && rep@.timestamp == first_timestamp_word(words(cs@)),
        r is None ==> first_uuid_word(words(cs@)) is None,
{
    let ws = words_exec(cs);
    let ghost wv = views(ws@);
    let mut i: usize = 0;
    let mut id_idx: Option<usize> = None;
    assert(wv.subrange(0, wv.len() as int) =~= wv);
    while i < ws.len()
        invariant
            i <= ws@.len(),
            wv == views(ws@),
            id_idx is None ==> first_uuid_word(wv) == first_uuid_word(wv.subrange(i as int, wv.len() as int)),
            id_idx matches Some(k) ==> k < ws@.len() && first_uuid_word(wv) == Some(wv[k as int]),
        decreases ws@.len() - i,
    {
        if id_idx.is_none() {
            let ghost sub = wv.subrange(i as int, wv.len() as int);
            assert(sub[0] == ws@[i as int]@);
            assert(sub.drop_first() =~= wv.subrange(i + 1, wv.len() as int));
            if is_dashed_uuid_chars(&ws[i]) {
                id_idx = Some(i);
            }
        }
        i = i + 1;
    }
    match id_idx {
        None => {
            assert(wv.subrange(wv.len() as int, wv.len() as int) =~= Seq::<Seq<char>>::empty());
            None
        },
        Some(k) => {
            let id = string_from_chars(&ws[k]);
            let mut j: usize = 0;
            let mut ts: Option<String> = None;
            let mut found = false;
            assert(wv.subrange(0, wv.len() as int) =~= wv);
            while j < ws.len()
                invariant
                    j <= ws@.len(),
                    wv == views(ws@),
                    !found ==> ts is None && first_timestamp_word(wv) == first_timestamp_word(
                        wv.subrange(j as int, wv.len() as int),
                    ),
                    found ==> (ts matches Some(t) && first_timestamp_word(wv) == Some(t@)),
                decreases ws@.len() - j,
            {
                if !found {
                    let ghost sub = wv.subrange(j as int, wv.len() as int);
                    assert(sub[0] == ws@[j as int]@);
                    assert(sub.drop_first() =~= wv.subrange(j + 1, wv.len() as int));
                    let w = &ws[j];
                    if w.len() > 1 && w[0] == '#' {
                        ts = Some(string_from_chars(w));
                        found = true;
                    }
                }
                j = j + 1;
            }
            if !found {
                assert(wv.subrange(wv.len() as int, wv.len() as int) =~= Seq::<Seq<char>>::empty());
            }
            Some(Replay { id, timestamp: ts })
        },
    }
}

// ---------------------------------------------------------------------------
// Laws
// ---------------------------------------------------------------------------

/// A word followed by whitespace (or by nothing) splits off as the first word.
pub proof fn lemma_words_lead(w: Seq<char>, rest: Seq<char>)
    requires
        w.len() > 0,
        forall|i: int| 0 <= i < w.len() ==> !is_ws(#[trigger] w[i]),
        rest.len() == 0 || is_ws(rest[0]),
    ensures
        words(w + rest) == seq![w] + words(rest),
    decreases w.len(),
{
    lemma_word_len_lead(w, rest);
    let s = w + rest;
    assert(s.subrange(0, w.len() as int) =~= w);
    assert(s.subrange(w.len() as int, s.len() as int) =~= rest);
}

/// The leading word of `w + rest` is exactly `w`.
proof fn lemma_word_len_lead(w: Seq<char>, rest: Seq<char>)
    requires
        forall|i: int| 0 <= i < w.len() ==> !is_ws(#[trigger] w[i]),
        rest.len() == 0 || is_ws(rest[0]),
    ensures
        word_len(w + rest) == w.len(),
    decreases w.len(),
{
    if w.len() == 0 {
        assert(w + rest =~= rest);
    } else {
        let t = w.drop_first();
        assert forall|i: int| 0 <= i < t.len() implies !is_ws(#[trigger] t[i]) by {
            assert(t[i] == w[i + 1]);
        }
        lemma_word_len_lead(t, rest);
        assert((w + rest).drop_first() =~= t + rest);
    }
}

/// A leading whitespace character does not start a word.
pub proof fn lemma_words_skip_ws(c: char, rest: Seq<char>)
    requires
        is_ws(c),
    ensures
        words(seq![c] + rest) == words(rest),
{
    assert((seq![c] + rest).drop_first() =~= rest);
}

/// Text that neither starts nor ends with whitespace is its own trim.
pub proof fn lemma_trim_identity(s: Seq<char>)
    requires
        s.len() > 0,
        !is_ws(s[0]),
        !is_ws(s.last()),
    ensures
        trim(s) == s,
{
}

/// Formatting a replay command and parsing it back gives the same replay, for
/// every well-formed replay: a dashed-UUID identifier and, if present, a
/// whitespace-free timestamp of the form `#...`.
pub proof fn lemma_parse_format_roundtrip(r: ReplayView)
    requires
        is_dashed_uuid_spec(r.id),
        r.timestamp matches Some(t) ==> is_timestamp_word(t) && forall|i: int|
            0 <= i < t.len() ==> !is_ws(#[trigger] t[i]),
    ensures
        parse_replay_spec(format_command_spec(r)) == Some(r),
{
    reveal_strlit("/replay ");
    reveal_strlit(" ");
    reveal_strlit("/replay");
    let cmd: Seq<char> = "/replay"@;
    let sp: Seq<char> = " "@;
    assert(sp == seq![' ']);
    assert(cmd.len() == 7);
    assert(forall|i: int| 0 <= i < cmd.len() ==> !is_ws(#[trigger] cmd[i]));
    assert("/replay "@ == cmd + sp);
    assert forall|i: int| 0 <= i < r.id.len() implies !is_ws(#[trigger] r.id[i]) by {
        if dash_position(i) {
        } else {
            assert(is_hex(r.id[i]));
        }
    }
    assert(!is_dashed_uuid_spec(cmd));
    assert(r.id[0] != '#') by {
        assert(is_hex(r.id[0]));
    }
    match r.timestamp {
        Some(t) => {
            let s = format_command_spec(r);
            assert(s =~= cmd + (sp + (r.id + (sp + t))));
            lemma_words_lead(t, Seq::<char>::empty());
            assert(t + Seq::<char>::empty() =~= t);
            assert(words(Seq::<char>::empty()) =~= Seq::<Seq<char>>::empty());
            lemma_words_skip_ws(' ', t);
            lemma_words_lead(r.id, sp + t);
            lemma_words_skip_ws(' ', r.id + (sp + t));
            lemma_words_lead(cmd, sp + (r.id + (sp + t)));
            let ws = words(s);
            assert(words(t) =~= seq![t]);
            assert(words(sp + t) == seq![t]);
            assert(words(r.id + (sp + t)) =~= seq![r.id, t]);
            assert(words(sp + (r.id + (sp + t))) =~= seq![r.id, t]);
            assert(ws =~= seq![cmd, r.id, t]);
            assert(s[0] == '/');
            assert(s.last() == t.last());
            lemma_trim_identity(s);
            assert(ws.drop_first() =~= seq![r.id, t]);
            assert(ws.drop_first().drop_first() =~= seq![t]);
            assert(seq![t].drop_first() =~= Seq::<Seq<char>>::empty());
            assert(trim(s) == s);
            assert(first_uuid_word(ws.drop_first()) == Some(r.id));
            assert(first_uuid_word(ws) == Some(r.id));
            assert(!is_timestamp_word(cmd));
            assert(!is_timestamp_word(r.id));
            assert(first_timestamp_word(ws.drop_first().drop_first()) == Some(t));
            assert(first_timestamp_word(ws.drop_first()) == Some(t));
        },
        None => {
            let s = format_command_spec(r);
            assert(s =~= cmd + (sp + r.id));
            lemma_words_lead(r.id, Seq::<char>::empty());
            assert(r.id + Seq::<char>::empty() =~= r.id);
            assert(words(Seq::<char>::empty()) =~= Seq::<Seq<char>>::empty());
            lemma_words_skip_ws(' ', r.id);
            lemma_words_lead(cmd, sp + r.id);
            let ws = words(s);
            assert(ws =~= seq![cmd, r.id]);
            assert(s[0] == '/');
            assert(s.last() == r.id.last());
            assert(!is_ws(r.id.last()));
            lemma_trim_identity(s);
            assert(ws.drop_first() =~= seq![r.id]);
            assert(seq![r.id].drop_first() =~= Seq::<Seq<char>>::empty());
            assert(first_uuid_word(ws.drop_first()) == Some(r.id));
            assert(!is_timestamp_word(cmd));
            assert(!is_timestamp_word(r.id));
            assert(first_timestamp_word(ws.drop_first().drop_first()) is None);
            assert(first_timestamp_word(ws.drop_first()) is None);
        },
    }
}

/// Dropping the dashes from a run of characters that holds none leaves it as
/// it is.
proof fn lemma_undashed_run(s: Seq<char>)
    requires
        forall|i: int| 0 <= i < s.len() ==> #[trigger] s[i] != '-',
    ensures
        s.filter(|c: char| c != '-') == s,
    decreases s.len(),
{
    reveal(Seq::filter);
    if s.len() > 0 {
        lemma_undashed_run(s.drop_last());
        assert(s.drop_last().push(s.last()) =~= s);
    }
}

/// Every dashed UUID also looks like a UUID: dropping its four dashes leaves
/// its 32 hexadecimal digits.
pub proof fn lemma_dashed_uuid_looks_like_uuid(s: Seq<char>)
    requires
        is_dashed_uuid_spec(s),
    ensures
        looks_like_uuid_spec(s),
{
    let p = |c: char| c != '-';
    let dash = seq!['-'];
    let g0 = s.subrange(0, 8);
    let g1 = s.subrange(9, 13);
    let g2 = s.subrange(14, 18);
    let g3 = s.subrange(19, 23);
    let g4 = s.subrange(24, 36);
    assert(forall|i: int| 0 <= i < 36 && !dash_position(i) ==> is_hex(#[trigger] s[i]));
    assert forall|i: int| 0 <= i < 36 && !dash_position(i) implies #[trigger] s[i] != '-' by {
        assert(is_hex(s[i]));
    }
    assert forall|i: int| 0 <= i < 36 && dash_position(i) implies #[trigger] s[i] == '-' by {}
    assert(s =~= g0 + dash + g1 + dash + g2 + dash + g3 + dash + g4);
    lemma_undashed_run(g0);
    lemma_undashed_run(g1);
    lemma_undashed_run(g2);
    lemma_undashed_run(g3);
    lemma_undashed_run(g4);
    reveal(Seq::filter);
    assert(dash.drop_last() =~= Seq::<char>::empty());
    assert(Seq::<char>::empty().filter(p) =~= Seq::<char>::empty());
    assert(dash.last() == '-');
    assert(dash.filter(p) =~= Seq::<char>::empty());
    Seq::filter_distributes_over_add(g0 + dash + g1 + dash + g2 + dash + g3 + dash, g4, p);
    Seq::filter_distributes_over_add(g0 + dash + g1 + dash + g2 + dash + g3, dash, p);
    Seq::filter_distributes_over_add(g0 + dash + g1 + dash + g2 + dash, g3, p);
    Seq::filter_distributes_over_add(g0 + dash + g1 + dash + g2, dash, p);
    Seq::filter_distributes_over_add(g0 + dash + g1 + dash, g2, p);
    Seq::filter_distributes_over_add(g0 + dash + g1, dash, p);
    Seq::filter_distributes_over_add(g0 + dash, g1, p);
    Seq::filter_distributes_over_add(g0, dash, p);
    let d = s.filter(p);
    assert(d =~= g0 + g1 + g2 + g3 + g4);
    assert forall|i: int| 0 <= i < d.len() implies is_hex(#[trigger] d[i]) by {
        if i < 8 {
            assert(d[i] == s[i]);
        } else if i < 12 {
            assert(d[i] == s[i + 1]);
        } else if i < 16 {
            assert(d[i] == s[i + 2]);
        } else if i < 20 {
            assert(d[i] == s[i + 3]);
        } else {
            assert(d[i] == s[i + 4]);
        }
    }
}

} // verus!
