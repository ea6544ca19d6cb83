//! The bodies the API answers with: a player's tags, the Cubelify overlay's
//! tags and score, a guild with the requested member, a resolved player, and
//! the outcome of checking a player's Discord link.
use vstd::prelude::*;
use crate::clock::{millis_readable, millis_rfc3339, readable_or_empty, rfc3339_or_empty};
use crate::review::opt_view;
use crate::tags::{lookup, lookup_spec, TagDefinition};
use crate::text::{chars_of, push_chars, push_str, string_from_chars};

verus! {

// ---------------------------------------------------------------------------
// Tags
// ---------------------------------------------------------------------------

/// A stored blacklist tag; `added_on_millis` is when it was added, in
/// milliseconds since the Unix epoch, and `reviewed_by` lists the staff who
/// approved it through review.
#[derive(Clone, Debug)]
pub struct PlayerTagRow {
    pub id: i64,
    pub tag_type: String,
    pub reason: String,
    pub added_by: i64,
    pub added_on_millis: i64,
    pub hide_username: bool,
    pub reviewed_by: Option<Vec<i64>>,
}

/// A tag as the API returns it; `added_on` is RFC 3339 text.
#[derive(Clone, Debug)]
pub struct TagResponse {
    pub id: i64,
    pub tag_type: String,
    pub reason: String,
    pub added_by: i64,
    pub added_on: String,
    pub hide_username: bool,
}

/// The answer for a player's tags.
#[derive(Clone, Debug)]
pub struct PlayerTagsResponse {
    pub uuid: String,
    pub tags: Vec<TagResponse>,
}

/// `t` is the API form of the stored tag `row`.
pub open spec fn answers_row(t: TagResponse, row: PlayerTagRow) -> bool {
    &&& t.id == row.id
    &&& t.tag_type@ == row.tag_type@
    &&& t.reason@ == row.reason@
    &&& t.added_by == row.added_by
    &&& t.added_on@ == rfc3339_or_empty(row.added_on_millis)
    &&& t.hide_username == row.hide_username
}

impl TagResponse {
    /// The API form of a stored tag.
    pub fn from_db(tag: &PlayerTagRow) -> (r: TagResponse)
        ensures
            answers_row(r, *tag),
    {
        TagResponse {
            id: tag.id,
            tag_type: string_from_chars(&chars_of(tag.tag_type.as_str())),
            reason: string_from_chars(&chars_of(tag.reason.as_str())),
            added_by: tag.added_by,
            added_on: millis_rfc3339(tag.added_on_millis),
            hide_username: tag.hide_username,
        }
    }
}

/// The answer for the tags of player `uuid`: each stored tag in its API form,
/// in the stored order.
pub fn player_tags_response(uuid: String, rows: &[PlayerTagRow]) -> (r: PlayerTagsResponse)
    ensures
        r.uuid@ == uuid@,
        r.tags@.len() == rows@.len(),
        forall|i: int| 0 <= i < rows@.len() ==> answers_row(#[trigger] r.tags@[i], rows@[i]),
{
    let mut tags: Vec<TagResponse> = Vec::new();
    let mut i: usize = 0;
    while i < rows.len()
        invariant
            i <= rows@.len(),
            tags@.len() == i,
            forall|j: int| 0 <= j < i ==> answers_row(#[trigger] tags@[j], rows@[j]),
        decreases rows@.len() - i,
    {
        tags.push(TagResponse::from_db(&rows[i]));
        i = i + 1;
    }
    PlayerTagsResponse { uuid, tags }
}

/// A player resolved from a name or UUID.
#[derive(Clone, Debug)]
pub struct ResolveResponse {
    pub uuid: String,
    pub username: String,
}

// ---------------------------------------------------------------------------
// Cubelify overlay
// ---------------------------------------------------------------------------

/// One tag shown by the overlay.
#[derive(Clone, Debug)]
pub struct CubelifyTag {
    pub icon: String,
    pub color: u32,
    pub tooltip: String,
    pub text: Option<String>,
}

/// The overlay's score; `value_tenths` is the score in tenths of a point, and
/// `mode` says how the overlay combines it with its own.
#[derive(Clone, Debug)]
pub struct CubelifyScore {
    pub value_tenths: u64,
    pub mode: &'static str,
}

/// The overlay's answer for a player.
#[derive(Clone, Debug)]
pub struct CubelifyResponse {
    pub score: CubelifyScore,
    pub tags: Vec<CubelifyTag>,
}

/// The content of an overlay tag.
pub struct CubelifyTagView {
    pub icon: Seq<char>,
    pub color: u32,
    pub tooltip: Seq<char>,
    pub text: Option<Seq<char>>,
}

impl View for CubelifyTag {
    type V = CubelifyTagView;

    open spec fn view(&self) -> CubelifyTagView {
        CubelifyTagView {
            icon: self.icon@,
            color: self.color,
            tooltip: self.tooltip@,
            text: opt_view(self.text),
        }
    }
}

/// The upper-case mapping of `c`, as `char::to_uppercase` yields it.
pub uninterp spec fn upper_chars(c: char) -> Seq<char>;

/// The upper-case mapping of a character.
///
/// Trusted: collects `char::to_uppercase`. Its result is only named, except
/// that std documents the ASCII letters `a` to `z` as mapping to `A` to `Z`,
/// and the other ASCII characters as having no upper-case mapping of their own,
/// so they map to themselves.
#[verifier::external_body]
fn uppercase_of(c: char) -> (r: Vec<char>)
    ensures
        r@ == upper_chars(c),
        'a' <= c <= 'z' ==> r@ == seq![((c as u32) - 32) as char],
        (c as u32) < 128 && !('a' <= c <= 'z') ==> r@ == seq![c],
{
    c.to_uppercase().collect()
}

/// `s` with its first character in upper case.
pub open spec fn capitalized(s: Seq<char>) -> Seq<char> {
    if s.len() == 0 {
        s
    } else {
        upper_chars(s[0]) + s.subrange(1, s.len() as int)
    }
}

/// `s` with its first character in upper case, where that character is
/// ASCII: a letter `a` to `z` becomes `A` to `Z`, anything else stays.
pub open spec fn ascii_capitalized(s: Seq<char>) -> Seq<char> {
    if s.len() > 0 && 'a' <= s[0] <= 'z' {
        seq![((s[0] as u32) - 32) as char] + s.subrange(1, s.len() as int)
    } else {
        s
    }
}

/// The first character of `s`, if any, is ASCII.
pub open spec fn starts_ascii(s: Seq<char>) -> bool {
    s.len() == 0 || (s[0] as u32) < 128
}

/// Puts the first character of `s` in upper case; an ASCII first character
/// is put in upper case as `ascii_capitalized` says.
pub fn capitalize(s: &str) -> (r: String)
    ensures
        r@ == capitalized(s@),
        starts_ascii(s@) ==> r@ == ascii_capitalized(s@),
{
    let cs = chars_of(s);
    if cs.len() == 0 {
        return String::new();
    }
    let mut out = uppercase_of(cs[0]);
    assert(cs@ =~= seq![cs@[0]] + cs@.subrange(1, cs@.len() as int));
    let mut i: usize = 1;
    let ghost start = out@;
    while i < cs.len()
        invariant
            1 <= i <= cs@.len(),
            out@ == start + cs@.subrange(1, i as int),
        decreases cs@.len() - i,
    {
        out.push(cs[i]);
        i = i + 1;
        assert(out@ =~= start + cs@.subrange(1, i as int));
    }
    string_from_chars(&out)
}

/// The tooltip of an overlay tag: the capitalised tag name, followed by
/// `: ` and the reason when there is one.
pub open spec fn tooltip_text(tag_name: Seq<char>, reason: Seq<char>) -> Seq<char> {
    if reason.len() == 0 {
        capitalized(tag_name)
    } else {
        capitalized(tag_name) + seq![':', ' '] + reason
    }
}

/// The tooltip of an overlay tag; for a tag name that starts with an ASCII
/// character, its first letter is put in upper case as `ascii_capitalized`
/// says.
pub fn build_tooltip(tag_name: &str, reason: &str) -> (r: String)
    ensures
        r@ == tooltip_text(tag_name@, reason@),
        starts_ascii(tag_name@) ==> r@ == (if reason@.len() == 0 {
            ascii_capitalized(tag_name@)
        } else {
            ascii_capitalized(tag_name@) + seq![':', ' '] + reason@
        }),
{
    let name = capitalize(tag_name);
    let rs = chars_of(reason);
    if rs.len() == 0 {
        return name;
    }
    let mut out = chars_of(name.as_str());
    out.push(':');
    out.push(' ');
    push_chars(&mut out, &rs);
    string_from_chars(&out)
}

/// The overlay tag for a stored tag, where its type is in the catalogue.
pub open spec fn overlay_tag(row: PlayerTagRow) -> Option<CubelifyTagView> {
    match lookup_spec(row.tag_type@) {
        Some(d) => Some(
            CubelifyTagView {
                icon: d.icon@,
                color: d.color,
                tooltip: tooltip_text(d.name@, row.reason@),
                text: None,
            },
        ),
        None => None,
    }
}

/// The overlay tags for stored tags, in order; tags of unknown type are left out.
pub open spec fn overlay_tags(rows: Seq<PlayerTagRow>) -> Seq<CubelifyTagView>
    decreases rows.len(),
{
    if rows.len() == 0 {
        Seq::empty()
    } else {
        match overlay_tag(rows.last()) {
            Some(t) => overlay_tags(rows.drop_last()).push(t),
            None => overlay_tags(rows.drop_last()),
        }
    }
}

/// The score, in tenths of a point, of one stored tag; unknown types score nothing.
pub open spec fn row_score(row: PlayerTagRow) -> nat {
    match lookup_spec(row.tag_type@) {
        Some(d) => d.score_tenths as nat,
        None => 0,
    }
}

/// The summed score, in tenths of a point, of stored tags.
pub open spec fn rows_score(rows: Seq<PlayerTagRow>) -> nat
    decreases rows.len(),
{
    if rows.len() == 0 {
        0
    } else {
        rows_score(rows.drop_last()) + row_score(rows.last())
    }
}

/// The overlay's answer for a player holding the stored tags `tags`: one
/// overlay tag per tag of known type, and their scores summed, added to the
/// overlay's own.
pub fn build_cubelify_response(tags: &[PlayerTagRow]) -> (r: CubelifyResponse)
    requires
        tags@.len() <= u64::MAX / 100,
    ensures
        r.tags@.map_values(|t: CubelifyTag| t@) == overlay_tags(tags@),
        r.score.value_tenths == rows_score(tags@),
        r.score.mode@ == "add"@,
{
    let mut out: Vec<CubelifyTag> = Vec::new();
    let mut total: u64 = 0;
    let mut i: usize = 0;
    assert(tags@.subrange(0, 0) =~= Seq::<PlayerTagRow>::empty());
    assert(out@.map_values(|t: CubelifyTag| t@) =~= overlay_tags(tags@.subrange(0, 0)));
    while i < tags.len()
        invariant
            i <= tags@.len(),
            tags@.len() <= u64::MAX / 100,
            out@.map_values(|t: CubelifyTag| t@) == overlay_tags(tags@.subrange(0, i as int)),
            total == rows_score(tags@.subrange(0, i as int)),
            total <= 100 * i,
        decreases tags@.len() - i,
    {
        assert(tags@.subrange(0, i + 1).drop_last() =~= tags@.subrange(0, i as int));
        let ghost before = out@;
        match lookup(tags[i].tag_type.as_str()) {
            Some(def) => {
                let t = CubelifyTag {
                    icon: string_from_chars(&chars_of(def.icon)),
                    color: def.color,
                    tooltip: build_tooltip(def.name, tags[i].reason.as_str()),
                    text: None,
                };
                out.push(t);
                assert(out@.map_values(|t: CubelifyTag| t@) =~= before.map_values(|t: CubelifyTag| t@).push(t@));
                assert(def.score_tenths <= 100);
                total = total + def.score_tenths as u64;
            },
            None => {},
        }
        i = i + 1;
    }
    assert(tags@.subrange(0, tags@.len() as int) =~= tags@);
    CubelifyResponse { score: CubelifyScore { value_tenths: total, mode: "add" }, tags: out }
}

impl CubelifyResponse {
    /// An overlay answer that shows one red tag carrying `message`, with no score.
    pub fn error(message: &str, icon: &str) -> (r: CubelifyResponse)
        ensures
            r.score.value_tenths == 0,
            r.score.mode@ == "add"@,
            r.tags@.len() == 1,
            r.tags@[0]@ == (CubelifyTagView { icon: icon@, color: 0xFF0000, tooltip: message@, text: None }),
    {
        let mut tags: Vec<CubelifyTag> = Vec::new();
        tags.push(
            CubelifyTag {
                icon: string_from_chars(&chars_of(icon)),
                color: 0xFF0000,
                tooltip: string_from_chars(&chars_of(message)),
                text: None,
            },
        );
        CubelifyResponse { score: CubelifyScore { value_tenths: 0, mode: "add" }, tags }
    }
}

} // verus!
