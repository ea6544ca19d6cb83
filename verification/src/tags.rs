//! The blacklist tag catalogue: the six tag types, their presentation, score
//! and priority, lookup by name and by display name, and scoring.
use vstd::prelude::*;
use crate::text::{chars_of, str_eq_chars};

verus! {

pub const COLOR_RED: u32 = 0xFF0000;
pub const COLOR_ORANGE: u32 = 0xFFA500;
pub const COLOR_PURPLE: u32 = 0xAF00AF;
pub const COLOR_GRAY: u32 = 0xC0C0C0;

pub const EMOTE_TAG: &'static str = "<:tag:1459106270207545417>";
pub const EMOTE_ADDTAG: &'static str = "<:addtag:1459106318387249289>";
pub const EMOTE_EDITTAG: &'static str = "<:edittag:1459106301929062430>";
pub const EMOTE_REMOVETAG: &'static str = "<:removetag:1459161936355786752>";

/// The tag types, in catalogue order.
#[derive(Clone, Copy, Debug, PartialEq, Eq, Structural)]
pub enum TagKind {
    Sniper,
    BlatantCheater,
    ClosetCheater,
    ReplaysNeeded,
    Caution,
    ConfirmedCheater,
}

/// One tag type: its identifier, how it is shown, what it scores and how it ranks.
///
/// `score_tenths` is the tag's score in tenths of a point (a score of 1.5 is 15);
/// tags of equal `priority` cannot be held by one player at the same time.
#[derive(Clone, Copy, Debug)]
pub struct TagDefinition {
    pub name: &'static str,
    pub display_name: &'static str,
    pub icon: &'static str,
    pub emote: &'static str,
    pub color: u32,
    pub score_tenths: u32,
    pub priority: u8,
}

/// The catalogue entry of each tag type.
pub open spec fn definition(k: TagKind) -> TagDefinition {
    match k {
        TagKind::Sniper => TagDefinition {
            name: "sniper",
            display_name: "Sniper",
            icon: "mdi-alert-octagram",
            emote: "<:sniper:1459106167270932618>",
            color: COLOR_RED,
            score_tenths: 100,
            priority: 1,
        },
        TagKind::BlatantCheater => TagDefinition {
            name: "blatant_cheater",
            display_name: "Blatant Cheater",
            icon: "mdi-alert-octagram",
            emote: "<:blatantcheater:1459106183196577812>",
            color: COLOR_ORANGE,
            score_tenths: 50,
            priority: 1,
        },
        TagKind::ClosetCheater => TagDefinition {
            name: "closet_cheater",
            display_name: "Closet Cheater",
            icon: "mdi-alert-octagram-outline",
            emote: "<:closetcheater:1459106337039323136>",
            color: COLOR_ORANGE,
            score_tenths: 15,
            priority: 1,
        },
        TagKind::ReplaysNeeded => TagDefinition {
            name: "replays_needed",
            display_name: "Replays Needed",
            icon: "mdi-archive-alert-outline",
            emote: "<:replaysneeded:1482502914835615745>",
            color: COLOR_GRAY,
            score_tenths: 0,
            priority: 2,
        },
        TagKind::Caution => TagDefinition {
            name: "caution",
            display_name: "Caution",
            icon: "mdi-alert-outline",
            emote: "<:caution:1459106358098923583>",
            color: COLOR_GRAY,
            score_tenths: 0,
            priority: 3,
        },
        TagKind::ConfirmedCheater => TagDefinition {
            name: "confirmed_cheater",
            display_name: "Confirmed Cheater",
            icon: "mdi-alert-octagram-outline",
            emote: "<:confirmedcheater:1459106129765204049>",
            color: COLOR_PURPLE,
            score_tenths: 50,
            priority: 1,
        },
    }
}

/// The tag types in catalogue order.
pub open spec fn all_kinds() -> Seq<TagKind> {
    seq![
        TagKind::Sniper,
        TagKind::BlatantCheater,
        TagKind::ClosetCheater,
        TagKind::ReplaysNeeded,
        TagKind::Caution,
        TagKind::ConfirmedCheater,
    ]
}

/// The tag types a user may add directly, in catalogue order: all but confirmed cheater.
pub open spec fn user_addable_kinds() -> Seq<TagKind> {
    seq![
        TagKind::Sniper,
        TagKind::BlatantCheater,
        TagKind::ClosetCheater,
        TagKind::ReplaysNeeded,
        TagKind::Caution,
    ]
}

/// The identifier of a tag type.
pub open spec fn kind_name(k: TagKind) -> Seq<char> {
    definition(k).name@
}

/// The display name of a tag type.
pub open spec fn kind_display(k: TagKind) -> Seq<char> {
    definition(k).display_name@
}

/// The tag type whose identifier is `n`, if any.
pub open spec fn kind_named(n: Seq<char>) -> Option<TagKind> {
    if n == kind_name(TagKind::Sniper) {
        Some(TagKind::Sniper)
    } else if n == kind_name(TagKind::BlatantCheater) {
        Some(TagKind::BlatantCheater)
    } else if n == kind_name(TagKind::ClosetCheater) {
        Some(TagKind::ClosetCheater)
    } else if n == kind_name(TagKind::ReplaysNeeded) {
        Some(TagKind::ReplaysNeeded)
    } else if n == kind_name(TagKind::Caution) {
        Some(TagKind::Caution)
    } else if n == kind_name(TagKind::ConfirmedCheater) {
        Some(TagKind::ConfirmedCheater)
    } else {
        None
    }
}

/// The tag type whose display name is `n`, if any.
pub open spec fn kind_displayed(n: Seq<char>) -> Option<TagKind> {
    if n == kind_display(TagKind::Sniper) {
        Some(TagKind::Sniper)
    } else if n == kind_display(TagKind::BlatantCheater) {
        Some(TagKind::BlatantCheater)
    } else if n == kind_display(TagKind::ClosetCheater) {
        Some(TagKind::ClosetCheater)
    } else if n == kind_display(TagKind::ReplaysNeeded) {
        Some(TagKind::ReplaysNeeded)
    } else if n == kind_display(TagKind::Caution) {
        Some(TagKind::Caution)
    } else if n == kind_display(TagKind::ConfirmedCheater) {
        Some(TagKind::ConfirmedCheater)
    } else {
        None
    }
}

/// The catalogue entry for identifier `n`, if any.
pub open spec fn lookup_spec(n: Seq<char>) -> Option<TagDefinition> {
    match kind_named(n) {
        Some(k) => Some(definition(k)),
        None => None,
    }
}

/// The score, in tenths, of the tag named `n`; unknown names score nothing.
pub open spec fn name_score(n: Seq<char>) -> nat {
    match kind_named(n) {
        Some(k) => definition(k).score_tenths as nat,
        None => 0,
    }
}

/// The total score, in tenths, of the named tags.
pub open spec fn total_score(names: Seq<Seq<char>>) -> nat
    decreases names.len(),
{
    if names.len() == 0 {
        0
    } else {
        total_score(names.drop_last()) + name_score(names.last())
    }
}

/// The priority of the tag named `n`; unknown names rank 0.
pub open spec fn name_priority(n: Seq<char>) -> u8 {
    match kind_named(n) {
        Some(k) => definition(k).priority,
        None => 0,
    }
}

/// The catalogue entry of a tag type.
pub fn definition_of(k: TagKind) -> (d: TagDefinition)
    ensures
        d == definition(k),
{
    match k {
        TagKind::Sniper => TagDefinition {
            name: "sniper",
            display_name: "Sniper",
            icon: "mdi-alert-octagram",
            emote: "<:sniper:1459106167270932618>",
            color: COLOR_RED,
            score_tenths: 100,
            priority: 1,
        },
        TagKind::BlatantCheater => TagDefinition {
            name: "blatant_cheater",
            display_name: "Blatant Cheater",
            icon: "mdi-alert-octagram",
            emote: "<:blatantcheater:1459106183196577812>",
            color: COLOR_ORANGE,
            score_tenths: 50,
            priority: 1,
        },
        TagKind::ClosetCheater => TagDefinition {
            name: "closet_cheater",
            display_name: "Closet Cheater",
            icon: "mdi-alert-octagram-outline",
            emote: "<:closetcheater:1459106337039323136>",
            color: COLOR_ORANGE,
            score_tenths: 15,
            priority: 1,
        },
        TagKind::ReplaysNeeded => TagDefinition {
            name: "replays_needed",
            display_name: "Replays Needed",
            icon: "mdi-archive-alert-outline",
            emote: "<:replaysneeded:1482502914835615745>",
            color: COLOR_GRAY,
            score_tenths: 0,
            priority: 2,
        },
        TagKind::Caution => TagDefinition {
            name: "caution",
            display_name: "Caution",
            icon: "mdi-alert-outline",
            emote: "<:caution:1459106358098923583>",
            color: COLOR_GRAY,
            score_tenths: 0,
            priority: 3,
        },
        TagKind::ConfirmedCheater => TagDefinition {
            name: "confirmed_cheater",
            display_name: "Confirmed Cheater",
            icon: "mdi-alert-octagram-outline",
            emote: "<:confirmedcheater:1459106129765204049>",
            color: COLOR_PURPLE,
            score_tenths: 50,
            priority: 1,
        },
    }
}

/// The tag type named `name`, if any.
pub fn kind_named_exec(name: &str) -> (r: Option<TagKind>)
    ensures
        r == kind_named(name@),
{
    let cs = chars_of(name);
    if str_eq_chars("sniper", &cs) {
        Some(TagKind::Sniper)
    } else if str_eq_chars("blatant_cheater", &cs) {
        Some(TagKind::BlatantCheater)
    } else if str_eq_chars("closet_cheater", &cs) {
        Some(TagKind::ClosetCheater)
    } else if str_eq_chars("replays_needed", &cs) {
        Some(TagKind::ReplaysNeeded)
    } else if str_eq_chars("caution", &cs) {
        Some(TagKind::Caution)
    } else if str_eq_chars("confirmed_cheater", &cs) {
        Some(TagKind::ConfirmedCheater)
    } else {
        None
    }
}

/// The catalogue entry named `name`, if any.
pub fn lookup(name: &str) -> (r: Option<TagDefinition>)
    ensures
        r == lookup_spec(name@),
{
    match kind_named_exec(name) {
        Some(k) => Some(definition_of(k)),
        None => None,
    }
}

/// Every tag type, in catalogue order.
pub fn all() -> (r: Vec<TagDefinition>)
    ensures
        r@ == all_kinds().map_values(|k: TagKind| definition(k)),
{
    let mut r: Vec<TagDefinition> = Vec::new();
    r.push(definition_of(TagKind::Sniper));
    r.push(definition_of(TagKind::BlatantCheater));
    r.push(definition_of(TagKind::ClosetCheater));
    r.push(definition_of(TagKind::ReplaysNeeded));
    r.push(definition_of(TagKind::Caution));
    r.push(definition_of(TagKind::ConfirmedCheater));
    assert(r@ =~= all_kinds().map_values(|k: TagKind| definition(k)));
    r
}

/// The tag types a user may add directly, in catalogue order.
pub fn user_addable() -> (r: Vec<TagDefinition>)
    ensures
        r@ == user_addable_kinds().map_values(|k: TagKind| definition(k)),
{
    let mut r: Vec<TagDefinition> = Vec::new();
    r.push(definition_of(TagKind::Sniper));
    r.push(definition_of(TagKind::BlatantCheater));
    r.push(definition_of(TagKind::ClosetCheater));
    r.push(definition_of(TagKind::ReplaysNeeded));
    r.push(definition_of(TagKind::Caution));
    assert(r@ =~= user_addable_kinds().map_values(|k: TagKind| definition(k)));
    r
}

/// Whether a user may add the tag named `name` directly: every known tag
/// but confirmed cheater.
pub fn is_user_addable(name: &str) -> (r: bool)
    ensures
        r == (kind_named(name@) matches Some(k) && k != TagKind::ConfirmedCheater),
{
    match kind_named_exec(name) {
        Some(TagKind::ConfirmedCheater) => false,
        Some(_) => true,
        None => false,
    }
}

/// The identifier of the tag type whose display name is `display`, if any.
pub fn lookup_tag_name_from_display(display: &str) -> (r: Option<&'static str>)
    ensures
        r matches Some(n) ==> kind_displayed(display@) matches Some(k) && n == definition(k).name,
        r is None ==> kind_displayed(display@) is None,
{
    let cs = chars_of(display);
    if str_eq_chars("Sniper", &cs) {
        Some("sniper")
    } else if str_eq_chars("Blatant Cheater", &cs) {
        Some("blatant_cheater")
    } else if str_eq_chars("Closet Cheater", &cs) {
        Some("closet_cheater")
    } else if str_eq_chars("Replays Needed", &cs) {
        Some("replays_needed")
    } else if str_eq_chars("Caution", &cs) {
        Some("caution")
    } else if str_eq_chars("Confirmed Cheater", &cs) {
        Some("confirmed_cheater")
    } else {
        None
    }
}

/// The views of a slice of strings.
pub open spec fn str_views(s: Seq<&str>) -> Seq<Seq<char>> {
    s.map_values(|x: &str| x@)
}

/// The summed score, in tenths of a point, of the named tags; names that are
/// not tag identifiers add nothing.
pub fn calculate_score(tag_names: &[&str]) -> (r: u64)
    requires
        tag_names@.len() <= u64::MAX / 100,
    ensures
        r == total_score(str_views(tag_names@)),
{
    let mut total: u64 = 0;
    let mut i: usize = 0;
    assert(str_views(tag_names@).subrange(0, 0) =~= Seq::<Seq<char>>::empty());
    while i < tag_names.len()
        invariant
            i <= tag_names@.len(),
            total == total_score(str_views(tag_names@).subrange(0, i as int)),
            total <= 100 * i,
            tag_names@.len() <= u64::MAX / 100,
        decreases tag_names@.len() - i,
    {
        let ghost names = str_views(tag_names@);
        assert(names.subrange(0, i + 1).drop_last() =~= names.subrange(0, i as int));
        match lookup(tag_names[i]) {
            Some(d) => {
                total = total + d.score_tenths as u64;
            },
            None => {},
        }
        i = i + 1;
    }
    assert(str_views(tag_names@).subrange(0, tag_names@.len() as int) =~= str_views(tag_names@));
    total
}

/// A single name scores exactly its own catalogue score.
pub proof fn lemma_total_score_single(n: Seq<char>)
    ensures
        total_score(seq![n]) == name_score(n),
{
    assert(seq![n].drop_last() =~= Seq::<Seq<char>>::empty());
    assert(total_score(seq![n].drop_last()) == 0);
    assert(seq![n].last() == n);
}

/// Scores add up over a concatenation of name lists: the score of `a`
/// followed by `b` is the score of `a` plus the score of `b`.
pub proof fn lemma_total_score_concat(a: Seq<Seq<char>>, b: Seq<Seq<char>>)
    ensures
        total_score(a + b) == total_score(a) + total_score(b),
    decreases b.len(),
{
    if b.len() == 0 {
        assert(a + b =~= a);
    } else {
        lemma_total_score_concat(a, b.drop_last());
        assert((a + b).drop_last() =~= a + b.drop_last());
    }
}

/// The score of a name list does not depend on the order of the names: two
/// lists holding the same names, each as often, score the same.
pub proof fn lemma_total_score_permutation(a: Seq<Seq<char>>, b: Seq<Seq<char>>)
    requires
        a.to_multiset() == b.to_multiset(),
    ensures
        total_score(a) == total_score(b),
    decreases a.len(),
{
    broadcast use vstd::seq_lib::group_to_multiset_ensures;
    broadcast use vstd::multiset::group_multiset_axioms;

    if a.len() == 0 {
        assert(b.to_multiset().len() == 0);
        assert(b.len() == 0);
    } else {
        let x = a.last();
        let a1 = a.drop_last();
        assert(a1.push(x) =~= a);
        assert(a[a.len() - 1] == x);
        assert(a.contains(x));
        assert(a.to_multiset().count(x) > 0);
        assert(b.to_multiset().count(x) > 0);
        assert(b.contains(x));
        let j = choose|j: int| 0 <= j < b.len() && b[j] == x;
        let b1 = b.remove(j);
        assert(b1.to_multiset() == b.to_multiset().remove(x));
        assert(a.to_multiset() == a1.to_multiset().insert(x));
        assert(a1.to_multiset() =~= b1.to_multiset());
        lemma_total_score_permutation(a1, b1);
        let front = b.take(j);
        let back = b.skip(j + 1);
        assert(b =~= front + (seq![x] + back));
        assert(b1 =~= front + back);
        lemma_total_score_concat(front, seq![x] + back);
        lemma_total_score_concat(seq![x], back);
        lemma_total_score_concat(front, back);
        lemma_total_score_single(x);
        assert(total_score(a) == total_score(a1) + name_score(x));
    }
}

/// The score of a list of tag names taken as text adds up over a
/// concatenation of the lists, and does not change when the names are
/// reordered.
pub proof fn lemma_calculate_score_laws(a: Seq<&str>, b: Seq<&str>)
    ensures
        total_score(str_views(a + b)) == total_score(str_views(a)) + total_score(str_views(b)),
        str_views(a).to_multiset() == str_views(b).to_multiset() ==> total_score(str_views(a))
            == total_score(str_views(b)),
{
    assert(str_views(a + b) =~= str_views(a) + str_views(b));
    lemma_total_score_concat(str_views(a), str_views(b));
    if str_views(a).to_multiset() == str_views(b).to_multiset() {
        lemma_total_score_permutation(str_views(a), str_views(b));
    }
}

/// Distinct tag types have distinct identifiers and distinct display names.
proof fn lemma_pair_distinct(a: TagKind, b: TagKind)
    requires
        a != b,
    ensures
        kind_name(a) != kind_name(b),
        kind_display(a) != kind_display(b),
{
    reveal_strlit("sniper");
    reveal_strlit("blatant_cheater");
    reveal_strlit("closet_cheater");
    reveal_strlit("replays_needed");
    reveal_strlit("caution");
    reveal_strlit("confirmed_cheater");
    reveal_strlit("Sniper");
    reveal_strlit("Blatant Cheater");
    reveal_strlit("Closet Cheater");
    reveal_strlit("Replays Needed");
    reveal_strlit("Caution");
    reveal_strlit("Confirmed Cheater");
    assert(kind_name(TagKind::Sniper).len() == 6);
    assert(kind_name(TagKind::BlatantCheater).len() == 15);
    assert(kind_name(TagKind::ClosetCheater).len() == 14);
    assert(kind_name(TagKind::ReplaysNeeded).len() == 14);
    assert(kind_name(TagKind::Caution).len() == 7);
    assert(kind_name(TagKind::ConfirmedCheater).len() == 17);
    assert(kind_display(TagKind::Sniper).len() == 6);
    assert(kind_display(TagKind::BlatantCheater).len() == 15);
    assert(kind_display(TagKind::ClosetCheater).len() == 14);
    assert(kind_display(TagKind::ReplaysNeeded).len() == 14);
    assert(kind_display(TagKind::Caution).len() == 7);
    assert(kind_display(TagKind::ConfirmedCheater).len() == 17);
    assert(kind_name(TagKind::ClosetCheater)[0] != kind_name(TagKind::ReplaysNeeded)[0]);
    assert(kind_display(TagKind::ClosetCheater)[0] != kind_display(TagKind::ReplaysNeeded)[0]);
    match a {
        TagKind::Sniper => match b {
            TagKind::Sniper => {},
            TagKind::BlatantCheater => {},
            TagKind::ClosetCheater => {},
            TagKind::ReplaysNeeded => {},
            TagKind::Caution => {},
            TagKind::ConfirmedCheater => {},
        },
        TagKind::BlatantCheater => match b {
            TagKind::Sniper => {},
            TagKind::BlatantCheater => {},
            TagKind::ClosetCheater => {},
            TagKind::ReplaysNeeded => {},
            TagKind::Caution => {},
            TagKind::ConfirmedCheater => {},
        },
        TagKind::ClosetCheater => match b {
            TagKind::Sniper => {},
            TagKind::BlatantCheater => {},
            TagKind::ClosetCheater => {},
            TagKind::ReplaysNeeded => {},
            TagKind::Caution => {},
            TagKind::ConfirmedCheater => {},
        },
        TagKind::ReplaysNeeded => match b {
            TagKind::Sniper => {},
            TagKind::BlatantCheater => {},
            TagKind::ClosetCheater => {},
            TagKind::ReplaysNeeded => {},
            TagKind::Caution => {},
            TagKind::ConfirmedCheater => {},
        },
        TagKind::Caution => match b {
            TagKind::Sniper => {},
            TagKind::BlatantCheater => {},
            TagKind::ClosetCheater => {},
            TagKind::ReplaysNeeded => {},
            TagKind::Caution => {},
            TagKind::ConfirmedCheater => {},
        },
        TagKind::ConfirmedCheater => match b {
            TagKind::Sniper => {},
            TagKind::BlatantCheater => {},
            TagKind::ClosetCheater => {},
            TagKind::ReplaysNeeded => {},
            TagKind::Caution => {},
            TagKind::ConfirmedCheater => {},
        },
    }
}

/// The priority of the tag named `name`; unknown names rank 0.
pub fn priority_of(name: &str) -> (r: u8)
    ensures
        r == name_priority(name@),
{
    match lookup(name) {
        Some(d) => d.priority,
        None => 0,
    }
}

/// The views of a list of strings.
pub open spec fn string_views(s: Seq<String>) -> Seq<Seq<char>> {
    s.map_values(|x: String| x@)
}

/// The first position in `existing` holding a tag of the same priority as
/// `new_type`, at or after `i`.
pub open spec fn conflict_from(existing: Seq<Seq<char>>, new_type: Seq<char>, i: int) -> Option<int>
    decreases existing.len() - i,
{
    if i < 0 || i >= existing.len() {
        None
    } else if name_priority(existing[i]) == name_priority(new_type) {
        Some(i)
    } else {
        conflict_from(existing, new_type, i + 1)
    }
}

/// The first of a player's existing tags that a tag of type `new_type` would
/// conflict with: the first one of the same priority.
pub fn find_priority_conflict(existing: &[String], new_type: &str) -> (r: Option<usize>)
    ensures
        r matches Some(i) ==> conflict_from(string_views(existing@), new_type@, 0) == Some(i as int),
        r is None ==> conflict_from(string_views(existing@), new_type@, 0) is None,
{
    let p = priority_of(new_type);
    let mut i: usize = 0;
    while i < existing.len()
        invariant
            i <= existing@.len(),
            p == name_priority(new_type@),
            conflict_from(string_views(existing@), new_type@, 0) == conflict_from(
                string_views(existing@),
                new_type@,
                i as int,
            ),
        decreases existing@.len() - i,
    {
        assert(string_views(existing@)[i as int] == existing@[i as int]@);
        if priority_of(existing[i].as_str()) == p {
            return Some(i);
        }
        i = i + 1;
    }
    None
}

/// A conflict found is a position of the list.
pub proof fn lemma_conflict_in_range(existing: Seq<Seq<char>>, new_type: Seq<char>, i: int)
    ensures
        conflict_from(existing, new_type, i) matches Some(c) ==> i <= c < existing.len()
            && name_priority(existing[c]) == name_priority(new_type),
    decreases existing.len() - i,
{
    if i < 0 || i >= existing.len() {
    } else if name_priority(existing[i]) == name_priority(new_type) {
    } else {
        lemma_conflict_in_range(existing, new_type, i + 1);
    }
}

/// No two tag types share an identifier, and no two share a display name.
pub proof fn lemma_tag_names_unique()
    ensures
        forall|a: TagKind, b: TagKind| a != b ==> kind_name(a) != kind_name(b),
        forall|a: TagKind, b: TagKind| a != b ==> kind_display(a) != kind_display(b),
{
    assert forall|a: TagKind, b: TagKind| a != b implies kind_name(a) != kind_name(b)
        && kind_display(a) != kind_display(b) by {
        lemma_pair_distinct(a, b);
    }
}

/// Every tag type is found again by its identifier and by its display name.
pub proof fn lemma_lookup_finds_every_tag(k: TagKind)
    ensures
        kind_named(kind_name(k)) == Some(k),
        lookup_spec(kind_name(k)) == Some(definition(k)),
        kind_displayed(kind_display(k)) == Some(k),
{
    lemma_tag_names_unique();
}

} // verus!
