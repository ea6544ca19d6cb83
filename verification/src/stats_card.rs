//! What the stats cards and the winstreak endpoint are built from: the tag
//! icons drawn on a card, and a player's winstreak history by game mode.
use vstd::prelude::*;
use crate::clock::{millis_readable, readable_or_empty};
use crate::tags::{lookup, lookup_spec};
use crate::text::{chars_of, string_from_chars};

verus! {

/// A tag as the stats API reports it on a player.
#[derive(Clone, Debug)]
pub struct TagInfo {
    pub tag_type: String,
}

/// The icons of the known tags among `tags`, in order, each with its colour;
/// tags of an unknown type draw nothing.
pub open spec fn tag_icons(tags: Seq<TagInfo>) -> Seq<(Seq<char>, u32)>
    decreases tags.len(),
{
    if tags.len() == 0 {
        Seq::empty()
    } else {
        let before = tag_icons(tags.drop_last());
        match lookup_spec(tags.last().tag_type@) {
            Some(def) => before.push((def.icon@, def.color)),
            None => before,
        }
    }
}

/// The icon view of a list of icons.
pub open spec fn icons_view(v: Seq<(String, u32)>) -> Seq<(Seq<char>, u32)> {
    v.map_values(|p: (String, u32)| (p.0@, p.1))
}

/// The icons a stats card draws for a player's tags.
pub fn extract_tag_icons(tags: &[TagInfo]) -> (r: Vec<(String, u32)>)
    ensures
        icons_view(r@) == tag_icons(tags@),
{
    let mut r: Vec<(String, u32)> = Vec::new();
    let mut i: usize = 0;
    assert(tags@.subrange(0, 0) =~= Seq::<TagInfo>::empty());
    while i < tags.len()
        invariant
            i <= tags@.len(),
            icons_view(r@) == tag_icons(tags@.subrange(0, i as int)),
        decreases tags@.len() - i,
    {
        assert(tags@.subrange(0, i + 1).drop_last() =~= tags@.subrange(0, i as int));
        assert(tags@.subrange(0, i + 1).last() == tags@[i as int]);
        let ghost before = icons_view(r@);
        match lookup(tags[i].tag_type.as_str()) {
            Some(def) => {
                let icon = string_from_chars(&chars_of(def.icon));
                r.push((icon, def.color));
                assert(icons_view(r@) =~= before.push((def.icon@, def.color)));
            },
            None => {},
        }
        i = i + 1;
    }
    assert(tags@.subrange(0, tags@.len() as int) =~= tags@);
    r
}

/// A game mode the winstreak endpoint reports on.
#[derive(Clone, Copy, Debug, PartialEq, Eq, Structural)]
pub enum StreakMode {
    Overall,
    Solos,
    Doubles,
    Threes,
    Fours,
    FourVFour,
    Core,
}

/// The modes reported, in the order the response lists them.
pub open spec fn streak_modes() -> Seq<StreakMode> {
    seq![
        StreakMode::Overall,
        StreakMode::Solos,
        StreakMode::Doubles,
        StreakMode::Threes,
        StreakMode::Fours,
        StreakMode::FourVFour,
        StreakMode::Core,
    ]
}

/// The key a mode is reported under.
pub open spec fn mode_key_spec(m: StreakMode) -> Seq<char> {
    match m {
        StreakMode::Overall => "overall"@,
        StreakMode::Core => "core"@,
        StreakMode::Solos => "solos"@,
        StreakMode::Doubles => "doubles"@,
        StreakMode::Threes => "threes"@,
        StreakMode::Fours => "fours"@,
        StreakMode::FourVFour => "4v4"@,
    }
}

/// The modes reported, in order.
pub fn all_streak_modes() -> (r: Vec<StreakMode>)
    ensures
        r@ == streak_modes(),
{
    let r = vec![
        StreakMode::Overall,
        StreakMode::Solos,
        StreakMode::Doubles,
        StreakMode::Threes,
        StreakMode::Fours,
        StreakMode::FourVFour,
        StreakMode::Core,
    ];
    assert(r@ =~= streak_modes());
    r
}

/// The key a mode is reported under.
pub fn mode_key(m: StreakMode) -> (k: &'static str)
    ensures
        k@ == mode_key_spec(m),
{
    match m {
        StreakMode::Overall => "overall",
        StreakMode::Core => "core",
        StreakMode::Solos => "solos",
        StreakMode::Doubles => "doubles",
        StreakMode::Threes => "threes",
        StreakMode::Fours => "fours",
        StreakMode::FourVFour => "4v4",
    }
}

/// No two modes are reported under the same key.
pub proof fn lemma_mode_keys_distinct(a: StreakMode, b: StreakMode)
    requires
        a != b,
    ensures
        mode_key_spec(a) != mode_key_spec(b),
{
    reveal_strlit("overall");
    reveal_strlit("core");
    reveal_strlit("solos");
    reveal_strlit("doubles");
    reveal_strlit("threes");
    reveal_strlit("fours");
    reveal_strlit("4v4");
    assert(mode_key_spec(a).len() != mode_key_spec(b).len() || mode_key_spec(a)[0] != mode_key_spec(b)[0]
        || mode_key_spec(a)[1] != mode_key_spec(b)[1]);
}

/// One winstreak of a player: its length, whether the length is an
/// estimate, and when it ended.
#[derive(Clone, Debug)]
pub struct StreakEntry {
    pub value: u64,
    pub approximate: bool,
    pub timestamp: i64,
    pub readable: String,
}

/// A streak as the endpoint reports it, with its end written out as
/// `Mon DD, YYYY HH:MM UTC`.
pub fn streak_entry(value: u64, approximate: bool, timestamp: i64) -> (r: StreakEntry)
    ensures
        r.value == value,
        r.approximate == approximate,
        r.timestamp == timestamp,
        r.readable@ == readable_or_empty(timestamp),
{
    StreakEntry { value, approximate, timestamp, readable: millis_readable(timestamp) }
}

/// A player's winstreaks, listed under each mode's key.
#[derive(Clone, Debug)]
pub struct WinstreakResponse {
    pub uuid: String,
    pub modes: Vec<(String, Vec<StreakEntry>)>,
}

/// The keys of the modes listed.
pub open spec fn listed_keys(modes: Seq<(String, Vec<StreakEntry>)>) -> Seq<Seq<char>> {
    modes.map_values(|m: (String, Vec<StreakEntry>)| m.0@)
}

/// The winstreak response for `uuid`, listing each mode's streaks under the
/// mode's key, in the order given.
pub fn winstreak_response(uuid: String, per_mode: Vec<(StreakMode, Vec<StreakEntry>)>) -> (r: WinstreakResponse)
    ensures
        r.uuid@ == uuid@,
        r.modes@.len() == per_mode@.len(),
        forall|i: int| 0 <= i < per_mode@.len() ==> #[trigger] r.modes@[i].0@ == mode_key_spec(per_mode@[i].0)
            && r.modes@[i].1@ == per_mode@[i].1@,
{
    let ghost all = per_mode@;
    let mut modes: Vec<(String, Vec<StreakEntry>)> = Vec::new();
    let mut rest = per_mode;
    while rest.len() > 0
        invariant
            modes@.len() + rest@.len() == all.len(),
            rest@ == all.subrange(modes@.len() as int, all.len() as int),
            forall|j: int| 0 <= j < modes@.len() ==> #[trigger] modes@[j].0@ == mode_key_spec(all[j].0)
                && modes@[j].1@ == all[j].1@,
        decreases rest@.len(),
    {
        let ghost k = modes@.len() as int;
        let (m, streaks) = rest.remove(0);
        assert(all[k] == (m, streaks));
        let key = string_from_chars(&chars_of(mode_key(m)));
        modes.push((key, streaks));
        assert(rest@ =~= all.subrange(k + 1, all.len() as int));
    }
    WinstreakResponse { uuid, modes }
}

} // verus!
