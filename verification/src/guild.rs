//! Guild answers: the guild level from its experience, and the guild's data
//! with the requested member's standing in it.
use vstd::prelude::*;
use crate::clock::{millis_readable, readable_or_empty};
use crate::review::opt_view;
use crate::text::{chars_of, string_from_chars};

verus! {

/// Experience per level once the fifteen fixed steps are climbed.
pub const EXP_PER_LEVEL_AFTER_15: u64 = 3_000_000;

/// The experience each of the first fifteen levels costs.
pub open spec fn level_step(i: int) -> nat {
    if i == 0 {
        100_000
    } else if i == 1 {
        150_000
    } else if i == 2 {
        250_000
    } else if i == 3 {
        500_000
    } else if i == 4 {
        750_000
    } else if i == 5 {
        1_000_000
    } else if i == 6 {
        1_250_000
    } else if i == 7 {
        1_500_000
    } else if i == 8 {
        2_000_000
    } else if 9 <= i <= 13 {
        2_500_000
    } else {
        3_000_000
    }
}

/// The levels climbed from step `i` on with `rem` experience left: one per
/// step that `rem` pays for, then one per 3,000,000 after the fifteenth step,
/// that last count kept to 32 bits.
pub open spec fn levels_from(rem: nat, i: int) -> nat
    decreases 15 - i,
{
    if i >= 15 {
        (rem / 3_000_000) % 0x1_0000_0000
    } else if rem < level_step(i) {
        0
    } else {
        1 + levels_from((rem - level_step(i)) as nat, i + 1)
    }
}

/// The guild level for `exp` experience.
pub open spec fn guild_level(exp: nat) -> nat {
    levels_from(exp, 0)
}

/// The experience cost of step `i`.
fn level_step_exec(i: usize) -> (r: u64)
    requires
        i < 15,
    ensures
        r == level_step(i as int),
{
    if i == 0 {
        100_000
    } else if i == 1 {
        150_000
    } else if i == 2 {
        250_000
    } else if i == 3 {
        500_000
    } else if i == 4 {
        750_000
    } else if i == 5 {
        1_000_000
    } else if i == 6 {
        1_250_000
    } else if i == 7 {
        1_500_000
    } else if i == 8 {
        2_000_000
    } else if i <= 13 {
        2_500_000
    } else {
        3_000_000
    }
}

/// The guild level for `exp` experience.
///
/// Past the fifteenth level the count of further levels is taken modulo 2^32,
/// and the sum with fifteen must fit in 32 bits.
pub fn calculate_level(exp: u64) -> (level: u32)
    requires
        guild_level(exp as nat) <= u32::MAX,
    ensures
        level == guild_level(exp as nat),
{
    let mut level: u32 = 0;
    let mut remaining: u64 = exp;
    let mut i: usize = 0;
    while i < 15
        invariant
            i <= 15,
            level == i,
            remaining <= exp,
            level + levels_from(remaining as nat, i as int) == guild_level(exp as nat),
            guild_level(exp as nat) <= u32::MAX,
        decreases 15 - i,
    {
        let threshold = level_step_exec(i);
        if remaining < threshold {
            return level;
        }
        remaining = remaining - threshold;
        level = level + 1;
        i = i + 1;
    }
    let more = ((remaining / EXP_PER_LEVEL_AFTER_15) % 0x1_0000_0000) as u32;
    level + more
}

/// The guild level is the number of the cumulative thresholds 100,000,
/// 250,000, 500,000, 1,000,000, 1,750,000, 2,750,000, 4,000,000, 5,500,000,
/// 7,500,000, 10,000,000, 12,500,000, 15,000,000, 17,500,000, 20,000,000 and
/// 23,000,000 that the experience reaches (the fifteen steps cost 100,000,
/// 150,000, 250,000, 500,000, 750,000, 1,000,000, 1,250,000, 1,500,000,
/// 2,000,000, five times 2,500,000, and 3,000,000), and past the last one, one
/// more level per further 3,000,000 (that count kept to 32 bits).
pub proof fn lemma_guild_level_thresholds(exp: nat)
    ensures
        exp < 100_000 ==> guild_level(exp) == 0,
        100_000 <= exp < 250_000 ==> guild_level(exp) == 1,
        250_000 <= exp < 500_000 ==> guild_level(exp) == 2,
        500_000 <= exp < 1_000_000 ==> guild_level(exp) == 3,
        1_000_000 <= exp < 1_750_000 ==> guild_level(exp) == 4,
        1_750_000 <= exp < 2_750_000 ==> guild_level(exp) == 5,
        2_750_000 <= exp < 4_000_000 ==> guild_level(exp) == 6,
        4_000_000 <= exp < 5_500_000 ==> guild_level(exp) == 7,
        5_500_000 <= exp < 7_500_000 ==> guild_level(exp) == 8,
        7_500_000 <= exp < 10_000_000 ==> guild_level(exp) == 9,
        10_000_000 <= exp < 12_500_000 ==> guild_level(exp) == 10,
        12_500_000 <= exp < 15_000_000 ==> guild_level(exp) == 11,
        15_000_000 <= exp < 17_500_000 ==> guild_level(exp) == 12,
        17_500_000 <= exp < 20_000_000 ==> guild_level(exp) == 13,
        20_000_000 <= exp < 23_000_000 ==> guild_level(exp) == 14,
        23_000_000 <= exp ==> guild_level(exp) == 15 + ((exp - 23_000_000) as nat / 3_000_000) % 0x1_0000_0000,
{
    reveal_with_fuel(levels_from, 16);
}

/// The levels climbed never lose ground: more experience gives at least the
/// same level, up to the point where the count past level fifteen wraps.
pub proof fn lemma_level_monotonic(a: nat, b: nat, i: int)
    requires
        a <= b,
        0 <= i <= 15,
        b / 3_000_000 < 0x1_0000_0000,
    ensures
        levels_from(a, i) <= levels_from(b, i),
    decreases 15 - i,
{
    if i >= 15 {
        assert(a / 3_000_000 <= b / 3_000_000) by (nonlinear_arith)
            requires
                a <= b,
        ;
    } else if a < level_step(i) {
    } else {
        lemma_level_monotonic((a - level_step(i)) as nat, (b - level_step(i)) as nat, i + 1);
    }
}

/// A guild member as the guild data lists it; `uuid` is already normalised,
/// and `exp_history` holds the member's daily experience values, `None` for a
/// value that is not a whole number.
#[derive(Clone, Debug)]
pub struct GuildMember {
    pub uuid: Option<String>,
    pub rank: Option<String>,
    pub joined: Option<i64>,
    pub exp_history: Option<Vec<Option<u64>>>,
}

/// The guild data the answer is built from; each field is `None` where the
/// data lacks it or holds it in another form.
#[derive(Clone, Debug)]
pub struct GuildData {
    pub id: Option<String>,
    pub name: Option<String>,
    pub tag: Option<String>,
    pub tag_color: Option<String>,
    pub exp: Option<u64>,
    pub created: Option<i64>,
    pub members: Option<Vec<GuildMember>>,
}

/// The requested member's standing in the guild.
#[derive(Clone, Debug)]
pub struct GuildMemberInfo {
    pub uuid: String,
    pub rank: Option<String>,
    pub joined: Option<i64>,
    pub joined_readable: Option<String>,
    pub weekly_gexp: Option<u64>,
}

/// The API's answer for a guild.
#[derive(Clone, Debug)]
pub struct GuildResponse {
    pub id: String,
    pub name: String,
    pub tag: Option<String>,
    pub tag_color: Option<String>,
    pub level: u32,
    pub members: usize,
    pub experience: u64,
    pub created: Option<i64>,
    pub created_readable: Option<String>,
    pub player: Option<GuildMemberInfo>,
}

/// The sum of the whole values of an experience history.
pub open spec fn exp_sum(h: Seq<Option<u64>>) -> nat
    decreases h.len(),
{
    if h.len() == 0 {
        0
    } else {
        exp_sum(h.drop_last()) + match h.last() {
            Some(v) => v as nat,
            None => 0nat,
        }
    }
}

/// The summed experience of a member's history, if the member has one.
pub open spec fn weekly_exp(m: GuildMember) -> Option<nat> {
    match m.exp_history {
        Some(h) => Some(exp_sum(h@)),
        None => None,
    }
}

/// The member is listed under `target`.
pub open spec fn is_member(m: GuildMember, target: Seq<char>) -> bool {
    match m.uuid {
        Some(u) => u@ == target,
        None => false,
    }
}

/// The first member listed under `target`, from index `i` on.
pub open spec fn member_index(ms: Seq<GuildMember>, target: Seq<char>, i: int) -> Option<int>
    decreases ms.len() - i,
{
    if i < 0 || i >= ms.len() {
        None
    } else if is_member(ms[i], target) {
        Some(i)
    } else {
        member_index(ms, target, i + 1)
    }
}

/// Every member's summed experience fits in 64 bits.
pub open spec fn sums_fit(ms: Seq<GuildMember>) -> bool {
    forall|i: int| 0 <= i < ms.len() ==> (#[trigger] weekly_exp(ms[i]) matches Some(s) ==> s <= u64::MAX)
}

/// `info` is the standing of member `m` listed under `target`.
pub open spec fn standing_of(info: GuildMemberInfo, m: GuildMember, target: Seq<char>) -> bool {
    &&& info.uuid@ == target
    &&& opt_view(info.rank) == opt_view(m.rank)
    &&& info.joined == m.joined
    &&& opt_view(info.joined_readable) == match m.joined {
        Some(t) => Some(readable_or_empty(t)),
        None => None,
    }
    &&& match weekly_exp(m) {
        Some(s) => info.weekly_gexp == Some(s as u64),
        None => info.weekly_gexp is None,
    }
}

/// A copy of an optional string.
fn copy_opt(s: &Option<String>) -> (r: Option<String>)
    ensures
        opt_view(r) == opt_view(*s),
{
    match s {
        Some(t) => Some(string_from_chars(&chars_of(t.as_str()))),
        None => None,
    }
}

/// The summed whole values of an experience history.
fn sum_history(h: &Vec<Option<u64>>) -> (r: u64)
    requires
        exp_sum(h@) <= u64::MAX,
    ensures
        r == exp_sum(h@),
{
    let mut total: u64 = 0;
    let mut i: usize = 0;
    while i < h.len()
        invariant
            i <= h@.len(),
            total == exp_sum(h@.subrange(0, i as int)),
            exp_sum(h@) <= u64::MAX,
        decreases h@.len() - i,
    {
        assert(h@.subrange(0, i + 1).drop_last() =~= h@.subrange(0, i as int));
        proof {
            lemma_exp_sum_prefix(h@, i + 1);
        }
        match h[i] {
            Some(v) => {
                total = total + v;
            },
            None => {},
        }
        i = i + 1;
    }
    assert(h@.subrange(0, h@.len() as int) =~= h@);
    total
}

/// A prefix of a history sums to no more than the history.
proof fn lemma_exp_sum_prefix(h: Seq<Option<u64>>, k: int)
    requires
        0 <= k <= h.len(),
    ensures
        exp_sum(h.subrange(0, k)) <= exp_sum(h),
    decreases h.len() - k,
{
    if k < h.len() {
        lemma_exp_sum_prefix(h, k + 1);
        assert(h.subrange(0, k + 1).drop_last() =~= h.subrange(0, k));
    } else {
        assert(h.subrange(0, k) =~= h);
    }
}

/// The standing of the first member listed under `target`, if any.
pub fn find_member(members: &Option<Vec<GuildMember>>, target: &str) -> (r: Option<GuildMemberInfo>)
    requires
        members matches Some(ms) ==> sums_fit(ms@),
    ensures
        match members {
            Some(ms) => match member_index(ms@, target@, 0) {
                Some(i) => r matches Some(info) && standing_of(info, ms@[i], target@),
                None => r is None,
            },
            None => r is None,
        },
{
    match members {
        Some(ms) => find_in(ms, target),
        None => None,
    }
}

/// The standing of the first of `ms` listed under `target`, if any.
fn find_in(ms: &Vec<GuildMember>, target: &str) -> (r: Option<GuildMemberInfo>)
    requires
        sums_fit(ms@),
    ensures
        match member_index(ms@, target@, 0) {
            Some(i) => r matches Some(info) && standing_of(info, ms@[i], target@),
            None => r is None,
        },
{
    let tc = chars_of(target);
    let mut i: usize = 0;
    while i < ms.len()
        invariant
            i <= ms@.len(),
            tc@ == target@,
            sums_fit(ms@),
            member_index(ms@, target@, 0) == member_index(ms@, target@, i as int),
        decreases ms@.len() - i,
    {
        let m = &ms[i];
        let listed = match &m.uuid {
            Some(u) => crate::text::str_eq_chars(u.as_str(), &tc),
            None => false,
        };
        if listed {
            let joined_readable = match m.joined {
                Some(t) => Some(millis_readable(t)),
                None => None,
            };
            let weekly_gexp = match &m.exp_history {
                Some(h) => {
                    assert(weekly_exp(ms@[i as int]) == Some(exp_sum(h@)));
                    Some(sum_history(h))
                },
                None => None,
            };
            return Some(
                GuildMemberInfo {
                    uuid: string_from_chars(&tc),
                    rank: copy_opt(&m.rank),
                    joined: m.joined,
                    joined_readable,
                    weekly_gexp,
                },
            );
        }
        i = i + 1;
    }
    None
}

/// The answer for a guild, with the standing of the member `player_uuid` when
/// one is asked for.
pub fn build_response(guild: &GuildData, player_uuid: Option<&str>) -> (r: GuildResponse)
    requires
        guild_level(
            match guild.exp {
                Some(e) => e as nat,
                None => 0,
            },
        ) <= u32::MAX,
        guild.members matches Some(ms) ==> sums_fit(ms@),
    ensures
        r.id@ == match guild.id {
            Some(s) => s@,
            None => Seq::empty(),
        },
        r.name@ == match guild.name {
            Some(s) => s@,
            None => Seq::empty(),
        },
        opt_view(r.tag) == opt_view(guild.tag),
        opt_view(r.tag_color) == opt_view(guild.tag_color),
        r.experience == match guild.exp {
            Some(e) => e,
            None => 0,
        },
        r.level == guild_level(r.experience as nat),
        r.members == match guild.members {
            Some(ms) => ms@.len(),
            None => 0,
        },
        r.created == guild.created,
        opt_view(r.created_readable) == match guild.created {
            Some(t) => Some(readable_or_empty(t)),
            None => None,
        },
        match player_uuid {
            None => r.player is None,
            Some(target) => match guild.members {
                Some(ms) => match member_index(ms@, target@, 0) {
                    Some(i) => r.player matches Some(info) && standing_of(info, ms@[i], target@),
                    None => r.player is None,
                },
                None => r.player is None,
            },
        },
{
    let exp = match guild.exp {
        Some(e) => e,
        None => 0,
    };
    let id = match &guild.id {
        Some(s) => string_from_chars(&chars_of(s.as_str())),
        None => String::new(),
    };
    let name = match &guild.name {
        Some(s) => string_from_chars(&chars_of(s.as_str())),
        None => String::new(),
    };
    let members = match &guild.members {
        Some(ms) => ms.len(),
        None => 0,
    };
    let created_readable = match guild.created {
        Some(t) => Some(millis_readable(t)),
        None => None,
    };
    let player = match player_uuid {
        Some(target) => find_member(&guild.members, target),
        None => None,
    };
    GuildResponse {
        id,
        name,
        tag: copy_opt(&guild.tag),
        tag_color: copy_opt(&guild.tag_color),
        level: calculate_level(exp),
        members,
        experience: exp,
        created: guild.created,
        created_readable,
        player,
    }
}

/// Whether the guild level for `exp` fits in 32 bits, as `calculate_level` needs.
pub fn level_fits(exp: u64) -> (r: bool)
    ensures
        r == (guild_level(exp as nat) <= u32::MAX),
{
    let mut remaining: u64 = exp;
    let mut i: usize = 0;
    while i < 15
        invariant
            i <= 15,
            remaining <= exp,
            i + levels_from(remaining as nat, i as int) == guild_level(exp as nat),
        decreases 15 - i,
    {
        let threshold = level_step_exec(i);
        if remaining < threshold {
            return true;
        }
        remaining = remaining - threshold;
        i = i + 1;
    }
    (remaining / EXP_PER_LEVEL_AFTER_15) % 0x1_0000_0000 <= 0xFFFF_FFFF - 15
}

/// Whether the summed experience of every member fits in 64 bits, as
/// `find_member` and `build_response` need.
pub fn member_sums_fit(members: &Option<Vec<GuildMember>>) -> (r: bool)
    ensures
        r == (members matches Some(ms) ==> sums_fit(ms@)),
{
    match members {
        Some(ms) => sums_fit_in(ms),
        None => true,
    }
}

/// Whether the summed experience of each of `ms` fits in 64 bits.
fn sums_fit_in(ms: &Vec<GuildMember>) -> (r: bool)
    ensures
        r == sums_fit(ms@),
{
    let mut i: usize = 0;
    while i < ms.len()
        invariant
            i <= ms@.len(),
            forall|j: int| 0 <= j < i ==> (#[trigger] weekly_exp(ms@[j]) matches Some(s) ==> s <= u64::MAX),
        decreases ms@.len() - i,
    {
        match &ms[i].exp_history {
            Some(h) => {
                assert(weekly_exp(ms@[i as int]) == Some(exp_sum(h@)));
                let mut total: u64 = 0;
                let mut k: usize = 0;
                while k < h.len()
                    invariant
                        k <= h@.len(),
                        i < ms@.len(),
                        weekly_exp(ms@[i as int]) == Some(exp_sum(h@)),
                        total == exp_sum(h@.subrange(0, k as int)),
                    decreases h@.len() - k,
                {
                    assert(h@.subrange(0, k + 1).drop_last() =~= h@.subrange(0, k as int));
                    match h[k] {
                        Some(v) => {
                            if total > u64::MAX - v {
                                proof {
                                    lemma_exp_sum_prefix(h@, k + 1);
                                    assert(exp_sum(h@.subrange(0, k + 1)) == total + v);
                                    assert(!(weekly_exp(ms@[i as int]) matches Some(s) ==> s <= u64::MAX));
                                }
                                return false;
                            }
                            total = total + v;
                        },
                        None => {},
                    }
                    k = k + 1;
                }
                assert(h@.subrange(0, h@.len() as int) =~= h@);
            },
            None => {},
        }
        i = i + 1;
    }
    true
}

} // verus!
