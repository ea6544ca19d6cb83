//! The user management panel: what a staff member may do to another member,
//! which access levels they may hand out, and the texts of the panel.
use vstd::prelude::*;
use crate::access::{rank_level, AccessRank};
use crate::tag_view::{push_signed, signed_decimal};
use crate::access::rank_of_level;
use crate::text::{chars_of, decimal, decimal_exec, parse_i16_exec, parse_i16_spec, push_chars, push_str, string_from_chars};

verus! {

/// An access level as the panel's menu offers it.
#[derive(Clone, Copy, Debug)]
pub struct AccessOption {
    pub rank: AccessRank,
    pub label: &'static str,
    pub description: &'static str,
    pub selected: bool,
}

/// The label and description the menu gives an access level.
pub open spec fn access_texts(r: AccessRank) -> (Seq<char>, Seq<char>) {
    match r {
        AccessRank::Default => ("Default"@, "Default access"@),
        AccessRank::Member => ("Member"@, "Member access"@),
        AccessRank::Helper => ("Helper"@, "Helper access"@),
        AccessRank::Moderator => ("Moderator"@, "Moderator access"@),
        AccessRank::Admin => ("Admin"@, "Administrator access"@),
    }
}

/// The access levels from lowest to highest.
pub open spec fn all_ranks() -> Seq<AccessRank> {
    seq![AccessRank::Default, AccessRank::Member, AccessRank::Helper, AccessRank::Moderator, AccessRank::Admin]
}

/// The menu option for access level `r` when the target holds `current`.
pub open spec fn option_for(r: AccessRank, current: AccessRank) -> (AccessRank, Seq<char>, Seq<char>, bool) {
    (r, access_texts(r).0, access_texts(r).1, r == current)
}

/// The view of a menu option.
pub open spec fn option_view(o: AccessOption) -> (AccessRank, Seq<char>, Seq<char>, bool) {
    (o.rank, o.label@, o.description@, o.selected)
}

/// The access levels an invoker may hand out, lowest first: those strictly
/// below their own, the target's current level marked.
pub open spec fn access_options_spec(invoker: AccessRank, current: AccessRank) -> Seq<(AccessRank, Seq<char>, Seq<char>, bool)> {
    all_ranks().filter(|r: AccessRank| rank_level(r) < rank_level(invoker)).map_values(
        |r: AccessRank| option_for(r, current),
    )
}

/// The menu option for one access level.
fn make_option(r: AccessRank, current: AccessRank) -> (o: AccessOption)
    ensures
        option_view(o) == option_for(r, current),
{
    let (label, description) = match r {
        AccessRank::Default => ("Default", "Default access"),
        AccessRank::Member => ("Member", "Member access"),
        AccessRank::Helper => ("Helper", "Helper access"),
        AccessRank::Moderator => ("Moderator", "Moderator access"),
        AccessRank::Admin => ("Admin", "Administrator access"),
    };
    AccessOption { rank: r, label, description, selected: r.to_level() == current.to_level() }
}

/// The access levels an invoker may hand out to a member holding `current`.
pub fn access_level_options(invoker_rank: AccessRank, current: AccessRank) -> (r: Vec<AccessOption>)
    ensures
        r@.map_values(|o: AccessOption| option_view(o)) == access_options_spec(invoker_rank, current),
{
    let ranks = [AccessRank::Default, AccessRank::Member, AccessRank::Helper, AccessRank::Moderator, AccessRank::Admin];
    let ghost rs = all_ranks();
    let ghost keep = |r: AccessRank| rank_level(r) < rank_level(invoker_rank);
    let mut out: Vec<AccessOption> = Vec::new();
    let mut i: usize = 0;
    assert(rs.subrange(0, 0).filter(keep) =~= Seq::<AccessRank>::empty());
    while i < 5
        invariant
            i <= 5,
            ranks@ == rs,
            rs == all_ranks(),
            keep == (|r: AccessRank| rank_level(r) < rank_level(invoker_rank)),
            out@.map_values(|o: AccessOption| option_view(o)) == rs.subrange(0, i as int).filter(keep).map_values(
                |r: AccessRank| option_for(r, current),
            ),
        decreases 5 - i,
    {
        let r = ranks[i];
        let ghost pre = rs.subrange(0, i as int);
        assert(rs.subrange(0, i + 1) =~= pre.push(r));
        proof {
            pre.lemma_filter_push(r, keep);
        }
        if r.to_level() < invoker_rank.to_level() {
            let ghost before = out@;
            out.push(make_option(r, current));
            assert(out@.map_values(|o: AccessOption| option_view(o)) =~= before.map_values(|o: AccessOption| option_view(o)).push(option_for(r, current)));
            assert(pre.push(r).filter(keep) == pre.filter(keep).push(r));
            assert(pre.push(r).filter(keep).map_values(|r: AccessRank| option_for(r, current)) =~= pre.filter(keep).map_values(|r: AccessRank| option_for(r, current)).push(option_for(r, current)));
        } else {
            assert(pre.push(r).filter(keep) == pre.filter(keep));
        }
        i = i + 1;
    }
    assert(rs.subrange(0, 5) =~= rs);
    out
}

/// What the panel knows of a registered member.
#[derive(Clone, Copy, Debug)]
pub struct MemberFacts {
    pub key_locked: bool,
    pub has_api_key: bool,
    pub tagging_disabled: bool,
    pub strike_count: usize,
}

/// What the panel shows and allows.
#[derive(Clone, Debug)]
pub struct MainViewPlan {
    /// The invoker outranks the target and so may change them.
    pub can_modify: bool,
    /// The state of the member's API key: `Locked`, `Active` or `None`;
    /// absent for an unregistered user.
    pub api_status: Option<&'static str>,
    /// The key button unlocks rather than locks.
    pub offers_unlock: bool,
    /// The access levels offered, and whether the menu is disabled.
    pub access_options: Vec<AccessOption>,
    pub access_disabled: bool,
    /// The tagging toggle is shown, and whether it enables tagging.
    pub shows_tagging_toggle: bool,
    pub toggle_enables: bool,
    /// How many strike-removal buttons are offered (at most five).
    pub strike_buttons: usize,
}

/// The state of an API key as the panel names it.
pub open spec fn api_status_spec(key_locked: bool, has_api_key: bool) -> Seq<char> {
    if key_locked {
        "Locked"@
    } else if has_api_key {
        "Active"@
    } else {
        "None"@
    }
}

/// Plans the user management panel for an invoker looking at a target, who
/// may be unregistered (`None`).
pub fn plan_main_view(invoker_rank: AccessRank, target_rank: AccessRank, target: Option<MemberFacts>) -> (r: MainViewPlan)
    ensures
        r.can_modify == (rank_level(invoker_rank) > rank_level(target_rank)),
        match target {
            None => {
                &&& r.api_status is None
                &&& r.access_options@.len() == 0
                &&& !r.shows_tagging_toggle
                &&& r.strike_buttons == 0
            },
            Some(m) => {
                &&& r.api_status matches Some(s) && s@ == api_status_spec(m.key_locked, m.has_api_key)
                &&& r.offers_unlock == m.key_locked
                &&& r.access_options@.map_values(|o: AccessOption| option_view(o)) == access_options_spec(invoker_rank, target_rank)
                &&& r.access_disabled == (!r.can_modify || r.access_options@.len() == 0)
                &&& r.shows_tagging_toggle == (rank_level(invoker_rank) >= 2 && r.can_modify)
                &&& r.toggle_enables == m.tagging_disabled
                &&& r.strike_buttons == (if r.can_modify && m.strike_count > 0 {
                    if m.strike_count < 5 { m.strike_count } else { 5 }
                } else {
                    0
                })
            },
        },
{
    let can_modify = invoker_rank.to_level() > target_rank.to_level();
    match target {
        None => MainViewPlan {
            can_modify,
            api_status: None,
            offers_unlock: false,
            access_options: Vec::new(),
            access_disabled: true,
            shows_tagging_toggle: false,
            toggle_enables: false,
            strike_buttons: 0,
        },
        Some(m) => {
            let api_status = if m.key_locked {
                "Locked"
            } else if m.has_api_key {
                "Active"
            } else {
                "None"
            };
            let access_options = access_level_options(invoker_rank, target_rank);
            let access_disabled = !can_modify || access_options.len() == 0;
            let strike_buttons = if can_modify && m.strike_count > 0 {
                if m.strike_count < 5 { m.strike_count } else { 5 }
            } else {
                0
            };
            MainViewPlan {
                can_modify,
                api_status: Some(api_status),
                offers_unlock: m.key_locked,
                access_options,
                access_disabled,
                shows_tagging_toggle: invoker_rank.at_least(AccessRank::Helper) && can_modify,
                toggle_enables: m.tagging_disabled,
                strike_buttons,
            }
        },
    }
}

/// A strike on a member's record; either part may be missing.
#[derive(Clone, Debug)]
pub struct Strike {
    pub reason: Option<String>,
    pub struck_by: Option<u64>,
}

/// One strike's line: its number, the reason (`Unknown` when missing) and who
/// gave it (0 when missing).
pub open spec fn strike_line(i: nat, s: Strike) -> Seq<char> {
    "\n"@ + decimal(i + 1) + ". \""@ + (match s.reason {
        Some(r) => r@,
        None => "Unknown"@,
    }) + "\" \u{2014} <@"@ + decimal(match s.struck_by {
        Some(b) => b as nat,
        None => 0,
    }) + ">"@
}

/// The lines of the first strikes, in order.
pub open spec fn strike_lines(ss: Seq<Strike>) -> Seq<char>
    decreases ss.len(),
{
    if ss.len() == 0 {
        Seq::empty()
    } else {
        strike_lines(ss.drop_last()) + strike_line((ss.len() - 1) as nat, ss.last())
    }
}

/// The strikes section of the panel.
pub open spec fn strikes_text_spec(ss: Seq<Strike>) -> Seq<char> {
    if ss.len() == 0 {
        "**Strikes** None"@
    } else {
        "**Strikes** ("@ + decimal(ss.len()) + ")"@ + strike_lines(ss)
    }
}

/// Appends the line of strike number `i + 1`.
fn push_strike_line(out: &mut Vec<char>, i: usize, s: &Strike)
    requires
        i < u64::MAX,
    ensures
        final(out)@ == old(out)@ + strike_line(i as nat, *s),
{
    let ghost start = old(out)@;
    push_str(out, "\n");
    let k = decimal_exec(i as u64 + 1);
    push_chars(out, &k);
    push_str(out, ". \"");
    match &s.reason {
        Some(r) => push_str(out, r.as_str()),
        None => push_str(out, "Unknown"),
    }
    push_str(out, "\" \u{2014} <@");
    let by = match s.struck_by {
        Some(b) => b,
        None => 0,
    };
    let d = decimal_exec(by);
    push_chars(out, &d);
    push_str(out, ">");
    assert(out@ =~= start + strike_line(i as nat, *s));
}

/// The strikes section of the panel.
pub fn strikes_text(strikes: &[Strike]) -> (r: String)
    ensures
        r@ == strikes_text_spec(strikes@),
{
    let mut out: Vec<char> = Vec::new();
    if strikes.len() == 0 {
        push_str(&mut out, "**Strikes** None");
        return string_from_chars(&out);
    }
    push_str(&mut out, "**Strikes** (");
    let n = decimal_exec(strikes.len() as u64);
    push_chars(&mut out, &n);
    push_str(&mut out, ")");
    let ghost start = out@;
    let mut i: usize = 0;
    assert(strikes@.subrange(0, 0) =~= Seq::<Strike>::empty());
    while i < strikes.len()
        invariant
            i <= strikes@.len(),
            out@ == start + strike_lines(strikes@.subrange(0, i as int)),
        decreases strikes@.len() - i,
    {
        assert(strikes@.subrange(0, i + 1).drop_last() =~= strikes@.subrange(0, i as int));
        push_strike_line(&mut out, i, &strikes[i]);
        i = i + 1;
    }
    assert(strikes@.subrange(0, strikes@.len() as int) =~= strikes@);
    string_from_chars(&out)
}

/// The tag statistics section of the panel.
pub open spec fn tag_stats_spec(accepted: i64, rejected: i64, accurate: i64) -> Seq<char> {
    "**Tag Stats**\nAccepted: "@ + signed_decimal(accepted as int) + "\nRejected: "@ + signed_decimal(rejected as int)
        + "\nAccurate Verdicts: "@ + signed_decimal(accurate as int)
}

/// The tag statistics section of the panel.
pub fn tag_stats_text(accepted: i64, rejected: i64, accurate: i64) -> (r: String)
    ensures
        r@ == tag_stats_spec(accepted, rejected, accurate),
{
    let mut out: Vec<char> = Vec::new();
    push_str(&mut out, "**Tag Stats**\nAccepted: ");
    push_signed(&mut out, accepted);
    push_str(&mut out, "\nRejected: ");
    push_signed(&mut out, rejected);
    push_str(&mut out, "\nAccurate Verdicts: ");
    push_signed(&mut out, accurate);
    string_from_chars(&out)
}

/// The title of the panel.
pub fn panel_header(target_id: u64) -> (r: String)
    ensures
        r@ == "## User Management \u{2014} <@"@ + decimal(target_id as nat) + ">"@,
{
    let mut out: Vec<char> = Vec::new();
    push_str(&mut out, "## User Management \u{2014} <@");
    let d = decimal_exec(target_id);
    push_chars(&mut out, &d);
    push_str(&mut out, ">");
    string_from_chars(&out)
}

/// An invoker never sees an access level at or above their own offered, and
/// may only change members ranked strictly below them.
pub proof fn lemma_no_self_promotion(invoker: AccessRank, current: AccessRank, i: int)
    requires
        0 <= i < access_options_spec(invoker, current).len(),
    ensures
        rank_level(access_options_spec(invoker, current)[i].0) < rank_level(invoker),
{
    let keep = |r: AccessRank| rank_level(r) < rank_level(invoker);
    let f = all_ranks().filter(keep);
    assert(access_options_spec(invoker, current)[i] == option_for(f[i], current));
    broadcast use vstd::seq_lib::group_filter_ensures;
    assert(keep(f[i]));
}

/// Whether an invoker of rank `invoker` may act on a member of rank
/// `target` through a panel button that needs at least `needed`: the invoker
/// must have that rank and outrank the member.
pub open spec fn may_act_spec(invoker: AccessRank, target: AccessRank, needed: AccessRank) -> bool {
    rank_level(invoker) >= rank_level(needed) && rank_level(invoker) > rank_level(target)
}

/// Whether an invoker may act on a member through a panel button that needs
/// rank `needed` (moderator for locking, registering, linking and strikes;
/// helper for toggling tagging).
pub fn may_act(invoker: AccessRank, target: AccessRank, needed: AccessRank) -> (r: bool)
    ensures
        r == may_act_spec(invoker, target, needed),
{
    invoker.at_least(needed) && invoker.to_level() > target.to_level()
}

/// Why a change of access level is refused.
#[derive(Clone, Copy, Debug, PartialEq, Eq, Structural)]
pub enum AccessChangeError {
    /// Below moderator, or not above the member.
    InsufficientPermissions,
    /// The chosen rank is the invoker's own or higher.
    RankTooHigh,
    /// The member is not registered.
    NotRegistered,
}

/// A change of access level chosen in the panel's menu (`choice`, the
/// selected value): nothing happens unless it is a number; otherwise it is
/// refused unless the invoker is a moderator above the member, the new rank
/// is below the invoker's, and the member is registered. On success, the
/// level as chosen, to be stored, and the rank it stands for.
pub fn check_access_change(invoker: AccessRank, target: AccessRank, choice: &str, registered: bool) -> (r: Result<Option<(i16, AccessRank)>, AccessChangeError>)
    ensures
        match parse_i16_spec(choice@) {
            None => r == Ok::<Option<(i16, AccessRank)>, AccessChangeError>(None),
            Some(level) => r == (if !may_act_spec(invoker, target, AccessRank::Moderator) {
                Err(AccessChangeError::InsufficientPermissions)
            } else if rank_level(rank_of_level(level as int)) >= rank_level(invoker) {
                Err(AccessChangeError::RankTooHigh)
            } else if !registered {
                Err(AccessChangeError::NotRegistered)
            } else {
                Ok(Some((level, rank_of_level(level as int))))
            }),
        },
{
    let level = match parse_i16_exec(&chars_of(choice)) {
        Some(l) => l,
        None => return Ok(None),
    };
    if !may_act(invoker, target, AccessRank::Moderator) {
        return Err(AccessChangeError::InsufficientPermissions);
    }
    let new_rank = AccessRank::from_level(level);
    if new_rank.at_least(invoker) {
        return Err(AccessChangeError::RankTooHigh);
    }
    if !registered {
        return Err(AccessChangeError::NotRegistered);
    }
    Ok(Some((level, new_rank)))
}

/// The highest of some role positions, 0 for none.
pub open spec fn highest_position(ps: Seq<u16>) -> u16
    decreases ps.len(),
{
    if ps.len() == 0 {
        0
    } else {
        let rest = highest_position(ps.drop_last());
        if ps.last() > rest { ps.last() } else { rest }
    }
}

/// Whether a member may configure a role for automatic assignment: the role
/// must exist; the server owner always may; anyone else only below their
/// highest role (position 0 when they have none the server knows).
pub open spec fn can_manage_role_spec(target_position: Option<u16>, is_owner: bool, member_positions: Option<Seq<u16>>) -> bool {
    match target_position {
        None => false,
        Some(t) => is_owner || match member_positions {
            Some(ps) => t < highest_position(ps),
            None => false,
        },
    }
}

/// Decides whether a member may configure a role, given the role's position
/// (`None` when the server has no such role), whether they own the server,
/// and the positions of their roles (`None` when they could not be fetched).
pub fn can_manage_role(target_position: Option<u16>, is_owner: bool, member_positions: Option<&[u16]>) -> (r: bool)
    ensures
        r == can_manage_role_spec(target_position, is_owner, match member_positions {
            Some(ps) => Some(ps@),
            None => None,
        }),
{
    let t = match target_position {
        Some(t) => t,
        None => return false,
    };
    if is_owner {
        return true;
    }
    let ps = match member_positions {
        Some(ps) => ps,
        None => return false,
    };
    let mut highest: u16 = 0;
    let mut i: usize = 0;
    assert(ps@.subrange(0, 0) =~= Seq::<u16>::empty());
    while i < ps.len()
        invariant
            i <= ps@.len(),
            highest == highest_position(ps@.subrange(0, i as int)),
        decreases ps@.len() - i,
    {
        assert(ps@.subrange(0, i + 1).drop_last() =~= ps@.subrange(0, i as int));
        if ps[i] > highest {
            highest = ps[i];
        }
        i = i + 1;
    }
    assert(ps@.subrange(0, ps@.len() as int) =~= ps@);
    t < highest
}

/// A member may configure a role below one of their own roles.
pub proof fn lemma_below_own_role(t: u16, ps: Seq<u16>, i: int)
    requires
        0 <= i < ps.len(),
        t < ps[i],
    ensures
        can_manage_role_spec(Some(t), false, Some(ps)),
    decreases ps.len(),
{
    if i < ps.len() - 1 {
        lemma_below_own_role(t, ps.drop_last(), i);
    }
}

/// The dashboard's line about a member's own API key: locked, hidden behind a
/// spoiler, or absent.
pub open spec fn personal_key_spec(key_locked: bool, api_key: Option<Seq<char>>) -> Seq<char> {
    if key_locked {
        "### Personal Key\nLocked"@
    } else {
        match api_key {
            Some(k) => "### Personal Key (click to reveal)\n||```"@ + k + "```||"@,
            None => "### Personal Key\nNone"@,
        }
    }
}

/// The dashboard's line about a member's own API key.
pub fn personal_key_text(key_locked: bool, api_key: Option<&str>) -> (r: String)
    ensures
        r@ == personal_key_spec(key_locked, match api_key { Some(k) => Some(k@), None => None }),
{
    let mut out: Vec<char> = Vec::new();
    if key_locked {
        push_str(&mut out, "### Personal Key\nLocked");
    } else {
        match api_key {
            Some(k) => {
                push_str(&mut out, "### Personal Key (click to reveal)\n||```");
                push_str(&mut out, k);
                push_str(&mut out, "```||");
            },
            None => push_str(&mut out, "### Personal Key\nNone"),
        }
    }
    string_from_chars(&out)
}

/// The dashboard's line about a developer key: locked, or hidden behind a
/// spoiler.
pub fn developer_key_text(locked: bool, api_key: &str) -> (r: String)
    ensures
        r@ == (if locked {
            "### Developer Key\nLocked"@
        } else {
            "### Developer Key (click to reveal)\n||```"@ + api_key@ + "```||"@
        }),
{
    let mut out: Vec<char> = Vec::new();
    if locked {
        push_str(&mut out, "### Developer Key\nLocked");
    } else {
        push_str(&mut out, "### Developer Key (click to reveal)\n||```");
        push_str(&mut out, api_key);
        push_str(&mut out, "```||");
    }
    string_from_chars(&out)
}

/// The dashboard's summary of a member's tagging: tags added, tag reviews
/// accepted and rejected, and accurate verdicts.
pub open spec fn contribution_spec(total: i64, accepted: i64, rejected: i64, accurate: i64) -> Seq<char> {
    "Added **"@ + signed_decimal(total as int) + "** tags to the blacklist\n**"@ + signed_decimal(accepted as int)
        + "** accepted tag reviews \u{b7} **"@ + signed_decimal(rejected as int) + "** rejected\n**"@
        + signed_decimal(accurate as int) + "** accurate verdicts"@
}

/// The dashboard's summary of a member's tagging.
pub fn contribution_text(total: i64, accepted: i64, rejected: i64, accurate: i64) -> (r: String)
    ensures
        r@ == contribution_spec(total, accepted, rejected, accurate),
{
    let mut out: Vec<char> = Vec::new();
    push_str(&mut out, "Added **");
    push_signed(&mut out, total);
    push_str(&mut out, "** tags to the blacklist\n**");
    push_signed(&mut out, accepted);
    push_str(&mut out, "** accepted tag reviews \u{b7} **");
    push_signed(&mut out, rejected);
    push_str(&mut out, "** rejected\n**");
    push_signed(&mut out, accurate);
    push_str(&mut out, "** accurate verdicts");
    string_from_chars(&out)
}

} // verus!
