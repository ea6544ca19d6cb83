//! Access ranks and the permission rules that depend on them: API rate limits,
//! who may add, remove, overwrite or lock tags, and who may manage whom.
use vstd::prelude::*;
use vstd::string::StringSliceAdditionalSpecFns;
use crate::tags::{
    definition, find_priority_conflict, conflict_from, kind_name, string_views, user_addable,
    user_addable_kinds, TagDefinition, TagKind,
};
use crate::responses::PlayerTagRow;
use crate::text::{chars_of, has_prefix, is_alnum, starts_with, str_eq, str_eq_chars, string_from_chars};

verus! {

/// A member's access rank, lowest first. Stored as an access level:
/// 0 default, 1 member, 2 helper, 3 moderator, 4 admin.
#[derive(Clone, Copy, Debug, PartialEq, Eq, Structural)]
pub enum AccessRank {
    Default,
    Member,
    Helper,
    Moderator,
    Admin,
}

/// The access level of a rank.
pub open spec fn rank_level(r: AccessRank) -> int {
    match r {
        AccessRank::Default => 0,
        AccessRank::Member => 1,
        AccessRank::Helper => 2,
        AccessRank::Moderator => 3,
        AccessRank::Admin => 4,
    }
}

/// The rank of a stored access level: levels below 1 are default, 4 and above admin.
pub open spec fn rank_of_level(level: int) -> AccessRank {
    if level >= 4 {
        AccessRank::Admin
    } else if level == 3 {
        AccessRank::Moderator
    } else if level == 2 {
        AccessRank::Helper
    } else if level == 1 {
        AccessRank::Member
    } else {
        AccessRank::Default
    }
}

impl AccessRank {
    /// The access level of this rank.
    pub fn to_level(&self) -> (l: i16)
        ensures
            l == rank_level(*self),
    {
        match self {
            AccessRank::Default => 0,
            AccessRank::Member => 1,
            AccessRank::Helper => 2,
            AccessRank::Moderator => 3,
            AccessRank::Admin => 4,
        }
    }

    /// The rank of a stored access level.
    pub fn from_level(level: i16) -> (r: AccessRank)
        ensures
            r == rank_of_level(level as int),
    {
        if level >= 4 {
            AccessRank::Admin
        } else if level == 3 {
            AccessRank::Moderator
        } else if level == 2 {
            AccessRank::Helper
        } else if level == 1 {
            AccessRank::Member
        } else {
            AccessRank::Default
        }
    }

    /// `self` ranks at least as high as `other`.
    pub fn at_least(&self, other: AccessRank) -> (b: bool)
        ensures
            b == (rank_level(*self) >= rank_level(other)),
    {
        self.to_level() >= other.to_level()
    }
}

/// The request budget of an API key per rate-limit window, by access level:
/// 3000 for admins, 1200 for helpers and moderators, 600 otherwise.
pub fn rate_limit_for_access(access_level: i16) -> (limit: i64)
    ensures
        access_level >= 4 ==> limit == 3000,
        2 <= access_level <= 3 ==> limit == 1200,
        access_level < 2 ==> limit == 600,
{
    if access_level >= 4 {
        3000
    } else if access_level >= 2 {
        1200
    } else {
        600
    }
}

// ---------------------------------------------------------------------------
// Adding a tag from the bot
// ---------------------------------------------------------------------------

/// Why the bot refuses to add a tag.
#[derive(Clone, Copy, Debug, PartialEq, Eq, Structural)]
pub enum AddError {
    /// The member's tagging ability has been disabled.
    TaggingDisabled,
    /// Confirmed cheater tags only come from the review system.
    ConfirmedViaReviewOnly,
    /// Only moderators and above can add caution tags.
    CautionNeedsModerator,
    /// Only members and above can add replays-needed tags.
    ReplaysNeededNeedsMember,
    /// A reason is required for this tag type.
    ReasonRequired,
    /// An unresolved player name is not a valid Minecraft name.
    InvalidName,
    /// The player's tags are locked.
    Locked,
    /// Overwriting an existing tag needs member access.
    OverwriteNeedsMember,
    /// Overwriting a confirmed cheater tag needs helper access.
    OverwriteConfirmedNeedsHelper,
}

impl AddError {
    /// The message shown to the member.
    pub fn message(&self) -> (m: &'static str)
        ensures
            m@ == add_error_message(*self),
    {
        match self {
            AddError::TaggingDisabled => "Your tagging ability has been disabled",
            AddError::ConfirmedViaReviewOnly => "Confirmed cheater tags can only be applied through the review system",
            AddError::CautionNeedsModerator => "Only moderators and above can add caution tags",
            AddError::ReplaysNeededNeedsMember => "Only members and above can add replays needed tags",
            AddError::ReasonRequired => "A reason is required for this tag type",
            AddError::InvalidName => "Invalid username. Minecraft names can only contain letters, numbers, and underscores (3-16 characters)",
            AddError::Locked => "This player's tags are locked",
            AddError::OverwriteNeedsMember => "You need member access to overwrite existing tags",
            AddError::OverwriteConfirmedNeedsHelper => "Only helpers and above can overwrite confirmed cheater tags",
        }
    }
}

/// The message of each refusal.
pub open spec fn add_error_message(e: AddError) -> Seq<char> {
    match e {
        AddError::TaggingDisabled => "Your tagging ability has been disabled"@,
        AddError::ConfirmedViaReviewOnly => "Confirmed cheater tags can only be applied through the review system"@,
        AddError::CautionNeedsModerator => "Only moderators and above can add caution tags"@,
        AddError::ReplaysNeededNeedsMember => "Only members and above can add replays needed tags"@,
        AddError::ReasonRequired => "A reason is required for this tag type"@,
        AddError::InvalidName => "Invalid username. Minecraft names can only contain letters, numbers, and underscores (3-16 characters)"@,
        AddError::Locked => "This player's tags are locked"@,
        AddError::OverwriteNeedsMember => "You need member access to overwrite existing tags"@,
        AddError::OverwriteConfirmedNeedsHelper => "Only helpers and above can overwrite confirmed cheater tags"@,
    }
}

/// A tag request that passed the rank checks.
#[derive(Clone, Debug)]
pub struct AddRequest {
    /// The reason stored: empty for replays-needed tags.
    pub reason: String,
    /// Whether the adder's name is hidden: only honoured for moderators and above.
    pub hide: bool,
    /// Whether the tag must go through a review thread first.
    pub needs_review: bool,
}

/// The refusal a tag request meets from its rank checks, in order.
pub open spec fn add_request_refusal(rank: AccessRank, tagging_disabled: bool, tag_type: Seq<char>, reason: Seq<char>) -> Option<AddError> {
    if rank_level(rank) < 2 && tagging_disabled {
        Some(AddError::TaggingDisabled)
    } else if tag_type == "confirmed_cheater"@ {
        Some(AddError::ConfirmedViaReviewOnly)
    } else if tag_type == "caution"@ && rank_level(rank) < 3 {
        Some(AddError::CautionNeedsModerator)
    } else if tag_type == "replays_needed"@ && rank_level(rank) < 1 {
        Some(AddError::ReplaysNeededNeedsMember)
    } else if tag_type != "replays_needed"@ && reason.len() == 0 {
        Some(AddError::ReasonRequired)
    } else {
        None
    }
}

/// Checks a `/tag add` request against the adder's rank and settings.
/// Replays-needed tags carry no reason; every other tag needs one. Default
/// members' tags, sniper tags aside, go through review.
pub fn check_add_command(rank: AccessRank, tagging_disabled: bool, tag_type: &str, reason: &str, hide_requested: bool) -> (r: Result<AddRequest, AddError>)
    ensures
        add_request_refusal(rank, tagging_disabled, tag_type@, reason@) matches Some(e) ==> r == Err::<AddRequest, AddError>(e),
        add_request_refusal(rank, tagging_disabled, tag_type@, reason@) is None ==> (r matches Ok(req) && {
            &&& req.reason@ == (if tag_type@ == "replays_needed"@ { Seq::<char>::empty() } else { reason@ })
            &&& req.hide == (hide_requested && rank_level(rank) >= 3)
            &&& req.needs_review == (rank == AccessRank::Default && tag_type@ != "sniper"@)
        }),
{
    if !rank.at_least(AccessRank::Helper) && tagging_disabled {
        return Err(AddError::TaggingDisabled);
    }
    let hide = hide_requested && rank.at_least(AccessRank::Moderator);
    let t = chars_of(tag_type);
    if str_eq_chars("confirmed_cheater", &t) {
        return Err(AddError::ConfirmedViaReviewOnly);
    }
    if str_eq_chars("caution", &t) && !rank.at_least(AccessRank::Moderator) {
        return Err(AddError::CautionNeedsModerator);
    }
    let replays = str_eq_chars("replays_needed", &t);
    if replays && !rank.at_least(AccessRank::Member) {
        return Err(AddError::ReplaysNeededNeedsMember);
    }
    let stored: Vec<char> = if replays { Vec::new() } else { chars_of(reason) };
    if stored.len() == 0 && !replays {
        return Err(AddError::ReasonRequired);
    }
    let needs_review = rank == AccessRank::Default && !str_eq_chars("sniper", &t);
    Ok(AddRequest { reason: string_from_chars(&stored), hide, needs_review })
}

/// `name` can be a Minecraft name: 3 to 16 bytes of ASCII letters, digits and underscores.
pub open spec fn valid_minecraft_name(name: &str) -> bool {
    &&& 3 <= (name.spec_bytes().len() as usize) <= 16
    &&& forall|i: int| 0 <= i < name@.len() ==> (is_alnum(#[trigger] name@[i]) || name@[i] == '_')
}

/// `name` can be a Minecraft name.
pub fn is_valid_minecraft_name(name: &str) -> (r: bool)
    ensures
        r == valid_minecraft_name(name),
{
    let n = name.len();
    if n < 3 || n > 16 {
        return false;
    }
    let cs = chars_of(name);
    let mut i: usize = 0;
    while i < cs.len()
        invariant
            i <= cs@.len(),
            cs@ == name@,
            forall|j: int| 0 <= j < i ==> (is_alnum(#[trigger] cs@[j]) || cs@[j] == '_'),
        decreases cs@.len() - i,
    {
        let c = cs[i];
        if !(('0' <= c && c <= '9') || ('a' <= c && c <= 'z') || ('A' <= c && c <= 'Z') || c == '_') {
            return false;
        }
        i = i + 1;
    }
    true
}

/// After resolving the player: an unresolved (nicked) player must have a valid
/// name, and always goes through review. Returns whether review is needed.
pub fn review_after_resolve(needs_review: bool, is_nicked: bool, player_name: &str) -> (r: Result<bool, AddError>)
    ensures
        is_nicked && !valid_minecraft_name(player_name) ==> r == Err::<bool, AddError>(AddError::InvalidName),
        !(is_nicked && !valid_minecraft_name(player_name)) ==> r == Ok::<bool, AddError>(needs_review || is_nicked),
{
    if is_nicked {
        if !is_valid_minecraft_name(player_name) {
            return Err(AddError::InvalidName);
        }
        return Ok(true);
    }
    Ok(needs_review)
}

/// How a direct tag addition proceeds.
#[derive(Clone, Copy, Debug, PartialEq, Eq, Structural)]
pub enum AddPlan {
    /// No conflicting tag: add it.
    Add,
    /// The player already has this very tag type: confirm through review.
    Review,
    /// Offer to overwrite the existing tag at this index.
    Overwrite(usize),
}

/// The plan for adding a tag of type `tag_type` directly, given whether the
/// player is locked and the types of the tags the player already has: a tag
/// of the same priority conflicts; the same type goes to review; overwriting
/// needs member access, and helper access for a confirmed cheater tag.
pub fn plan_direct_add(locked: bool, existing: &[String], tag_type: &str, rank: AccessRank) -> (r: Result<AddPlan, AddError>)
    ensures
        locked ==> r == Err::<AddPlan, AddError>(AddError::Locked),
        !locked ==> match conflict_from(string_views(existing@), tag_type@, 0) {
            None => r == Ok::<AddPlan, AddError>(AddPlan::Add),
            Some(c) => if existing@[c]@ == tag_type@ {
                r == Ok::<AddPlan, AddError>(AddPlan::Review)
            } else if rank_level(rank) < 1 {
                r == Err::<AddPlan, AddError>(AddError::OverwriteNeedsMember)
            } else if existing@[c]@ == "confirmed_cheater"@ && rank_level(rank) < 2 {
                r == Err::<AddPlan, AddError>(AddError::OverwriteConfirmedNeedsHelper)
            } else {
                r == Ok::<AddPlan, AddError>(AddPlan::Overwrite(c as usize))
            },
        },
{
    if locked {
        return Err(AddError::Locked);
    }
    match find_priority_conflict(existing, tag_type) {
        None => Ok(AddPlan::Add),
        Some(c) => {
            proof {
                crate::tags::lemma_conflict_in_range(string_views(existing@), tag_type@, 0);
            }
            assert(string_views(existing@)[c as int] == existing@[c as int]@);
            if str_eq(existing[c].as_str(), tag_type) {
                Ok(AddPlan::Review)
            } else if !rank.at_least(AccessRank::Member) {
                Err(AddError::OverwriteNeedsMember)
            } else {
                let cs = chars_of(existing[c].as_str());
                if str_eq_chars("confirmed_cheater", &cs) && !rank.at_least(AccessRank::Helper) {
                    Err(AddError::OverwriteConfirmedNeedsHelper)
                } else {
                    Ok(AddPlan::Overwrite(c))
                }
            }
        },
    }
}

// ---------------------------------------------------------------------------
// Removing and changing tags from the bot
// ---------------------------------------------------------------------------

/// How long, in minutes, a default member or member may remove their own tag.
pub open spec fn own_removal_window() -> int {
    30
}

/// Whether `user_id` of rank `rank` may remove a tag of type `tag_type` added
/// by `added_by`, `minutes_since_added` minutes ago: moderators always;
/// helpers unless it is a confirmed cheater or caution tag; others only their
/// own tag, within 30 minutes.
pub fn can_remove_tag(rank: AccessRank, tag_type: &str, added_by: i64, user_id: u64, minutes_since_added: i64) -> (r: bool)
    ensures
        r == (if rank_level(rank) >= 3 {
            true
        } else if rank_level(rank) >= 2 {
            tag_type@ != "confirmed_cheater"@ && tag_type@ != "caution"@
        } else {
            added_by == user_id as i64 && minutes_since_added <= own_removal_window()
        }),
{
    if rank.at_least(AccessRank::Moderator) {
        return true;
    }
    if rank.at_least(AccessRank::Helper) {
        let cs = chars_of(tag_type);
        return !str_eq_chars("confirmed_cheater", &cs) && !str_eq_chars("caution", &cs);
    }
    added_by == user_id as i64 && minutes_since_added <= 30
}

/// The tag types offered when changing a tag of type `current`: none for a
/// confirmed cheater tag below moderator; otherwise the user-addable types other
/// than `current`, leaving out caution below moderator and replays-needed below member.
pub open spec fn change_option(k: TagKind, current: Seq<char>, rank: AccessRank) -> bool {
    &&& kind_name(k) != current
    &&& !(k == TagKind::Caution && rank_level(rank) < 3)
    &&& !(k == TagKind::ReplaysNeeded && rank_level(rank) < 1)
}

/// The tag types offered when changing a tag of type `current`.
pub open spec fn change_options_spec(current: Seq<char>, rank: AccessRank) -> Seq<TagKind> {
    if current == "confirmed_cheater"@ && rank_level(rank) < 3 {
        Seq::empty()
    } else {
        user_addable_kinds().filter(|k: TagKind| change_option(k, current, rank))
    }
}

/// The tag definitions offered when changing a tag of type `current`.
pub fn tc_type_options(current: &str, rank: AccessRank) -> (r: Vec<TagDefinition>)
    ensures
        r@ == change_options_spec(current@, rank).map_values(|k: TagKind| definition(k)),
{
    let cur = chars_of(current);
    if str_eq_chars("confirmed_cheater", &cur) && !rank.at_least(AccessRank::Moderator) {
        let r: Vec<TagDefinition> = Vec::new();
        assert(r@ =~= change_options_spec(current@, rank).map_values(|k: TagKind| definition(k)));
        return r;
    }
    let kinds = [TagKind::Sniper, TagKind::BlatantCheater, TagKind::ClosetCheater, TagKind::ReplaysNeeded, TagKind::Caution];
    let ghost ks = user_addable_kinds();
    assert(kinds@ =~= ks);
    let mut r: Vec<TagDefinition> = Vec::new();
    let mut i: usize = 0;
    assert(ks.subrange(0, 0).filter(|k: TagKind| change_option(k, current@, rank)) =~= Seq::<TagKind>::empty());
    while i < 5
        invariant
            i <= 5,
            kinds@ == ks,
            ks == user_addable_kinds(),
            cur@ == current@,
            r@ == ks.subrange(0, i as int).filter(|k: TagKind| change_option(k, current@, rank)).map_values(|k: TagKind| definition(k)),
        decreases 5 - i,
    {
        let k = kinds[i];
        let ghost pre = ks.subrange(0, i as int);
        assert(ks.subrange(0, i + 1) =~= pre.push(k));
        proof {
            pre.lemma_filter_push(k, |k: TagKind| change_option(k, current@, rank));
        }
        let d = crate::tags::definition_of(k);
        let keep = !str_eq_chars(d.name, &cur)
            && !(k == TagKind::Caution && !rank.at_least(AccessRank::Moderator))
            && !(k == TagKind::ReplaysNeeded && !rank.at_least(AccessRank::Member));
        let ghost before = r@;
        if keep {
            r.push(d);
            assert(r@ =~= ks.subrange(0, i + 1).filter(|k: TagKind| change_option(k, current@, rank)).map_values(|k: TagKind| definition(k)));
        } else {
            assert(r@ =~= ks.subrange(0, i + 1).filter(|k: TagKind| change_option(k, current@, rank)).map_values(|k: TagKind| definition(k)));
        }
        i = i + 1;
    }
    assert(ks.subrange(0, 5) =~= ks);
    r
}

/// An entry changes its tag: a new type or reason, a claim by someone other
/// than the adder, or a different hide setting.
pub open spec fn has_changes_spec(e: TagChangeEntry, owner_id: u64) -> bool {
    e.new_type is Some || e.new_reason is Some || (e.claimed && e.original.added_by != owner_id as i64) || (
    match e.hide {
        Some(h) => h != e.original.hide_username,
        None => false,
    })
}

/// A pending change to one tag in the change menu.
#[derive(Clone, Debug)]
pub struct TagChangeEntry {
    pub tag_id: i64,
    pub original: PlayerTagRow,
    pub new_type: Option<String>,
    pub new_reason: Option<String>,
    pub claimed: bool,
    pub hide: Option<bool>,
    pub removed: bool,
    pub editable: bool,
}

impl TagChangeEntry {
    /// The tag type after the change.
    pub fn effective_type(&self) -> (r: &str)
        ensures
            r@ == (match self.new_type {
                Some(t) => t@,
                None => self.original.tag_type@,
            }),
    {
        match &self.new_type {
            Some(t) => t.as_str(),
            None => self.original.tag_type.as_str(),
        }
    }

    /// The reason after the change.
    pub fn effective_reason(&self) -> (r: &str)
        ensures
            r@ == (match self.new_reason {
                Some(t) => t@,
                None => self.original.reason@,
            }),
    {
        match &self.new_reason {
            Some(t) => t.as_str(),
            None => self.original.reason.as_str(),
        }
    }

    /// Who the tag is credited to after the change: the menu owner once claimed.
    pub fn effective_added_by(&self, owner_id: u64) -> (r: i64)
        ensures
            r == (if self.claimed { owner_id as i64 } else { self.original.added_by }),
    {
        if self.claimed {
            owner_id as i64
        } else {
            self.original.added_by
        }
    }

    /// Whether the adder is hidden after the change.
    pub fn effective_hide(&self) -> (r: bool)
        ensures
            r == (match self.hide {
                Some(h) => h,
                None => self.original.hide_username,
            }),
    {
        match self.hide {
            Some(h) => h,
            None => self.original.hide_username,
        }
    }

    /// Whether the entry changes anything: a new type or reason, a claim of
    /// someone else's tag, or a different hide setting.
    pub fn has_changes(&self, owner_id: u64) -> (r: bool)
        ensures
            r == has_changes_spec(*self, owner_id),
    {
        self.new_type.is_some() || self.new_reason.is_some() || (self.claimed
            && self.original.added_by != owner_id as i64) || match self.hide {
            Some(h) => h != self.original.hide_username,
            None => false,
        }
    }
}

// ---------------------------------------------------------------------------
// Managing members
// ---------------------------------------------------------------------------

/// The panel a component belongs to, by its custom id.
pub open spec fn context_prefix_spec(custom_id: Seq<char>) -> Seq<char> {
    if has_prefix(custom_id, "dashboard_"@) {
        "dashboard"@
    } else if has_prefix(custom_id, "link_"@) {
        "link"@
    } else {
        "manage"@
    }
}

/// The panel a component belongs to: `dashboard`, `link` or `manage`.
pub fn context_prefix(custom_id: &str) -> (r: &'static str)
    ensures
        r@ == context_prefix_spec(custom_id@),
{
    let cs = chars_of(custom_id);
    let d = chars_of("dashboard_");
    let l = chars_of("link_");
    if starts_with(&cs, &d) {
        "dashboard"
    } else if starts_with(&cs, &l) {
        "link"
    } else {
        "manage"
    }
}

/// Whether an invoker may change a member's linked accounts: always from their
/// own dashboard or on themselves; otherwise only a moderator or above ranking
/// strictly higher than the target.
pub fn resolve_can_modify(prefix: &str, invoker_rank: AccessRank, target_rank: AccessRank, is_self: bool) -> (r: bool)
    ensures
        r == (prefix@ == "dashboard"@ || is_self || (rank_level(invoker_rank) > rank_level(target_rank)
            && rank_level(invoker_rank) >= 3)),
{
    let cs = chars_of(prefix);
    str_eq_chars("dashboard", &cs) || is_self || (invoker_rank.to_level() > target_rank.to_level()
        && invoker_rank.at_least(AccessRank::Moderator))
}

/// The ranks an invoker may assign: every rank strictly below their own, lowest first.
pub fn assignable_ranks(invoker_rank: AccessRank) -> (r: Vec<AccessRank>)
    ensures
        forall|i: int| 0 <= i < r@.len() ==> rank_level(#[trigger] r@[i]) == i,
        r@.len() == (if rank_level(invoker_rank) < 4 { rank_level(invoker_rank) } else { 4 }),
{
    let all = [AccessRank::Default, AccessRank::Member, AccessRank::Helper, AccessRank::Moderator, AccessRank::Admin];
    let mut r: Vec<AccessRank> = Vec::new();
    let mut i: usize = 0;
    while i < 5
        invariant
            i <= 5,
            all@ == seq![AccessRank::Default, AccessRank::Member, AccessRank::Helper, AccessRank::Moderator, AccessRank::Admin],
            r@.len() == (if rank_level(invoker_rank) < i { rank_level(invoker_rank) } else { i as int }),
            forall|j: int| 0 <= j < r@.len() ==> rank_level(#[trigger] r@[j]) == j,
        decreases 5 - i,
    {
        if all[i].to_level() < invoker_rank.to_level() {
            r.push(all[i]);
        }
        i = i + 1;
    }
    r
}

} // verus!
