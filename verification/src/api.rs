//! The HTTP API's request rules: what each endpoint accepts, and the error it
//! answers otherwise.
use vstd::prelude::*;
use vstd::string::StringSliceAdditionalSpecFns;
use crate::access::{rank_level, AccessRank};
use crate::tags::{kind_named, kind_name, user_addable, user_addable_kinds, TagKind};
use crate::text::{
    chars_of, joined, parse_u64_exec, parse_u64_spec, push_joined, push_str, str_eq_chars,
    string_from_chars, views,
};

verus! {

pub const MAX_REASON_LENGTH: usize = 500;
pub const MAX_IDENTIFIER_LENGTH: usize = 36;
pub const MAX_BATCH_SIZE: usize = 100;
pub const MAX_MARKER_NAME_LENGTH: usize = 32;

/// An API error: the HTTP status it maps to and its message.
#[derive(Clone, Debug)]
pub enum ApiError {
    NotFound(String),
    BadRequest(String),
    Forbidden(String),
    Conflict(String),
    RateLimited,
    ExternalApi(String),
    Internal(String),
}

/// `e` is a bad request with message `msg`.
pub open spec fn is_bad_request(e: ApiError, msg: Seq<char>) -> bool {
    e matches ApiError::BadRequest(m) && m@ == msg
}

/// `e` is a forbidden request with message `msg`.
pub open spec fn is_forbidden(e: ApiError, msg: Seq<char>) -> bool {
    e matches ApiError::Forbidden(m) && m@ == msg
}

/// `e` is a conflict with message `msg`.
pub open spec fn is_conflict(e: ApiError, msg: Seq<char>) -> bool {
    e matches ApiError::Conflict(m) && m@ == msg
}

/// A `String` with the characters of `s`.
fn owned(s: &str) -> (r: String)
    ensures
        r@ == s@,
{
    let cs = chars_of(s);
    string_from_chars(&cs)
}

/// The UTF-8 length of a string in bytes.
pub open spec fn byte_len(s: &str) -> nat {
    (s.spec_bytes().len() as usize) as nat
}

/// A user may add the tag named `t` directly.
pub open spec fn user_addable_name(t: Seq<char>) -> bool {
    kind_named(t) matches Some(k) && k != TagKind::ConfirmedCheater
}

/// The message for a tag type that cannot be added: the type, then the
/// identifiers that can, separated by commas.
pub open spec fn invalid_tag_type_message(t: Seq<char>) -> Seq<char> {
    "invalid tag type '"@ + t + "', allowed: "@ + joined(
        user_addable_kinds().map_values(|k: TagKind| kind_name(k)),
        ", "@,
    )
}

/// Accepts a tag type that users may add; otherwise a bad request listing the
/// allowed types.
pub fn validate_tag_type(tag_type: &str) -> (r: Result<(), ApiError>)
    ensures
        r is Ok <==> user_addable_name(tag_type@),
        r matches Err(e) ==> is_bad_request(e, invalid_tag_type_message(tag_type@)),
{
    if crate::tags::is_user_addable(tag_type) {
        return Ok(());
    }
    let defs = user_addable();
    let mut names: Vec<Vec<char>> = Vec::new();
    let mut i: usize = 0;
    while i < defs.len()
        invariant
            i <= defs@.len(),
            defs@ == user_addable_kinds().map_values(|k: TagKind| crate::tags::definition(k)),
            views(names@) == user_addable_kinds().map_values(|k: TagKind| kind_name(k)).subrange(0, i as int),
        decreases defs@.len() - i,
    {
        let n = chars_of(defs[i].name);
        assert(defs@[i as int] == crate::tags::definition(user_addable_kinds()[i as int]));
        assert(n@ == user_addable_kinds().map_values(|k: TagKind| kind_name(k))[i as int]);
        let ghost before = views(names@);
        names.push(n);
        assert(views(names@) =~= before.push(n@));
        i = i + 1;
        assert(views(names@) =~= user_addable_kinds().map_values(|k: TagKind| kind_name(k)).subrange(0, i as int));
    }
    assert(user_addable_kinds().map_values(|k: TagKind| kind_name(k)).subrange(0, 5) =~= user_addable_kinds().map_values(|k: TagKind| kind_name(k)));
    let mut msg: Vec<char> = Vec::new();
    push_str(&mut msg, "invalid tag type '");
    push_str(&mut msg, tag_type);
    push_str(&mut msg, "', allowed: ");
    let sep = chars_of(", ");
    push_joined(&mut msg, &names, &sep);
    assert(msg@ =~= invalid_tag_type_message(tag_type@));
    Err(ApiError::BadRequest(string_from_chars(&msg)))
}

/// Accepts a reason of at most 500 bytes.
pub fn validate_reason(reason: &str) -> (r: Result<(), ApiError>)
    ensures
        r is Ok <==> byte_len(reason) <= 500,
        r matches Err(e) ==> is_bad_request(e, "reason exceeds maximum length of 500 characters"@),
{
    if reason.len() > MAX_REASON_LENGTH {
        return Err(ApiError::BadRequest(owned("reason exceeds maximum length of 500 characters")));
    }
    Ok(())
}

/// Accepts a session marker name of 1 to 32 bytes.
pub fn validate_marker_name(name: &str) -> (r: Result<(), ApiError>)
    ensures
        r is Ok <==> (name@.len() > 0 && byte_len(name) <= 32),
        r matches Err(e) ==> is_bad_request(e, "marker name must be 1-32 characters"@),
{
    if name.is_empty() || name.len() > MAX_MARKER_NAME_LENGTH {
        return Err(ApiError::BadRequest(owned("marker name must be 1-32 characters")));
    }
    Ok(())
}

/// Checks a request to add a tag, in order: tagging must be enabled for the
/// member, the UUID at most 36 bytes, the tag type one users may add, and the
/// reason at most 500 bytes.
pub fn check_add_tag(tagging_disabled: bool, uuid: &str, tag_type: &str, reason: &str) -> (r: Result<(), ApiError>)
    ensures
        r is Ok <==> (!tagging_disabled && byte_len(uuid) <= 36 && user_addable_name(tag_type@)
            && byte_len(reason) <= 500),
        r matches Err(e) ==> (if tagging_disabled {
            is_forbidden(e, "tagging is disabled on your account"@)
        } else if byte_len(uuid) > 36 {
            is_bad_request(e, "uuid too long"@)
        } else if !user_addable_name(tag_type@) {
            is_bad_request(e, invalid_tag_type_message(tag_type@))
        } else {
            is_bad_request(e, "reason exceeds maximum length of 500 characters"@)
        }),
{
    if tagging_disabled {
        return Err(ApiError::Forbidden(owned("tagging is disabled on your account")));
    }
    if uuid.len() > MAX_IDENTIFIER_LENGTH {
        return Err(ApiError::BadRequest(owned("uuid too long")));
    }
    match validate_tag_type(tag_type) {
        Err(e) => Err(e),
        Ok(()) => validate_reason(reason),
    }
}

/// Tags on a locked player can only be added by helpers and above.
pub fn check_player_lock(is_locked: bool, rank: AccessRank) -> (r: Result<(), ApiError>)
    ensures
        r is Ok <==> !(is_locked && rank_level(rank) < 2),
        r matches Err(e) ==> is_forbidden(e, "player is locked"@),
{
    if is_locked && !rank.at_least(AccessRank::Helper) {
        return Err(ApiError::Forbidden(owned("player is locked")));
    }
    Ok(())
}

/// Tags only moderators may remove.
pub open spec fn moderator_only_type(t: Seq<char>) -> bool {
    t == "confirmed_cheater"@ || t == "caution"@
}

/// Checks a request by member `member_id` of rank `rank` to remove a tag of
/// type `tag_type` added by `added_by`: below helper, only one's own tags;
/// below moderator, never a confirmed cheater or caution tag.
pub fn check_remove_tag(rank: AccessRank, member_id: i64, added_by: i64, tag_type: &str) -> (r: Result<(), ApiError>)
    ensures
        r is Ok <==> ((added_by == member_id || rank_level(rank) >= 2) && !(moderator_only_type(
            tag_type@,
        ) && rank_level(rank) < 3)),
        r matches Err(e) ==> (if added_by != member_id && rank_level(rank) < 2 {
            is_forbidden(e, "you can only remove your own tags"@)
        } else {
            is_forbidden(e, "only moderators can remove confirmed_cheater and caution tags"@)
        }),
{
    let is_own = added_by == member_id;
    if !is_own && !rank.at_least(AccessRank::Helper) {
        return Err(ApiError::Forbidden(owned("you can only remove your own tags")));
    }
    let cs = chars_of(tag_type);
    if (str_eq_chars("confirmed_cheater", &cs) || str_eq_chars("caution", &cs)) && !rank.at_least(
        AccessRank::Moderator,
    ) {
        return Err(
            ApiError::Forbidden(owned("only moderators can remove confirmed_cheater and caution tags")),
        );
    }
    Ok(())
}

/// Checks a request to overwrite a tag with a new type and reason: tagging must
/// be enabled, the new type one users may add, the new reason at most 500 bytes.
pub fn check_overwrite_request(tagging_disabled: bool, tag_type: &str, reason: &str) -> (r: Result<(), ApiError>)
    ensures
        r is Ok <==> (!tagging_disabled && user_addable_name(tag_type@) && byte_len(reason) <= 500),
        r matches Err(e) ==> (if tagging_disabled {
            is_forbidden(e, "tagging is disabled on your account"@)
        } else if !user_addable_name(tag_type@) {
            is_bad_request(e, invalid_tag_type_message(tag_type@))
        } else {
            is_bad_request(e, "reason exceeds maximum length of 500 characters"@)
        }),
{
    if tagging_disabled {
        return Err(ApiError::Forbidden(owned("tagging is disabled on your account")));
    }
    match validate_tag_type(tag_type) {
        Err(e) => Err(e),
        Ok(()) => validate_reason(reason),
    }
}

/// Checks an overwrite against the stored tag: it must still have the type and
/// reason the client saw, and below helper it must be the member's own.
pub fn check_overwrite_target(
    current_type: &str,
    current_reason: &str,
    expected_type: &str,
    expected_reason: &str,
    added_by: i64,
    member_id: i64,
    rank: AccessRank,
) -> (r: Result<(), ApiError>)
    ensures
        r is Ok <==> (current_type@ == expected_type@ && current_reason@ == expected_reason@ && (
        added_by == member_id || rank_level(rank) >= 2)),
        r matches Err(e) ==> (if current_type@ != expected_type@ || current_reason@
            != expected_reason@ {
            is_conflict(e, "tag has been modified since you last viewed it"@)
        } else {
            is_forbidden(e, "you can only overwrite your own tags"@)
        }),
{
    if !crate::text::str_eq(current_type, expected_type) || !crate::text::str_eq(
        current_reason,
        expected_reason,
    ) {
        return Err(ApiError::Conflict(owned("tag has been modified since you last viewed it")));
    }
    if added_by != member_id && !rank.at_least(AccessRank::Helper) {
        return Err(ApiError::Forbidden(owned("you can only overwrite your own tags")));
    }
    Ok(())
}

/// A tag row the API writes: the player's normalised UUID, the type, the
/// reason, the member it is recorded as added by, and whether the adder's
/// name is hidden. Rows added through the API name nobody who voted on them.
#[derive(Clone, Debug)]
pub struct TagWrite {
    pub uuid: String,
    pub tag_type: String,
    pub reason: String,
    pub added_by: i64,
    pub hide: bool,
}

/// `w` is the row with these fields.
pub open spec fn tag_write_is(w: TagWrite, uuid: Seq<char>, tag_type: Seq<char>, reason: Seq<char>, added_by: i64, hide: bool) -> bool {
    &&& w.uuid@ == uuid
    &&& w.tag_type@ == tag_type
    &&& w.reason@ == reason
    &&& w.added_by == added_by
    &&& w.hide == hide
}

/// The row the add route writes for a request that passed `check_add_tag`,
/// given the player's normalised UUID and whether the player is locked: a
/// locked player refuses members below helper; otherwise the requested type
/// and reason are written under the normalised UUID, added by the member,
/// hidden as the request asks.
pub fn plan_add_write(
    uuid: &str,
    tag_type: &str,
    reason: &str,
    hide_username: bool,
    member_id: i64,
    is_locked: bool,
    rank: AccessRank,
) -> (r: Result<TagWrite, ApiError>)
    ensures
        r is Ok <==> !(is_locked && rank_level(rank) < 2),
        r matches Err(e) ==> is_forbidden(e, "player is locked"@),
        r matches Ok(w) ==> tag_write_is(w, uuid@, tag_type@, reason@, member_id, hide_username),
{
    match check_player_lock(is_locked, rank) {
        Err(e) => Err(e),
        Ok(()) => Ok(TagWrite {
            uuid: owned(uuid),
            tag_type: owned(tag_type),
            reason: owned(reason),
            added_by: member_id,
            hide: hide_username,
        }),
    }
}

/// What the overwrite route changes: the stored tag it removes, recorded as
/// removed by the member, and the row it adds in its place.
#[derive(Clone, Debug)]
pub struct OverwriteWrite {
    pub remove_tag_id: i64,
    pub removed_by: i64,
    pub add: TagWrite,
}

/// What the overwrite route writes for a request that passed
/// `check_overwrite_request`, given the player's normalised UUID and the
/// stored tag: the tag must still hold what the client saw and, below
/// helper, be the member's own (as `check_overwrite_target` says); then the
/// stored tag is removed by the member, and the new type and reason are
/// added under the normalised UUID by the member, hidden as asked.
pub fn plan_overwrite_write(
    uuid: &str,
    tag_id: i64,
    current_type: &str,
    current_reason: &str,
    expected_type: &str,
    expected_reason: &str,
    added_by: i64,
    member_id: i64,
    rank: AccessRank,
    new_type: &str,
    new_reason: &str,
    hide_username: bool,
) -> (r: Result<OverwriteWrite, ApiError>)
    ensures
        r is Ok <==> (current_type@ == expected_type@ && current_reason@ == expected_reason@ && (
        added_by == member_id || rank_level(rank) >= 2)),
        r matches Err(e) ==> (if current_type@ != expected_type@ || current_reason@
            != expected_reason@ {
            is_conflict(e, "tag has been modified since you last viewed it"@)
        } else {
            is_forbidden(e, "you can only overwrite your own tags"@)
        }),
        r matches Ok(w) ==> w.remove_tag_id == tag_id && w.removed_by == member_id && tag_write_is(
            w.add,
            uuid@,
            new_type@,
            new_reason@,
            member_id,
            hide_username,
        ),
{
    match check_overwrite_target(current_type, current_reason, expected_type, expected_reason, added_by, member_id, rank) {
        Err(e) => Err(e),
        Ok(()) => Ok(OverwriteWrite {
            remove_tag_id: tag_id,
            removed_by: member_id,
            add: TagWrite {
                uuid: owned(uuid),
                tag_type: owned(new_type),
                reason: owned(new_reason),
                added_by: member_id,
                hide: hide_username,
            },
        }),
    }
}

/// Locking and unlocking players needs moderator access.
pub fn check_moderator(rank: AccessRank) -> (r: Result<(), ApiError>)
    ensures
        r is Ok <==> rank_level(rank) >= 3,
        r matches Err(e) ==> is_forbidden(e, "moderator access required"@),
{
    if !rank.at_least(AccessRank::Moderator) {
        return Err(ApiError::Forbidden(owned("moderator access required")));
    }
    Ok(())
}

/// A batch lookup takes between 1 and 100 identifiers.
pub fn check_batch_size(count: usize) -> (r: Result<(), ApiError>)
    ensures
        r is Ok <==> 1 <= count <= 100,
        count == 0 ==> (r matches Err(e) && is_bad_request(e, "uuids array is empty"@)),
        count > 100 ==> (r matches Err(e) && is_bad_request(e, "batch size exceeds maximum of 100"@)),
{
    if count == 0 {
        return Err(ApiError::BadRequest(owned("uuids array is empty")));
    }
    if count > MAX_BATCH_SIZE {
        return Err(ApiError::BadRequest(owned("batch size exceeds maximum of 100")));
    }
    Ok(())
}

/// The number of snapshot timestamps listed: 100 by default, at most 500.
pub fn snapshot_limit(limit: Option<i64>) -> (r: i64)
    ensures
        r == (match limit {
            Some(l) => if l < 500 { l } else { 500 },
            None => 100,
        }),
{
    let l = match limit {
        Some(l) => l,
        None => 100,
    };
    if l < 500 {
        l
    } else {
        500
    }
}

/// The largest number of hours a duration can span.
pub open spec fn max_duration_hours() -> int {
    i64::MAX / 1000 / 3600
}

/// The hours in one unit: `h` one, `d` a day, `w` a week.
pub open spec fn unit_hours(u: char) -> int {
    if u == 'h' {
        1
    } else if u == 'd' {
        24
    } else if u == 'w' {
        168
    } else {
        0
    }
}

/// A duration such as `48h`, `10d` or `2w`, in hours: a positive count
/// followed by a unit.
pub open spec fn parse_duration_spec(s: Seq<char>) -> Option<int> {
    if s.len() == 0 {
        None
    } else {
        match parse_u64_spec(s.drop_last()) {
            Some(n) => if 0 < n <= i64::MAX && unit_hours(s.last()) > 0 {
                Some(n * unit_hours(s.last()))
            } else {
                None
            },
            None => None,
        }
    }
}

/// Parses a duration such as `48h`, `10d` or `2w` into hours. `None` unless the
/// text is a positive count followed by `h`, `d` or `w`.
pub fn parse_duration(s: &str) -> (r: Option<i64>)
    requires
        s@.len() == 0 || (s@.last() as u32) < 0x80,
        parse_duration_spec(s@) matches Some(h) ==> h <= max_duration_hours(),
    ensures
        r matches Some(h) ==> parse_duration_spec(s@) == Some(h as int),
        r is None ==> parse_duration_spec(s@) is None,
{
    let cs = chars_of(s);
    if cs.len() == 0 {
        return None;
    }
    let unit = cs[cs.len() - 1];
    let digits = crate::text::slice_vec(&cs, 0, cs.len() - 1);
    assert(digits@ =~= s@.drop_last());
    let n = match parse_u64_exec(&digits) {
        Some(n) => n,
        None => return None,
    };
    if n == 0 || n > i64::MAX as u64 {
        return None;
    }
    let n = n as i64;
    if unit == 'h' {
        Some(n)
    } else if unit == 'd' {
        Some(n * 24)
    } else if unit == 'w' {
        Some(n * 168)
    } else {
        None
    }
}

/// How a custom session names its start.
#[derive(Clone, Copy, Debug, PartialEq, Eq, Structural)]
pub enum SessionStart {
    Duration,
    From,
    Marker,
}

/// Which of the custom-session parameters is given: exactly one of `duration`,
/// `from` and `marker` must be.
pub fn custom_session_start(has_duration: bool, has_from: bool, has_marker: bool) -> (r: Result<SessionStart, ApiError>)
    ensures
        (has_duration && !has_from && !has_marker) ==> r == Ok::<SessionStart, ApiError>(SessionStart::Duration),
        (!has_duration && has_from && !has_marker) ==> r == Ok::<SessionStart, ApiError>(SessionStart::From),
        (!has_duration && !has_from && has_marker) ==> r == Ok::<SessionStart, ApiError>(SessionStart::Marker),
        r is Err <==> !((has_duration && !has_from && !has_marker) || (!has_duration && has_from
            && !has_marker) || (!has_duration && !has_from && has_marker)),
        r matches Err(e) ==> is_bad_request(e, "specify exactly one of 'duration', 'from', or 'marker'"@),
{
    if has_duration && !has_from && !has_marker {
        Ok(SessionStart::Duration)
    } else if !has_duration && has_from && !has_marker {
        Ok(SessionStart::From)
    } else if !has_duration && !has_from && has_marker {
        Ok(SessionStart::Marker)
    } else {
        Err(ApiError::BadRequest(owned("specify exactly one of 'duration', 'from', or 'marker'")))
    }
}

/// How a guild is looked up.
#[derive(Clone, Copy, Debug, PartialEq, Eq, Structural)]
pub enum GuildLookup {
    ByName,
    ByPlayer,
    Auto,
}

/// The guild lookup named by the `by` parameter: `name`, `player`, or, when
/// absent, automatic; any other value is a bad request naming it.
pub fn guild_lookup(by: Option<&str>) -> (r: Result<GuildLookup, ApiError>)
    ensures
        by is None ==> r == Ok::<GuildLookup, ApiError>(GuildLookup::Auto),
        by matches Some(b) ==> (if b@ == "name"@ {
            r == Ok::<GuildLookup, ApiError>(GuildLookup::ByName)
        } else if b@ == "player"@ {
            r == Ok::<GuildLookup, ApiError>(GuildLookup::ByPlayer)
        } else {
            r matches Err(e) && is_bad_request(e, "invalid 'by' parameter: "@ + b@)
        }),
{
    match by {
        None => Ok(GuildLookup::Auto),
        Some(b) => {
            let cs = chars_of(b);
            if str_eq_chars("name", &cs) {
                Ok(GuildLookup::ByName)
            } else if str_eq_chars("player", &cs) {
                Ok(GuildLookup::ByPlayer)
            } else {
                let mut msg: Vec<char> = Vec::new();
                push_str(&mut msg, "invalid 'by' parameter: ");
                crate::text::push_chars(&mut msg, &cs);
                Err(ApiError::BadRequest(string_from_chars(&msg)))
            }
        },
    }
}

} // verus!
