//! Who gets through the API's gates: where a request's key is read from,
//! the internal key, member keys that are locked or over their request
//! budget, and the access level each gate asks for; and the same checks as
//! the overlay endpoint answers them.
use vstd::prelude::*;
use crate::access::rate_limit_for_access;
use crate::responses::{CubelifyResponse, CubelifyTagView};
use crate::text::{chars_eq, chars_of, has_prefix, split, split_exec, string_from_chars, strip_prefix, views};

verus! {

/// The key in a query string: the rest of the first `&`-separated pair that
/// starts with `key=`.
pub open spec fn query_key(pairs: Seq<Seq<char>>) -> Option<Seq<char>>
    decreases pairs.len(),
{
    if pairs.len() == 0 {
        None
    } else if has_prefix(pairs[0], "key="@) {
        Some(pairs[0].subrange(4, pairs[0].len() as int))
    } else {
        query_key(pairs.drop_first())
    }
}

/// The API key of a request: the `X-API-Key` header when there is one (no
/// key when its value is not text), else the `key` parameter of the query.
/// `header` is `None` without the header, `Some(None)` when its value is not
/// text.
pub open spec fn request_key(header: Option<Option<Seq<char>>>, query: Option<Seq<char>>) -> Option<Seq<char>> {
    match header {
        Some(h) => h,
        None => match query {
            Some(q) => query_key(split(q, "&"@)),
            None => None,
        },
    }
}

/// Reads the API key of a request.
pub fn extract_api_key(header: Option<Option<&str>>, query: Option<&str>) -> (r: Option<String>)
    ensures
        match r {
            Some(k) => request_key(
                match header { Some(Some(h)) => Some(Some(h@)), Some(None) => Some(None), None => None },
                match query { Some(q) => Some(q@), None => None },
            ) == Some(k@),
            None => request_key(
                match header { Some(Some(h)) => Some(Some(h@)), Some(None) => Some(None), None => None },
                match query { Some(q) => Some(q@), None => None },
            ) is None,
        },
{
    proof {
        reveal_strlit("&");
        reveal_strlit("key=");
    }
    match header {
        Some(Some(h)) => return Some(string_from_chars(&chars_of(h))),
        Some(None) => return None,
        None => {},
    }
    let q = match query {
        Some(q) => q,
        None => return None,
    };
    let pairs = split_exec(&chars_of(q), &chars_of("&"));
    let ghost ps = views(pairs@);
    let pre = chars_of("key=");
    let mut i: usize = 0;
    assert(ps.subrange(0, ps.len() as int) =~= ps);
    while i < pairs.len()
        invariant
            i <= pairs@.len(),
            ps == views(pairs@),
            ps == split(q@, "&"@),
            pre@ == "key="@,
            header is None,
            query == Some(q),
            query_key(ps) == query_key(ps.subrange(i as int, ps.len() as int)),
        decreases pairs@.len() - i,
    {
        let ghost rest = ps.subrange(i as int, ps.len() as int);
        assert(rest[0] == pairs@[i as int]@);
        assert(rest.drop_first() =~= ps.subrange(i + 1, ps.len() as int));
        match strip_prefix(&pairs[i], &pre) {
            Some(k) => {
                proof {
                    reveal_strlit("key=");
                }
                assert(has_prefix(rest[0], "key="@));
                assert(query_key(rest) == Some(k@));
                return Some(string_from_chars(&k));
            },
            None => {},
        }
        i = i + 1;
    }
    assert(ps.subrange(i as int, ps.len() as int) =~= Seq::<Seq<char>>::empty());
    None
}

/// Whether `key` is the service's internal key.
pub fn is_internal_key(internal: Option<&str>, key: &str) -> (r: bool)
    ensures
        r == (match internal { Some(k) => k@ == key@, None => false }),
{
    match internal {
        Some(k) => chars_eq(&chars_of(k), &chars_of(key)),
        None => false,
    }
}

/// The gates in front of the API's routes.
#[derive(Clone, Copy, Debug, PartialEq, Eq, Structural)]
pub enum Gate {
    /// The internal key, or an admin's key.
    InternalOrAdmin,
    /// A moderator's key.
    Moderator,
    /// The internal key, or any member's key.
    InternalOrMember,
}

/// The lowest access level a member's key needs at a gate.
pub open spec fn gate_level(g: Gate) -> i16 {
    match g {
        Gate::InternalOrAdmin => 4,
        Gate::Moderator => 3,
        Gate::InternalOrMember => i16::MIN,
    }
}

/// Whether a gate lets the internal key through.
pub open spec fn gate_takes_internal(g: Gate) -> bool {
    g != Gate::Moderator
}

/// A request's fate at a gate, once decided.
#[derive(Clone, Copy, Debug, PartialEq, Eq, Structural)]
pub enum GateOutcome {
    /// Through, on the internal key.
    Internal,
    /// Through, as the member the key belongs to.
    Member,
    /// Stopped with this HTTP status.
    Refused(u16),
}

/// The first step at a gate: a request without a key is refused (401); the
/// internal key passes the gates that accept it; for any other key the
/// answer is `None`, and the key's member is fetched next.
pub fn gate_start(g: Gate, key: Option<&str>, internal: Option<&str>) -> (r: Option<GateOutcome>)
    ensures
        match key {
            None => r == Some(GateOutcome::Refused(401)),
            Some(k) => r == (if gate_takes_internal(g) && match internal { Some(i) => i@ == k@, None => false } {
                Some(GateOutcome::Internal)
            } else {
                None::<GateOutcome>
            }),
        },
{
    let k = match key {
        Some(k) => k,
        None => return Some(GateOutcome::Refused(401)),
    };
    if g != Gate::Moderator && is_internal_key(internal, k) {
        return Some(GateOutcome::Internal);
    }
    None
}

/// What looking up a member key found.
#[derive(Clone, Copy, Debug, PartialEq, Eq, Structural)]
pub enum KeyLookup {
    /// The lookup itself failed.
    Failed,
    /// No member has the key.
    Unknown,
    /// The key's member, with their access level and whether the key is locked.
    Found { access_level: i16, key_locked: bool },
}

/// The second step for a member key: a failed lookup is an internal error
/// (500), an unknown key is refused (401), a locked key is forbidden (403);
/// otherwise the key's request budget is checked next (`Ok` with the budget).
pub open spec fn gate_member_spec(lookup: KeyLookup) -> Result<i64, GateOutcome> {
    match lookup {
        KeyLookup::Failed => Err(GateOutcome::Refused(500)),
        KeyLookup::Unknown => Err(GateOutcome::Refused(401)),
        KeyLookup::Found { access_level, key_locked } => if key_locked {
            Err(GateOutcome::Refused(403))
        } else {
            Ok(if access_level >= 4 { 3000i64 } else if access_level >= 2 { 1200i64 } else { 600i64 })
        },
    }
}

/// The second step for a member key.
pub fn gate_member(lookup: KeyLookup) -> (r: Result<i64, GateOutcome>)
    ensures
        r == gate_member_spec(lookup),
{
    match lookup {
        KeyLookup::Failed => Err(GateOutcome::Refused(500)),
        KeyLookup::Unknown => Err(GateOutcome::Refused(401)),
        KeyLookup::Found { access_level, key_locked } => {
            if key_locked {
                Err(GateOutcome::Refused(403))
            } else {
                Ok(rate_limit_for_access(access_level))
            }
        },
    }
}

/// What the request budget check said.
#[derive(Clone, Copy, Debug, PartialEq, Eq, Structural)]
pub enum RateCheck {
    /// The check itself failed.
    Failed,
    /// The request is within the budget.
    Allowed,
    /// The budget is spent.
    Exceeded,
}

/// The last step for a member key: a failed check is an internal error
/// (500), an exhausted budget is refused (429), and a member below the
/// gate's level is forbidden (403).
pub open spec fn gate_finish_spec(g: Gate, rate: RateCheck, access_level: i16) -> GateOutcome {
    match rate {
        RateCheck::Failed => GateOutcome::Refused(500),
        RateCheck::Exceeded => GateOutcome::Refused(429),
        RateCheck::Allowed => if access_level < gate_level(g) { GateOutcome::Refused(403) } else { GateOutcome::Member },
    }
}

/// The last step for a member key.
pub fn gate_finish(g: Gate, rate: RateCheck, access_level: i16) -> (r: GateOutcome)
    ensures
        r == gate_finish_spec(g, rate, access_level),
{
    match rate {
        RateCheck::Failed => GateOutcome::Refused(500),
        RateCheck::Exceeded => GateOutcome::Refused(429),
        RateCheck::Allowed => {
            let needed: i16 = match g {
                Gate::InternalOrAdmin => 4,
                Gate::Moderator => 3,
                Gate::InternalOrMember => i16::MIN,
            };
            if access_level < needed {
                GateOutcome::Refused(403)
            } else {
                GateOutcome::Member
            }
        },
    }
}

/// A member key takes a request through a gate only when the key is known
/// and not locked, the request is within the budget, and the member has the
/// gate's level.
pub proof fn lemma_member_passage(g: Gate, lookup: KeyLookup, rate: RateCheck)
    requires
        gate_member_spec(lookup) is Ok,
        lookup matches KeyLookup::Found { access_level, .. } && gate_finish_spec(g, rate, access_level) == GateOutcome::Member,
    ensures
        lookup matches KeyLookup::Found { access_level, key_locked } && !key_locked && access_level >= gate_level(g),
        rate == RateCheck::Allowed,
{
}

/// The overlay's answer for an error: one red tag with the message.
pub open spec fn overlay_error(r: CubelifyResponse, message: Seq<char>, icon: Seq<char>) -> bool {
    &&& r.score.value_tenths == 0
    &&& r.score.mode@ == "add"@
    &&& r.tags@.len() == 1
    &&& r.tags@[0]@ == (CubelifyTagView { icon, color: 0xFF0000, tooltip: message, text: None })
}

/// The overlay endpoint's key check: a failed lookup, an unknown key and a
/// locked key each answer with an error tag; otherwise the member's access
/// level.
pub fn overlay_key_check(lookup: KeyLookup) -> (r: Result<i16, CubelifyResponse>)
    ensures
        match lookup {
            KeyLookup::Failed => r matches Err(e) && overlay_error(e, "Internal Error"@, "mdi-alert-circle"@),
            KeyLookup::Unknown => r matches Err(e) && overlay_error(e, "Invalid Key"@, "mdi-key-remove"@),
            KeyLookup::Found { access_level, key_locked } => if key_locked {
                r matches Err(e) && overlay_error(e, "Your key has been locked"@, "mdi-account-lock-outline"@)
            } else {
                r == Ok::<i16, CubelifyResponse>(access_level)
            },
        },
{
    match lookup {
        KeyLookup::Failed => Err(CubelifyResponse::error("Internal Error", "mdi-alert-circle")),
        KeyLookup::Unknown => Err(CubelifyResponse::error("Invalid Key", "mdi-key-remove")),
        KeyLookup::Found { access_level, key_locked } => {
            if key_locked {
                Err(CubelifyResponse::error("Your key has been locked", "mdi-account-lock-outline"))
            } else {
                Ok(access_level)
            }
        },
    }
}

/// The overlay endpoint's request budget: `count` is how many requests the
/// key has made in the window, this one included (`None` when the check
/// failed; 1 when the store reported nothing). Over the budget of the
/// member's level, or on a failed check, the answer is an error tag.
pub fn overlay_rate_check(count: Option<Option<i64>>, access_level: i16) -> (r: Result<(), CubelifyResponse>)
    ensures
        match count {
            None => r matches Err(e) && overlay_error(e, "Internal Error"@, "mdi-alert-circle"@),
            Some(c) => {
                let n: i64 = match c { Some(n) => n, None => 1 };
                let limit: i64 = if access_level >= 4 { 3000 } else if access_level >= 2 { 1200 } else { 600 };
                if n <= limit {
                    r == Ok::<(), CubelifyResponse>(())
                } else {
                    r matches Err(e) && overlay_error(e, "Rate limit exceeded"@, "mdi-speedometer"@)
                }
            },
        },
{
    let c = match count {
        Some(c) => c,
        None => return Err(CubelifyResponse::error("Internal Error", "mdi-alert-circle")),
    };
    let n: i64 = match c {
        Some(n) => n,
        None => 1,
    };
    if n <= rate_limit_for_access(access_level) {
        Ok(())
    } else {
        Err(CubelifyResponse::error("Rate limit exceeded", "mdi-speedometer"))
    }
}

} // verus!
