//! Account linking: whether a Minecraft player has linked the Discord account
//! that asks to be linked to it.
use vstd::prelude::*;
use crate::text::{chars_eq, chars_of, string_from_chars};

verus! {

/// The lower-case form of `s`, as `str::to_lowercase` gives it.
pub uninterp spec fn lower_text(s: Seq<char>) -> Seq<char>;

/// The lower-case form of a string.
///
/// Trusted: calls `str::to_lowercase`; its result is only named.
#[verifier::external_body]
fn lowercase(s: &str) -> (r: String)
    ensures
        r@ == lower_text(s@),
{
    s.to_lowercase()
}

/// The outcome of checking a player's link to a Discord account.
#[derive(Clone, Debug)]
pub enum LinkCheck {
    Verified { uuid: String, username: String },
    NotVerified { uuid: String },
    PlayerNotFound,
    HypixelNotFound,
}

/// The Hypixel profile fields a link check reads: the display name and the
/// Discord account the player linked, each `None` where it is absent.
#[derive(Clone, Debug)]
pub struct HypixelLink {
    pub displayname: Option<String>,
    pub discord: Option<String>,
}

/// A player as the stats lookup found them.
#[derive(Clone, Debug)]
pub struct LinkedPlayer {
    pub uuid: String,
    pub username: String,
    pub hypixel: Option<HypixelLink>,
}

/// The player linked the Discord account `discord_username`, compared without
/// regard to case.
pub open spec fn linked_to(discord: Option<Seq<char>>, discord_username: Seq<char>) -> bool {
    match discord {
        Some(l) => lower_text(l) == lower_text(discord_username),
        None => false,
    }
}

/// Whether the Discord account a player linked is `discord_username`, compared
/// without regard to case; a player who linked none is linked to no one.
pub fn is_discord_linked(discord: Option<&str>, discord_username: &str) -> (r: bool)
    ensures
        r == linked_to(
            match discord {
                Some(l) => Some(l@),
                None => None,
            },
            discord_username@,
        ),
{
    match discord {
        Some(linked) => {
            let a = lowercase(linked);
            let b = lowercase(discord_username);
            chars_eq(&chars_of(a.as_str()), &chars_of(b.as_str()))
        },
        None => false,
    }
}

/// The optional Discord link as a sequence.
pub open spec fn link_view(h: HypixelLink) -> Option<Seq<char>> {
    match h.discord {
        Some(s) => Some(s@),
        None => None,
    }
}

/// The outcome of checking whether `player`, as the stats lookup found them
/// (`None` where it failed), linked the Discord account `discord_username`.
pub open spec fn link_outcome_ok(r: LinkCheck, player: Option<LinkedPlayer>, discord_username: Seq<char>) -> bool {
    match player {
        None => r is PlayerNotFound,
        Some(p) => match p.hypixel {
            None => r is HypixelNotFound,
            Some(h) => if linked_to(link_view(h), discord_username) {
                r matches LinkCheck::Verified { uuid, username } && uuid@ == p.uuid@ && username@
                    == match h.displayname {
                    Some(d) => d@,
                    None => p.username@,
                }
            } else {
                r matches LinkCheck::NotVerified { uuid } && uuid@ == p.uuid@
            },
        },
    }
}

/// Checks a player's link to the Discord account `discord_username`: the
/// player must be found and have a Hypixel profile; the link is verified when
/// the profile names that account, and the player is then known under the
/// profile's display name, or the looked-up name where it has none.
pub fn check_link(player: Option<LinkedPlayer>, discord_username: &str) -> (r: LinkCheck)
    ensures
        link_outcome_ok(r, player, discord_username@),
{
    let p = match player {
        Some(p) => p,
        None => return LinkCheck::PlayerNotFound,
    };
    let h = match p.hypixel {
        Some(h) => h,
        None => return LinkCheck::HypixelNotFound,
    };
    let linked = match &h.discord {
        Some(d) => is_discord_linked(Some(d.as_str()), discord_username),
        None => is_discord_linked(None, discord_username),
    };
    if linked {
        let username = match &h.displayname {
            Some(d) => string_from_chars(&chars_of(d.as_str())),
            None => p.username,
        };
        LinkCheck::Verified { uuid: p.uuid, username }
    } else {
        LinkCheck::NotVerified { uuid: p.uuid }
    }
}

} // verus!
