//! The `/tag change` menu: which of a player's tags a member may edit, the
//! controls and text each tag gets, and what saving the pending changes does.
use vstd::prelude::*;
use crate::access::{can_remove_tag, change_options_spec, rank_level, tc_type_options, AccessRank, TagChangeEntry};
use crate::responses::PlayerTagRow;
use crate::tag_view::{push_signed, shown_name, signed_decimal};
use crate::tags::{definition, kind_display, kind_named, lookup, TagDefinition, TagKind, EMOTE_EDITTAG};
use crate::text::{chars_of, decimal, decimal_exec, push_chars, push_str, str_eq, str_eq_chars, string_from_chars};

verus! {

/// Two stored tags hold the same values.
pub open spec fn same_row(a: PlayerTagRow, b: PlayerTagRow) -> bool {
    &&& a.id == b.id
    &&& a.tag_type@ == b.tag_type@
    &&& a.reason@ == b.reason@
    &&& a.added_by == b.added_by
    &&& a.added_on_millis == b.added_on_millis
    &&& a.hide_username == b.hide_username
    &&& match (a.reviewed_by, b.reviewed_by) {
        (Some(x), Some(y)) => x@ == y@,
        (None, None) => true,
        _ => false,
    }
}

/// A tag may be edited by staff, or by its adder within thirty minutes.
pub open spec fn editable_spec(row: PlayerTagRow, owner_id: u64, rank: AccessRank, minutes_since_added: i64) -> bool {
    rank_level(rank) >= 2 || (row.added_by == owner_id as i64 && minutes_since_added <= 30)
}

/// The change entry a stored tag starts as: nothing changed; staff see the
/// hide setting as stored, others have it pinned to shown.
pub open spec fn fresh_entry_ok(e: TagChangeEntry, row: PlayerTagRow, owner_id: u64, rank: AccessRank, minutes_since_added: i64) -> bool {
    &&& e.tag_id == row.id
    &&& same_row(e.original, row)
    &&& e.new_type is None
    &&& e.new_reason is None
    &&& !e.claimed
    &&& e.hide == (if rank_level(rank) >= 2 { None } else { Some(false) })
    &&& !e.removed
    &&& e.editable == editable_spec(row, owner_id, rank, minutes_since_added)
}

/// The change entries of a player's tags; `minutes_since_added` gives, for
/// each tag, the whole minutes since it was added.
pub fn change_entries(rows: &[PlayerTagRow], owner_id: u64, rank: AccessRank, minutes_since_added: &[i64]) -> (r: Vec<TagChangeEntry>)
    requires
        minutes_since_added@.len() == rows@.len(),
    ensures
        r@.len() == rows@.len(),
        forall|i: int|
            0 <= i < rows@.len() ==> fresh_entry_ok(#[trigger] r@[i], rows@[i], owner_id, rank, minutes_since_added@[i]),
{
    let is_staff = rank.at_least(AccessRank::Helper);
    let mut out: Vec<TagChangeEntry> = Vec::new();
    let mut i: usize = 0;
    while i < rows.len()
        invariant
            i <= rows@.len(),
            minutes_since_added@.len() == rows@.len(),
            is_staff == (rank_level(rank) >= 2),
            out@.len() == i,
            forall|j: int|
                0 <= j < i ==> fresh_entry_ok(#[trigger] out@[j], rows@[j], owner_id, rank, minutes_since_added@[j]),
        decreases rows@.len() - i,
    {
        let row = &rows[i];
        let is_own = row.added_by == owner_id as i64;
        let within_window = minutes_since_added[i] <= 30;
        let original = copy_row(row);
        out.push(
            TagChangeEntry {
                tag_id: row.id,
                original,
                new_type: None,
                new_reason: None,
                claimed: false,
                hide: if is_staff { None } else { Some(false) },
                removed: false,
                editable: is_staff || (is_own && within_window),
            },
        );
        i = i + 1;
    }
    out
}

/// A copy of a stored tag.
pub fn copy_row(row: &PlayerTagRow) -> (r: PlayerTagRow)
    ensures
        same_row(r, *row),
{
    let reviewed_by = match &row.reviewed_by {
        Some(v) => {
            let mut c: Vec<i64> = Vec::new();
            let mut i: usize = 0;
            while i < v.len()
                invariant
                    i <= v@.len(),
                    c@ == v@.subrange(0, i as int),
                decreases v@.len() - i,
            {
                c.push(v[i]);
                i = i + 1;
                assert(c@ =~= v@.subrange(0, i as int));
            }
            assert(v@.subrange(0, v@.len() as int) =~= v@);
            Some(c)
        },
        None => None,
    };
    PlayerTagRow {
        id: row.id,
        tag_type: string_from_chars(&chars_of(row.tag_type.as_str())),
        reason: string_from_chars(&chars_of(row.reason.as_str())),
        added_by: row.added_by,
        added_on_millis: row.added_on_millis,
        hide_username: row.hide_username,
        reviewed_by,
    }
}

/// What saving does with one entry of the menu.
#[derive(Clone, Debug)]
pub enum SaveAction {
    /// Nothing: the entry is unchanged, not editable, or asks for a type the
    /// member may not set.
    Skip,
    /// Remove the tag, archiving the evidence thread first for a confirmed cheater tag.
    Remove { tag_id: i64, archive_evidence: bool },
    /// Write the changed fields; `announce` when the type or reason changed.
    Modify {
        tag_id: i64,
        new_type: Option<String>,
        new_reason: Option<String>,
        new_added_by: Option<i64>,
        new_hide: Option<bool>,
        archive_evidence: bool,
        announce: bool,
    },
}

/// The optional string as a sequence.
pub open spec fn opt_seq(o: Option<String>) -> Option<Seq<char>> {
    match o {
        Some(s) => Some(s@),
        None => None,
    }
}

/// The action that saving takes for an entry.
pub open spec fn save_action_ok(a: SaveAction, e: TagChangeEntry, owner_id: u64, rank: AccessRank) -> bool {
    let was_confirmed = e.original.tag_type@ == "confirmed_cheater"@;
    if e.removed && e.editable {
        a == SaveAction::Remove { tag_id: e.tag_id, archive_evidence: was_confirmed }
    } else if !e.editable || !crate::access::has_changes_spec(e, owner_id) {
        a is Skip
    } else if e.new_type matches Some(t) && ((was_confirmed && rank_level(rank) < 3) || (t@ == "caution"@
        && rank_level(rank) < 3)) {
        a is Skip
    } else {
        a matches SaveAction::Modify { tag_id, new_type, new_reason, new_added_by, new_hide, archive_evidence, announce }
            && tag_id == e.tag_id && opt_seq(new_type) == opt_seq(e.new_type) && opt_seq(new_reason) == opt_seq(
            e.new_reason,
        ) && new_added_by == (if e.claimed && owner_id as i64 != e.original.added_by {
            Some(owner_id as i64)
        } else {
            None
        }) && new_hide == (match e.hide {
            Some(h) => if h != e.original.hide_username { Some(h) } else { None },
            None => None,
        }) && archive_evidence == (e.new_type is Some && was_confirmed) && announce == (e.new_type is Some
            || e.new_reason is Some)
    }
}

/// A copy of an optional string.
fn copy_opt_string(o: &Option<String>) -> (r: Option<String>)
    ensures
        opt_seq(r) == opt_seq(*o),
{
    match o {
        Some(s) => Some(string_from_chars(&chars_of(s.as_str()))),
        None => None,
    }
}

/// What saving the menu does with one entry.
pub fn save_action(entry: &TagChangeEntry, owner_id: u64, rank: AccessRank) -> (r: SaveAction)
    ensures
        save_action_ok(r, *entry, owner_id, rank),
{
    let was_confirmed = str_eq(entry.original.tag_type.as_str(), "confirmed_cheater");
    if entry.removed && entry.editable {
        return SaveAction::Remove { tag_id: entry.tag_id, archive_evidence: was_confirmed };
    }
    if !entry.editable || !entry.has_changes(owner_id) {
        return SaveAction::Skip;
    }
    let moderator = rank.at_least(AccessRank::Moderator);
    match &entry.new_type {
        Some(t) => {
            if was_confirmed && !moderator {
                return SaveAction::Skip;
            }
            if str_eq(t.as_str(), "caution") && !moderator {
                return SaveAction::Skip;
            }
        },
        None => {},
    }
    let new_added_by = if entry.claimed && owner_id as i64 != entry.original.added_by {
        Some(owner_id as i64)
    } else {
        None
    };
    let new_hide = match entry.hide {
        Some(h) => if h != entry.original.hide_username { Some(h) } else { None },
        None => None,
    };
    SaveAction::Modify {
        tag_id: entry.tag_id,
        new_type: copy_opt_string(&entry.new_type),
        new_reason: copy_opt_string(&entry.new_reason),
        new_added_by,
        new_hide,
        archive_evidence: entry.new_type.is_some() && was_confirmed,
        announce: entry.new_type.is_some() || entry.new_reason.is_some(),
    }
}

/// The message after saving: the counts of modified and removed tags, marked
/// silent when no announcement is made; `None` when nothing was saved.
pub open spec fn save_summary_spec(changes: u32, removals: u32, silent: bool) -> Option<Seq<char>> {
    let suffix = if silent { " (silent)"@ } else { Seq::empty() };
    if changes == 0 && removals == 0 {
        None
    } else if changes == 0 {
        Some("Removed "@ + decimal(removals as nat) + " tag(s)"@ + suffix)
    } else if removals == 0 {
        Some("Modified "@ + decimal(changes as nat) + " tag(s)"@ + suffix)
    } else {
        Some("Modified "@ + decimal(changes as nat) + " tag(s), removed "@ + decimal(removals as nat) + " tag(s)"@ + suffix)
    }
}

/// The message after saving the menu.
pub fn save_summary(changes: u32, removals: u32, silent: bool) -> (r: Option<String>)
    ensures
        opt_seq(r) == save_summary_spec(changes, removals, silent),
{
    if changes == 0 && removals == 0 {
        return None;
    }
    let mut out: Vec<char> = Vec::new();
    if changes == 0 {
        push_str(&mut out, "Removed ");
        push_chars(&mut out, &decimal_exec(removals as u64));
        push_str(&mut out, " tag(s)");
    } else if removals == 0 {
        push_str(&mut out, "Modified ");
        push_chars(&mut out, &decimal_exec(changes as u64));
        push_str(&mut out, " tag(s)");
    } else {
        push_str(&mut out, "Modified ");
        push_chars(&mut out, &decimal_exec(changes as u64));
        push_str(&mut out, " tag(s), removed ");
        push_chars(&mut out, &decimal_exec(removals as u64));
        push_str(&mut out, " tag(s)");
    }
    if silent {
        push_str(&mut out, " (silent)");
    }
    Some(string_from_chars(&out))
}

/// The title of the menu.
pub fn menu_title(username: &str) -> (r: String)
    ensures
        r@ == "## "@ + EMOTE_EDITTAG@ + " Manage Tags\nIGN - `"@ + username@ + "`"@,
{
    let mut out: Vec<char> = Vec::new();
    push_str(&mut out, "## ");
    push_str(&mut out, EMOTE_EDITTAG);
    push_str(&mut out, " Manage Tags\nIGN - `");
    push_str(&mut out, username);
    push_str(&mut out, "`");
    string_from_chars(&out)
}

/// The display name a tag type is shown under; a type outside the catalogue shows as itself.
pub open spec fn shown_display(t: Seq<char>) -> Seq<char> {
    match kind_named(t) {
        Some(k) => kind_display(k),
        None => t,
    }
}

/// The emote a tag type is shown with, if it has one.
pub open spec fn shown_emote(t: Seq<char>) -> Seq<char> {
    match kind_named(t) {
        Some(k) => definition(k).emote@,
        None => Seq::empty(),
    }
}

/// The line of an entry marked for removal.
pub fn removed_entry_text(entry: &TagChangeEntry) -> (r: String)
    ensures
        r@ == "~~"@ + shown_display(entry.original.tag_type@) + "~~ \u{2014} marked for removal"@,
{
    let mut out: Vec<char> = Vec::new();
    push_str(&mut out, "~~");
    match lookup(entry.original.tag_type.as_str()) {
        Some(def) => push_str(&mut out, def.display_name),
        None => push_str(&mut out, entry.original.tag_type.as_str()),
    }
    push_str(&mut out, "~~ \u{2014} marked for removal");
    string_from_chars(&out)
}

/// The name shown as an entry's adder: the resolved name, or for a claimed
/// entry the owner's name, or `unknown`.
pub open spec fn adder_name(names: Seq<(i64, String)>, id: i64, claimed: bool, owner_name: Seq<char>) -> Seq<char>
    decreases names.len(),
{
    if names.len() == 0 {
        if claimed { owner_name } else { "unknown"@ }
    } else if names[0].0 == id {
        names[0].1@
    } else {
        adder_name(names.drop_first(), id, claimed, owner_name)
    }
}

/// Appends the name shown as an entry's adder.
fn push_adder(out: &mut Vec<char>, names: &[(i64, String)], id: i64, claimed: bool, owner_name: &str)
    ensures
        final(out)@ == old(out)@ + adder_name(names@, id, claimed, owner_name@),
{
    let mut i: usize = 0;
    assert(names@.subrange(0, names@.len() as int) =~= names@);
    while i < names.len()
        invariant
            i <= names@.len(),
            out@ == old(out)@,
            adder_name(names@, id, claimed, owner_name@) == adder_name(names@.subrange(i as int, names@.len() as int), id, claimed, owner_name@),
        decreases names@.len() - i,
    {
        let ghost rest = names@.subrange(i as int, names@.len() as int);
        assert(rest[0] == names@[i as int]);
        assert(rest.drop_first() =~= names@.subrange(i + 1, names@.len() as int));
        if names[i].0 == id {
            push_str(out, names[i].1.as_str());
            return;
        }
        i = i + 1;
    }
    if claimed {
        push_str(out, owner_name);
    } else {
        push_str(out, "unknown");
    }
}

/// The text of an entry: the effective type, the reason as shown, and who is
/// shown as its adder and when, marked when hidden.
pub open spec fn entry_text_spec(e: TagChangeEntry, owner_id: u64, owner_name: Seq<char>, names: Seq<(i64, String)>, reason_text: Seq<char>) -> Seq<char> {
    let t = match e.new_type {
        Some(t) => t@,
        None => e.original.tag_type@,
    };
    let added_by = if e.claimed { owner_id as i64 } else { e.original.added_by };
    let hidden = match e.hide {
        Some(h) => h,
        None => e.original.hide_username,
    };
    shown_emote(t) + " "@ + shown_display(t) + "\n> "@ + reason_text + "\n> -# **\\- Added by `@"@ + adder_name(
        names,
        added_by,
        e.claimed,
        owner_name,
    ) + "` <t:"@ + signed_decimal(e.original.added_on_millis as int / 1000) + ":R>**"@ + (if hidden {
        " *(hidden)*"@
    } else {
        Seq::empty()
    })
}

/// The text of one entry of the menu; `reason_text` is the effective reason as shown.
pub fn entry_text(entry: &TagChangeEntry, owner_id: u64, owner_name: &str, names: &[(i64, String)], reason_text: &str) -> (r: String)
    ensures
        r@ == entry_text_spec(*entry, owner_id, owner_name@, names@, reason_text@),
{
    let t = entry.effective_type();
    let mut out: Vec<char> = Vec::new();
    match lookup(t) {
        Some(def) => {
            push_str(&mut out, def.emote);
            push_str(&mut out, " ");
            push_str(&mut out, def.display_name);
        },
        None => {
            push_str(&mut out, " ");
            push_str(&mut out, t);
        },
    }
    push_str(&mut out, "\n> ");
    push_str(&mut out, reason_text);
    push_str(&mut out, "\n> -# **\\- Added by `@");
    push_adder(&mut out, names, entry.effective_added_by(owner_id), entry.claimed, owner_name);
    push_str(&mut out, "` <t:");
    push_signed(&mut out, crate::tag_view::timestamp_seconds(entry.original.added_on_millis));
    push_str(&mut out, ":R>**");
    if entry.effective_hide() {
        push_str(&mut out, " *(hidden)*");
    }
    string_from_chars(&out)
}

/// The controls an entry gets: the tag types it may change to, the hide and
/// claim buttons (staff only), and whether it may be removed.
#[derive(Clone, Debug)]
pub struct EntryControls {
    pub type_options: Vec<TagDefinition>,
    pub hide_label: Option<&'static str>,
    pub claim_label: Option<&'static str>,
    pub removable: bool,
}

/// The controls of an entry; `minutes_since_added` is the whole minutes since
/// its tag was added.
pub fn entry_controls(entry: &TagChangeEntry, is_staff: bool, rank: AccessRank, owner_id: u64, minutes_since_added: i64) -> (r: EntryControls)
    ensures
        !entry.editable ==> r.type_options@.len() == 0 && r.hide_label is None && r.claim_label is None && !r.removable,
        entry.editable ==> {
            &&& r.type_options@ == change_options_spec(
                match entry.new_type {
                    Some(t) => t@,
                    None => entry.original.tag_type@,
                },
                rank,
            ).map_values(|k: TagKind| definition(k))
            &&& (is_staff ==> (r.hide_label matches Some(l) && l@ == (if (match entry.hide {
                Some(h) => h,
                None => entry.original.hide_username,
            }) {
                "Unhide"@
            } else {
                "Hide"@
            })))
            &&& (is_staff ==> (r.claim_label matches Some(l) && l@ == (if entry.claimed { "Unclaim"@ } else { "Claim"@ })))
            &&& (!is_staff ==> r.hide_label is None && r.claim_label is None)
            &&& r.removable == (if rank_level(rank) >= 3 {
                true
            } else if rank_level(rank) >= 2 {
                entry.original.tag_type@ != "confirmed_cheater"@ && entry.original.tag_type@ != "caution"@
            } else {
                entry.original.added_by == owner_id as i64 && minutes_since_added <= 30
            })
        },
{
    if !entry.editable {
        return EntryControls { type_options: Vec::new(), hide_label: None, claim_label: None, removable: false };
    }
    let type_options = tc_type_options(entry.effective_type(), rank);
    let hide_label = if is_staff {
        if entry.effective_hide() { Some("Unhide") } else { Some("Hide") }
    } else {
        None
    };
    let claim_label = if is_staff {
        if entry.claimed { Some("Unclaim") } else { Some("Claim") }
    } else {
        None
    };
    let removable = can_remove_tag(rank, entry.original.tag_type.as_str(), entry.original.added_by, owner_id, minutes_since_added);
    EntryControls { type_options, hide_label, claim_label, removable }
}

/// Saving leaves alone every tag the member may not edit, and below moderator
/// it never turns a confirmed cheater tag into another type nor any tag into a
/// caution tag.
pub proof fn lemma_save_respects_permissions(a: SaveAction, e: TagChangeEntry, owner_id: u64, rank: AccessRank)
    requires
        save_action_ok(a, e, owner_id, rank),
    ensures
        !e.editable ==> a is Skip,
        rank_level(rank) < 3 && a is Modify && (a->new_type) is Some ==> e.original.tag_type@ != "confirmed_cheater"@
            && (a->new_type)->0@ != "caution"@,
{
}

} // verus!
