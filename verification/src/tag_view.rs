//! The `/tag view` card: which staff names it must look up, and the text of
//! its header, of each tag and of its footer.
use vstd::prelude::*;
use crate::responses::PlayerTagRow;
use crate::tags::{definition, kind_display, kind_named, lookup, EMOTE_TAG};
use crate::text::{decimal, decimal_exec, push_chars, push_str, str_eq, string_from_chars};

verus! {

/// `ids` with `x` added at the end unless it is already there.
pub open spec fn add_new(ids: Seq<i64>, x: i64) -> Seq<i64> {
    if ids.contains(x) {
        ids
    } else {
        ids.push(x)
    }
}

/// `ids` with each of `xs` added in turn unless already there.
pub open spec fn add_all(ids: Seq<i64>, xs: Seq<i64>) -> Seq<i64>
    decreases xs.len(),
{
    if xs.len() == 0 {
        ids
    } else {
        add_new(add_all(ids, xs.drop_last()), xs.last())
    }
}

/// The approvers of a stored tag, if any.
pub open spec fn approvers(row: PlayerTagRow) -> Seq<i64> {
    match row.reviewed_by {
        Some(v) => v@,
        None => Seq::empty(),
    }
}

/// The ids after one tag: its adder unless hidden, then its approvers.
pub open spec fn ids_after(ids: Seq<i64>, row: PlayerTagRow) -> Seq<i64> {
    add_all(if row.hide_username { ids } else { add_new(ids, row.added_by) }, approvers(row))
}

/// The users whose names a tag card shows, each once, in order of first
/// appearance: the adder of each tag whose adder is not hidden, and its approvers.
pub open spec fn names_to_resolve_spec(rows: Seq<PlayerTagRow>) -> Seq<i64>
    decreases rows.len(),
{
    if rows.len() == 0 {
        Seq::empty()
    } else {
        ids_after(names_to_resolve_spec(rows.drop_last()), rows.last())
    }
}

/// Adding an id keeps a list free of repeats, and the list afterwards holds
/// exactly the ids before and the one added.
proof fn lemma_add_new(ids: Seq<i64>, x: i64)
    requires
        ids.no_duplicates(),
    ensures
        add_new(ids, x).no_duplicates(),
        forall|y: i64| add_new(ids, x).contains(y) <==> (ids.contains(y) || y == x),
{
    if !ids.contains(x) {
        assert forall|y: i64| ids.push(x).contains(y) <==> (ids.contains(y) || y == x) by {
            if y == x {
                assert(ids.push(x)[ids.len() as int] == x);
            }
            if ids.contains(y) {
                let k = choose|k: int| 0 <= k < ids.len() && ids[k] == y;
                assert(ids.push(x)[k] == y);
            }
        }
    }
}

/// Adding ids keeps a list free of repeats and holds exactly the ids before
/// and those added.
proof fn lemma_add_all(ids: Seq<i64>, xs: Seq<i64>)
    requires
        ids.no_duplicates(),
    ensures
        add_all(ids, xs).no_duplicates(),
        forall|y: i64| add_all(ids, xs).contains(y) <==> (ids.contains(y) || xs.contains(y)),
    decreases xs.len(),
{
    if xs.len() > 0 {
        lemma_add_all(ids, xs.drop_last());
        lemma_add_new(add_all(ids, xs.drop_last()), xs.last());
        assert forall|y: i64| xs.contains(y) <==> (xs.drop_last().contains(y) || y == xs.last()) by {
            if xs.contains(y) {
                let k = choose|k: int| 0 <= k < xs.len() && xs[k] == y;
                if k < xs.len() - 1 {
                    assert(xs.drop_last()[k] == y);
                }
            }
            if xs.drop_last().contains(y) {
                let k = choose|k: int| 0 <= k < xs.drop_last().len() && xs.drop_last()[k] == y;
                assert(xs[k] == y);
            }
        }
    }
}

/// A user is to be resolved for a tag: the tag's unhidden adder or one of its approvers.
pub open spec fn named_by(row: PlayerTagRow, y: i64) -> bool {
    (!row.hide_username && row.added_by == y) || approvers(row).contains(y)
}

/// The users a tag card resolves appear once each, and they are exactly the
/// unhidden adders and the approvers of the tags.
pub proof fn lemma_names_to_resolve(rows: Seq<PlayerTagRow>)
    ensures
        names_to_resolve_spec(rows).no_duplicates(),
        forall|y: i64|
            names_to_resolve_spec(rows).contains(y) <==> exists|i: int| 0 <= i < rows.len() && named_by(#[trigger] rows[i], y),
    decreases rows.len(),
{
    if rows.len() > 0 {
        let prev = rows.drop_last();
        let row = rows.last();
        lemma_names_to_resolve(prev);
        let ids = names_to_resolve_spec(prev);
        let mid = if row.hide_username { ids } else { add_new(ids, row.added_by) };
        if !row.hide_username {
            lemma_add_new(ids, row.added_by);
        }
        lemma_add_all(mid, approvers(row));
        assert(names_to_resolve_spec(rows) == add_all(mid, approvers(row)));
        assert(rows[rows.len() - 1] == row);
        assert forall|y: i64|
            names_to_resolve_spec(rows).contains(y) <==> exists|i: int| 0 <= i < rows.len() && named_by(#[trigger] rows[i], y) by {
            let in_prev = exists|i: int| 0 <= i < prev.len() && named_by(#[trigger] prev[i], y);
            assert(mid.contains(y) <==> (ids.contains(y) || (!row.hide_username && y == row.added_by)));
            assert(ids.contains(y) <==> in_prev);
            if exists|i: int| 0 <= i < rows.len() && named_by(#[trigger] rows[i], y) {
                let i = choose|i: int| 0 <= i < rows.len() && named_by(#[trigger] rows[i], y);
                if i < rows.len() - 1 {
                    assert(prev[i] == rows[i]);
                    assert(in_prev);
                } else {
                    assert(named_by(row, y));
                }
            }
            if in_prev {
                let i = choose|i: int| 0 <= i < prev.len() && named_by(#[trigger] prev[i], y);
                assert(rows[i] == prev[i]);
            }
            if named_by(row, y) {
                assert(named_by(rows[rows.len() - 1], y));
            }
        }
    }
}

/// Whether `x` is in `ids`.
fn contains_id(ids: &Vec<i64>, x: i64) -> (r: bool)
    ensures
        r == ids@.contains(x),
{
    let mut i: usize = 0;
    while i < ids.len()
        invariant
            i <= ids@.len(),
            forall|j: int| 0 <= j < i ==> ids@[j] != x,
        decreases ids@.len() - i,
    {
        if ids[i] == x {
            assert(ids@[i as int] == x);
            return true;
        }
        i = i + 1;
    }
    false
}

/// Adds `x` unless already there.
fn push_new(ids: &mut Vec<i64>, x: i64)
    ensures
        final(ids)@ == add_new(old(ids)@, x),
{
    if !contains_id(ids, x) {
        ids.push(x);
    }
}

/// The users whose names a tag card shows, each once, in order of first appearance.
pub fn names_to_resolve(rows: &[PlayerTagRow]) -> (r: Vec<i64>)
    ensures
        r@ == names_to_resolve_spec(rows@),
        r@.no_duplicates(),
{
    proof {
        lemma_names_to_resolve(rows@);
    }
    let mut ids: Vec<i64> = Vec::new();
    let mut i: usize = 0;
    assert(rows@.subrange(0, 0) =~= Seq::<PlayerTagRow>::empty());
    while i < rows.len()
        invariant
            i <= rows@.len(),
            ids@ == names_to_resolve_spec(rows@.subrange(0, i as int)),
        decreases rows@.len() - i,
    {
        assert(rows@.subrange(0, i + 1).drop_last() =~= rows@.subrange(0, i as int));
        let row = &rows[i];
        if !row.hide_username {
            push_new(&mut ids, row.added_by);
        }
        let ghost mid = ids@;
        match &row.reviewed_by {
            Some(rs) => {
                let mut j: usize = 0;
                assert(rs@.subrange(0, 0) =~= Seq::<i64>::empty());
                while j < rs.len()
                    invariant
                        j <= rs@.len(),
                        ids@ == add_all(mid, rs@.subrange(0, j as int)),
                    decreases rs@.len() - j,
                {
                    assert(rs@.subrange(0, j + 1).drop_last() =~= rs@.subrange(0, j as int));
                    push_new(&mut ids, rs[j]);
                    j = j + 1;
                }
                assert(rs@.subrange(0, rs@.len() as int) =~= rs@);
            },
            None => {},
        }
        i = i + 1;
    }
    assert(rows@.subrange(0, rows@.len() as int) =~= rows@);
    ids
}

/// The decimal text of a signed number, as `Display` writes it.
pub open spec fn signed_decimal(n: int) -> Seq<char> {
    if n < 0 {
        seq!['-'] + decimal((-n) as nat)
    } else {
        decimal(n as nat)
    }
}

/// Appends the decimal text of a signed number.
pub fn push_signed(out: &mut Vec<char>, n: i64)
    ensures
        final(out)@ == old(out)@ + signed_decimal(n as int),
{
    if n < 0 {
        out.push('-');
        let m: u64 = ((-(n + 1)) as u64) + 1;
        let d = decimal_exec(m);
        push_chars(out, &d);
    } else {
        let d = decimal_exec(n as u64);
        push_chars(out, &d);
    }
}

/// Whole seconds since the Unix epoch of a millisecond timestamp, rounded down.
pub fn timestamp_seconds(ms: i64) -> (r: i64)
    ensures
        r == ms as int / 1000,
{
    if ms >= 0 {
        ms / 1000
    } else {
        let m: i64 = -(ms + 1);
        -(m / 1000) - 1
    }
}

/// The name shown for user `id`: the first resolved name, or the id itself.
pub open spec fn shown_name(names: Seq<(i64, String)>, id: i64) -> Seq<char>
    decreases names.len(),
{
    if names.len() == 0 {
        signed_decimal(id as int)
    } else if names[0].0 == id {
        names[0].1@
    } else {
        shown_name(names.drop_first(), id)
    }
}

/// Appends the name shown for user `id`.
pub(crate) fn push_name(out: &mut Vec<char>, names: &[(i64, String)], id: i64)
    ensures
        final(out)@ == old(out)@ + shown_name(names@, id),
{
    let mut i: usize = 0;
    assert(names@.subrange(0, names@.len() as int) =~= names@);
    while i < names.len()
        invariant
            i <= names@.len(),
            out@ == old(out)@,
            shown_name(names@, id) == shown_name(names@.subrange(i as int, names@.len() as int), id),
        decreases names@.len() - i,
    {
        let ghost rest = names@.subrange(i as int, names@.len() as int);
        assert(rest[0] == names@[i as int]);
        assert(rest.drop_first() =~= names@.subrange(i + 1, names@.len() as int));
        if names[i].0 == id {
            push_str(out, names[i].1.as_str());
            return;
        }
        i = i + 1;
    }
    push_signed(out, id);
}

/// The line under a tag saying who added it and when, the adder left out when hidden.
pub open spec fn added_line_spec(row: PlayerTagRow, names: Seq<(i64, String)>) -> Seq<char> {
    let ts = signed_decimal(row.added_on_millis as int / 1000);
    if row.hide_username {
        "> -# **\\- <t:"@ + ts + ":R>**"@
    } else {
        "> -# **\\- Added by `@"@ + shown_name(names, row.added_by) + "` <t:"@ + ts + ":R>**"@
    }
}

/// The approvers' names, each as `` `@name` ``, separated by commas.
pub open spec fn approver_list(names: Seq<(i64, String)>, ids: Seq<i64>) -> Seq<char>
    decreases ids.len(),
{
    if ids.len() == 0 {
        Seq::empty()
    } else if ids.len() == 1 {
        "`@"@ + shown_name(names, ids[0]) + "`"@
    } else {
        approver_list(names, ids.drop_last()) + ", "@ + "`@"@ + shown_name(names, ids.last()) + "`"@
    }
}

/// The text of one tag on the card: emote, display name and, for a confirmed
/// cheater tag, whether an evidence thread exists; the reason as shown; who
/// added it; and who reviewed it, when someone did.
pub open spec fn tag_view_text_spec(row: PlayerTagRow, reason_text: Seq<char>, names: Seq<(i64, String)>, has_evidence: bool) -> Seq<char> {
    let (emote, display) = match kind_named(row.tag_type@) {
        Some(k) => (definition(k).emote@, kind_display(k)),
        None => (Seq::empty(), row.tag_type@),
    };
    let indicator = if row.tag_type@ == "confirmed_cheater"@ {
        if has_evidence {
            " <:evidencefound:1482666860225888346>"@
        } else {
            " <:noevidence:1482666258938990696>"@
        }
    } else {
        Seq::empty()
    };
    let body = emote + " "@ + display + indicator + "\n> "@ + reason_text + "\n"@ + added_line_spec(row, names);
    match row.reviewed_by {
        Some(ids) => body + "\n"@ + "> -# **\\- Reviewed by "@ + approver_list(names, ids@) + "**"@,
        None => body,
    }
}

/// The text of one tag on the `/tag view` card; `reason_text` is the reason as
/// it is shown, `names` the resolved user names, and `has_evidence` whether the
/// player has an evidence thread.
pub fn tag_view_text(row: &PlayerTagRow, reason_text: &str, names: &[(i64, String)], has_evidence: bool) -> (r: String)
    ensures
        r@ == tag_view_text_spec(*row, reason_text@, names@, has_evidence),
{
    let mut out: Vec<char> = Vec::new();
    match lookup(row.tag_type.as_str()) {
        Some(def) => {
            push_str(&mut out, def.emote);
            push_str(&mut out, " ");
            push_str(&mut out, def.display_name);
        },
        None => {
            push_str(&mut out, " ");
            push_str(&mut out, row.tag_type.as_str());
        },
    }
    if str_eq(row.tag_type.as_str(), "confirmed_cheater") {
        if has_evidence {
            push_str(&mut out, " <:evidencefound:1482666860225888346>");
        } else {
            push_str(&mut out, " <:noevidence:1482666258938990696>");
        }
    }
    push_str(&mut out, "\n> ");
    push_str(&mut out, reason_text);
    push_str(&mut out, "\n");
    let ts = timestamp_seconds(row.added_on_millis);
    if row.hide_username {
        push_str(&mut out, "> -# **\\- <t:");
        push_signed(&mut out, ts);
        push_str(&mut out, ":R>**");
    } else {
        push_str(&mut out, "> -# **\\- Added by `@");
        push_name(&mut out, names, row.added_by);
        push_str(&mut out, "` <t:");
        push_signed(&mut out, ts);
        push_str(&mut out, ":R>**");
    }
    match &row.reviewed_by {
        Some(ids) => {
            push_str(&mut out, "\n");
            push_str(&mut out, "> -# **\\- Reviewed by ");
            let ghost start = out@;
            let mut j: usize = 0;
            assert(ids@.subrange(0, 0) =~= Seq::<i64>::empty());
            while j < ids.len()
                invariant
                    j <= ids@.len(),
                    out@ == start + approver_list(names@, ids@.subrange(0, j as int)),
                decreases ids@.len() - j,
            {
                assert(ids@.subrange(0, j + 1).drop_last() =~= ids@.subrange(0, j as int));
                if j > 0 {
                    push_str(&mut out, ", ");
                }
                push_str(&mut out, "`@");
                push_name(&mut out, names, ids[j]);
                push_str(&mut out, "`");
                j = j + 1;
            }
            assert(ids@.subrange(0, ids@.len() as int) =~= ids@);
            push_str(&mut out, "**");
        },
        None => {},
    }
    string_from_chars(&out)
}

/// The header of the card: the title, a lock when the player's tags are
/// locked, and the player's name.
pub open spec fn view_header_spec(username: Seq<char>, is_locked: bool) -> Seq<char> {
    "## "@ + EMOTE_TAG@ + " Tagged User"@ + (if is_locked { " \u{1F512}"@ } else { Seq::empty() })
        + "\nIGN - `"@ + username + "`"@
}

/// The header of the `/tag view` card.
pub fn view_header(username: &str, is_locked: bool) -> (r: String)
    ensures
        r@ == view_header_spec(username@, is_locked),
{
    let mut out: Vec<char> = Vec::new();
    push_str(&mut out, "## ");
    push_str(&mut out, EMOTE_TAG);
    push_str(&mut out, " Tagged User");
    if is_locked {
        push_str(&mut out, " \u{1F512}");
    }
    push_str(&mut out, "\nIGN - `");
    push_str(&mut out, username);
    push_str(&mut out, "`");
    string_from_chars(&out)
}

/// The footer of the card: the dashed UUID, and a link to the evidence thread
/// when there is one.
pub open spec fn view_footer_spec(dashed_uuid: Seq<char>, evidence_url: Option<Seq<char>>) -> Seq<char> {
    match evidence_url {
        Some(u) => "-# UUID: "@ + dashed_uuid + " | [Evidence]("@ + u + ")"@,
        None => "-# UUID: "@ + dashed_uuid,
    }
}

/// The footer of the `/tag view` card.
pub fn view_footer(dashed_uuid: &str, evidence_url: Option<&str>) -> (r: String)
    ensures
        r@ == view_footer_spec(
            dashed_uuid@,
            match evidence_url {
                Some(u) => Some(u@),
                None => None,
            },
        ),
{
    let mut out: Vec<char> = Vec::new();
    push_str(&mut out, "-# UUID: ");
    push_str(&mut out, dashed_uuid);
    match evidence_url {
        Some(u) => {
            push_str(&mut out, " | [Evidence](");
            push_str(&mut out, u);
            push_str(&mut out, ")");
        },
        None => {},
    }
    string_from_chars(&out)
}

} // verus!
