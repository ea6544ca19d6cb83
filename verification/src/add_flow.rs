//! The identifiers that carry a player being added to a submission from the
//! tag type menu to the reason form, and from the form to the submission.
use vstd::prelude::*;
use crate::text::{chars_of, decimal, decimal_exec, has_prefix, push_chars, push_str, slice_vec, str_eq_chars, string_from_chars, strip_prefix};

verus! {

/// The position of the last `:` in `s`, if any.
pub open spec fn last_colon(s: Seq<char>) -> Option<int>
    decreases s.len(),
{
    if s.len() == 0 {
        None
    } else if s.last() == ':' {
        Some(s.len() - 1)
    } else {
        last_colon(s.drop_last())
    }
}

/// `str::rsplitn(n, ':')`: the pieces of `s` split at its last `:`s, at
/// most `n` of them, from the right; the last piece holds the rest.
pub open spec fn rsplit_colon(s: Seq<char>, n: nat) -> Seq<Seq<char>>
    decreases n,
{
    if n <= 1 {
        seq![s]
    } else {
        match last_colon(s) {
            Some(i) => if 0 <= i < s.len() {
                seq![s.subrange(i + 1, s.len() as int)] + rsplit_colon(s.subrange(0, i), (n - 1) as nat)
            } else {
                seq![s]
            },
            None => seq![s],
        }
    }
}

/// What follows `prefix` in `s`; empty when `s` does not start with it.
pub open spec fn after_prefix(s: Seq<char>, prefix: Seq<char>) -> Seq<char> {
    if has_prefix(s, prefix) { s.subrange(prefix.len() as int, s.len() as int) } else { Seq::empty() }
}

/// The `k`-th piece, or `default` when there are fewer.
pub open spec fn piece_or(ps: Seq<Seq<char>>, k: int, default: Seq<char>) -> Seq<char> {
    if 0 <= k < ps.len() { ps[k] } else { default }
}

/// The position of the last `:` in `s`.
fn last_colon_exec(s: &[char]) -> (r: Option<usize>)
    ensures
        match r {
            Some(i) => last_colon(s@) == Some(i as int),
            None => last_colon(s@) is None,
        },
{
    let mut k: usize = s.len();
    assert(s@.subrange(0, k as int) =~= s@);
    while k > 0
        invariant
            k <= s@.len(),
            last_colon(s@) == last_colon(s@.subrange(0, k as int)),
        decreases k,
    {
        let ghost pre = s@.subrange(0, k as int);
        assert(pre.drop_last() =~= s@.subrange(0, k - 1));
        if s[k - 1] == ':' {
            return Some(k - 1);
        }
        k = k - 1;
    }
    None
}

/// `str::rsplitn(n, ':')`.
fn rsplit_colon_exec(s: &[char], n: usize) -> (r: Vec<Vec<char>>)
    ensures
        r@.map_values(|v: Vec<char>| v@) == rsplit_colon(s@, n as nat),
    decreases n,
{
    if n <= 1 {
        let mut r: Vec<Vec<char>> = Vec::new();
        r.push(slice_vec(s, 0, s.len()));
        assert(s@.subrange(0, s@.len() as int) =~= s@);
        assert(r@.map_values(|v: Vec<char>| v@) =~= seq![s@]);
        return r;
    }
    match last_colon_exec(s) {
        None => {
            let mut r: Vec<Vec<char>> = Vec::new();
            r.push(slice_vec(s, 0, s.len()));
            assert(s@.subrange(0, s@.len() as int) =~= s@);
            assert(r@.map_values(|v: Vec<char>| v@) =~= seq![s@]);
            r
        },
        Some(i) => {
            proof {
                lemma_last_colon_in_range(s@);
            }
            let len = s.len();
            assert(i < len);
            let head = slice_vec(s, 0, i);
            let rest = rsplit_colon_exec(&head, n - 1);
            let mut r: Vec<Vec<char>> = Vec::new();
            r.push(slice_vec(s, i + 1, len));
            let mut k: usize = 0;
            while k < rest.len()
                invariant
                    i < s@.len(),
                    k <= rest@.len(),
                    r@.len() == k + 1,
                    r@.map_values(|v: Vec<char>| v@) == seq![s@.subrange(i + 1, s@.len() as int)] + rest@.map_values(
                        |v: Vec<char>| v@,
                    ).subrange(0, k as int),
                decreases rest@.len() - k,
            {
                let ghost before = r@.map_values(|v: Vec<char>| v@);
                let piece = slice_vec(&rest[k], 0, rest[k].len());
                assert(rest[k as int]@.subrange(0, rest[k as int]@.len() as int) =~= rest[k as int]@);
                let ghost pv = piece@;
                r.push(piece);
                assert(r@.map_values(|v: Vec<char>| v@) =~= before.push(pv));
                assert(rest@.map_values(|v: Vec<char>| v@).subrange(0, k + 1) =~= rest@.map_values(|v: Vec<char>| v@).subrange(
                    0,
                    k as int,
                ).push(rest@[k as int]@));
                k = k + 1;
            }
            assert(rest@.map_values(|v: Vec<char>| v@).subrange(0, rest@.len() as int) =~= rest@.map_values(|v: Vec<char>| v@));
            r
        },
    }
}

/// A last `:` found is a position of the text holding a `:`.
proof fn lemma_last_colon_in_range(s: Seq<char>)
    ensures
        last_colon(s) matches Some(i) ==> 0 <= i < s.len() && s[i] == ':',
    decreases s.len(),
{
    if s.len() > 0 && s.last() != ':' {
        lemma_last_colon_in_range(s.drop_last());
    }
}

/// After `a`, a `:` and a text `b` without `:`, the last `:` is the one
/// after `a`.
proof fn lemma_last_colon_after(a: Seq<char>, b: Seq<char>)
    requires
        forall|i: int| 0 <= i < b.len() ==> #[trigger] b[i] != ':',
    ensures
        last_colon(a + seq![':'] + b) == Some(a.len() as int),
    decreases b.len(),
{
    let s = a + seq![':'] + b;
    if b.len() == 0 {
        assert(s.last() == ':');
    } else {
        assert(s.last() == b.last());
        assert(s.drop_last() =~= a + seq![':'] + b.drop_last());
        lemma_last_colon_after(a, b.drop_last());
    }
}

/// Splitting at the last `:` separates the text without `:` after it.
proof fn lemma_rsplit_step(a: Seq<char>, b: Seq<char>, n: nat)
    requires
        n >= 2,
        forall|i: int| 0 <= i < b.len() ==> #[trigger] b[i] != ':',
    ensures
        rsplit_colon(a + seq![':'] + b, n) == seq![b] + rsplit_colon(a, (n - 1) as nat),
{
    let s = a + seq![':'] + b;
    lemma_last_colon_after(a, b);
    assert(s.subrange(a.len() + 1int, s.len() as int) =~= b);
    assert(s.subrange(0, a.len() as int) =~= a);
}

/// The menu identifier of a player waiting for a tag type.
pub open spec fn pending_tag_id_spec(identifier: Seq<char>, is_nicked: bool, submitter_id: u64) -> Seq<char> {
    "review_pending_tag:"@ + identifier + ":"@ + (if is_nicked { "1"@ } else { "0"@ }) + ":"@ + decimal(submitter_id as nat)
}

/// The identifier of the tag type menu for a player being added: who it is
/// (UUID, or the name for a nicked player), whether they are nicked, and the
/// submitter.
pub fn pending_tag_id(identifier: &str, is_nicked: bool, submitter_id: u64) -> (r: String)
    ensures
        r@ == pending_tag_id_spec(identifier@, is_nicked, submitter_id),
{
    let mut out: Vec<char> = Vec::new();
    push_str(&mut out, "review_pending_tag:");
    push_str(&mut out, identifier);
    push_str(&mut out, ":");
    push_str(&mut out, if is_nicked { "1" } else { "0" });
    push_str(&mut out, ":");
    let d = decimal_exec(submitter_id);
    push_chars(&mut out, &d);
    string_from_chars(&out)
}

/// What the tag type menu's identifier carries: the player's identifier, the
/// nick flag and the submitter, as text (`""`, `"0"` and `"0"` where missing).
pub open spec fn read_pending_spec(custom_id: Seq<char>) -> (Seq<char>, Seq<char>, Seq<char>) {
    let parts = rsplit_colon(after_prefix(custom_id, "review_pending_tag:"@), 3);
    (piece_or(parts, 2, Seq::empty()), piece_or(parts, 1, "0"@), piece_or(parts, 0, "0"@))
}

/// Reads the tag type menu's identifier.
pub fn read_pending_tag_id(custom_id: &str) -> (r: (String, String, String))
    ensures
        (r.0@, r.1@, r.2@) == read_pending_spec(custom_id@),
{
    let rest = match strip_prefix(&chars_of(custom_id), &chars_of("review_pending_tag:")) {
        Some(r) => r,
        None => Vec::new(),
    };
    let parts = rsplit_colon_exec(&rest, 3);
    let ghost ps = parts@.map_values(|v: Vec<char>| v@);
    let identifier = if parts.len() > 2 { string_from_chars(&parts[2]) } else { String::new() };
    let nicked = if parts.len() > 1 { string_from_chars(&parts[1]) } else { string_from_chars(&chars_of("0")) };
    let submitter = if parts.len() > 0 { string_from_chars(&parts[0]) } else { string_from_chars(&chars_of("0")) };
    assert(parts.len() > 2 ==> ps[2] == parts@[2]@);
    assert(parts.len() > 1 ==> ps[1] == parts@[1]@);
    assert(parts.len() > 0 ==> ps[0] == parts@[0]@);
    (identifier, nicked, submitter)
}

/// The reason form's identifier: the player's identifier, the tag type, the
/// nick flag and the submitter, as the menu passed them on.
pub open spec fn reason_form_id_spec(identifier: Seq<char>, tag_type: Seq<char>, nicked: Seq<char>, submitter: Seq<char>) -> Seq<char> {
    "review_addplayer_reason:"@ + identifier + ":"@ + tag_type + ":"@ + nicked + ":"@ + submitter
}

/// The identifier of the reason form opened from the tag type menu.
pub fn reason_form_id(identifier: &str, tag_type: &str, nicked: &str, submitter: &str) -> (r: String)
    ensures
        r@ == reason_form_id_spec(identifier@, tag_type@, nicked@, submitter@),
{
    let mut out: Vec<char> = Vec::new();
    push_str(&mut out, "review_addplayer_reason:");
    push_str(&mut out, identifier);
    push_str(&mut out, ":");
    push_str(&mut out, tag_type);
    push_str(&mut out, ":");
    push_str(&mut out, nicked);
    push_str(&mut out, ":");
    push_str(&mut out, submitter);
    string_from_chars(&out)
}

/// What the reason form's identifier carries: the player's identifier, the
/// tag type, and whether the player is nicked (the flag reads `1`).
pub open spec fn read_reason_spec(custom_id: Seq<char>) -> (Seq<char>, Seq<char>, bool) {
    let parts = rsplit_colon(after_prefix(custom_id, "review_addplayer_reason:"@), 4);
    (piece_or(parts, 3, Seq::empty()), piece_or(parts, 2, Seq::empty()), 1 < parts.len() && parts[1] == "1"@)
}

/// Reads the reason form's identifier.
pub fn read_reason_form_id(custom_id: &str) -> (r: (String, String, bool))
    ensures
        (r.0@, r.1@, r.2) == read_reason_spec(custom_id@),
{
    let rest = match strip_prefix(&chars_of(custom_id), &chars_of("review_addplayer_reason:")) {
        Some(r) => r,
        None => Vec::new(),
    };
    let parts = rsplit_colon_exec(&rest, 4);
    let ghost ps = parts@.map_values(|v: Vec<char>| v@);
    let identifier = if parts.len() > 3 { string_from_chars(&parts[3]) } else { String::new() };
    let tag_type = if parts.len() > 2 { string_from_chars(&parts[2]) } else { String::new() };
    let is_nicked = parts.len() > 1 && str_eq_chars("1", &parts[1]);
    assert(parts.len() > 3 ==> ps[3] == parts@[3]@);
    assert(parts.len() > 2 ==> ps[2] == parts@[2]@);
    assert(parts.len() > 1 ==> ps[1] == parts@[1]@);
    (identifier, tag_type, is_nicked)
}

/// A text without `:`.
pub open spec fn colon_free(s: Seq<char>) -> bool {
    forall|i: int| 0 <= i < s.len() ==> #[trigger] s[i] != ':'
}

/// A decimal number holds no `:`.
proof fn lemma_decimal_colon_free(n: u64)
    ensures
        colon_free(decimal(n as nat)),
{
    let d = decimal(n as nat);
    crate::review_messages::lemma_decimal_parses(n as nat);
    assert forall|i: int| 0 <= i < d.len() implies #[trigger] d[i] != ':' by {
        assert(crate::text::is_digit(d[i]));
    }
}

/// The tag type menu's identifier reads back as the player's identifier, the
/// nick flag as `1` or `0`, and the submitter's number.
proof fn lemma_pending_roundtrip(identifier: Seq<char>, is_nicked: bool, submitter_id: u64)
    ensures
        read_pending_spec(pending_tag_id_spec(identifier, is_nicked, submitter_id)) == (
            identifier,
            if is_nicked { "1"@ } else { "0"@ },
            decimal(submitter_id as nat),
        ),
{
    reveal_strlit("review_pending_tag:");
    reveal_strlit(":");
    reveal_strlit("1");
    reveal_strlit("0");
    let flag = if is_nicked { "1"@ } else { "0"@ };
    let d = decimal(submitter_id as nat);
    lemma_decimal_colon_free(submitter_id);
    assert(colon_free(flag));
    let pid = pending_tag_id_spec(identifier, is_nicked, submitter_id);
    let p1 = "review_pending_tag:"@;
    let rest1 = identifier + seq![':'] + flag + seq![':'] + d;
    assert(pid =~= p1 + rest1);
    assert(pid.subrange(0, p1.len() as int) =~= p1);
    assert(after_prefix(pid, p1) =~= rest1);
    lemma_rsplit_step(identifier + seq![':'] + flag, d, 3);
    lemma_rsplit_step(identifier, flag, 2);
    assert(rsplit_colon(rest1, 3) =~= seq![d, flag, identifier]);
}

/// The reason form's identifier reads back as the player's identifier, the
/// tag type and the nick flag, when neither the tag type, the flag nor the
/// submitter text holds a `:`.
proof fn lemma_reason_roundtrip(identifier: Seq<char>, tag_type: Seq<char>, flag: Seq<char>, sub: Seq<char>)
    requires
        colon_free(tag_type),
        colon_free(flag),
        colon_free(sub),
    ensures
        read_reason_spec(reason_form_id_spec(identifier, tag_type, flag, sub)) == (identifier, tag_type, flag == "1"@),
{
    reveal_strlit("review_addplayer_reason:");
    reveal_strlit(":");
    let rid = reason_form_id_spec(identifier, tag_type, flag, sub);
    let p2 = "review_addplayer_reason:"@;
    let rest2 = identifier + seq![':'] + tag_type + seq![':'] + flag + seq![':'] + sub;
    assert(rid =~= p2 + rest2);
    assert(rid.subrange(0, p2.len() as int) =~= p2);
    assert(after_prefix(rid, p2) =~= rest2);
    lemma_rsplit_step(identifier + seq![':'] + tag_type + seq![':'] + flag, sub, 4);
    lemma_rsplit_step(identifier + seq![':'] + tag_type, flag, 3);
    lemma_rsplit_step(identifier, tag_type, 2);
    assert(rsplit_colon(rest2, 4) =~= seq![sub, flag, tag_type, identifier]);
}

/// A player being added keeps who they are and their nick flag from the tag
/// type menu, through the reason form, to the submission, with the tag type
/// chosen in the menu: for every identifier (even one holding `:`) and every
/// tag type without `:`.
pub proof fn lemma_add_flow_roundtrip(identifier: Seq<char>, is_nicked: bool, submitter_id: u64, tag_type: Seq<char>)
    requires
        colon_free(tag_type),
    ensures
        ({
            let (ident, nicked, sub) = read_pending_spec(pending_tag_id_spec(identifier, is_nicked, submitter_id));
            read_reason_spec(reason_form_id_spec(ident, tag_type, nicked, sub)) == (identifier, tag_type, is_nicked)
        }),
{
    reveal_strlit("1");
    reveal_strlit("0");
    lemma_pending_roundtrip(identifier, is_nicked, submitter_id);
    lemma_decimal_colon_free(submitter_id);
    let flag = if is_nicked { "1"@ } else { "0"@ };
    assert(colon_free(flag));
    lemma_reason_roundtrip(identifier, tag_type, flag, decimal(submitter_id as nat));
    assert("0"@[0] == '0' && "1"@[0] == '1');
    assert((flag == "1"@) == is_nicked);
}

} // verus!
