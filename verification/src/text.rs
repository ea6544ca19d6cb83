//! Character-level text model: the string operations the message formats are
//! built from, stated over `Seq<char>` and implemented over character vectors.
use vstd::prelude::*;

verus! {

// ---------------------------------------------------------------------------
// Specifications
// ---------------------------------------------------------------------------

/// `p` is a prefix of `s`.
pub open spec fn has_prefix(s: Seq<char>, p: Seq<char>) -> bool {
    p.len() <= s.len() && s.subrange(0, p.len() as int) == p
}

/// `p` is a suffix of `s`.
pub open spec fn has_suffix(s: Seq<char>, p: Seq<char>) -> bool {
    p.len() <= s.len() && s.subrange(s.len() - p.len(), s.len() as int) == p
}

/// `p` occurs in `s` starting at position `i`.
pub open spec fn occurs_at(s: Seq<char>, p: Seq<char>, i: int) -> bool {
    0 <= i && i + p.len() <= s.len() && s.subrange(i, i + p.len()) == p
}

/// The first position at or after `i` where `p` occurs in `s`.
pub open spec fn find_from(s: Seq<char>, p: Seq<char>, i: int) -> Option<int>
    decreases s.len() + 1 - i,
{
    if i < 0 || i + p.len() > s.len() {
        None
    } else if occurs_at(s, p, i) {
        Some(i)
    } else {
        find_from(s, p, i + 1)
    }
}

/// The first position where `p` occurs in `s` (`str::find`).
pub open spec fn find(s: Seq<char>, p: Seq<char>) -> Option<int> {
    find_from(s, p, 0)
}

/// `p` occurs somewhere in `s` (`str::contains`).
pub open spec fn contains(s: Seq<char>, p: Seq<char>) -> bool {
    find(s, p) is Some
}

/// The pieces of `s` between the leftmost non-overlapping occurrences of the
/// non-empty pattern `p` (`str::split`); there is always at least one piece.
pub open spec fn split(s: Seq<char>, p: Seq<char>) -> Seq<Seq<char>>
    decreases s.len(),
{
    if p.len() == 0 {
        seq![s]
    } else {
        match find(s, p) {
            Some(i) => {
                if 0 <= i && i + p.len() <= s.len() {
                    seq![s.subrange(0, i)] + split(s.subrange(i + p.len(), s.len() as int), p)
                } else {
                    seq![s]
                }
            },
            None => seq![s],
        }
    }
}

/// The character sequences held by a vector of character vectors.
pub open spec fn views(v: Seq<Vec<char>>) -> Seq<Seq<char>> {
    v.map_values(|x: Vec<char>| x@)
}

/// The `n`th piece of `split(s, p)`, if there is one (`split(..).nth(n)`).
pub open spec fn split_nth(s: Seq<char>, p: Seq<char>, n: int) -> Option<Seq<char>> {
    if 0 <= n < split(s, p).len() {
        Some(split(s, p)[n])
    } else {
        None
    }
}

/// The last piece of `split(s, p)` (`rsplit(..).next()`).
pub open spec fn last_piece(s: Seq<char>, p: Seq<char>) -> Seq<char> {
    split(s, p).last()
}

/// A single character as a sequence.
pub open spec fn single(c: char) -> Seq<char> {
    seq![c]
}

/// `char::is_whitespace`: the characters with the Unicode White_Space property.
pub open spec fn is_ws(c: char) -> bool {
    ||| c == ' '
    ||| ('\t' <= c && c <= '\r')
    ||| c == '\u{85}'
    ||| c == '\u{A0}'
    ||| c == '\u{1680}'
    ||| ('\u{2000}' <= c && c <= '\u{200A}')
    ||| c == '\u{2028}'
    ||| c == '\u{2029}'
    ||| c == '\u{202F}'
    ||| c == '\u{205F}'
    ||| c == '\u{3000}'
}

/// `char::is_ascii_hexdigit`.
pub open spec fn is_hex(c: char) -> bool {
    ('0' <= c && c <= '9') || ('a' <= c && c <= 'f') || ('A' <= c && c <= 'F')
}

/// `char::is_ascii_digit`.
pub open spec fn is_digit(c: char) -> bool {
    '0' <= c && c <= '9'
}

/// `char::is_ascii_alphanumeric`.
pub open spec fn is_alnum(c: char) -> bool {
    ('0' <= c && c <= '9') || ('a' <= c && c <= 'z') || ('A' <= c && c <= 'Z')
}

/// `s` with leading whitespace removed (`str::trim_start`).
pub open spec fn trim_start(s: Seq<char>) -> Seq<char>
    decreases s.len(),
{
    if s.len() > 0 && is_ws(s[0]) {
        trim_start(s.drop_first())
    } else {
        s
    }
}

/// `s` with trailing whitespace removed (`str::trim_end`).
pub open spec fn trim_end(s: Seq<char>) -> Seq<char>
    decreases s.len(),
{
    if s.len() > 0 && is_ws(s.last()) {
        trim_end(s.drop_last())
    } else {
        s
    }
}

/// `str::trim`.
pub open spec fn trim(s: Seq<char>) -> Seq<char> {
    trim_end(trim_start(s))
}

/// The length of the leading run of non-whitespace characters of `s`.
pub open spec fn word_len(s: Seq<char>) -> nat
    decreases s.len(),
{
    if s.len() == 0 || is_ws(s[0]) {
        0
    } else {
        1 + word_len(s.drop_first())
    }
}

/// The maximal runs of non-whitespace characters of `s` (`str::split_whitespace`).
pub open spec fn words(s: Seq<char>) -> Seq<Seq<char>>
    decreases s.len(),
{
    if s.len() == 0 {
        seq![]
    } else if is_ws(s[0]) {
        words(s.drop_first())
    } else {
        let k = word_len(s);
        if 0 < k <= s.len() {
            seq![s.subrange(0, k as int)] + words(s.subrange(k as int, s.len() as int))
        } else {
            seq![]
        }
    }
}

/// The value of a string of decimal digits.
pub open spec fn digits_value(s: Seq<char>) -> nat
    decreases s.len(),
{
    if s.len() == 0 {
        0
    } else {
        digits_value(s.drop_last()) * 10 + ((s.last() as int - '0' as int) as nat)
    }
}

/// All characters of `s` are decimal digits.
pub open spec fn all_digits(s: Seq<char>) -> bool {
    forall|i: int| 0 <= i < s.len() ==> is_digit(#[trigger] s[i])
}

/// `u64::from_str`: an optional `+`, then one or more decimal digits whose value fits.
pub open spec fn parse_u64_spec(s: Seq<char>) -> Option<u64> {
    let d = if s.len() > 0 && s[0] == '+' { s.drop_first() } else { s };
    if d.len() > 0 && all_digits(d) && digits_value(d) <= u64::MAX {
        Some(digits_value(d) as u64)
    } else {
        None
    }
}

/// `i16::from_str`: an optional sign, then one or more decimal digits whose
/// value fits.
pub open spec fn parse_i16_spec(s: Seq<char>) -> Option<i16> {
    if s.len() > 0 && s[0] == '-' {
        let d = s.drop_first();
        if d.len() > 0 && all_digits(d) && digits_value(d) <= 32768 {
            Some((0 - digits_value(d)) as i16)
        } else {
            None
        }
    } else {
        match parse_u64_spec(s) {
            Some(v) => if v <= 32767 { Some(v as i16) } else { None },
            None => None,
        }
    }
}

/// `usize::from_str`, by the same rule.
pub open spec fn parse_usize_spec(s: Seq<char>) -> Option<usize> {
    match parse_u64_spec(s) {
        Some(v) => if v <= usize::MAX { Some(v as usize) } else { None },
        None => None,
    }
}

/// The decimal digit for `d < 10`.
pub open spec fn digit_char(d: nat) -> char {
    ((d + 48) as u8) as char
}

/// The decimal representation of `n`, as `Display` writes an unsigned integer.
pub open spec fn decimal(n: nat) -> Seq<char>
    decreases n,
{
    if n < 10 {
        seq![digit_char(n)]
    } else {
        decimal(n / 10).push(digit_char(n % 10))
    }
}

/// The pieces joined with `sep` between them (`[..].join(sep)`).
pub open spec fn joined(pieces: Seq<Seq<char>>, sep: Seq<char>) -> Seq<char>
    decreases pieces.len(),
{
    if pieces.len() == 0 {
        Seq::empty()
    } else if pieces.len() == 1 {
        pieces[0]
    } else {
        joined(pieces.drop_last(), sep) + sep + pieces.last()
    }
}

/// The UTF-8 length in bytes of a character (`char::len_utf8`).
pub open spec fn utf8_width(c: char) -> nat {
    if (c as u32) < 0x80 {
        1
    } else if (c as u32) < 0x800 {
        2
    } else if (c as u32) < 0x10000 {
        3
    } else {
        4
    }
}

/// Strips one trailing carriage return.
pub open spec fn strip_cr(p: Seq<char>) -> Seq<char> {
    if p.len() > 0 && p.last() == '\r' {
        p.drop_last()
    } else {
        p
    }
}

/// The lines of `s` (`str::lines`): split at `\n`, a final empty piece
/// dropped, and a `\r` just before a `\n` removed.
pub open spec fn lines(s: Seq<char>) -> Seq<Seq<char>> {
    let ps = split(s, seq!['\n']);
    let body = if ps.len() > 0 && ps.last().len() == 0 { ps.drop_last() } else { ps };
    Seq::new(body.len(), |i: int| if i < ps.len() - 1 { strip_cr(body[i]) } else { body[i] })
}

/// The first line of `s`, or nothing when `s` has no line.
pub open spec fn first_line(s: Seq<char>) -> Seq<char> {
    if lines(s).len() > 0 {
        lines(s)[0]
    } else {
        Seq::empty()
    }
}

/// The UTF-8 length in bytes of a character sequence.
pub open spec fn utf8_len(s: Seq<char>) -> nat
    decreases s.len(),
{
    if s.len() == 0 {
        0
    } else {
        utf8_len(s.drop_last()) + utf8_width(s.last())
    }
}

/// The pieces of `s` split at `p`, at most `n` of them (`str::splitn`): the
/// last piece holds the rest of the text.
pub open spec fn splitn(s: Seq<char>, p: Seq<char>, n: nat) -> Seq<Seq<char>>
    decreases n,
{
    if n <= 1 || p.len() == 0 {
        seq![s]
    } else {
        match find(s, p) {
            Some(i) => if 0 <= i && i + p.len() <= s.len() {
                seq![s.subrange(0, i)] + splitn(s.subrange(i + p.len(), s.len() as int), p, (n - 1) as nat)
            } else {
                seq![s]
            },
            None => seq![s],
        }
    }
}

/// `s` with every `c` removed (`str::replace(c, "")`).
pub open spec fn without(s: Seq<char>, c: char) -> Seq<char>
    decreases s.len(),
{
    if s.len() == 0 {
        s
    } else if s.last() == c {
        without(s.drop_last(), c)
    } else {
        without(s.drop_last(), c).push(s.last())
    }
}

// ---------------------------------------------------------------------------
// Conversions
// ---------------------------------------------------------------------------

/// The characters of `s`, in order.
pub fn chars_of(s: &str) -> (v: Vec<char>)
    ensures
        v@ == s@,
{
    let mut v: Vec<char> = Vec::new();
    for c in it: s.chars()
        invariant
            v@ == it.seq().take(it.index() as int),
            it.seq() == s@,
    {
        v.push(c);
    }
    v
}

/// A `String` holding exactly the characters of `v`.
///
/// Trusted: calls `String::from_iter` on the slice of characters; std
/// documents that the string collected from characters holds them in order.
#[verifier::external_body]
pub(crate) fn string_from_chars(v: &[char]) -> (s: String)
    ensures
        s@ == v@,
{
    String::from_iter(v)
}

/// Appends the characters of `s` to `out`.
pub fn push_str(out: &mut Vec<char>, s: &str)
    ensures
        final(out)@ == old(out)@ + s@,
{
    let cs = chars_of(s);
    push_chars(out, &cs);
}

/// Appends `cs` to `out`.
pub fn push_chars(out: &mut Vec<char>, cs: &[char])
    ensures
        final(out)@ == old(out)@ + cs@,
{
    let ghost start = out@;
    let mut i: usize = 0;
    while i < cs.len()
        invariant
            i <= cs@.len(),
            out@ == start + cs@.subrange(0, i as int),
        decreases cs@.len() - i,
    {
        out.push(cs[i]);
        i = i + 1;
        assert(out@ == start + cs@.subrange(0, i as int));
    }
    assert(cs@.subrange(0, cs@.len() as int) == cs@);
}

/// The characters of `s` from `lo` to `hi`.
pub fn slice_vec(s: &[char], lo: usize, hi: usize) -> (r: Vec<char>)
    requires
        lo <= hi <= s@.len(),
    ensures
        r@ == s@.subrange(lo as int, hi as int),
{
    let mut r: Vec<char> = Vec::new();
    let mut i = lo;
    while i < hi
        invariant
            lo <= i <= hi,
            hi <= s@.len(),
            r@ == s@.subrange(lo as int, i as int),
        decreases hi - i,
    {
        r.push(s[i]);
        i = i + 1;
        assert(r@ == s@.subrange(lo as int, i as int));
    }
    r
}

/// Two character slices are equal.
pub fn chars_eq(a: &[char], b: &[char]) -> (r: bool)
    ensures
        r == (a@ == b@),
{
    if a.len() != b.len() {
        return false;
    }
    let mut i: usize = 0;
    while i < a.len()
        invariant
            i <= a@.len(),
            a@.len() == b@.len(),
            forall|j: int| 0 <= j < i ==> a@[j] == b@[j],
        decreases a@.len() - i,
    {
        if a[i] != b[i] {
            return false;
        }
        i = i + 1;
    }
    assert(a@ =~= b@);
    true
}

/// A string equals the given characters.
pub fn str_eq_chars(s: &str, b: &[char]) -> (r: bool)
    ensures
        r == (s@ == b@),
{
    let a = chars_of(s);
    chars_eq(&a, b)
}

/// Two strings are equal.
pub fn str_eq(s: &str, t: &str) -> (r: bool)
    ensures
        r == (s@ == t@),
{
    let a = chars_of(s);
    let b = chars_of(t);
    chars_eq(&a, &b)
}

/// Appends `pieces` joined with `sep` to `out`.
pub fn push_joined(out: &mut Vec<char>, pieces: &Vec<Vec<char>>, sep: &[char])
    ensures
        final(out)@ == old(out)@ + joined(views(pieces@), sep@),
{
    let ghost start = out@;
    let mut i: usize = 0;
    assert(views(pieces@).subrange(0, 0) =~= Seq::<Seq<char>>::empty());
    assert(start + Seq::<char>::empty() =~= start);
    while i < pieces.len()
        invariant
            i <= pieces@.len(),
            out@ == start + joined(views(pieces@).subrange(0, i as int), sep@),
        decreases pieces@.len() - i,
    {
        let ghost pre = views(pieces@).subrange(0, i as int);
        let ghost cur = views(pieces@).subrange(0, i + 1);
        assert(cur.drop_last() =~= pre);
        assert(cur.last() == pieces@[i as int]@);
        if i > 0 {
            push_chars(out, sep);
        } else {
            assert(cur =~= seq![pieces@[0]@]);
        }
        push_chars(out, &pieces[i]);
        i = i + 1;
        assert(out@ =~= start + joined(views(pieces@).subrange(0, i as int), sep@));
    }
    assert(views(pieces@).subrange(0, pieces@.len() as int) =~= views(pieces@));
}

// ---------------------------------------------------------------------------
// Searching
// ---------------------------------------------------------------------------

/// `p` occurs in `s` at `i`.
pub fn occurs_at_exec(s: &[char], p: &[char], i: usize) -> (r: bool)
    ensures
        r == occurs_at(s@, p@, i as int),
{
    let n = s.len();
    if i > n || p.len() > n - i {
        return false;
    }
    let mut j: usize = 0;
    while j < p.len()
        invariant
            j <= p@.len(),
            n == s@.len(),
            i + p@.len() <= n,
            forall|k: int| 0 <= k < j ==> s@[i + k] == p@[k],
        decreases p@.len() - j,
    {
        if s[i + j] != p[j] {
            assert(s@.subrange(i as int, i + p@.len())[j as int] != p@[j as int]);
            return false;
        }
        j = j + 1;
    }
    assert(s@.subrange(i as int, i + p@.len()) =~= p@);
    true
}

/// `s` starts with `p`.
pub fn starts_with(s: &[char], p: &[char]) -> (r: bool)
    ensures
        r == has_prefix(s@, p@),
{
    occurs_at_exec(s, p, 0)
}

/// `s` ends with `p`.
pub fn ends_with(s: &[char], p: &[char]) -> (r: bool)
    ensures
        r == has_suffix(s@, p@),
{
    if p.len() > s.len() {
        return false;
    }
    occurs_at_exec(s, p, s.len() - p.len())
}

/// `str::strip_prefix`.
pub fn strip_prefix(s: &[char], p: &[char]) -> (r: Option<Vec<char>>)
    ensures
        r is Some == has_prefix(s@, p@),
        r matches Some(v) ==> v@ == s@.subrange(p@.len() as int, s@.len() as int),
{
    if starts_with(s, p) {
        Some(slice_vec(s, p.len(), s.len()))
    } else {
        None
    }
}

/// `str::strip_suffix`.
pub fn strip_suffix(s: &[char], p: &[char]) -> (r: Option<Vec<char>>)
    ensures
        r is Some == has_suffix(s@, p@),
        r matches Some(v) ==> v@ == s@.subrange(0, s@.len() - p@.len()),
{
    if ends_with(s, p) {
        Some(slice_vec(s, 0, s.len() - p.len()))
    } else {
        None
    }
}

/// `str::find`.
pub fn find_exec(s: &[char], p: &[char]) -> (r: Option<usize>)
    ensures
        r matches Some(i) ==> find(s@, p@) == Some(i as int),
        r is None ==> find(s@, p@) is None,
{
    let n = s.len();
    let mut i: usize = 0;
    while i < n
        invariant
            i <= n,
            n == s@.len(),
            find(s@, p@) == find_from(s@, p@, i as int),
        decreases n - i,
    {
        if occurs_at_exec(s, p, i) {
            return Some(i);
        }
        if p.len() > n - i {
            return None;
        }
        i = i + 1;
    }
    if p.len() == 0 {
        assert(s@.subrange(n as int, n as int) =~= p@);
    }
    if occurs_at_exec(s, p, n) {
        Some(n)
    } else {
        None
    }
}

/// `str::split` by a non-empty pattern: all the pieces.
pub fn split_exec(s: &[char], p: &[char]) -> (r: Vec<Vec<char>>)
    requires
        p@.len() > 0,
    ensures
        views(r@) == split(s@, p@),
{
    let n = s.len();
    let mut pieces: Vec<Vec<char>> = Vec::new();
    let mut pos: usize = 0;
    assert(views(pieces@) =~= Seq::<Seq<char>>::empty());
    assert(s@.subrange(0, n as int) =~= s@);
    loop
        invariant
            pos <= n,
            n == s@.len(),
            p@.len() > 0,
            views(pieces@) + split(s@.subrange(pos as int, n as int), p@) == split(s@, p@),
        decreases n - pos,
    {
        let rest = slice_vec(s, pos, n);
        match find_exec(&rest, p) {
            Some(i) => {
                proof {
                    lemma_find_from(rest@, p@, 0);
                }
                let piece = slice_vec(&rest, 0, i);
                let ghost old_pieces = views(pieces@);
                pieces.push(piece);
                assert(rest@.subrange(i + p@.len(), rest@.len() as int) =~= s@.subrange(
                    (pos + i + p@.len()) as int,
                    n as int,
                ));
                assert(views(pieces@) =~= old_pieces.push(rest@.subrange(0, i as int)));
                assert(split(rest@, p@) == seq![rest@.subrange(0, i as int)] + split(
                    rest@.subrange(i + p@.len(), rest@.len() as int),
                    p@,
                ));
                assert(views(pieces@) + split(
                    s@.subrange((pos + i + p@.len()) as int, n as int),
                    p@,
                ) =~= old_pieces + split(rest@, p@));
                pos = pos + i + p.len();
            },
            None => {
                let ghost old_pieces = views(pieces@);
                pieces.push(rest);
                assert(views(pieces@) =~= old_pieces + split(rest@, p@));
                return pieces;
            },
        }
    }
}

/// The `n`th piece of `split(s, p)` (`split(..).nth(n)`).
pub fn split_nth_exec(s: &[char], p: &[char], n: usize) -> (r: Option<Vec<char>>)
    requires
        p@.len() > 0,
    ensures
        r matches Some(v) ==> split_nth(s@, p@, n as int) == Some(v@),
        r is None ==> split_nth(s@, p@, n as int) is None,
{
    let mut pieces = split_exec(s, p);
    if n < pieces.len() {
        let ghost dv = views(pieces@);
        assert(dv[n as int] == pieces@[n as int]@);
        Some(pieces.swap_remove(n))
    } else {
        None
    }
}

/// The last piece of `split(s, p)` (`rsplit(..).next()`).
pub fn last_piece_exec(s: &[char], p: &[char]) -> (r: Vec<char>)
    requires
        p@.len() > 0,
    ensures
        r@ == last_piece(s@, p@),
{
    proof {
        lemma_split_nonempty(s@, p@);
    }
    let mut pieces = split_exec(s, p);
    let ghost dv = views(pieces@);
    let k = pieces.len() - 1;
    assert(dv[k as int] == pieces@[k as int]@);
    pieces.swap_remove(k)
}

/// `split` always yields at least one piece.
pub proof fn lemma_split_nonempty(s: Seq<char>, p: Seq<char>)
    ensures
        split(s, p).len() >= 1,
    decreases s.len(),
{
    if p.len() > 0 {
        match find(s, p) {
            Some(i) => {
                if 0 <= i && i + p.len() <= s.len() {
                    lemma_split_nonempty(s.subrange(i + p.len(), s.len() as int), p);
                }
            },
            None => {},
        }
    }
}

/// `char::is_whitespace`.
pub fn is_ws_exec(c: char) -> (r: bool)
    ensures
        r == is_ws(c),
{
    c == ' ' || ('\t' <= c && c <= '\r') || c == '\u{85}' || c == '\u{A0}' || c == '\u{1680}'
        || ('\u{2000}' <= c && c <= '\u{200A}') || c == '\u{2028}' || c == '\u{2029}'
        || c == '\u{202F}' || c == '\u{205F}' || c == '\u{3000}'
}

/// `char::is_ascii_hexdigit`.
pub fn is_hex_exec(c: char) -> (r: bool)
    ensures
        r == is_hex(c),
{
    ('0' <= c && c <= '9') || ('a' <= c && c <= 'f') || ('A' <= c && c <= 'F')
}

/// `str::split_whitespace`.
pub fn words_exec(s: &[char]) -> (r: Vec<Vec<char>>)
    ensures
        views(r@) == words(s@),
{
    let n = s.len();
    let mut acc: Vec<Vec<char>> = Vec::new();
    let mut i: usize = 0;
    assert(views(acc@) =~= Seq::<Seq<char>>::empty());
    assert(s@.subrange(0, n as int) =~= s@);
    while i < n
        invariant
            i <= n,
            n == s@.len(),
            views(acc@) + words(s@.subrange(i as int, n as int)) == words(s@),
        decreases n - i,
    {
        let ghost sub = s@.subrange(i as int, n as int);
        if is_ws_exec(s[i]) {
            assert(sub.drop_first() =~= s@.subrange(i + 1, n as int));
            i = i + 1;
        } else {
            let mut j = i + 1;
            assert(sub.drop_first() =~= s@.subrange(i + 1, n as int));
            while j < n && !is_ws_exec(s[j])
                invariant
                    i < j <= n,
                    n == s@.len(),
                    sub == s@.subrange(i as int, n as int),
                    word_len(sub) == (j - i) + word_len(s@.subrange(j as int, n as int)),
                    forall|k: int| i <= k < j ==> !is_ws(#[trigger] s@[k]),
                decreases n - j,
            {
                assert(s@.subrange(j as int, n as int).drop_first() =~= s@.subrange(j + 1, n as int));
                j = j + 1;
            }
            assert(word_len(s@.subrange(j as int, n as int)) == 0);
            let w = slice_vec(s, i, j);
            let ghost old_acc = views(acc@);
            acc.push(w);
            assert(views(acc@) =~= old_acc.push(s@.subrange(i as int, j as int)));
            assert(sub.subrange(0, (j - i) as int) =~= s@.subrange(i as int, j as int));
            assert(sub.subrange((j - i) as int, sub.len() as int) =~= s@.subrange(j as int, n as int));
            assert(views(acc@) + words(s@.subrange(j as int, n as int)) =~= old_acc + words(sub));
            i = j;
        }
    }
    assert(words(s@.subrange(n as int, n as int)) =~= Seq::<Seq<char>>::empty());
    assert(views(acc@) + Seq::<Seq<char>>::empty() =~= views(acc@));
    acc
}

/// `str::trim`.
pub fn trim_exec(s: &[char]) -> (r: Vec<char>)
    ensures
        r@ == trim(s@),
{
    let n = s.len();
    let mut i: usize = 0;
    assert(s@.subrange(0, n as int) =~= s@);
    while i < n && is_ws_exec(s[i])
        invariant
            i <= n,
            n == s@.len(),
            trim_start(s@) == trim_start(s@.subrange(i as int, n as int)),
        decreases n - i,
    {
        assert(s@.subrange(i as int, n as int).drop_first() =~= s@.subrange(i + 1, n as int));
        i = i + 1;
    }
    let mut j: usize = n;
    assert(trim_start(s@) == s@.subrange(i as int, n as int));
    while j > i && is_ws_exec(s[j - 1])
        invariant
            i <= j <= n,
            n == s@.len(),
            trim(s@) == trim_end(s@.subrange(i as int, j as int)),
        decreases j,
    {
        assert(s@.subrange(i as int, j as int).drop_last() =~= s@.subrange(i as int, j - 1));
        j = j - 1;
    }
    slice_vec(s, i, j)
}

/// The value of a decimal digit string does not shrink as digits are appended.
pub proof fn lemma_digits_prefix_le(s: Seq<char>, k: int)
    requires
        0 <= k <= s.len(),
        all_digits(s),
    ensures
        digits_value(s.subrange(0, k)) <= digits_value(s),
    decreases s.len() - k,
{
    if k < s.len() {
        lemma_digits_prefix_le(s, k + 1);
        let t = s.subrange(0, k + 1);
        assert(t.drop_last() =~= s.subrange(0, k));
        assert(is_digit(s[k]));
    } else {
        assert(s.subrange(0, k) =~= s);
    }
}

/// `u64::from_str`.
pub fn parse_u64_exec(s: &[char]) -> (r: Option<u64>)
    ensures
        r == parse_u64_spec(s@),
{
    let n = s.len();
    let start: usize = if n > 0 && s[0] == '+' { 1 } else { 0 };
    let ghost d = if s@.len() > 0 && s@[0] == '+' { s@.drop_first() } else { s@ };
    assert(d =~= s@.subrange(start as int, n as int));
    if start >= n {
        return None;
    }
    let mut acc: u64 = 0;
    let mut i = start;
    let mut overflow = false;
    assert(d.subrange(0, 0) =~= Seq::<char>::empty());
    while i < n
        invariant
            start <= i <= n,
            n == s@.len(),
            d == s@.subrange(start as int, n as int),
            d == (if s@.len() > 0 && s@[0] == '+' { s@.drop_first() } else { s@ }),
            forall|k: int| start <= k < i ==> is_digit(#[trigger] s@[k]),
            !overflow ==> acc == digits_value(d.subrange(0, i - start)),
            overflow ==> digits_value(d.subrange(0, i - start)) > u64::MAX,
        decreases n - i,
    {
        let c = s[i];
        if !('0' <= c && c <= '9') {
            assert(!is_digit(d[i - start]));
            return None;
        }
        let dig = (c as u32 - '0' as u32) as u64;
        let ghost pre = d.subrange(0, i - start);
        let ghost cur = d.subrange(0, i - start + 1);
        assert(cur.drop_last() =~= pre);
        assert(cur.last() == c);
        if !overflow {
            if acc > (u64::MAX - dig) / 10 {
                overflow = true;
            } else {
                acc = acc * 10 + dig;
            }
        }
        i = i + 1;
    }
    assert(d.subrange(0, (n - start) as int) =~= d);
    assert(all_digits(d));
    if overflow {
        None
    } else {
        Some(acc)
    }
}

/// `i16::from_str`.
pub fn parse_i16_exec(s: &[char]) -> (r: Option<i16>)
    ensures
        r == parse_i16_spec(s@),
{
    if s.len() > 0 && s[0] == '-' {
        let rest = slice_vec(s, 1, s.len());
        assert(rest@ =~= s@.drop_first());
        if rest.len() > 0 && rest[0] == '+' {
            assert(!is_digit(rest@[0]));
            return None;
        }
        match parse_u64_exec(&rest) {
            Some(v) => {
                if v <= 32768 {
                    Some((0 - (v as i32)) as i16)
                } else {
                    None
                }
            },
            None => None,
        }
    } else {
        match parse_u64_exec(s) {
            Some(v) => {
                if v <= 32767 {
                    Some(v as i16)
                } else {
                    None
                }
            },
            None => None,
        }
    }
}

/// `usize::from_str`.
pub fn parse_usize_exec(s: &[char]) -> (r: Option<usize>)
    ensures
        r == parse_usize_spec(s@),
{
    match parse_u64_exec(s) {
        Some(v) => {
            if v <= usize::MAX as u64 {
                Some(v as usize)
            } else {
                None
            }
        },
        None => None,
    }
}

/// The decimal representation of `n`.
pub fn decimal_exec(n: u64) -> (r: Vec<char>)
    ensures
        r@ == decimal(n as nat),
    decreases n,
{
    let d = ((n % 10) as u8 + 48u8) as char;
    if n < 10 {
        let mut v: Vec<char> = Vec::new();
        v.push(d);
        v
    } else {
        let mut v = decimal_exec(n / 10);
        v.push(d);
        v
    }
}

/// `str::lines`.
pub fn lines_exec(s: &[char]) -> (r: Vec<Vec<char>>)
    ensures
        views(r@) == lines(s@),
{
    let nl = ['\n'];
    assert(nl@ =~= seq!['\n']);
    let ps = split_exec(s, &nl);
    proof {
        lemma_split_nonempty(s@, seq!['\n']);
    }
    let ghost pv = views(ps@);
    let n = ps.len();
    let body_len = if ps[n - 1].len() == 0 { n - 1 } else { n };
    assert(pv[n - 1] == ps@[n - 1]@);
    let mut r: Vec<Vec<char>> = Vec::new();
    let mut i: usize = 0;
    while i < body_len
        invariant
            i <= body_len <= n,
            n == ps@.len(),
            n >= 1,
            pv == views(ps@),
            pv == split(s@, seq!['\n']),
            body_len as int == (if pv.last().len() == 0 { n - 1 } else { n as int }),
            views(r@) == lines(s@).subrange(0, i as int),
        decreases body_len - i,
    {
        assert(pv[i as int] == ps@[i as int]@);
        let piece = &ps[i];
        let m = piece.len();
        let line = if i < n - 1 && m > 0 && piece[m - 1] == '\r' {
            slice_vec(piece, 0, m - 1)
        } else {
            slice_vec(piece, 0, m)
        };
        proof {
            let ps_s = split(s@, seq!['\n']);
            let body = if ps_s.len() > 0 && ps_s.last().len() == 0 { ps_s.drop_last() } else { ps_s };
            assert(body[i as int] == pv[i as int]);
            if i < n - 1 && m > 0 && piece@[m - 1] == '\r' {
                assert(line@ =~= piece@.drop_last());
            } else {
                assert(line@ =~= piece@);
            }
            assert(lines(s@)[i as int] == line@);
        }
        let ghost before = views(r@);
        r.push(line);
        assert(views(r@) =~= before.push(r@[i as int]@));
        assert(lines(s@).len() == body_len);
        assert(views(r@) =~= lines(s@).subrange(0, i + 1));
        i = i + 1;
    }
    assert(lines(s@).subrange(0, body_len as int) =~= lines(s@));
    r
}

/// The UTF-8 length of `s[..k]`.
pub fn utf8_prefix_len(s: &[char], k: usize) -> (r: usize)
    requires
        k <= s@.len(),
        utf8_len(s@.subrange(0, k as int)) <= usize::MAX,
    ensures
        r == utf8_len(s@.subrange(0, k as int)),
{
    let mut total: usize = 0;
    let mut i: usize = 0;
    assert(s@.subrange(0, 0) =~= Seq::<char>::empty());
    while i < k
        invariant
            i <= k <= s@.len(),
            total == utf8_len(s@.subrange(0, i as int)),
            utf8_len(s@.subrange(0, k as int)) <= usize::MAX,
        decreases k - i,
    {
        assert(s@.subrange(0, i + 1).drop_last() =~= s@.subrange(0, i as int));
        proof {
            lemma_utf8_len_prefix_le(s@.subrange(0, k as int), i + 1);
            assert(s@.subrange(0, k as int).subrange(0, i + 1) =~= s@.subrange(0, i + 1));
        }
        let c = s[i];
        let w: usize = if (c as u32) < 0x80 {
            1
        } else if (c as u32) < 0x800 {
            2
        } else if (c as u32) < 0x10000 {
            3
        } else {
            4
        };
        total = total + w;
        i = i + 1;
    }
    total
}

/// UTF-8 length grows with the prefix.
pub proof fn lemma_utf8_len_prefix_le(s: Seq<char>, k: int)
    requires
        0 <= k <= s.len(),
    ensures
        utf8_len(s.subrange(0, k)) <= utf8_len(s),
    decreases s.len() - k,
{
    if k < s.len() {
        lemma_utf8_len_prefix_le(s, k + 1);
        assert(s.subrange(0, k + 1).drop_last() =~= s.subrange(0, k));
    } else {
        assert(s.subrange(0, k) =~= s);
    }
}

/// `str::splitn`.
pub fn splitn_exec(s: &[char], p: &[char], n: usize) -> (r: Vec<Vec<char>>)
    requires
        p@.len() > 0,
    ensures
        views(r@) == splitn(s@, p@, n as nat),
{
    let len = s.len();
    let mut pieces: Vec<Vec<char>> = Vec::new();
    let mut pos: usize = 0;
    let mut left: usize = n;
    assert(views(pieces@) =~= Seq::<Seq<char>>::empty());
    assert(s@.subrange(0, len as int) =~= s@);
    loop
        invariant
            pos <= len,
            len == s@.len(),
            p@.len() > 0,
            views(pieces@) + splitn(s@.subrange(pos as int, len as int), p@, left as nat) == splitn(s@, p@, n as nat),
        decreases left,
    {
        let rest = slice_vec(s, pos, len);
        if left <= 1 {
            let ghost old_pieces = views(pieces@);
            pieces.push(rest);
            assert(views(pieces@) =~= old_pieces + splitn(rest@, p@, left as nat));
            return pieces;
        }
        match find_exec(&rest, p) {
            Some(i) => {
                proof {
                    lemma_find_from(rest@, p@, 0);
                }
                let piece = slice_vec(&rest, 0, i);
                let ghost old_pieces = views(pieces@);
                pieces.push(piece);
                assert(rest@.subrange(i + p@.len(), rest@.len() as int) =~= s@.subrange((pos + i + p@.len()) as int, len as int));
                assert(views(pieces@) =~= old_pieces.push(rest@.subrange(0, i as int)));
                assert(views(pieces@) + splitn(s@.subrange((pos + i + p@.len()) as int, len as int), p@, (left - 1) as nat)
                    =~= old_pieces + splitn(rest@, p@, left as nat));
                pos = pos + i + p.len();
                left = left - 1;
            },
            None => {
                let ghost old_pieces = views(pieces@);
                pieces.push(rest);
                assert(views(pieces@) =~= old_pieces + splitn(rest@, p@, left as nat));
                return pieces;
            },
        }
    }
}

/// `s` with every `c` removed.
pub fn without_exec(s: &[char], c: char) -> (r: Vec<char>)
    ensures
        r@ == without(s@, c),
{
    let mut d: Vec<char> = Vec::new();
    let mut i: usize = 0;
    assert(d@ =~= without(s@.subrange(0, 0), c));
    while i < s.len()
        invariant
            i <= s@.len(),
            d@ == without(s@.subrange(0, i as int), c),
        decreases s@.len() - i,
    {
        assert(s@.subrange(0, i + 1).drop_last() =~= s@.subrange(0, i as int));
        if s[i] != c {
            d.push(s[i]);
        }
        i = i + 1;
    }
    assert(s@.subrange(0, s@.len() as int) =~= s@);
    d
}

/// `find` lands on an occurrence, and no earlier position holds one.
pub proof fn lemma_find_from(s: Seq<char>, p: Seq<char>, i: int)
    requires
        0 <= i,
    ensures
        find_from(s, p, i) matches Some(k) ==> i <= k && occurs_at(s, p, k) && forall|j: int|
            i <= j < k ==> !occurs_at(s, p, j),
        find_from(s, p, i) is None ==> forall|j: int| i <= j ==> !occurs_at(s, p, j),
    decreases s.len() + 1 - i,
{
    if i + p.len() > s.len() {
    } else if occurs_at(s, p, i) {
    } else {
        lemma_find_from(s, p, i + 1);
    }
}

/// `find_from` stops at the first occurrence at or after `i`.
pub proof fn lemma_find_from_first(s: Seq<char>, p: Seq<char>, i: int, k: int)
    requires
        0 <= i <= k,
        occurs_at(s, p, k),
        forall|j: int| i <= j < k ==> !occurs_at(s, p, j),
    ensures
        find_from(s, p, i) == Some(k),
    decreases k - i,
{
    if i < k {
        lemma_find_from_first(s, p, i + 1, k);
    }
}

/// Splitting at a first occurrence of the pattern right after `a`: `a` is the
/// first piece, and the rest splits as `b` does.
pub proof fn lemma_split_at_first(a: Seq<char>, p: Seq<char>, b: Seq<char>)
    requires
        p.len() > 0,
        forall|j: int| 0 <= j < a.len() ==> !occurs_at(a + p + b, p, j),
    ensures
        split(a + p + b, p) == seq![a] + split(b, p),
{
    let s = a + p + b;
    assert(s.subrange(a.len() as int, (a.len() + p.len()) as int) =~= p);
    lemma_find_from_first(s, p, 0, a.len() as int);
    assert(s.subrange(0, a.len() as int) =~= a);
    assert(s.subrange((a.len() + p.len()) as int, s.len() as int) =~= b);
}

/// A text in which the pattern does not occur is a single piece.
pub proof fn lemma_split_none(s: Seq<char>, p: Seq<char>)
    requires
        p.len() > 0,
        !contains(s, p),
    ensures
        split(s, p) == seq![s],
{
}

/// A pattern that occurs nowhere is not contained.
pub proof fn lemma_not_contains(s: Seq<char>, p: Seq<char>)
    requires
        forall|j: int| 0 <= j ==> !occurs_at(s, p, j),
    ensures
        !contains(s, p),
{
    lemma_find_from(s, p, 0);
}

/// The last piece of a text split at a single character is what follows the
/// last occurrence of that character.
pub proof fn lemma_last_piece_after(x: Seq<char>, c: char, b: Seq<char>)
    requires
        forall|i: int| 0 <= i < b.len() ==> #[trigger] b[i] != c,
    ensures
        last_piece(x + seq![c] + b, seq![c]) == b,
    decreases x.len(),
{
    let p = seq![c];
    let s = x + p + b;
    assert(occurs_at(s, p, x.len() as int)) by {
        assert(s.subrange(x.len() as int, x.len() + 1int) =~= p);
    }
    lemma_find_from(s, p, 0);
    let k = find(s, p)->0;
    assert(k <= x.len());
    let rest = s.subrange(k + 1, s.len() as int);
    lemma_split_nonempty(rest, p);
    assert(split(s, p) == seq![s.subrange(0, k)] + split(rest, p));
    if k == x.len() {
        assert(rest =~= b);
        assert forall|j: int| 0 <= j implies !occurs_at(b, p, j) by {
            if occurs_at(b, p, j) {
                assert(b.subrange(j, j + 1)[0] == b[j]);
            }
        }
        lemma_not_contains(b, p);
        lemma_split_none(b, p);
    } else {
        let x2 = x.subrange(k + 1, x.len() as int);
        assert(rest =~= x2 + p + b);
        lemma_last_piece_after(x2, c, b);
    }
}

/// The digit character of `d` is the character code `'0' + d`.
pub proof fn lemma_digit_char(d: nat)
    requires
        d < 10,
    ensures
        digit_char(d) as int == d + 48,
        is_digit(digit_char(d)),
{
    let b: u8 = (d + 48) as u8;
    assert(b as int == d + 48);
    assert((b as char) as int == b as int);
}

/// `splitn` at a first occurrence of the pattern right after `a`.
pub proof fn lemma_splitn_at_first(a: Seq<char>, p: Seq<char>, b: Seq<char>, n: nat)
    requires
        p.len() > 0,
        n >= 2,
        forall|j: int| 0 <= j < a.len() ==> !occurs_at(a + p + b, p, j),
    ensures
        splitn(a + p + b, p, n) == seq![a] + splitn(b, p, (n - 1) as nat),
{
    let s = a + p + b;
    assert(s.subrange(a.len() as int, (a.len() + p.len()) as int) =~= p);
    lemma_find_from_first(s, p, 0, a.len() as int);
    assert(s.subrange(0, a.len() as int) =~= a);
    assert(s.subrange((a.len() + p.len()) as int, s.len() as int) =~= b);
}

/// A single character that `s` does not hold occurs nowhere in it.
pub proof fn lemma_char_absent(s: Seq<char>, c: char)
    requires
        forall|i: int| 0 <= i < s.len() ==> #[trigger] s[i] != c,
    ensures
        forall|j: int| 0 <= j ==> !occurs_at(s, seq![c], j),
        !contains(s, seq![c]),
{
    assert forall|j: int| 0 <= j implies !occurs_at(s, seq![c], j) by {
        if occurs_at(s, seq![c], j) {
            assert(s.subrange(j, j + 1)[0] == s[j]);
        }
    }
    lemma_not_contains(s, seq![c]);
}

/// Two pieces without newlines joined by one newline are two lines; the first
/// loses a final carriage return.
pub proof fn lemma_two_lines(a: Seq<char>, b: Seq<char>)
    requires
        forall|i: int| 0 <= i < a.len() ==> #[trigger] a[i] != '\n',
        forall|i: int| 0 <= i < b.len() ==> #[trigger] b[i] != '\n',
        b.len() > 0,
    ensures
        lines(a + seq!['\n'] + b) == seq![strip_cr(a), b],
{
    let nl = seq!['\n'];
    lemma_char_absent(a, '\n');
    lemma_char_absent(b, '\n');
    assert forall|j: int| 0 <= j < a.len() implies !occurs_at(a + nl + b, nl, j) by {
        assert((a + nl + b).subrange(j, j + 1)[0] == a[j]);
    }
    lemma_split_at_first(a, nl, b);
    lemma_split_none(b, nl);
    assert(split(a + nl + b, nl) =~= seq![a, b]);
    assert(lines(a + nl + b) =~= seq![strip_cr(a), b]);
}

/// The lines of a text that starts with a line without newline are that
/// line, losing a final carriage return, then the lines of the rest.
pub proof fn lemma_lines_cons(a: Seq<char>, rest: Seq<char>)
    requires
        forall|i: int| 0 <= i < a.len() ==> #[trigger] a[i] != '\n',
    ensures
        lines(a + seq!['\n'] + rest) == seq![strip_cr(a)] + lines(rest),
{
    let nl = seq!['\n'];
    assert forall|j: int| 0 <= j < a.len() implies !occurs_at(a + nl + rest, nl, j) by {
        assert((a + nl + rest).subrange(j, j + 1)[0] == a[j]);
    }
    lemma_split_at_first(a, nl, rest);
    lemma_split_nonempty(rest, nl);
    let ps = split(a + nl + rest, nl);
    let qs = split(rest, nl);
    assert(ps == seq![a] + qs);
    assert(ps.last() == qs.last());
    assert(lines(a + nl + rest) =~= seq![strip_cr(a)] + lines(rest));
}

/// A last line without newline is one line, kept whole; an empty text has none.
pub proof fn lemma_last_line(x: Seq<char>)
    requires
        forall|i: int| 0 <= i < x.len() ==> #[trigger] x[i] != '\n',
    ensures
        lines(x) == (if x.len() == 0 { Seq::<Seq<char>>::empty() } else { seq![x] }),
{
    lemma_char_absent(x, '\n');
    lemma_split_none(x, seq!['\n']);
    assert(lines(x) =~= (if x.len() == 0 { Seq::<Seq<char>>::empty() } else { seq![x] }));
}

/// Joining a first piece in front of other pieces puts it, then the
/// separator, before the join of the others.
pub proof fn lemma_joined_front(a: Seq<char>, rest: Seq<Seq<char>>, sep: Seq<char>)
    requires
        rest.len() > 0,
    ensures
        joined(seq![a] + rest, sep) == a + sep + joined(rest, sep),
    decreases rest.len(),
{
    let all = seq![a] + rest;
    if rest.len() == 1 {
        assert(all.drop_last() =~= seq![a]);
        assert(all.last() == rest[0]);
        assert(joined(seq![a], sep) == a);
        assert(joined(rest, sep) == rest[0]);
        assert(joined(all, sep) == joined(all.drop_last(), sep) + sep + all.last());
    } else {
        lemma_joined_front(a, rest.drop_last(), sep);
        assert(all.drop_last() =~= seq![a] + rest.drop_last());
        assert(all.last() == rest.last());
        assert(joined(all, sep) == joined(all.drop_last(), sep) + sep + all.last());
        assert(joined(rest, sep) == joined(rest.drop_last(), sep) + sep + rest.last());
        assert(a + sep + joined(rest.drop_last(), sep) + sep + rest.last() =~= a + sep + (joined(
            rest.drop_last(),
            sep,
        ) + sep + rest.last()));
    }
}

/// Pieces without newlines, none empty or ending in a carriage return, joined
/// by newlines are read back as those lines.
pub proof fn lemma_lines_of_joined(ls: Seq<Seq<char>>)
    requires
        ls.len() > 0,
        forall|k: int| 0 <= k < ls.len() ==> (#[trigger] ls[k]).len() > 0 && ls[k].last() != '\r',
        forall|k: int, i: int| 0 <= k < ls.len() && 0 <= i < ls[k].len() ==> #[trigger] ls[k][i] != '\n',
    ensures
        lines(joined(ls, seq!['\n'])) == ls,
    decreases ls.len(),
{
    let a = ls[0];
    assert(forall|i: int| 0 <= i < a.len() ==> #[trigger] a[i] != '\n') by {
        assert forall|i: int| 0 <= i < a.len() implies #[trigger] a[i] != '\n' by {
            assert(ls[0][i] != '\n');
        }
    }
    if ls.len() == 1 {
        assert(joined(ls, seq!['\n']) == a);
        lemma_last_line(a);
        assert(lines(a) =~= ls);
    } else {
        let rest = ls.drop_first();
        assert(ls =~= seq![a] + rest);
        assert forall|k: int| 0 <= k < rest.len() implies (#[trigger] rest[k]).len() > 0 && rest[k].last() != '\r' by {
            assert(rest[k] == ls[k + 1]);
        }
        assert forall|k: int, i: int| 0 <= k < rest.len() && 0 <= i < rest[k].len() implies #[trigger] rest[k][i] != '\n' by {
            assert(rest[k] == ls[k + 1]);
        }
        lemma_lines_of_joined(rest);
        lemma_joined_front(a, rest, seq!['\n']);
        lemma_lines_cons(a, joined(rest, seq!['\n']));
        assert(strip_cr(a) == a);
        assert(lines(joined(ls, seq!['\n'])) =~= ls);
    }
}

/// `s` with every leading copy of the non-empty `p` removed (`trim_start_matches`).
pub open spec fn trim_start_all(s: Seq<char>, p: Seq<char>) -> Seq<char>
    decreases s.len(),
{
    if p.len() > 0 && has_prefix(s, p) {
        trim_start_all(s.subrange(p.len() as int, s.len() as int), p)
    } else {
        s
    }
}

/// `s` with every trailing copy of the non-empty `p` removed (`trim_end_matches`).
pub open spec fn trim_end_all(s: Seq<char>, p: Seq<char>) -> Seq<char>
    decreases s.len(),
{
    if p.len() > 0 && has_suffix(s, p) {
        trim_end_all(s.subrange(0, s.len() - p.len()), p)
    } else {
        s
    }
}

/// `str::trim_start_matches` with a string pattern.
pub fn trim_start_all_exec(s: &[char], p: &[char]) -> (r: Vec<char>)
    ensures
        r@ == trim_start_all(s@, p@),
{
    let mut cur = slice_vec(s, 0, s.len());
    assert(s@.subrange(0, s@.len() as int) =~= s@);
    if p.len() == 0 {
        return cur;
    }
    while starts_with(&cur, p)
        invariant
            p@.len() > 0,
            trim_start_all(cur@, p@) == trim_start_all(s@, p@),
        decreases cur@.len(),
    {
        let n = cur.len();
        cur = slice_vec(&cur, p.len(), n);
    }
    cur
}

/// `str::trim_end_matches` with a string pattern.
pub fn trim_end_all_exec(s: &[char], p: &[char]) -> (r: Vec<char>)
    ensures
        r@ == trim_end_all(s@, p@),
{
    let mut cur = slice_vec(s, 0, s.len());
    assert(s@.subrange(0, s@.len() as int) =~= s@);
    if p.len() == 0 {
        return cur;
    }
    while ends_with(&cur, p)
        invariant
            p@.len() > 0,
            trim_end_all(cur@, p@) == trim_end_all(s@, p@),
        decreases cur@.len(),
    {
        let n = cur.len();
        cur = slice_vec(&cur, 0, n - p.len());
    }
    cur
}

} // verus!
