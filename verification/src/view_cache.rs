//! The cached views behind an interactive stats message: which rendered view
//! the person who ran the command is looking at, what a click by them or by
//! someone else does, how bookmarks come and go, and when a cached entry
//! expires.
use vstd::prelude::*;
use crate::text::{chars_eq, chars_of, has_prefix, push_chars, push_str, splitn, splitn_exec, str_eq_chars, strip_prefix, string_from_chars, views};

verus! {

/// How long, in seconds, a cached view lives without being used.
pub const VIEW_TTL_SECS: u64 = 120;

/// What a choice in the session picker asks for.
#[derive(Clone, Debug)]
pub enum SwitchTarget {
    /// Bookmark the current stats of the cached entry.
    Create { cache_key: String },
    /// Show the view with this key of the cached entry.
    View { cache_key: String, view_key: String },
}

/// The abstract content of a picker choice.
pub enum SwitchTargetView {
    Create(Seq<char>),
    View(Seq<char>, Seq<char>),
}

impl View for SwitchTarget {
    type V = SwitchTargetView;

    open spec fn view(&self) -> SwitchTargetView {
        match self {
            SwitchTarget::Create { cache_key } => SwitchTargetView::Create(cache_key@),
            SwitchTarget::View { cache_key, view_key } => SwitchTargetView::View(cache_key@, view_key@),
        }
    }
}

/// The key of the view a picker value selects: a bookmark or an automatic
/// preset carries its name after the cache key, any other selection is the
/// key itself.
pub open spec fn selected_view(selection: Seq<char>, extra: Seq<char>) -> Seq<char> {
    if selection == "marker"@ {
        "marker:"@ + extra
    } else if selection == "preset"@ {
        "preset:"@ + extra
    } else {
        selection
    }
}

/// What a picker value `selection:cache_key[:extra]` asks for; `None` when it
/// has no cache key.
pub open spec fn switch_target(value: Seq<char>) -> Option<SwitchTargetView> {
    let parts = splitn(value, seq![':'], 3);
    if parts.len() < 2 {
        None
    } else if parts[0] == "create"@ {
        Some(SwitchTargetView::Create(parts[1]))
    } else {
        Some(SwitchTargetView::View(parts[1], selected_view(parts[0], if parts.len() > 2 { parts[2] } else { Seq::empty() })))
    }
}

/// Reads a value of the session picker.
pub fn parse_switch_value(value: &str) -> (r: Option<SwitchTarget>)
    ensures
        match r {
            Some(t) => switch_target(value@) == Some(t@),
            None => switch_target(value@) is None,
        },
{
    let parts = splitn_exec(&chars_of(value), &[':'], 3);
    assert(seq![':'] =~= [':']@);
    proof {
        assert(views(parts@).len() == parts@.len());
    }
    if parts.len() < 2 {
        return None;
    }
    assert(views(parts@)[0] == parts@[0]@ && views(parts@)[1] == parts@[1]@);
    let cache_key = string_from_chars(&parts[1]);
    if str_eq_chars("create", &parts[0]) {
        return Some(SwitchTarget::Create { cache_key });
    }
    let mut extra: Vec<char> = Vec::new();
    if parts.len() > 2 {
        assert(views(parts@)[2] == parts@[2]@);
        push_chars(&mut extra, &parts[2]);
    }
    assert(extra@ == (if views(parts@).len() > 2 { views(parts@)[2] } else { Seq::<char>::empty() }));
    let mut key: Vec<char> = Vec::new();
    if str_eq_chars("marker", &parts[0]) {
        push_str(&mut key, "marker:");
        push_chars(&mut key, &extra);
    } else if str_eq_chars("preset", &parts[0]) {
        push_str(&mut key, "preset:");
        push_chars(&mut key, &extra);
    } else {
        push_chars(&mut key, &parts[0]);
    }
    Some(SwitchTarget::View { cache_key, view_key: string_from_chars(&key) })
}

/// The part of a cached stats message that decides what a click shows: who
/// ran the command, the view they are looking at, and the views that have a
/// rendered image (no key twice).
#[derive(Clone, Debug)]
pub struct SessionView {
    pub sender_id: u64,
    pub current_view: String,
    pub rendered: Vec<String>,
}

/// The keys of the rendered views.
pub open spec fn rendered_keys(v: SessionView) -> Seq<Seq<char>> {
    v.rendered@.map_values(|s: String| s@)
}

/// Some rendered view has the key `k`.
pub open spec fn has_view(v: SessionView, k: Seq<char>) -> bool {
    rendered_keys(v).contains(k)
}

/// No rendered key occurs twice.
pub open spec fn keys_distinct(ks: Seq<Seq<char>>) -> bool {
    forall|i: int, j: int| 0 <= i < j < ks.len() ==> ks[i] != ks[j]
}

impl SessionView {
    /// The entry is well formed: each rendered view has one image.
    pub open spec fn wf(self) -> bool {
        keys_distinct(rendered_keys(self))
    }
}

/// The position of the rendered view with key `k`, if there is one.
fn position_of(v: &SessionView, k: &[char]) -> (r: Option<usize>)
    ensures
        match r {
            Some(i) => i < v.rendered@.len() && rendered_keys(*v)[i as int] == k@,
            None => !has_view(*v, k@),
        },
{
    let mut i: usize = 0;
    while i < v.rendered.len()
        invariant
            i <= v.rendered@.len(),
            forall|j: int| 0 <= j < i ==> rendered_keys(*v)[j] != k@,
        decreases v.rendered@.len() - i,
    {
        assert(rendered_keys(*v)[i as int] == v.rendered@[i as int]@);
        if str_eq_chars(v.rendered[i].as_str(), k) {
            return Some(i);
        }
        i = i + 1;
    }
    proof {
        if rendered_keys(*v).contains(k@) {
            let j = choose|j: int| 0 <= j < rendered_keys(*v).len() && rendered_keys(*v)[j] == k@;
            assert(rendered_keys(*v)[j] != k@);
        }
    }
    None
}

/// What a click on the session picker comes to.
#[derive(Clone, Copy, Debug, PartialEq, Eq, Structural)]
pub enum SwitchOutcome {
    /// The entry is gone or out of date; `evict` says whether to drop it now.
    Expired { evict: bool },
    /// Someone other than the sender asked: show them the view on its own.
    Ephemeral,
    /// The sender's message now shows the view.
    Shown,
}

/// A click by `user_id` asking for the view `view_key` of an entry idle for
/// `idle_secs`: an entry idle too long has expired and is dropped; anyone but
/// the sender gets the view on its own, when it is rendered; the sender's
/// message moves to the view, when it is rendered. Only the sender's click on
/// a rendered view changes the entry.
pub fn switch_view(v: &mut SessionView, idle_secs: u64, view_key: &str, user_id: u64) -> (r: SwitchOutcome)
    ensures
        idle_secs > VIEW_TTL_SECS ==> r == (SwitchOutcome::Expired { evict: true }),
        idle_secs <= VIEW_TTL_SECS && old(v).sender_id != user_id ==> r == (if has_view(*old(v), view_key@) {
            SwitchOutcome::Ephemeral
        } else {
            SwitchOutcome::Expired { evict: false }
        }),
        idle_secs <= VIEW_TTL_SECS && old(v).sender_id == user_id ==> r == (if has_view(*old(v), view_key@) {
            SwitchOutcome::Shown
        } else {
            SwitchOutcome::Expired { evict: false }
        }),
        r == SwitchOutcome::Shown ==> final(v).current_view@ == view_key@ && has_view(*final(v), final(v).current_view@),
        r != SwitchOutcome::Shown ==> final(v).current_view@ == old(v).current_view@,
        final(v).sender_id == old(v).sender_id,
        rendered_keys(*final(v)) == rendered_keys(*old(v)),
{
    if idle_secs > VIEW_TTL_SECS {
        return SwitchOutcome::Expired { evict: true };
    }
    let found = position_of(v, &chars_of(view_key));
    if v.sender_id != user_id {
        return match found {
            Some(_) => SwitchOutcome::Ephemeral,
            None => SwitchOutcome::Expired { evict: false },
        };
    }
    match found {
        None => SwitchOutcome::Expired { evict: false },
        Some(_) => {
            v.current_view = string_from_chars(&chars_of(view_key));
            SwitchOutcome::Shown
        },
    }
}

/// Whose click on the mode picker it is.
#[derive(Clone, Copy, Debug, PartialEq, Eq, Structural)]
pub enum ModeOwnership {
    /// The entry has expired.
    Expired,
    /// Someone other than the sender: render the mode for them alone.
    Other,
    /// The sender: switch their message to the mode.
    Sender,
}

/// Who a click on the mode picker comes from, for an entry idle `idle_secs`.
pub fn mode_ownership(idle_secs: u64, sender_id: u64, user_id: u64) -> (r: ModeOwnership)
    ensures
        r == (if idle_secs > VIEW_TTL_SECS {
            ModeOwnership::Expired
        } else if sender_id != user_id {
            ModeOwnership::Other
        } else {
            ModeOwnership::Sender
        }),
{
    if idle_secs > VIEW_TTL_SECS {
        ModeOwnership::Expired
    } else if sender_id != user_id {
        ModeOwnership::Other
    } else {
        ModeOwnership::Sender
    }
}

/// What the expiry watcher of an entry does next.
#[derive(Clone, Copy, Debug, PartialEq, Eq, Structural)]
pub enum ExpiryStep {
    /// Look again after this many seconds.
    Wait(u64),
    /// Drop the entry and freeze its message.
    Expire,
}

/// The next step of the expiry watcher, given how long the entry has been
/// idle (`None` once it is gone): wait out the rest of its lifetime, or
/// expire it.
pub fn expiry_step(idle_secs: Option<u64>) -> (r: ExpiryStep)
    ensures
        r == (match idle_secs {
            Some(e) => if e >= VIEW_TTL_SECS { ExpiryStep::Expire } else { ExpiryStep::Wait((VIEW_TTL_SECS - e) as u64) },
            None => ExpiryStep::Expire,
        }),
{
    match idle_secs {
        Some(e) => if e >= VIEW_TTL_SECS { ExpiryStep::Expire } else { ExpiryStep::Wait(VIEW_TTL_SECS - e) },
        None => ExpiryStep::Expire,
    }
}

/// The bookmark a management button or rename form is about.
#[derive(Clone, Debug)]
pub struct BookmarkTarget {
    pub cache_key: String,
    pub uuid: String,
    pub name: String,
}

/// The pieces `cache_key:uuid:name` of an identifier after its prefix (the
/// whole identifier when the prefix is missing); `None` with fewer than three.
pub open spec fn bookmark_target(custom_id: Seq<char>, prefix: Seq<char>) -> Option<(Seq<char>, Seq<char>, Seq<char>)> {
    let rest = if has_prefix(custom_id, prefix) { custom_id.subrange(prefix.len() as int, custom_id.len() as int) } else { Seq::empty() };
    let parts = splitn(rest, seq![':'], 3);
    if parts.len() < 3 {
        None
    } else {
        Some((parts[0], parts[1], parts[2]))
    }
}

/// Reads the bookmark a button or form identifier with `prefix` is about.
pub fn parse_bookmark_target(custom_id: &str, prefix: &str) -> (r: Option<BookmarkTarget>)
    ensures
        match r {
            Some(t) => bookmark_target(custom_id@, prefix@) == Some((t.cache_key@, t.uuid@, t.name@)),
            None => bookmark_target(custom_id@, prefix@) is None,
        },
{
    let rest = match strip_prefix(&chars_of(custom_id), &chars_of(prefix)) {
        Some(r) => r,
        None => Vec::new(),
    };
    let parts = splitn_exec(&rest, &[':'], 3);
    assert(seq![':'] =~= [':']@);
    assert(views(parts@).len() == parts@.len());
    if parts.len() < 3 {
        return None;
    }
    assert(views(parts@)[0] == parts@[0]@ && views(parts@)[1] == parts@[1]@ && views(parts@)[2] == parts@[2]@);
    Some(BookmarkTarget {
        cache_key: string_from_chars(&parts[0]),
        uuid: string_from_chars(&parts[1]),
        name: string_from_chars(&parts[2]),
    })
}

/// The view key of the bookmark `name`.
pub open spec fn marker_key(name: Seq<char>) -> Seq<char> {
    "marker:"@ + name
}

/// `marker:` followed by `name`.
fn marker_key_exec(name: &str) -> (r: Vec<char>)
    ensures
        r@ == marker_key(name@),
{
    let mut k: Vec<char> = Vec::new();
    push_str(&mut k, "marker:");
    push_str(&mut k, name);
    k
}

/// Adds the key `k` to the rendered views, keeping them distinct.
fn add_rendered(v: &mut SessionView, k: &[char])
    requires
        old(v).wf(),
    ensures
        final(v).wf(),
        forall|x: Seq<char>| has_view(*final(v), x) <==> has_view(*old(v), x) || x == k@,
        final(v).sender_id == old(v).sender_id,
        final(v).current_view == old(v).current_view,
{
    match position_of(v, k) {
        Some(_) => {},
        None => {
            let ghost before = rendered_keys(*v);
            v.rendered.push(string_from_chars(k));
            assert(rendered_keys(*v) =~= before.push(k@));
            assert forall|x: Seq<char>| has_view(*v, x) <==> before.contains(x) || x == k@ by {
                if rendered_keys(*v).contains(x) {
                    let j = choose|j: int| 0 <= j < rendered_keys(*v).len() && rendered_keys(*v)[j] == x;
                    if j < before.len() {
                        assert(before[j] == x);
                    }
                }
                if before.contains(x) {
                    let j = choose|j: int| 0 <= j < before.len() && before[j] == x;
                    assert(rendered_keys(*v)[j] == x);
                }
                if x == k@ {
                    assert(rendered_keys(*v)[before.len() as int] == x);
                }
            }
        },
    }
}

/// Removes the key `k` from the rendered views, if it is there.
fn drop_rendered(v: &mut SessionView, k: &[char])
    requires
        old(v).wf(),
    ensures
        final(v).wf(),
        forall|x: Seq<char>| has_view(*final(v), x) <==> has_view(*old(v), x) && x != k@,
        final(v).sender_id == old(v).sender_id,
        final(v).current_view == old(v).current_view,
{
    match position_of(v, k) {
        None => {},
        Some(i) => {
            let ghost before = rendered_keys(*v);
            v.rendered.remove(i);
            assert(rendered_keys(*v) =~= before.remove(i as int));
            assert forall|x: Seq<char>| has_view(*v, x) <==> before.contains(x) && x != k@ by {
                let after = rendered_keys(*v);
                if after.contains(x) {
                    let j = choose|j: int| 0 <= j < after.len() && after[j] == x;
                    if j < i {
                        assert(before[j] == x);
                        assert(before[i as int] == k@);
                    } else {
                        assert(before[j + 1] == x);
                        assert(before[i as int] == k@);
                    }
                }
                if before.contains(x) && x != k@ {
                    let j = choose|j: int| 0 <= j < before.len() && before[j] == x;
                    if j < i {
                        assert(after[j] == x);
                    } else {
                        assert(j != i);
                        assert(after[j - 1] == x);
                    }
                }
            }
        },
    }
}

/// How a request to create a bookmark starts.
#[derive(Clone, Debug)]
pub enum BookmarkStart {
    /// The member does not own the stats; the reply tells them so.
    NotOwner(&'static str),
    /// The bookmark to save: its name, and the key of its view.
    Create { name: String, key: String },
}

/// Starts a bookmark requested at the instant `now_ms`: a member who does not
/// own the stats is told that only linked accounts can be bookmarked;
/// otherwise the bookmark is named after the day, `Mon D, YYYY`, and its view
/// is keyed `marker:<name>`. `None` where no calendar date holds the instant.
pub fn start_bookmark(now_ms: i64, is_owner: bool) -> (r: Option<BookmarkStart>)
    ensures
        !is_owner ==> (r matches Some(BookmarkStart::NotOwner(t))
            && t@ == "You can only create bookmarks for accounts linked to you."@),
        is_owner ==> match crate::clock::bookmark_date_text(now_ms) {
            Some(d) => (r matches Some(BookmarkStart::Create { name, key }) && name@ == d && key@ == marker_key(d)),
            None => r is None,
        },
{
    let name = crate::clock::bookmark_date_from_millis(now_ms);
    if !is_owner {
        return Some(BookmarkStart::NotOwner("You can only create bookmarks for accounts linked to you."));
    }
    match name {
        Some(n) => {
            let key = marker_key_exec(n.as_str());
            Some(BookmarkStart::Create { name: n, key: string_from_chars(&key) })
        },
        None => None,
    }
}

/// A bookmark `name` was just saved. When a snapshot was found for it, its
/// view is rendered (when the image could be made) and the sender's message
/// moves to it; otherwise the views stay as they are.
pub fn bookmark_created(v: &mut SessionView, name: &str, has_snapshot: bool, image_made: bool, is_sender: bool)
    requires
        old(v).wf(),
    ensures
        final(v).wf(),
        final(v).sender_id == old(v).sender_id,
        forall|x: Seq<char>| has_view(*final(v), x) <==> has_view(*old(v), x) || (has_snapshot && image_made && x == marker_key(name@)),
        final(v).current_view@ == (if has_snapshot && is_sender { marker_key(name@) } else { old(v).current_view@ }),
{
    if has_snapshot {
        let key = marker_key_exec(name);
        if image_made {
            add_rendered(v, &key);
        }
        if is_sender {
            v.current_view = string_from_chars(&key);
        }
    }
}

/// The bookmark `old_name` was renamed to `new_name`: its rendered view, if
/// any, moves to the new key, and the sender's message follows it.
pub fn bookmark_renamed(v: &mut SessionView, old_name: &str, new_name: &str, is_sender: bool)
    requires
        old(v).wf(),
    ensures
        final(v).wf(),
        final(v).sender_id == old(v).sender_id,
        forall|x: Seq<char>| has_view(*final(v), x) <==> (if has_view(*old(v), marker_key(old_name@)) {
            (has_view(*old(v), x) && x != marker_key(old_name@)) || x == marker_key(new_name@)
        } else {
            has_view(*old(v), x)
        }),
        final(v).current_view@ == (if is_sender && old(v).current_view@ == marker_key(old_name@) {
            marker_key(new_name@)
        } else {
            old(v).current_view@
        }),
{
    let old_key = marker_key_exec(old_name);
    let new_key = marker_key_exec(new_name);
    if position_of(v, &old_key).is_some() {
        drop_rendered(v, &old_key);
        add_rendered(v, &new_key);
    }
    if is_sender && str_eq_chars(v.current_view.as_str(), &old_key) {
        v.current_view = string_from_chars(&new_key);
    }
}

/// The first period whose view is rendered, in picker order; `daily` when
/// none is.
pub open spec fn fallback_view(v: SessionView) -> Seq<char> {
    if has_view(v, "daily"@) {
        "daily"@
    } else if has_view(v, "weekly"@) {
        "weekly"@
    } else if has_view(v, "monthly"@) {
        "monthly"@
    } else if has_view(v, "yearly"@) {
        "yearly"@
    } else {
        "daily"@
    }
}

/// The bookmark `name` was deleted: its view is dropped, and a sender who was
/// looking at it goes back to the first rendered period.
pub fn bookmark_deleted(v: &mut SessionView, name: &str, is_sender: bool)
    requires
        old(v).wf(),
    ensures
        final(v).wf(),
        final(v).sender_id == old(v).sender_id,
        forall|x: Seq<char>| has_view(*final(v), x) <==> has_view(*old(v), x) && x != marker_key(name@),
        final(v).current_view@ == (if is_sender && old(v).current_view@ == marker_key(name@) {
            fallback_view(*final(v))
        } else {
            old(v).current_view@
        }),
{
    let key = marker_key_exec(name);
    drop_rendered(v, &key);
    if is_sender && str_eq_chars(v.current_view.as_str(), &key) {
        let next = if position_of(v, &chars_of("daily")).is_some() {
            "daily"
        } else if position_of(v, &chars_of("weekly")).is_some() {
            "weekly"
        } else if position_of(v, &chars_of("monthly")).is_some() {
            "monthly"
        } else if position_of(v, &chars_of("yearly")).is_some() {
            "yearly"
        } else {
            "daily"
        };
        v.current_view = string_from_chars(&chars_of(next));
    }
}

/// A sender who deletes the bookmark they are looking at is moved off it.
pub proof fn lemma_deleted_view_left(v: SessionView, name: Seq<char>)
    ensures
        fallback_view(v) != marker_key(name),
{
    reveal_strlit("marker:");
    reveal_strlit("daily");
    reveal_strlit("weekly");
    reveal_strlit("monthly");
    reveal_strlit("yearly");
    let m = marker_key(name);
    assert(m[0] == 'm');
    assert(m[1] == 'a');
}

} // verus!
