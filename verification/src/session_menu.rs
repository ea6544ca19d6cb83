//! The options of the session picker: each period (labelled with how long ago
//! it reset) followed by its rolling window, the automatic presets, as many
//! bookmarks as the menu's 25 options leave room for, and, for the owner of
//! the stats, the option that creates a bookmark.
use vstd::prelude::*;
use crate::session::{
    AutoPreset, BookmarkRef, Period, duration_text, escaped, format_duration, last_reset_spec,
    period_key, period_label, period_option_label, period_preset, presets_view, sanitize,
    seconds_since,
};
use crate::text::{chars_of, chars_eq, push_chars, push_str, string_from_chars};

verus! {

/// The most options a select menu holds.
pub const MAX_MENU_OPTIONS: usize = 25;

/// Where an option's description comes from: the stored description under a
/// key, or `No Data` when there is none; the stored description under a key,
/// or none; or a fixed text.
#[derive(Clone, Debug)]
pub enum OptionDescription {
    StoredOrNoData(String),
    Stored(String),
    Fixed(&'static str),
}

/// The abstract content of a description source.
pub enum DescriptionView {
    StoredOrNoData(Seq<char>),
    Stored(Seq<char>),
    Fixed(Seq<char>),
}

impl View for OptionDescription {
    type V = DescriptionView;

    open spec fn view(&self) -> DescriptionView {
        match self {
            OptionDescription::StoredOrNoData(k) => DescriptionView::StoredOrNoData(k@),
            OptionDescription::Stored(k) => DescriptionView::Stored(k@),
            OptionDescription::Fixed(t) => DescriptionView::Fixed(t@),
        }
    }
}

/// One option of the session picker: its label, the value it sends, whether
/// it is shown selected, and its description.
#[derive(Clone, Debug)]
pub struct SessionOption {
    pub label: String,
    pub value: String,
    pub selected: bool,
    pub description: OptionDescription,
}

/// The abstract content of an option.
pub struct OptionView {
    pub label: Seq<char>,
    pub value: Seq<char>,
    pub selected: bool,
    pub description: DescriptionView,
}

impl View for SessionOption {
    type V = OptionView;

    open spec fn view(&self) -> OptionView {
        OptionView { label: self.label@, value: self.value@, selected: self.selected, description: self.description@ }
    }
}

/// The views of a list of options.
pub open spec fn options_view(os: Seq<SessionOption>) -> Seq<OptionView> {
    os.map_values(|o: SessionOption| o@)
}

/// An option's content.
pub open spec fn option(label: Seq<char>, value: Seq<char>, selected: bool, description: DescriptionView) -> OptionView {
    OptionView { label, value, selected, description }
}

/// A period's label at `now`: its name and how long ago it last reset.
pub open spec fn period_label_at(p: Period, now: i64) -> Seq<char> {
    period_label(p) + " ("@ + duration_text(seconds_since(last_reset_spec(p, now)->0, now)) + ")"@
}

/// A period's option and, when it has one, its rolling window's option.
pub open spec fn period_options(p: Period, cache_key: Seq<char>, current: Seq<char>, now: i64) -> Seq<OptionView> {
    seq![option(
        period_label_at(p, now),
        period_key(p) + ":"@ + cache_key,
        current == period_key(p),
        DescriptionView::StoredOrNoData(period_key(p)),
    )] + match period_preset(p) {
        Some((k, l)) => seq![option(l, k + ":"@ + cache_key, current == k, DescriptionView::StoredOrNoData(k))],
        None => Seq::empty(),
    }
}

/// Every period's last reset can be had at `now`.
pub open spec fn resets_known(now: i64) -> bool {
    &&& last_reset_spec(Period::Daily, now) is Some
    &&& last_reset_spec(Period::Weekly, now) is Some
    &&& last_reset_spec(Period::Monthly, now) is Some
    &&& last_reset_spec(Period::Yearly, now) is Some
}

/// The options of the four periods and their windows, in picker order.
pub open spec fn all_period_options(cache_key: Seq<char>, current: Seq<char>, now: i64) -> Seq<OptionView> {
    period_options(Period::Daily, cache_key, current, now) + period_options(Period::Weekly, cache_key, current, now)
        + period_options(Period::Monthly, cache_key, current, now) + period_options(Period::Yearly, cache_key, current, now)
}

/// An automatic preset's option: its label and age, sending
/// `preset:<cache key>:<preset key>`.
pub open spec fn preset_option(p: (Seq<char>, Seq<char>, i64), cache_key: Seq<char>, current: Seq<char>, now: i64) -> OptionView {
    option(
        p.1 + " ("@ + duration_text(seconds_since(p.2, now)) + ")"@,
        "preset:"@ + cache_key + ":"@ + p.0,
        current == "preset:"@ + p.0,
        DescriptionView::Stored("preset:"@ + p.0),
    )
}

/// A bookmark's option: its name, quoted and escaped, and age, sending
/// `marker:<cache key>:<name>`.
pub open spec fn marker_option(name: Seq<char>, at: i64, cache_key: Seq<char>, current: Seq<char>, now: i64) -> OptionView {
    option(
        "\""@ + escaped(name) + "\" ("@ + duration_text(seconds_since(at, now)) + ")"@,
        "marker:"@ + cache_key + ":"@ + name,
        current == "marker:"@ + name,
        DescriptionView::Stored("marker:"@ + name),
    )
}

/// The option that creates a bookmark.
pub open spec fn create_option(cache_key: Seq<char>) -> OptionView {
    option("Create New Bookmark"@, "create:"@ + cache_key, false, DescriptionView::Fixed("Bookmark your current stats"@))
}

/// How many bookmarks the picker shows: as many as the options left over by
/// the periods, their windows, the presets and the create option allow.
pub open spec fn marker_slots(presets: nat, markers: nat, is_owner: bool) -> nat {
    let room = MAX_MENU_OPTIONS - 7 - presets - if is_owner { 1int } else { 0int };
    if markers < room { markers } else { room as nat }
}

/// The picker's options, or `None` where a period's last reset cannot be had.
pub open spec fn session_options_spec(
    cache_key: Seq<char>,
    current: Seq<char>,
    now: i64,
    markers: Seq<BookmarkRef>,
    presets: Seq<(Seq<char>, Seq<char>, i64)>,
    is_owner: bool,
) -> Option<Seq<OptionView>> {
    if !resets_known(now) {
        None
    } else {
        Some(all_period_options(cache_key, current, now)
            + Seq::new(presets.len(), |i: int| preset_option(presets[i], cache_key, current, now))
            + Seq::new(
                marker_slots(presets.len(), markers.len(), is_owner),
                |i: int| marker_option(markers[i].name@, markers[i].snapshot_millis, cache_key, current, now),
            ) + if is_owner { seq![create_option(cache_key)] } else { Seq::empty() })
    }
}

/// Appends an option.
fn push_option(out: &mut Vec<SessionOption>, o: SessionOption)
    ensures
        options_view(final(out)@) == options_view(old(out)@).push(o@),
{
    let ghost v = o@;
    out.push(o);
    assert(options_view(out@) =~= options_view(old(out)@).push(v));
}

/// `a`, `:` and `b` joined.
fn colon_joined(a: &str, b: &str) -> (r: String)
    ensures
        r@ == a@ + ":"@ + b@,
{
    let mut out: Vec<char> = Vec::new();
    push_str(&mut out, a);
    push_str(&mut out, ":");
    push_str(&mut out, b);
    string_from_chars(&out)
}

/// `p`, then `a`, `:` and `b`.
fn prefixed_pair(p: &str, a: &str, b: &str) -> (r: String)
    ensures
        r@ == p@ + a@ + ":"@ + b@,
{
    let mut out: Vec<char> = Vec::new();
    push_str(&mut out, p);
    push_str(&mut out, a);
    push_str(&mut out, ":");
    push_str(&mut out, b);
    string_from_chars(&out)
}

/// `p` followed by `a`.
fn prefixed(p: &str, a: &str) -> (r: String)
    ensures
        r@ == p@ + a@,
{
    let mut out: Vec<char> = Vec::new();
    push_str(&mut out, p);
    push_str(&mut out, a);
    string_from_chars(&out)
}

/// Whether two texts are equal.
fn same_text(a: &str, b: &str) -> (r: bool)
    ensures
        r == (a@ == b@),
{
    chars_eq(&chars_of(a), &chars_of(b))
}

/// The age of an instant at `now`, as the picker writes it.
fn age_text(at: i64, now: i64) -> (r: String)
    ensures
        r@ == duration_text(seconds_since(at, now)),
{
    let secs: i64 = if now >= at { ((now as i128 - at as i128) / 1000) as i64 } else { 0 };
    assert(secs == seconds_since(at, now));
    format_duration(secs)
}

/// Appends a period's options.
fn push_period_options(out: &mut Vec<SessionOption>, p: Period, cache_key: &str, current: &str, now: i64) -> (ok: bool)
    ensures
        ok == (last_reset_spec(p, now) is Some),
        ok ==> options_view(final(out)@) == options_view(old(out)@) + period_options(p, cache_key@, current@, now),
{
    let label = match period_option_label(p, now) {
        Some(l) => l,
        None => return false,
    };
    let key = p.key();
    push_option(out, SessionOption {
        label,
        value: colon_joined(key, cache_key),
        selected: same_text(current, key),
        description: OptionDescription::StoredOrNoData(string_from_chars(&chars_of(key))),
    });
    match p.fixed_preset() {
        Some((fk, fl)) => {
            push_option(out, SessionOption {
                label: string_from_chars(&chars_of(fl)),
                value: colon_joined(fk, cache_key),
                selected: same_text(current, fk),
                description: OptionDescription::StoredOrNoData(string_from_chars(&chars_of(fk))),
            });
        },
        None => {},
    }
    assert(options_view(out@) =~= options_view(old(out)@) + period_options(p, cache_key@, current@, now));
    true
}

/// The options of the session picker for the stats cached under `cache_key`,
/// with `current` the key of the view shown; `None` where a period's last
/// reset cannot be had at `now`.
pub fn plan_session_options(
    cache_key: &str,
    current: &str,
    now: i64,
    markers: &[BookmarkRef],
    presets: &[AutoPreset],
    is_owner: bool,
) -> (r: Option<Vec<SessionOption>>)
    requires
        7 + presets@.len() + (if is_owner { 1int } else { 0int }) <= MAX_MENU_OPTIONS,
    ensures
        match r {
            Some(os) => session_options_spec(cache_key@, current@, now, markers@, presets_view(presets@), is_owner)
                == Some(options_view(os@)),
            None => session_options_spec(cache_key@, current@, now, markers@, presets_view(presets@), is_owner) is None,
        },
{
    let mut out: Vec<SessionOption> = Vec::new();
    if !push_period_options(&mut out, Period::Daily, cache_key, current, now) {
        return None;
    }
    if !push_period_options(&mut out, Period::Weekly, cache_key, current, now) {
        return None;
    }
    if !push_period_options(&mut out, Period::Monthly, cache_key, current, now) {
        return None;
    }
    if !push_period_options(&mut out, Period::Yearly, cache_key, current, now) {
        return None;
    }
    let ghost pv = presets_view(presets@);
    let ghost base = options_view(out@);
    assert(base =~= all_period_options(cache_key@, current@, now));
    let mut i: usize = 0;
    while i < presets.len()
        invariant
            i <= presets@.len(),
            pv == presets_view(presets@),
            options_view(out@) == base + Seq::new(i as nat, |j: int| preset_option(pv[j], cache_key@, current@, now)),
        decreases presets@.len() - i,
    {
        let pr = &presets[i];
        assert(pv[i as int] == (pr.key@, pr.label@, pr.timestamp_millis));
        let mut label: Vec<char> = Vec::new();
        push_str(&mut label, pr.label.as_str());
        push_str(&mut label, " (");
        push_str(&mut label, age_text(pr.timestamp_millis, now).as_str());
        push_str(&mut label, ")");
        let key = prefixed("preset:", pr.key.as_str());
        push_option(&mut out, SessionOption {
            label: string_from_chars(&label),
            value: prefixed_pair("preset:", cache_key, pr.key.as_str()),
            selected: same_text(current, key.as_str()),
            description: OptionDescription::Stored(key),
        });
        assert(Seq::new((i + 1) as nat, |j: int| preset_option(pv[j], cache_key@, current@, now)) =~= Seq::new(
            i as nat,
            |j: int| preset_option(pv[j], cache_key@, current@, now),
        ).push(preset_option(pv[i as int], cache_key@, current@, now)));
        i = i + 1;
    }
    let ghost with_presets = options_view(out@);
    let room: usize = MAX_MENU_OPTIONS - 7 - presets.len() - if is_owner { 1 } else { 0 };
    let shown: usize = if markers.len() < room { markers.len() } else { room };
    assert(shown == marker_slots(presets@.len(), markers@.len(), is_owner));
    let mut k: usize = 0;
    while k < shown
        invariant
            k <= shown,
            shown <= markers@.len(),
            options_view(out@) == with_presets + Seq::new(
                k as nat,
                |j: int| marker_option(markers@[j].name@, markers@[j].snapshot_millis, cache_key@, current@, now),
            ),
        decreases shown - k,
    {
        let m = &markers[k];
        let mut label: Vec<char> = Vec::new();
        push_str(&mut label, "\"");
        push_str(&mut label, sanitize(m.name.as_str()).as_str());
        push_str(&mut label, "\" (");
        push_str(&mut label, age_text(m.snapshot_millis, now).as_str());
        push_str(&mut label, ")");
        let key = prefixed("marker:", m.name.as_str());
        push_option(&mut out, SessionOption {
            label: string_from_chars(&label),
            value: prefixed_pair("marker:", cache_key, m.name.as_str()),
            selected: same_text(current, key.as_str()),
            description: OptionDescription::Stored(key),
        });
        assert(Seq::new((k + 1) as nat, |j: int| marker_option(markers@[j].name@, markers@[j].snapshot_millis, cache_key@, current@, now))
            =~= Seq::new(
            k as nat,
            |j: int| marker_option(markers@[j].name@, markers@[j].snapshot_millis, cache_key@, current@, now),
        ).push(marker_option(markers@[k as int].name@, markers@[k as int].snapshot_millis, cache_key@, current@, now)));
        k = k + 1;
    }
    let ghost with_markers = options_view(out@);
    if is_owner {
        push_option(&mut out, SessionOption {
            label: string_from_chars(&chars_of("Create New Bookmark")),
            value: prefixed("create:", cache_key),
            selected: false,
            description: OptionDescription::Fixed("Bookmark your current stats"),
        });
    }
    assert(options_view(out@) =~= with_markers + if is_owner { seq![create_option(cache_key@)] } else { Seq::<OptionView>::empty() });
    Some(out)
}

} // verus!
