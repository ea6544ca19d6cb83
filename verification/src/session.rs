//! Session views of the stats command: the four reset periods with their keys,
//! labels and last resets, the names shown in the session picker, how an
//! elapsed time is written, the automatic presets found in a player's
//! snapshots, and which views are rendered against which snapshot.
use vstd::prelude::*;
use crate::clock::{date_days_before, date_in_range, days_before, first_weekday, in_dst_window, is_eastern_dst, millis_at, utc_date_from_millis, utc_date_of, utc_millis_at, weekday_from_sunday, weekday_of, MAX_YEAR, MIN_YEAR};
use crate::text::{chars_of, decimal, decimal_exec, has_prefix, push_chars, push_str, str_eq, str_eq_chars, string_from_chars, strip_prefix};

verus! {

/// A stat period that resets on a fixed schedule.
#[derive(Clone, Copy, Debug, PartialEq, Eq, Structural)]
pub enum Period {
    Daily,
    Weekly,
    Monthly,
    Yearly,
}

/// What a rendered session card is labelled with.
#[derive(Clone, Debug)]
pub enum SessionType {
    Daily,
    Weekly,
    Monthly,
    Yearly,
    Custom(String),
}

/// The periods in the order the picker lists them.
pub open spec fn periods() -> Seq<Period> {
    seq![Period::Daily, Period::Weekly, Period::Monthly, Period::Yearly]
}

/// The key that selects a period's view.
pub open spec fn period_key(p: Period) -> Seq<char> {
    match p {
        Period::Daily => "daily"@,
        Period::Weekly => "weekly"@,
        Period::Monthly => "monthly"@,
        Period::Yearly => "yearly"@,
    }
}

/// The label a period is shown under.
pub open spec fn period_label(p: Period) -> Seq<char> {
    match p {
        Period::Daily => "Daily"@,
        Period::Weekly => "Weekly"@,
        Period::Monthly => "Monthly"@,
        Period::Yearly => "Yearly"@,
    }
}

/// The rolling window that comes with a period, as key and label.
pub open spec fn period_preset(p: Period) -> Option<(Seq<char>, Seq<char>)> {
    match p {
        Period::Daily => Some(("past_24h"@, "Past 24 Hours"@)),
        Period::Weekly => Some(("past_7d"@, "Past 7 Days"@)),
        Period::Monthly => Some(("past_30d"@, "Past 30 Days"@)),
        Period::Yearly => None,
    }
}

impl Period {
    /// The span of the period's rolling window, in hours.
    pub fn duration(&self) -> (h: i64)
        ensures
            h == match *self {
                Period::Daily => 24,
                Period::Weekly => 7 * 24,
                Period::Monthly => 30 * 24,
                Period::Yearly => 365 * 24,
            },
    {
        match self {
            Period::Daily => 24,
            Period::Weekly => 7 * 24,
            Period::Monthly => 30 * 24,
            Period::Yearly => 365 * 24,
        }
    }

    /// How old, in hours, a snapshot may be and still stand for the start of
    /// the period.
    pub fn staleness(&self) -> (h: i64)
        ensures
            h == match *self {
                Period::Daily => 1,
                Period::Weekly => 12,
                Period::Monthly => 24,
                Period::Yearly => 7 * 24,
            },
    {
        match self {
            Period::Daily => 1,
            Period::Weekly => 12,
            Period::Monthly => 24,
            Period::Yearly => 7 * 24,
        }
    }

    /// The card label of the period.
    pub fn to_session_type(self) -> (t: SessionType)
        ensures
            t == match self {
                Period::Daily => SessionType::Daily,
                Period::Weekly => SessionType::Weekly,
                Period::Monthly => SessionType::Monthly,
                Period::Yearly => SessionType::Yearly,
            },
    {
        match self {
            Period::Daily => SessionType::Daily,
            Period::Weekly => SessionType::Weekly,
            Period::Monthly => SessionType::Monthly,
            Period::Yearly => SessionType::Yearly,
        }
    }

    /// The key that selects the period's view.
    pub fn key(&self) -> (k: &'static str)
        ensures
            k@ == period_key(*self),
    {
        match self {
            Period::Daily => "daily",
            Period::Weekly => "weekly",
            Period::Monthly => "monthly",
            Period::Yearly => "yearly",
        }
    }

    /// The label the period is shown under.
    pub fn label(&self) -> (l: &'static str)
        ensures
            l@ == period_label(*self),
    {
        match self {
            Period::Daily => "Daily",
            Period::Weekly => "Weekly",
            Period::Monthly => "Monthly",
            Period::Yearly => "Yearly",
        }
    }

    /// The rolling window offered beside the period, as key and label; the
    /// yearly period has none.
    pub fn fixed_preset(&self) -> (r: Option<(&'static str, &'static str)>)
        ensures
            match r {
                Some((k, l)) => period_preset(*self) == Some((k@, l@)),
                None => period_preset(*self) is None,
            },
    {
        match self {
            Period::Daily => Some(("past_24h", "Past 24 Hours")),
            Period::Weekly => Some(("past_7d", "Past 7 Days")),
            Period::Monthly => Some(("past_30d", "Past 30 Days")),
            Period::Yearly => None,
        }
    }
}

/// Every period has its own key and its own label.
pub proof fn lemma_period_keys_distinct(a: Period, b: Period)
    requires
        a != b,
    ensures
        period_key(a) != period_key(b),
        period_label(a) != period_label(b),
{
    reveal_strlit("daily");
    reveal_strlit("weekly");
    reveal_strlit("monthly");
    reveal_strlit("yearly");
    reveal_strlit("Daily");
    reveal_strlit("Weekly");
    reveal_strlit("Monthly");
    reveal_strlit("Yearly");
    assert(period_key(a).len() != period_key(b).len() || period_key(a)[0] != period_key(b)[0]);
    assert(period_label(a).len() != period_label(b).len() || period_label(a)[0] != period_label(b)[0]);
}

/// The period of the first view the stats command shows: the first period,
/// in picker order, whose view was rendered, else the daily one.
pub open spec fn initial_period(rendered: Seq<Seq<char>>) -> Period {
    if rendered.contains(period_key(Period::Daily)) {
        Period::Daily
    } else if rendered.contains(period_key(Period::Weekly)) {
        Period::Weekly
    } else if rendered.contains(period_key(Period::Monthly)) {
        Period::Monthly
    } else if rendered.contains(period_key(Period::Yearly)) {
        Period::Yearly
    } else {
        Period::Daily
    }
}

/// Whether a period's view is among the rendered ones.
fn is_rendered(rendered: &[String], p: Period) -> (r: bool)
    ensures
        r == crate::tags::string_views(rendered@).contains(period_key(p)),
{
    let ghost vs = crate::tags::string_views(rendered@);
    let key = p.key();
    let mut i: usize = 0;
    while i < rendered.len()
        invariant
            i <= rendered@.len(),
            vs == crate::tags::string_views(rendered@),
            key@ == period_key(p),
            forall|j: int| 0 <= j < i ==> vs[j] != period_key(p),
        decreases rendered@.len() - i,
    {
        assert(vs[i as int] == rendered@[i as int]@);
        if str_eq(rendered[i].as_str(), key) {
            assert(vs[i as int] == period_key(p));
            return true;
        }
        i = i + 1;
    }
    false
}

/// The key of the first view the stats command shows, given the keys of the
/// views that were rendered.
pub fn initial_view(rendered: &[String]) -> (r: &'static str)
    ensures
        r@ == period_key(initial_period(crate::tags::string_views(rendered@))),
{
    if is_rendered(rendered, Period::Daily) {
        Period::Daily.key()
    } else if is_rendered(rendered, Period::Weekly) {
        Period::Weekly.key()
    } else if is_rendered(rendered, Period::Monthly) {
        Period::Monthly.key()
    } else if is_rendered(rendered, Period::Yearly) {
        Period::Yearly.key()
    } else {
        Period::Daily.key()
    }
}

/// The characters Discord markdown gives a meaning to.
pub open spec fn is_markdown_char(c: char) -> bool {
    c == '*' || c == '_' || c == '~' || c == '`' || c == '|' || c == '>' || c == '\\' || c == '['
        || c == ']'
}

/// `s` with a backslash put before every markdown character.
pub open spec fn escaped(s: Seq<char>) -> Seq<char>
    decreases s.len(),
{
    if s.len() == 0 {
        s
    } else if is_markdown_char(s.last()) {
        escaped(s.drop_last()).push('\\').push(s.last())
    } else {
        escaped(s.drop_last()).push(s.last())
    }
}

/// Escapes the markdown characters of a bookmark name so it shows as written.
pub fn sanitize(name: &str) -> (r: String)
    ensures
        r@ == escaped(name@),
{
    let cs = chars_of(name);
    let mut out: Vec<char> = Vec::new();
    let mut i: usize = 0;
    assert(cs@.subrange(0, 0) =~= Seq::<char>::empty());
    while i < cs.len()
        invariant
            i <= cs@.len(),
            out@ == escaped(cs@.subrange(0, i as int)),
        decreases cs@.len() - i,
    {
        let c = cs[i];
        assert(cs@.subrange(0, i + 1).drop_last() =~= cs@.subrange(0, i as int));
        if c == '*' || c == '_' || c == '~' || c == '`' || c == '|' || c == '>' || c == '\\' || c
            == '[' || c == ']' {
            out.push('\\');
        }
        out.push(c);
        i = i + 1;
    }
    assert(cs@.subrange(0, cs@.len() as int) =~= cs@);
    string_from_chars(&out)
}

/// The name shown for a view key: a bookmark key `marker:<name>` shows its
/// name, any other key shows as it is.
pub open spec fn display_name(view: Seq<char>) -> Seq<char> {
    if has_prefix(view, "marker:"@) {
        view.subrange(7, view.len() as int)
    } else {
        view
    }
}

/// The name shown for a view key.
pub fn view_display_name(view: &str) -> (r: String)
    ensures
        r@ == display_name(view@),
{
    proof {
        reveal_strlit("marker:");
    }
    let cs = chars_of(view);
    let prefix = chars_of("marker:");
    match strip_prefix(&cs, &prefix) {
        Some(rest) => string_from_chars(&rest),
        None => string_from_chars(&cs),
    }
}

/// How an elapsed time of `secs` seconds is written: whole days from a day on,
/// hours and leftover minutes from an hour on, else minutes, at least one.
pub open spec fn duration_text(secs: int) -> Seq<char> {
    if secs >= 86400 {
        decimal((secs / 86400) as nat).push('d')
    } else if secs >= 3600 {
        let minutes = (secs / 60) % 60;
        if minutes > 0 {
            decimal((secs / 3600) as nat) + seq!['h', ' '] + decimal(minutes as nat).push('m')
        } else {
            decimal((secs / 3600) as nat).push('h')
        }
    } else if secs >= 60 {
        decimal((secs / 60) as nat).push('m')
    } else {
        seq!['1', 'm']
    }
}

/// Writes an elapsed time given in whole seconds, as the session picker shows
/// the age of a view.
pub fn format_duration(secs: i64) -> (r: String)
    ensures
        r@ == duration_text(secs as int),
{
    let mut out: Vec<char> = Vec::new();
    if secs >= 86400 {
        let days = decimal_exec((secs / 86400) as u64);
        push_chars(&mut out, &days);
        out.push('d');
    } else if secs >= 3600 {
        let hours = decimal_exec((secs / 3600) as u64);
        let minutes = (secs / 60) % 60;
        push_chars(&mut out, &hours);
        if minutes > 0 {
            out.push('h');
            out.push(' ');
            let m = decimal_exec(minutes as u64);
            push_chars(&mut out, &m);
            out.push('m');
            assert(out@ =~= decimal((secs / 3600) as nat) + seq!['h', ' '] + decimal(minutes as nat).push('m'));
        } else {
            out.push('h');
        }
    } else if secs >= 60 {
        let minutes = decimal_exec((secs / 60) as u64);
        push_chars(&mut out, &minutes);
        out.push('m');
    } else {
        out.push('1');
        out.push('m');
        assert(out@ =~= seq!['1', 'm']);
    }
    string_from_chars(&out)
}

/// A rolling window that a player's history offers beside the fixed periods.
#[derive(Clone, Debug)]
pub struct AutoPreset {
    pub key: String,
    pub label: String,
    pub timestamp_millis: i64,
}

/// The period whose key is `k`, if any.
pub open spec fn period_keyed(k: Seq<char>) -> Option<Period> {
    if k == period_key(Period::Daily) {
        Some(Period::Daily)
    } else if k == period_key(Period::Weekly) {
        Some(Period::Weekly)
    } else if k == period_key(Period::Monthly) {
        Some(Period::Monthly)
    } else if k == period_key(Period::Yearly) {
        Some(Period::Yearly)
    } else {
        None
    }
}

/// The label of the rolling window whose key is `k`, if any.
pub open spec fn window_label(k: Seq<char>) -> Option<Seq<char>> {
    if k == "past_24h"@ {
        Some("Past 24 Hours"@)
    } else if k == "past_7d"@ {
        Some("Past 7 Days"@)
    } else if k == "past_30d"@ {
        Some("Past 30 Days"@)
    } else {
        None
    }
}

/// The first preset whose view key `preset:<key>` is `current`, from index `i` on.
pub open spec fn preset_for(current: Seq<char>, presets: Seq<AutoPreset>, i: int) -> Option<int>
    decreases presets.len() - i,
{
    if i < 0 || i >= presets.len() {
        None
    } else if "preset:"@ + presets[i].key@ == current {
        Some(i)
    } else {
        preset_for(current, presets, i + 1)
    }
}

/// The placeholder of the session picker for the view `current`: a period's
/// label, a rolling window's label, an automatic preset's label, or the view's
/// display name.
pub open spec fn placeholder_text(current: Seq<char>, presets: Seq<AutoPreset>) -> Seq<char> {
    match period_keyed(current) {
        Some(p) => period_label(p),
        None => match window_label(current) {
            Some(l) => l,
            None => match preset_for(current, presets, 0) {
                Some(i) => presets[i].label@,
                None => display_name(current),
            },
        },
    }
}

/// The placeholder the session picker shows for the view `current`.
pub fn session_placeholder(current: &str, presets: &[AutoPreset]) -> (r: String)
    ensures
        r@ == placeholder_text(current@, presets@),
{
    if str_eq(current, "daily") {
        return string_from_chars(&chars_of("Daily"));
    }
    if str_eq(current, "weekly") {
        return string_from_chars(&chars_of("Weekly"));
    }
    if str_eq(current, "monthly") {
        return string_from_chars(&chars_of("Monthly"));
    }
    if str_eq(current, "yearly") {
        return string_from_chars(&chars_of("Yearly"));
    }
    if str_eq(current, "past_24h") {
        return string_from_chars(&chars_of("Past 24 Hours"));
    }
    if str_eq(current, "past_7d") {
        return string_from_chars(&chars_of("Past 7 Days"));
    }
    if str_eq(current, "past_30d") {
        return string_from_chars(&chars_of("Past 30 Days"));
    }
    let cur = chars_of(current);
    let mut i: usize = 0;
    while i < presets.len()
        invariant
            i <= presets@.len(),
            cur@ == current@,
            period_keyed(current@) is None,
            window_label(current@) is None,
            preset_for(current@, presets@, 0) == preset_for(current@, presets@, i as int),
        decreases presets@.len() - i,
    {
        let mut key: Vec<char> = Vec::new();
        push_str(&mut key, "preset:");
        push_str(&mut key, presets[i].key.as_str());
        if str_eq_chars(current, &key) {
            assert(key@ == "preset:"@ + presets@[i as int].key@);
            return string_from_chars(&chars_of(presets[i].label.as_str()));
        }
        i = i + 1;
    }
    view_display_name(current)
}

/// The day of the week of a date counted from Sunday, or 0 where chrono
/// gives none.
pub open spec fn weekday_or_sunday(d: (i32, u32, u32)) -> u32 {
    match weekday_of(d.0, d.1, d.2) {
        Some(w) => w,
        None => 0,
    }
}

/// The UTC hour at which a period resets on date `d`: 13 while US Eastern
/// daylight saving time holds, 14 otherwise (half past the hour, 9:30 a.m.
/// Eastern either way).
pub open spec fn reset_hour(d: (i32, u32, u32)) -> u32 {
    if in_dst_window(d.1, d.2, first_weekday(d.0, 3), first_weekday(d.0, 11)) { 13 } else { 14 }
}

/// The instant a period resets on date `d`; `None` where the date cannot be
/// had.
pub open spec fn reset_at(d: (i32, u32, u32)) -> Option<i64> {
    if MIN_YEAR <= d.0 <= MAX_YEAR {
        utc_millis_at(d.0, d.1, d.2, reset_hour(d), 30)
    } else {
        None
    }
}

/// The US Eastern standard-time date of the instant `now`, five hours behind
/// UTC.
pub open spec fn eastern_date(now: i64) -> Option<(i32, u32, u32)> {
    if now - 18_000_000 >= i64::MIN {
        utc_date_of((now - 18_000_000) as i64)
    } else {
        None
    }
}

/// The first day of period `p` that contains the Eastern date `d`: the day
/// itself, the Sunday starting its week, the first of its month or of its year.
pub open spec fn period_start(p: Period, d: (i32, u32, u32)) -> Option<(i32, u32, u32)> {
    match p {
        Period::Daily => Some(d),
        Period::Weekly => days_before(d.0, d.1, d.2, weekday_or_sunday(d)),
        Period::Monthly => Some((d.0, d.1, 1)),
        Period::Yearly => Some((d.0, 1, 1)),
    }
}

/// The first day of the period before the one starting on `c`.
pub open spec fn previous_start(p: Period, c: (i32, u32, u32)) -> Option<(i32, u32, u32)> {
    match p {
        Period::Daily => days_before(c.0, c.1, c.2, 1),
        Period::Weekly => days_before(c.0, c.1, c.2, 7),
        Period::Monthly => if c.1 == 1 { Some(((c.0 - 1) as i32, 12, 1)) } else { Some((c.0, (c.1 - 1) as u32, 1)) },
        Period::Yearly => Some(((c.0 - 1) as i32, 1, 1)),
    }
}

/// The last reset of period `p` at or before `now`: the reset of the period
/// holding the Eastern date of `now` if it has passed, else the one before it.
/// `None` where a date of the computation falls outside the calendar.
pub open spec fn last_reset_spec(p: Period, now: i64) -> Option<i64> {
    match eastern_date(now) {
        None => None,
        Some(e) => match period_start(p, e) {
            None => None,
            Some(c) => match reset_at(c) {
                None => None,
                Some(r) => if now >= r {
                    Some(r)
                } else {
                    match previous_start(p, c) {
                        Some(q) => reset_at(q),
                        None => None,
                    }
                },
            },
        },
    }
}

/// The instant period `p` resets on date `d`.
fn reset_at_exec(d: (i32, u32, u32)) -> (r: Option<i64>)
    requires
        1 <= d.1 <= 12,
    ensures
        r == reset_at(d),
        r matches Some(ms) ==> utc_date_of(ms) == Some(d) && ms % 86_400_000 == (if in_dst_window(
            d.1,
            d.2,
            first_weekday(d.0, 3),
            first_weekday(d.0, 11),
        ) {
            48_600_000int
        } else {
            52_200_000int
        }),
{
    if d.0 < MIN_YEAR || d.0 > MAX_YEAR {
        return None;
    }
    let hour: u32 = if is_eastern_dst(d.0, d.1, d.2) { 13 } else { 14 };
    millis_at(d.0, d.1, d.2, hour, 30)
}

/// When period `p` last reset, at or before the instant `now` (milliseconds
/// after the Unix epoch): periods reset at 9:30 a.m. US Eastern time, daily,
/// on Sundays, on the first of the month and on the first of the year.
/// `None` where a date of the computation falls outside the calendar.
///
/// The reset falls, in UTC, on a Sunday for a week, on the first of a month
/// for a month, and on the first of January for a year; and when this week's
/// Sunday reset is still to come, the weekly reset is the one seven days
/// before it.
pub fn last_reset(p: Period, now: i64) -> (r: Option<i64>)
    ensures
        r == last_reset_spec(p, now),
        r matches Some(t) ==> utc_date_of(t) matches Some(d) && (p == Period::Weekly ==> weekday_of(d.0, d.1, d.2)
            == Some(0u32)) && (p == Period::Monthly ==> d.2 == 1) && (p == Period::Yearly ==> d.1 == 1 && d.2 == 1),
        r matches Some(t) ==> (p == Period::Weekly && now >= i64::MIN + 18_000_000 ==> match utc_date_of(
            (now - 18_000_000) as i64,
        ) {
            Some(e) => match days_before(e.0, e.1, e.2, weekday_or_sunday(e)) {
                Some(c) => match reset_at(c) {
                    Some(rc) => now < rc ==> utc_date_of(t) == days_before(c.0, c.1, c.2, 7),
                    None => true,
                },
                None => true,
            },
            None => true,
        }),
        r matches Some(t) ==> utc_date_of(t) matches Some(d) && t % 86_400_000 == (if in_dst_window(
            d.1,
            d.2,
            first_weekday(d.0, 3),
            first_weekday(d.0, 11),
        ) {
            48_600_000int
        } else {
            52_200_000int
        }),
        r matches Some(t) ==> (now >= i64::MIN + 18_000_000 && (utc_date_of((now - 18_000_000) as i64) matches Some(e)
            && (utc_date_of(t) matches Some(d) && match p {
            Period::Daily => d == e || Some(d) == days_before(e.0, e.1, e.2, 1),
            Period::Weekly => Some(d) == days_before(e.0, e.1, e.2, weekday_or_sunday(e)) || match days_before(
                e.0,
                e.1,
                e.2,
                weekday_or_sunday(e),
            ) {
                Some(c) => Some(d) == days_before(c.0, c.1, c.2, 7),
                None => false,
            },
            Period::Monthly => d == (e.0, e.1, 1u32) || d == (if e.1 == 1 { ((e.0 - 1) as i32, 12u32, 1u32) } else { (e.0, (e.1 - 1) as u32, 1u32) }),
            Period::Yearly => d == (e.0, 1u32, 1u32) || d == ((e.0 - 1) as i32, 1u32, 1u32),
        }))),
        r matches Some(t) ==> (utc_date_of((now - 18_000_000) as i64) matches Some(e) && (match p {
            Period::Daily => Some(e),
            Period::Weekly => days_before(e.0, e.1, e.2, weekday_or_sunday(e)),
            Period::Monthly => Some((e.0, e.1, 1u32)),
            Period::Yearly => Some((e.0, 1u32, 1u32)),
        } matches Some(cs) && (reset_at(cs) matches Some(rc) && (now >= rc ==> t == rc) && (now < rc ==> utc_date_of(t)
            == match p {
            Period::Daily => days_before(cs.0, cs.1, cs.2, 1),
            Period::Weekly => days_before(cs.0, cs.1, cs.2, 7),
            Period::Monthly => Some(if cs.1 == 1 { ((cs.0 - 1) as i32, 12u32, 1u32) } else { (cs.0, (cs.1 - 1) as u32, 1u32) }),
            Period::Yearly => Some(((cs.0 - 1) as i32, 1u32, 1u32)),
        })))),
{
    if now < i64::MIN + 18_000_000 {
        return None;
    }
    let e = match utc_date_from_millis(now - 18_000_000) {
        Some(e) => e,
        None => return None,
    };
    let c = match p {
        Period::Daily => e,
        Period::Weekly => {
            let w = match weekday_from_sunday(e.0, e.1, e.2) {
                Some(w) => w,
                None => 0,
            };
            match date_days_before(e.0, e.1, e.2, w) {
                Some(c) => c,
                None => return None,
            }
        },
        Period::Monthly => (e.0, e.1, 1),
        Period::Yearly => (e.0, 1, 1),
    };
    let r = match reset_at_exec(c) {
        Some(r) => r,
        None => return None,
    };
    if now >= r {
        return Some(r);
    }
    let q = match p {
        Period::Daily => match date_days_before(c.0, c.1, c.2, 1) {
            Some(q) => q,
            None => return None,
        },
        Period::Weekly => match date_days_before(c.0, c.1, c.2, 7) {
            Some(q) => q,
            None => return None,
        },
        Period::Monthly => if c.1 == 1 { (c.0 - 1, 12, 1) } else { (c.0, c.1 - 1, 1) },
        Period::Yearly => (c.0 - 1, 1, 1),
    };
    reset_at_exec(q)
}

/// The whole seconds from `from` to `now` (both in milliseconds), zero when
/// `from` is later.
pub open spec fn seconds_since(from: i64, now: i64) -> int {
    if now >= from { (now - from) / 1000 } else { 0 }
}

/// The picker's label of period `p` at the instant `now`: its name and how
/// long ago it reset, as `Weekly (2d)`; `None` where the reset cannot be had.
pub fn period_option_label(p: Period, now: i64) -> (r: Option<String>)
    ensures
        match last_reset_spec(p, now) {
            Some(at) => r matches Some(s) && s@ == period_label(p) + " ("@ + duration_text(seconds_since(at, now)) + ")"@,
            None => r is None,
        },
{
    let at = match last_reset(p, now) {
        Some(at) => at,
        None => return None,
    };
    let secs: i64 = if now >= at { ((now as i128 - at as i128) / 1000) as i64 } else { 0 };
    assert(secs == seconds_since(at, now));
    let mut out: Vec<char> = Vec::new();
    push_str(&mut out, p.label());
    push_str(&mut out, " (");
    push_str(&mut out, format_duration(secs).as_str());
    push_str(&mut out, ")");
    Some(string_from_chars(&out))
}

/// A stored snapshot as the automatic presets read it: when it was taken,
/// the Bed Wars experience and the Bed Wars losses then.
#[derive(Clone, Copy, Debug)]
pub struct SnapshotPoint {
    pub timestamp_millis: i64,
    pub experience: u64,
    pub losses: u64,
}

/// The first snapshot at or after position `i` (and after the first) that
/// crossed the experience `boundary`: the one before it had less, it has at
/// least as much.
pub open spec fn first_crossing(s: Seq<SnapshotPoint>, boundary: u64, i: int) -> Option<int>
    decreases s.len() - i,
{
    if i < 1 || i >= s.len() {
        None
    } else if s[i - 1].experience < boundary && s[i].experience >= boundary {
        Some(i)
    } else {
        first_crossing(s, boundary, i + 1)
    }
}

/// The last snapshot at or before position `k` (and after the first) that
/// recorded a loss: more losses than the one before it.
pub open spec fn last_loss(s: Seq<SnapshotPoint>, k: int) -> Option<int>
    decreases k,
{
    if k < 1 || k >= s.len() {
        None
    } else if s[k].losses > s[k - 1].losses {
        Some(k)
    } else {
        last_loss(s, k - 1)
    }
}

/// The automatic presets of a player at level `level`, from their snapshots in
/// time order, as key, label and time: when they reached their current
/// prestige (from prestige 1 on; `boundary` is the experience of that
/// prestige's first level), and their last loss.
pub open spec fn auto_presets_spec(s: Seq<SnapshotPoint>, level: u64, boundary: u64) -> Seq<(Seq<char>, Seq<char>, i64)> {
    if s.len() == 0 {
        Seq::empty()
    } else {
        let prestige = level / 100;
        let first: Seq<(Seq<char>, Seq<char>, i64)> = if prestige > 0 {
            match first_crossing(s, boundary, 1) {
                Some(i) => seq![("prestige_"@ + decimal(prestige as nat), "Since "@ + decimal((prestige * 100) as nat) + "\u{272B}"@, s[i].timestamp_millis)],
                None => Seq::empty(),
            }
        } else {
            Seq::empty()
        };
        match last_loss(s, s.len() - 1) {
            Some(k) => first.push(("last_loss"@, "Since Last Loss"@, s[k].timestamp_millis)),
            None => first,
        }
    }
}

/// The view of a list of presets.
pub open spec fn presets_view(ps: Seq<AutoPreset>) -> Seq<(Seq<char>, Seq<char>, i64)> {
    ps.map_values(|p: AutoPreset| (p.key@, p.label@, p.timestamp_millis))
}

/// The automatic presets offered beside the fixed periods: since the player
/// reached their current prestige, and since their last loss, each when the
/// snapshots show it.
pub fn detect_auto_presets(snapshots: &[SnapshotPoint], current_level: u64, boundary: u64) -> (r: Vec<AutoPreset>)
    ensures
        presets_view(r@) == auto_presets_spec(snapshots@, current_level, boundary),
{
    let mut presets: Vec<AutoPreset> = Vec::new();
    let n = snapshots.len();
    if n == 0 {
        assert(presets_view(presets@) =~= Seq::<(Seq<char>, Seq<char>, i64)>::empty());
        return presets;
    }
    let prestige = current_level / 100;
    let ghost s = snapshots@;
    if prestige > 0 {
        let mut i: usize = 1;
        let mut found: Option<usize> = None;
        while found.is_none() && i < n
            invariant
                1 <= i <= n,
                n == s.len(),
                s == snapshots@,
                found is None ==> first_crossing(s, boundary, 1) == first_crossing(s, boundary, i as int),
                found matches Some(j) ==> j < n && first_crossing(s, boundary, 1) == Some(j as int),
            decreases n - i,
        {
            if snapshots[i - 1].experience < boundary && snapshots[i].experience >= boundary {
                found = Some(i);
            }
            i = i + 1;
        }
        match found {
            Some(i) => {
                let mut key: Vec<char> = Vec::new();
                push_str(&mut key, "prestige_");
                let d = decimal_exec(prestige);
                push_chars(&mut key, &d);
                let mut label: Vec<char> = Vec::new();
                push_str(&mut label, "Since ");
                let h = decimal_exec(prestige * 100);
                push_chars(&mut label, &h);
                push_str(&mut label, "\u{272B}");
                presets.push(AutoPreset { key: string_from_chars(&key), label: string_from_chars(&label), timestamp_millis: snapshots[i].timestamp_millis });
            },
            None => {},
        }
    }
    let ghost first = presets_view(presets@);
    assert(first == (if prestige > 0 {
        match first_crossing(s, boundary, 1) {
            Some(i) => seq![("prestige_"@ + decimal(prestige as nat), "Since "@ + decimal((prestige * 100) as nat) + "\u{272B}"@, s[i].timestamp_millis)],
            None => Seq::<(Seq<char>, Seq<char>, i64)>::empty(),
        }
    } else {
        Seq::<(Seq<char>, Seq<char>, i64)>::empty()
    }));
    let mut k: usize = n - 1;
    let mut loss: Option<usize> = None;
    while loss.is_none() && k >= 1
        invariant
            k < n,
            n == s.len(),
            s == snapshots@,
            loss is None ==> last_loss(s, s.len() - 1) == last_loss(s, k as int),
            loss matches Some(j) ==> j < n && last_loss(s, s.len() - 1) == Some(j as int),
        decreases k,
    {
        if snapshots[k].losses > snapshots[k - 1].losses {
            loss = Some(k);
        }
        k = k - 1;
    }
    match loss {
        Some(k) => {
            presets.push(AutoPreset {
                key: string_from_chars(&chars_of("last_loss")),
                label: string_from_chars(&chars_of("Since Last Loss")),
                timestamp_millis: snapshots[k].timestamp_millis,
            });
            assert(presets_view(presets@) =~= first.push(("last_loss"@, "Since Last Loss"@, s[k as int].timestamp_millis)));
        },
        None => {},
    }
    presets
}

/// `first_crossing` from `i` finds the crossing at `k` when none lies
/// between `i` and `k`.
proof fn lemma_first_crossing_finds(s: Seq<SnapshotPoint>, boundary: u64, i: int, k: int)
    requires
        1 <= i <= k < s.len(),
        s[k - 1].experience < boundary && s[k].experience >= boundary,
        forall|j: int| i <= j < k ==> !(s[j - 1].experience < boundary && #[trigger] s[j].experience >= boundary),
    ensures
        first_crossing(s, boundary, i) == Some(k),
    decreases k - i,
{
    if i < k {
        lemma_first_crossing_finds(s, boundary, i + 1, k);
    }
}

/// What `first_crossing` finds is a crossing.
proof fn lemma_first_crossing_is_crossing(s: Seq<SnapshotPoint>, boundary: u64, i: int)
    ensures
        first_crossing(s, boundary, i) matches Some(k) ==> 1 <= k < s.len() && s[k - 1].experience < boundary
            && s[k].experience >= boundary,
    decreases s.len() - i,
{
    if 1 <= i < s.len() && !(s[i - 1].experience < boundary && s[i].experience >= boundary) {
        lemma_first_crossing_is_crossing(s, boundary, i + 1);
    }
}

/// `last_loss` from `k` finds the loss at `m` when none lies after `m` up to `k`.
proof fn lemma_last_loss_finds(s: Seq<SnapshotPoint>, k: int, m: int)
    requires
        1 <= m <= k < s.len(),
        s[m].losses > s[m - 1].losses,
        forall|j: int| m < j <= k ==> #[trigger] s[j].losses <= s[j - 1].losses,
    ensures
        last_loss(s, k) == Some(m),
    decreases k - m,
{
    if m < k {
        lemma_last_loss_finds(s, k - 1, m);
    }
}

/// What `last_loss` finds is a loss.
proof fn lemma_last_loss_is_loss(s: Seq<SnapshotPoint>, k: int)
    ensures
        last_loss(s, k) matches Some(m) ==> 1 <= m < s.len() && s[m].losses > s[m - 1].losses,
    decreases k,
{
    if 1 <= k < s.len() && !(s[k].losses > s[k - 1].losses) {
        lemma_last_loss_is_loss(s, k - 1);
    }
}

/// When the player has a prestige and some snapshot `k` (after the first)
/// crossed the boundary, having at least the boundary experience while the one
/// before had less, and none before it did, the first preset is the prestige
/// preset, at the time of snapshot `k`.
pub proof fn lemma_prestige_preset_at_first_crossing(s: Seq<SnapshotPoint>, level: u64, boundary: u64, k: int)
    requires
        level / 100 > 0,
        1 <= k < s.len(),
        s[k - 1].experience < boundary && s[k].experience >= boundary,
        forall|j: int| 1 <= j < k ==> !(s[j - 1].experience < boundary && #[trigger] s[j].experience >= boundary),
    ensures
        auto_presets_spec(s, level, boundary).len() >= 1,
        auto_presets_spec(s, level, boundary)[0] == (
            "prestige_"@ + decimal((level / 100) as nat),
            "Since "@ + decimal(((level / 100) * 100) as nat) + "\u{272B}"@,
            s[k].timestamp_millis,
        ),
{
    lemma_first_crossing_finds(s, boundary, 1, k);
}

/// Without a prestige, or when no snapshot after the first crossed the
/// boundary, there is no prestige preset: at most the last-loss preset.
pub proof fn lemma_no_prestige_preset_without_crossing(s: Seq<SnapshotPoint>, level: u64, boundary: u64)
    requires
        level / 100 == 0 || forall|j: int| 1 <= j < s.len() ==> !(s[j - 1].experience < boundary
            && #[trigger] s[j].experience >= boundary),
    ensures
        auto_presets_spec(s, level, boundary).len() <= 1,
        forall|i: int| 0 <= i < auto_presets_spec(s, level, boundary).len() ==> (#[trigger] auto_presets_spec(s, level, boundary)[i]).0 == "last_loss"@,
{
    lemma_first_crossing_is_crossing(s, boundary, 1);
}

/// When some snapshot `m` (after the first) recorded a loss, more losses than
/// the one before, and no later one did, the last preset is the last-loss
/// preset, at the time of snapshot `m`; when no snapshot recorded a loss there
/// is no last-loss preset.
pub proof fn lemma_last_loss_preset(s: Seq<SnapshotPoint>, level: u64, boundary: u64, m: int)
    ensures
        1 <= m < s.len() && s[m].losses > s[m - 1].losses && (forall|j: int| m < j < s.len() ==> #[trigger] s[j].losses
            <= s[j - 1].losses) ==> auto_presets_spec(s, level, boundary).len() >= 1 && auto_presets_spec(
            s,
            level,
            boundary,
        ).last() == ("last_loss"@, "Since Last Loss"@, s[m].timestamp_millis),
        (forall|j: int| 1 <= j < s.len() ==> #[trigger] s[j].losses <= s[j - 1].losses) ==> forall|i: int|
            0 <= i < auto_presets_spec(s, level, boundary).len() ==> (#[trigger] auto_presets_spec(s, level, boundary)[i]).0
                != "last_loss"@ && auto_presets_spec(s, level, boundary).len() <= 1,
{
    reveal_strlit("last_loss");
    reveal_strlit("prestige_");
    if 1 <= m < s.len() && s[m].losses > s[m - 1].losses && (forall|j: int| m < j < s.len() ==> #[trigger] s[j].losses
        <= s[j - 1].losses) {
        lemma_last_loss_finds(s, s.len() - 1, m);
    }
    lemma_last_loss_is_loss(s, s.len() - 1);
    if s.len() > 0 {
        let pk: Seq<char> = "prestige_"@ + decimal((level / 100) as nat);
        assert(pk[0] == 'p');
        assert("last_loss"@[0] == 'l');
    }
}

/// There is one preset for the prestige, when the player has one and some
/// snapshot after the first crossed the boundary, and one for the last loss,
/// when some snapshot after the first recorded a loss; nothing else.
pub proof fn lemma_auto_presets_count(s: Seq<SnapshotPoint>, level: u64, boundary: u64)
    ensures
        auto_presets_spec(s, level, boundary).len() == (if level / 100 > 0 && exists|k: int|
            1 <= k < s.len() && s[k - 1].experience < boundary && #[trigger] s[k].experience >= boundary {
            1int
        } else {
            0int
        }) + (if exists|k: int| 1 <= k < s.len() && #[trigger] s[k].losses > s[k - 1].losses {
            1int
        } else {
            0int
        }),
{
    lemma_first_crossing_is_crossing(s, boundary, 1);
    lemma_last_loss_is_loss(s, s.len() - 1);
    if exists|k: int| 1 <= k < s.len() && s[k - 1].experience < boundary && #[trigger] s[k].experience >= boundary {
        let k = choose|k: int| 1 <= k < s.len() && s[k - 1].experience < boundary && #[trigger] s[k].experience >= boundary;
        lemma_crossing_found(s, boundary, 1, k);
    }
    if exists|k: int| 1 <= k < s.len() && #[trigger] s[k].losses > s[k - 1].losses {
        let k = choose|k: int| 1 <= k < s.len() && #[trigger] s[k].losses > s[k - 1].losses;
        lemma_loss_found(s, s.len() - 1, k);
    }
}

/// `first_crossing` from `i` finds some crossing when there is one at `k`
/// at or after `i`.
proof fn lemma_crossing_found(s: Seq<SnapshotPoint>, boundary: u64, i: int, k: int)
    requires
        1 <= i <= k < s.len(),
        s[k - 1].experience < boundary && s[k].experience >= boundary,
    ensures
        first_crossing(s, boundary, i) is Some,
    decreases k - i,
{
    if i < k && !(s[i - 1].experience < boundary && s[i].experience >= boundary) {
        lemma_crossing_found(s, boundary, i + 1, k);
    }
}

/// `last_loss` from `k` finds some loss when there is one at `m` at or
/// before `k`.
proof fn lemma_loss_found(s: Seq<SnapshotPoint>, k: int, m: int)
    requires
        1 <= m <= k < s.len(),
        s[m].losses > s[m - 1].losses,
    ensures
        last_loss(s, k) is Some,
    decreases k - m,
{
    if m < k && !(s[k].losses > s[k - 1].losses) {
        lemma_loss_found(s, k - 1, m);
    }
}

/// A stored snapshot offered for a view: when it was taken, and whether its
/// stats could be read.
#[derive(Clone, Copy, Debug)]
pub struct SnapshotRef {
    pub timestamp_millis: i64,
    pub readable: bool,
}

/// A bookmark as the session views use it: its name and the time of its
/// snapshot.
#[derive(Clone, Debug)]
pub struct BookmarkRef {
    pub name: String,
    pub snapshot_millis: i64,
}

/// What a session view compares the current stats against.
#[derive(Clone, Copy, Debug, PartialEq, Eq, Structural)]
pub enum ViewKind {
    /// The start of a period.
    Period(Period),
    /// The rolling window of a period.
    Window(Period),
    /// The bookmark at this position.
    Bookmark(usize),
    /// The automatic preset at this position.
    Preset(usize),
}

/// A view to render: what it compares against, its key, the time it starts
/// from, and the position of its snapshot.
#[derive(Clone, Debug)]
pub struct ViewPlan {
    pub kind: ViewKind,
    pub key: String,
    pub target_millis: i64,
    pub snapshot: usize,
}

/// The periods that have a rolling window, in picker order.
pub open spec fn window_periods() -> Seq<Period> {
    seq![Period::Daily, Period::Weekly, Period::Monthly]
}

/// The key of a period's rolling window.
pub open spec fn window_key(p: Period) -> Seq<char> {
    match period_preset(p) {
        Some((k, _)) => k,
        None => Seq::empty(),
    }
}

/// Hours in milliseconds.
pub open spec fn hours_ms(h: int) -> int {
    h * 3_600_000
}

/// The staleness allowed a period's snapshot, in hours.
pub open spec fn staleness_hours(p: Period) -> int {
    match p {
        Period::Daily => 1,
        Period::Weekly => 12,
        Period::Monthly => 24,
        Period::Yearly => 168,
    }
}

/// The span of a period's rolling window, in hours.
pub open spec fn duration_hours(p: Period) -> int {
    match p {
        Period::Daily => 24,
        Period::Weekly => 168,
        Period::Monthly => 720,
        Period::Yearly => 8760,
    }
}

/// The snapshot offered at position `i`, when there is one.
pub open spec fn snapshot_at(snaps: Seq<Option<SnapshotRef>>, i: int) -> Option<SnapshotRef> {
    if 0 <= i < snaps.len() { snaps[i] } else { None }
}

/// The view the snapshot at position `i` gives, if any. The snapshots come in
/// order: one per period (used when read and taken no earlier than the
/// period's last reset less its staleness), one per rolling window, one per
/// bookmark, one per automatic preset.
pub open spec fn slot_view(
    now: i64,
    snaps: Seq<Option<SnapshotRef>>,
    marks: Seq<BookmarkRef>,
    presets: Seq<AutoPreset>,
    i: int,
) -> Option<(ViewKind, Seq<char>, i64)> {
    match snapshot_at(snaps, i) {
        None => None,
        Some(snap) => if !snap.readable {
            None
        } else if 0 <= i < 4 {
            let p = periods()[i];
            match last_reset_spec(p, now) {
                Some(t) => if snap.timestamp_millis >= t - hours_ms(staleness_hours(p)) {
                    Some((ViewKind::Period(p), period_key(p), t))
                } else {
                    None
                },
                None => None,
            }
        } else if 4 <= i < 7 {
            let p = window_periods()[i - 4];
            let t = now - hours_ms(duration_hours(p));
            if t >= i64::MIN {
                Some((ViewKind::Window(p), window_key(p), t as i64))
            } else {
                None
            }
        } else if 7 <= i < 7 + marks.len() {
            let j = i - 7;
            Some((ViewKind::Bookmark(j as usize), "marker:"@ + marks[j].name@, marks[j].snapshot_millis))
        } else if 7 + marks.len() <= i < 7 + marks.len() + presets.len() {
            let j = i - 7 - marks.len();
            Some((ViewKind::Preset(j as usize), "preset:"@ + presets[j].key@, presets[j].timestamp_millis))
        } else {
            None
        }
    }
}

/// The views given by the first `n` positions, in order, each with its
/// position.
pub open spec fn views_upto(
    now: i64,
    snaps: Seq<Option<SnapshotRef>>,
    marks: Seq<BookmarkRef>,
    presets: Seq<AutoPreset>,
    n: int,
) -> Seq<(ViewKind, Seq<char>, i64, int)>
    decreases n,
{
    if n <= 0 {
        Seq::empty()
    } else {
        let before = views_upto(now, snaps, marks, presets, n - 1);
        match slot_view(now, snaps, marks, presets, n - 1) {
            Some(v) => before.push((v.0, v.1, v.2, n - 1)),
            None => before,
        }
    }
}

/// The view of a list of planned views.
pub open spec fn plans_view(v: Seq<ViewPlan>) -> Seq<(ViewKind, Seq<char>, i64, int)> {
    v.map_values(|p: ViewPlan| (p.kind, p.key@, p.target_millis, p.snapshot as int))
}

/// Position `i` of the snapshots offers a view: its snapshot was read, and
/// for a period (positions 0 to 3: day, week, month, year) the period's last
/// reset is known and the snapshot is no older than that reset less one hour,
/// twelve hours, a day or a week; for a rolling window (positions 4 to 6: 24
/// hours, 7 days, 30 days) its start is a representable instant; bookmarks
/// (from position 7) and presets (after the bookmarks) always.
pub open spec fn position_offers_view(
    now: i64,
    snaps: Seq<Option<SnapshotRef>>,
    marks: Seq<BookmarkRef>,
    presets: Seq<AutoPreset>,
    i: int,
) -> bool {
    &&& 0 <= i < snaps.len()
    &&& snaps[i] matches Some(sn) && sn.readable && {
        ||| (i == 0 && (last_reset_spec(Period::Daily, now) matches Some(t) && sn.timestamp_millis >= t - 3_600_000))
        ||| (i == 1 && (last_reset_spec(Period::Weekly, now) matches Some(t) && sn.timestamp_millis >= t - 43_200_000))
        ||| (i == 2 && (last_reset_spec(Period::Monthly, now) matches Some(t) && sn.timestamp_millis >= t - 86_400_000))
        ||| (i == 3 && (last_reset_spec(Period::Yearly, now) matches Some(t) && sn.timestamp_millis >= t - 604_800_000))
        ||| (i == 4 && now - 86_400_000 >= i64::MIN)
        ||| (i == 5 && now - 604_800_000 >= i64::MIN)
        ||| (i == 6 && now - 2_592_000_000 >= i64::MIN)
        ||| (7 <= i < 7 + marks.len() + presets.len())
    }
}

/// The view one position gives stands on a readable snapshot at that
/// position, with the start the whole plan's law gives it.
proof fn lemma_slot_view_sound(
    now: i64,
    snaps: Seq<Option<SnapshotRef>>,
    marks: Seq<BookmarkRef>,
    presets: Seq<AutoPreset>,
    i: int,
)
    requires
        7 + marks.len() + presets.len() <= usize::MAX,
    ensures
        slot_view(now, snaps, marks, presets, i) matches Some(v) ==> {
            &&& 0 <= i < snaps.len()
            &&& snaps[i] matches Some(sn) && sn.readable
            &&& (v.0 matches ViewKind::Period(p) ==> {
                &&& last_reset_spec(p, now) == Some(v.2)
                &&& snaps[i] matches Some(sn) && sn.timestamp_millis >= v.2 - match p {
                    Period::Daily => 3_600_000int,
                    Period::Weekly => 43_200_000int,
                    Period::Monthly => 86_400_000int,
                    Period::Yearly => 604_800_000int,
                }
            })
            &&& (v.0 matches ViewKind::Window(p) ==> v.2 == now - match p {
                Period::Daily => 86_400_000int,
                Period::Weekly => 604_800_000int,
                Period::Monthly => 2_592_000_000int,
                Period::Yearly => 31_536_000_000int,
            })
            &&& (v.0 matches ViewKind::Bookmark(j) ==> i == 7 + j && j < marks.len() && v.2 == marks[j as int].snapshot_millis
                && v.1 == "marker:"@ + marks[j as int].name@)
            &&& (v.0 matches ViewKind::Preset(j) ==> i == 7 + marks.len() + j && j < presets.len() && v.2
                == presets[j as int].timestamp_millis && v.1 == "preset:"@ + presets[j as int].key@)
            &&& (v.0 == ViewKind::Period(Period::Daily) <==> i == 0) && (i == 0 ==> v.1 == "daily"@)
            &&& (v.0 == ViewKind::Period(Period::Weekly) <==> i == 1) && (i == 1 ==> v.1 == "weekly"@)
            &&& (v.0 == ViewKind::Period(Period::Monthly) <==> i == 2) && (i == 2 ==> v.1 == "monthly"@)
            &&& (v.0 == ViewKind::Period(Period::Yearly) <==> i == 3) && (i == 3 ==> v.1 == "yearly"@)
            &&& (v.0 == ViewKind::Window(Period::Daily) <==> i == 4) && (i == 4 ==> v.1 == "past_24h"@)
            &&& (v.0 == ViewKind::Window(Period::Weekly) <==> i == 5) && (i == 5 ==> v.1 == "past_7d"@)
            &&& (v.0 == ViewKind::Window(Period::Monthly) <==> i == 6) && (i == 6 ==> v.1 == "past_30d"@)
            &&& v.0 != ViewKind::Window(Period::Yearly)
        },
        position_offers_view(now, snaps, marks, presets, i) ==> slot_view(now, snaps, marks, presets, i) is Some,
{
    if 0 <= i < 4 {
        assert(periods()[0] == Period::Daily);
        assert(periods()[1] == Period::Weekly);
        assert(periods()[2] == Period::Monthly);
        assert(periods()[3] == Period::Yearly);
    }
    if 4 <= i < 7 {
        assert(window_periods()[0] == Period::Daily);
        assert(window_periods()[1] == Period::Weekly);
        assert(window_periods()[2] == Period::Monthly);
    }
}

/// Every planned view stands on a readable snapshot at its own position. A
/// period's view starts at the period's last reset and uses its snapshot only
/// when that snapshot was taken no earlier than the reset less the period's
/// staleness: one hour for a day, twelve for a week, a day for a month and a
/// week for a year. A rolling window starts 24 hours, 7 days or 30 days
/// before now; a bookmark or preset view starts at its own time.
pub proof fn lemma_session_views_sound(
    now: i64,
    snaps: Seq<Option<SnapshotRef>>,
    marks: Seq<BookmarkRef>,
    presets: Seq<AutoPreset>,
    n: int,
)
    requires
        7 + marks.len() + presets.len() <= usize::MAX,
    ensures
        forall|x: int| #![trigger views_upto(now, snaps, marks, presets, n)[x]]
            0 <= x < views_upto(now, snaps, marks, presets, n).len() ==> {
            let v = views_upto(now, snaps, marks, presets, n)[x];
            &&& 0 <= v.3 < n && v.3 < snaps.len()
            &&& snaps[v.3] matches Some(sn) && sn.readable
            &&& (v.0 matches ViewKind::Period(p) ==> {
                &&& last_reset_spec(p, now) == Some(v.2)
                &&& snaps[v.3] matches Some(sn) && sn.timestamp_millis >= v.2 - match p {
                    Period::Daily => 3_600_000int,
                    Period::Weekly => 43_200_000int,
                    Period::Monthly => 86_400_000int,
                    Period::Yearly => 604_800_000int,
                }
            })
            &&& (v.0 matches ViewKind::Window(p) ==> v.2 == now - match p {
                Period::Daily => 86_400_000int,
                Period::Weekly => 604_800_000int,
                Period::Monthly => 2_592_000_000int,
                Period::Yearly => 31_536_000_000int,
            })
            &&& (v.0 matches ViewKind::Bookmark(j) ==> v.3 == 7 + j && j < marks.len() && v.2 == marks[j as int].snapshot_millis
                && v.1 == "marker:"@ + marks[j as int].name@)
            &&& (v.0 matches ViewKind::Preset(j) ==> v.3 == 7 + marks.len() + j && j < presets.len() && v.2
                == presets[j as int].timestamp_millis && v.1 == "preset:"@ + presets[j as int].key@)
            &&& (v.0 == ViewKind::Period(Period::Daily) <==> v.3 == 0) && (v.3 == 0 ==> v.1 == "daily"@)
            &&& (v.0 == ViewKind::Period(Period::Weekly) <==> v.3 == 1) && (v.3 == 1 ==> v.1 == "weekly"@)
            &&& (v.0 == ViewKind::Period(Period::Monthly) <==> v.3 == 2) && (v.3 == 2 ==> v.1 == "monthly"@)
            &&& (v.0 == ViewKind::Period(Period::Yearly) <==> v.3 == 3) && (v.3 == 3 ==> v.1 == "yearly"@)
            &&& (v.0 == ViewKind::Window(Period::Daily) <==> v.3 == 4) && (v.3 == 4 ==> v.1 == "past_24h"@)
            &&& (v.0 == ViewKind::Window(Period::Weekly) <==> v.3 == 5) && (v.3 == 5 ==> v.1 == "past_7d"@)
            &&& (v.0 == ViewKind::Window(Period::Monthly) <==> v.3 == 6) && (v.3 == 6 ==> v.1 == "past_30d"@)
            &&& v.0 != ViewKind::Window(Period::Yearly)
        },
        forall|x: int, y: int|
            0 <= x < y < views_upto(now, snaps, marks, presets, n).len() ==> (#[trigger] views_upto(now, snaps, marks, presets, n)[x]).3
                < (#[trigger] views_upto(now, snaps, marks, presets, n)[y]).3,
        forall|i: int|
            0 <= i < n && #[trigger] position_offers_view(now, snaps, marks, presets, i) ==> exists|x: int|
                0 <= x < views_upto(now, snaps, marks, presets, n).len() && (#[trigger] views_upto(now, snaps, marks, presets, n)[x]).3 == i,
    decreases n,
{
    if n > 0 {
        lemma_session_views_sound(now, snaps, marks, presets, n - 1);
        let before = views_upto(now, snaps, marks, presets, n - 1);
        let all = views_upto(now, snaps, marks, presets, n);
        lemma_slot_view_sound(now, snaps, marks, presets, n - 1);
        assert forall|x: int| 0 <= x < before.len() implies #[trigger] all[x] == before[x] by {}
        assert forall|i: int|
            0 <= i < n && #[trigger] position_offers_view(now, snaps, marks, presets, i) implies exists|x: int|
                0 <= x < all.len() && (#[trigger] all[x]).3 == i by {
            if i < n - 1 {
                let x = choose|x: int| 0 <= x < before.len() && (#[trigger] before[x]).3 == i;
                assert(all[x] == before[x]);
            } else {
                assert(all[all.len() - 1].3 == n - 1);
            }
        }
    }
}

/// The view the snapshot at position `i` gives, if any.
fn slot_view_exec(now: i64, snaps: &[Option<SnapshotRef>], marks: &[BookmarkRef], presets: &[AutoPreset], i: usize) -> (r: Option<(ViewKind, Vec<char>, i64)>)
    requires
        i < 7 + marks@.len() + presets@.len(),
        7 + marks@.len() + presets@.len() <= usize::MAX,
    ensures
        match r {
            Some(v) => slot_view(now, snaps@, marks@, presets@, i as int) == Some((v.0, v.1@, v.2)),
            None => slot_view(now, snaps@, marks@, presets@, i as int) is None,
        },
{
    let snap = if i < snaps.len() {
        match snaps[i] {
            Some(s) => s,
            None => return None,
        }
    } else {
        return None;
    };
    if !snap.readable {
        return None;
    }
    if i < 4 {
        let p = if i == 0 { Period::Daily } else if i == 1 { Period::Weekly } else if i == 2 { Period::Monthly } else { Period::Yearly };
        assert(p == periods()[i as int]);
        let t = match last_reset(p, now) {
            Some(t) => t,
            None => return None,
        };
        let cutoff: i128 = t as i128 - (p.staleness() as i128) * 3_600_000;
        if (snap.timestamp_millis as i128) >= cutoff {
            return Some((ViewKind::Period(p), chars_of(p.key()), t));
        }
        return None;
    }
    if i < 7 {
        let p = if i == 4 { Period::Daily } else if i == 5 { Period::Weekly } else { Period::Monthly };
        assert(p == window_periods()[i - 4]);
        let t: i128 = now as i128 - (p.duration() as i128) * 3_600_000;
        if t < i64::MIN as i128 {
            return None;
        }
        let key = match p.fixed_preset() {
            Some((k, _)) => chars_of(k),
            None => Vec::new(),
        };
        return Some((ViewKind::Window(p), key, t as i64));
    }
    if i < 7 + marks.len() {
        let j = i - 7;
        let mut key: Vec<char> = Vec::new();
        push_str(&mut key, "marker:");
        push_str(&mut key, marks[j].name.as_str());
        return Some((ViewKind::Bookmark(j), key, marks[j].snapshot_millis));
    }
    let j = i - 7 - marks.len();
    let mut key: Vec<char> = Vec::new();
    push_str(&mut key, "preset:");
    push_str(&mut key, presets[j].key.as_str());
    Some((ViewKind::Preset(j), key, presets[j].timestamp_millis))
}

/// Which session views to render and what each compares against, from the
/// snapshots offered in order (one per period, per rolling window, per
/// bookmark and per automatic preset; `None` where none was found) at the
/// instant `now`.
pub fn plan_session_views(now: i64, snaps: &[Option<SnapshotRef>], marks: &[BookmarkRef], presets: &[AutoPreset]) -> (r: Vec<ViewPlan>)
    requires
        7 + marks@.len() + presets@.len() <= usize::MAX,
    ensures
        plans_view(r@) == views_upto(now, snaps@, marks@, presets@, (7 + marks@.len() + presets@.len()) as int),
{
    let total = 7 + marks.len() + presets.len();
    let mut r: Vec<ViewPlan> = Vec::new();
    let mut i: usize = 0;
    assert(plans_view(r@) =~= Seq::<(ViewKind, Seq<char>, i64, int)>::empty());
    while i < total
        invariant
            i <= total,
            total == 7 + marks@.len() + presets@.len(),
            plans_view(r@) == views_upto(now, snaps@, marks@, presets@, i as int),
        decreases total - i,
    {
        let ghost before = plans_view(r@);
        match slot_view_exec(now, snaps, marks, presets, i) {
            Some((kind, key, target)) => {
                let p = ViewPlan { kind, key: string_from_chars(&key), target_millis: target, snapshot: i };
                r.push(p);
                assert(plans_view(r@) =~= before.push((kind, key@, target, i as int)));
            },
            None => {},
        }
        i = i + 1;
    }
    r
}

/// The time the snapshot at position `i` is asked for: the last reset of each
/// period, the start of each rolling window, each bookmark's time, each
/// automatic preset's time (`None` where that time falls outside the
/// calendar).
pub open spec fn slot_time(now: i64, marks: Seq<BookmarkRef>, presets: Seq<AutoPreset>, i: int) -> Option<i64> {
    if 0 <= i < 4 {
        last_reset_spec(periods()[i], now)
    } else if 4 <= i < 7 {
        let t = now - hours_ms(duration_hours(window_periods()[i - 4]));
        if t >= i64::MIN { Some(t as i64) } else { None }
    } else if 7 <= i < 7 + marks.len() {
        Some(marks[i - 7].snapshot_millis)
    } else if 7 + marks.len() <= i < 7 + marks.len() + presets.len() {
        Some(presets[i - 7 - marks.len()].timestamp_millis)
    } else {
        None
    }
}

/// The times the session's snapshots are asked for, in the order the views
/// take them: periods, rolling windows, bookmarks, automatic presets.
pub fn snapshot_times(now: i64, marks: &[BookmarkRef], presets: &[AutoPreset]) -> (r: Vec<Option<i64>>)
    requires
        7 + marks@.len() + presets@.len() <= usize::MAX,
    ensures
        r@.len() == 7 + marks@.len() + presets@.len(),
        forall|i: int| 0 <= i < r@.len() ==> #[trigger] r@[i] == slot_time(now, marks@, presets@, i),
{
    let total = 7 + marks.len() + presets.len();
    let mut r: Vec<Option<i64>> = Vec::new();
    let mut i: usize = 0;
    while i < total
        invariant
            i <= total,
            total == 7 + marks@.len() + presets@.len(),
            r@.len() == i,
            forall|k: int| 0 <= k < i ==> #[trigger] r@[k] == slot_time(now, marks@, presets@, k),
        decreases total - i,
    {
        let t: Option<i64> = if i < 4 {
            let p = if i == 0 { Period::Daily } else if i == 1 { Period::Weekly } else if i == 2 { Period::Monthly } else { Period::Yearly };
            assert(p == periods()[i as int]);
            last_reset(p, now)
        } else if i < 7 {
            let p = if i == 4 { Period::Daily } else if i == 5 { Period::Weekly } else { Period::Monthly };
            assert(p == window_periods()[i - 4]);
            let t: i128 = now as i128 - (p.duration() as i128) * 3_600_000;
            if t < i64::MIN as i128 { None } else { Some(t as i64) }
        } else if i < 7 + marks.len() {
            Some(marks[i - 7].snapshot_millis)
        } else {
            Some(presets[i - 7 - marks.len()].timestamp_millis)
        };
        r.push(t);
        i = i + 1;
    }
    r
}

/// Each view compares against the time its snapshot was asked for.
pub proof fn lemma_views_use_asked_times(
    now: i64,
    snaps: Seq<Option<SnapshotRef>>,
    marks: Seq<BookmarkRef>,
    presets: Seq<AutoPreset>,
    n: int,
)
    ensures
        forall|j: int| 0 <= j < views_upto(now, snaps, marks, presets, n).len() ==> {
            let v = #[trigger] views_upto(now, snaps, marks, presets, n)[j];
            slot_time(now, marks, presets, v.3) == Some(v.2)
        },
    decreases n,
{
    if n > 0 {
        lemma_views_use_asked_times(now, snaps, marks, presets, n - 1);
        let before = views_upto(now, snaps, marks, presets, n - 1);
        let all = views_upto(now, snaps, marks, presets, n);
        assert forall|j: int| 0 <= j < all.len() implies {
            let v = #[trigger] all[j];
            slot_time(now, marks, presets, v.3) == Some(v.2)
        } by {
            if j < before.len() {
                assert(all[j] == before[j]);
            }
        }
    }
}

} // verus!
