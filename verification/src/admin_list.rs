//! The admin panel's list of tagged players: which query a search asks for,
//! the page it reads, and how the players' active tags are grouped under them.
use vstd::prelude::*;
use crate::text::{chars_of, push_str, string_from_chars};

verus! {

/// The page size when none is asked for.
pub const DEFAULT_PAGE: i64 = 50;
/// The largest page the panel reads.
pub const MAX_PAGE: i64 = 200;

/// Which players a list request selects.
#[derive(Clone, Debug)]
pub enum PlayerFilter {
    /// Every tagged player.
    All,
    /// Players whose UUID matches the pattern.
    Search { pattern: String },
    /// Players with an active tag of the type.
    Tagged { tag_type: String },
    /// Both at once.
    SearchTagged { pattern: String, tag_type: String },
}

/// The abstract content of a filter.
pub enum FilterView {
    All,
    Search(Seq<char>),
    Tagged(Seq<char>),
    SearchTagged(Seq<char>, Seq<char>),
}

impl View for PlayerFilter {
    type V = FilterView;

    open spec fn view(&self) -> FilterView {
        match self {
            PlayerFilter::All => FilterView::All,
            PlayerFilter::Search { pattern } => FilterView::Search(pattern@),
            PlayerFilter::Tagged { tag_type } => FilterView::Tagged(tag_type@),
            PlayerFilter::SearchTagged { pattern, tag_type } => FilterView::SearchTagged(pattern@, tag_type@),
        }
    }
}

/// A page of the list to read.
#[derive(Clone, Debug)]
pub struct ListPlan {
    pub filter: PlayerFilter,
    pub limit: i64,
    pub offset: i64,
    /// Whether the queries can run: an empty tag type gives them too few
    /// parameters, and the page comes back empty with a total of 0.
    pub runs: bool,
}

/// The UUID pattern of a search: the text anywhere in the UUID.
pub open spec fn like_pattern(search: Seq<char>) -> Seq<char> {
    seq!['%'] + search + seq!['%']
}

/// The filter a request asks for.
pub open spec fn filter_of(search: Option<Seq<char>>, tag_type: Option<Seq<char>>) -> FilterView {
    match (search, tag_type) {
        (Some(s), Some(t)) => FilterView::SearchTagged(like_pattern(s), t),
        (Some(s), None) => FilterView::Search(like_pattern(s)),
        (None, Some(t)) => FilterView::Tagged(t),
        (None, None) => FilterView::All,
    }
}

/// `%`, the search, `%`.
fn like_pattern_exec(s: &str) -> (p: String)
    ensures
        p@ == like_pattern(s@),
{
    let mut out: Vec<char> = Vec::new();
    out.push('%');
    push_str(&mut out, s);
    out.push('%');
    string_from_chars(&out)
}

/// Plans a list request: the page size defaults to 50 and is capped at 200,
/// the offset defaults to 0.
pub fn plan_player_list(search: Option<&str>, tag_type: Option<&str>, limit: Option<i64>, offset: Option<i64>) -> (r: ListPlan)
    ensures
        r.filter@ == filter_of(
            match search { Some(s) => Some(s@), None => None },
            match tag_type { Some(t) => Some(t@), None => None },
        ),
        r.limit == (match limit { Some(l) => if l < MAX_PAGE { l } else { MAX_PAGE }, None => DEFAULT_PAGE }),
        r.offset == (match offset { Some(o) => o, None => 0 }),
        r.runs == !(match tag_type { Some(t) => t@.len() == 0, None => false }),
{
    let lim = match limit {
        Some(l) => if l < MAX_PAGE { l } else { MAX_PAGE },
        None => DEFAULT_PAGE,
    };
    let off = match offset {
        Some(o) => o,
        None => 0,
    };
    let filter = match (search, tag_type) {
        (Some(s), Some(t)) => PlayerFilter::SearchTagged { pattern: like_pattern_exec(s), tag_type: string_from_chars(&chars_of(t)) },
        (Some(s), None) => PlayerFilter::Search { pattern: like_pattern_exec(s) },
        (None, Some(t)) => PlayerFilter::Tagged { tag_type: string_from_chars(&chars_of(t)) },
        (None, None) => PlayerFilter::All,
    };
    let runs = match tag_type {
        Some(t) => chars_of(t).len() != 0,
        None => true,
    };
    ListPlan { filter, limit: lim, offset: off, runs }
}

/// A tag as the panel lists it (times in milliseconds after the Unix epoch).
#[derive(Clone, Debug)]
pub struct PanelTag {
    pub id: i64,
    pub player_id: i64,
    pub tag_type: String,
    pub reason: String,
    pub added_by: i64,
    pub added_on_millis: i64,
    pub hide_username: bool,
    pub removed_by: Option<i64>,
    pub removed_on_millis: Option<i64>,
}

/// A tagged player as the panel lists it.
#[derive(Clone, Debug)]
pub struct PanelPlayer {
    pub id: i64,
    pub uuid: String,
    pub is_locked: bool,
    pub lock_reason: Option<String>,
    pub locked_by: Option<i64>,
    pub locked_at_millis: Option<i64>,
}

/// The identifiers of the tags of player `pid` among `tags`, in order.
pub open spec fn tags_of(tags: Seq<PanelTag>, pid: i64) -> Seq<i64>
    decreases tags.len(),
{
    if tags.len() == 0 {
        Seq::empty()
    } else if tags.last().player_id == pid {
        tags_of(tags.drop_last(), pid).push(tags.last().id)
    } else {
        tags_of(tags.drop_last(), pid)
    }
}

/// The identifiers of a list of tags.
pub open spec fn tag_ids(tags: Seq<PanelTag>) -> Seq<i64> {
    tags.map_values(|t: PanelTag| t.id)
}

/// The tags among `tags` that belong to player `pid`, in order.
fn tags_for(tags: &[PanelTag], pid: i64) -> (r: Vec<PanelTag>)
    ensures
        tag_ids(r@) == tags_of(tags@, pid),
        forall|i: int| 0 <= i < r@.len() ==> #[trigger] r@[i].player_id == pid,
{
    let mut r: Vec<PanelTag> = Vec::new();
    let mut i: usize = 0;
    assert(tags@.subrange(0, 0) =~= Seq::<PanelTag>::empty());
    assert(tag_ids(r@) =~= Seq::<i64>::empty());
    while i < tags.len()
        invariant
            i <= tags@.len(),
            tag_ids(r@) == tags_of(tags@.subrange(0, i as int), pid),
            forall|k: int| 0 <= k < r@.len() ==> #[trigger] r@[k].player_id == pid,
        decreases tags@.len() - i,
    {
        assert(tags@.subrange(0, i + 1).drop_last() =~= tags@.subrange(0, i as int));
        assert(tags@.subrange(0, i + 1).last() == tags@[i as int]);
        if tags[i].player_id == pid {
            let t = &tags[i];
            let c = PanelTag {
                id: t.id,
                player_id: t.player_id,
                tag_type: string_from_chars(&chars_of(t.tag_type.as_str())),
                reason: string_from_chars(&chars_of(t.reason.as_str())),
                added_by: t.added_by,
                added_on_millis: t.added_on_millis,
                hide_username: t.hide_username,
                removed_by: t.removed_by,
                removed_on_millis: t.removed_on_millis,
            };
            let ghost before = r@;
            r.push(c);
            assert(tag_ids(r@) =~= tag_ids(before).push(c.id));
        }
        i = i + 1;
    }
    assert(tags@.subrange(0, tags@.len() as int) =~= tags@);
    r
}

/// Each listed player with their tags: the players in order, each holding the
/// tags of `tags` that belong to them, in the order of `tags`.
pub fn attach_tags(players: &[PanelPlayer], tags: &[PanelTag]) -> (r: Vec<(PanelPlayer, Vec<PanelTag>)>)
    ensures
        r@.len() == players@.len(),
        forall|i: int| 0 <= i < r@.len() ==> (#[trigger] r@[i]).0.id == players@[i].id
            && r@[i].0.uuid@ == players@[i].uuid@
            && tag_ids(r@[i].1@) == tags_of(tags@, players@[i].id),
{
    let mut r: Vec<(PanelPlayer, Vec<PanelTag>)> = Vec::new();
    let mut i: usize = 0;
    while i < players.len()
        invariant
            i <= players@.len(),
            r@.len() == i,
            forall|k: int| 0 <= k < i ==> (#[trigger] r@[k]).0.id == players@[k].id
                && r@[k].0.uuid@ == players@[k].uuid@
                && tag_ids(r@[k].1@) == tags_of(tags@, players@[k].id),
        decreases players@.len() - i,
    {
        let p = &players[i];
        let lock_reason = match &p.lock_reason {
            Some(s) => Some(string_from_chars(&chars_of(s.as_str()))),
            None => None,
        };
        let copy = PanelPlayer {
            id: p.id,
            uuid: string_from_chars(&chars_of(p.uuid.as_str())),
            is_locked: p.is_locked,
            lock_reason,
            locked_by: p.locked_by,
            locked_at_millis: p.locked_at_millis,
        };
        let ts = tags_for(tags, p.id);
        r.push((copy, ts));
        i = i + 1;
    }
    r
}

/// A tag is listed under a player exactly when it belongs to that player.
pub proof fn lemma_tags_of_members(tags: Seq<PanelTag>, pid: i64, id: i64)
    ensures
        tags_of(tags, pid).contains(id) <==> exists|j: int| 0 <= j < tags.len() && tags[j].player_id == pid && tags[j].id == id,
    decreases tags.len(),
{
    if tags.len() > 0 {
        let init = tags.drop_last();
        lemma_tags_of_members(init, pid, id);
        if tags.last().player_id == pid {
            assert(tags_of(tags, pid) == tags_of(init, pid).push(tags.last().id));
            if tags_of(init, pid).contains(id) {
                let k = choose|k: int| 0 <= k < tags_of(init, pid).len() && tags_of(init, pid)[k] == id;
                assert(tags_of(tags, pid)[k] == id);
            }
            if tags_of(tags, pid).contains(id) && !tags_of(init, pid).contains(id) {
                let k = choose|k: int| 0 <= k < tags_of(tags, pid).len() && tags_of(tags, pid)[k] == id;
                assert(k == tags_of(init, pid).len());
                assert(tags[tags.len() - 1].player_id == pid && tags[tags.len() - 1].id == id);
            }
        }
        if exists|j: int| 0 <= j < tags.len() && tags[j].player_id == pid && tags[j].id == id {
            let j = choose|j: int| 0 <= j < tags.len() && tags[j].player_id == pid && tags[j].id == id;
            if j < tags.len() - 1 {
                assert(init[j] == tags[j]);
            } else {
                assert(tags_of(tags, pid) == tags_of(init, pid).push(id));
                assert(tags_of(tags, pid)[tags_of(init, pid).len() as int] == id);
            }
        }
        if exists|j: int| 0 <= j < init.len() && init[j].player_id == pid && init[j].id == id {
            let j = choose|j: int| 0 <= j < init.len() && init[j].player_id == pid && init[j].id == id;
            assert(tags[j] == init[j]);
        }
    }
}

} // verus!
