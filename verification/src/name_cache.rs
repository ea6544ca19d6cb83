//! The cache of Discord usernames the API keeps in front of Discord: a name
//! is served for fifteen minutes after it was fetched, and once the cache
//! holds more than five hundred names the stale ones are dropped before the
//! next name is stored. Times are seconds on a monotonic clock.
use std::collections::HashMap;
use vstd::prelude::*;
use vstd::std_specs::iter::IteratorSpec;
use crate::text::{chars_of, string_from_chars};

verus! {

broadcast use vstd::std_specs::hash::group_hash_axioms;

/// How long, in seconds, a fetched name is served from the cache.
pub const CACHE_TTL_SECS: u64 = 900;

/// Above this many names, stale names are dropped before storing another.
pub const CACHE_CLEANUP_THRESHOLD: usize = 500;

/// The cached names: for each user, the name and the time it was fetched.
pub struct UsernameCache {
    names: HashMap<u64, (String, u64)>,
}

/// The seconds from `at` to `now`, zero when `now` is earlier.
pub open spec fn elapsed(at: u64, now: u64) -> int {
    if now >= at {
        now - at
    } else {
        0
    }
}

/// A name fetched at `at` is still served at `now`.
pub open spec fn fresh(at: u64, now: u64) -> bool {
    elapsed(at, now) < CACHE_TTL_SECS
}

/// The stored names as a map from user to name and fetch time.
pub open spec fn names_view(m: Map<u64, (String, u64)>) -> Map<u64, (Seq<char>, u64)> {
    Map::new(|k: u64| m.contains_key(k), |k: u64| (m[k].0@, m[k].1))
}

impl View for UsernameCache {
    type V = Map<u64, (Seq<char>, u64)>;

    closed spec fn view(&self) -> Map<u64, (Seq<char>, u64)> {
        names_view(self.names@)
    }
}

/// The entries after dropping those stale at `now`.
pub open spec fn fresh_only(m: Map<u64, (Seq<char>, u64)>, now: u64) -> Map<u64, (Seq<char>, u64)> {
    Map::new(|k: u64| m.contains_key(k) && fresh(m[k].1, now), |k: u64| m[k])
}

/// Whether a name fetched at `at` is still served at `now`.
fn is_fresh(at: u64, now: u64) -> (r: bool)
    ensures
        r == fresh(at, now),
{
    let age = if now >= at { now - at } else { 0 };
    age < CACHE_TTL_SECS
}

impl UsernameCache {
    /// An empty cache.
    pub fn new() -> (r: UsernameCache)
        ensures
            r@ == Map::<u64, (Seq<char>, u64)>::empty(),
    {
        let r = UsernameCache { names: HashMap::new() };
        assert(r@ =~= Map::<u64, (Seq<char>, u64)>::empty());
        r
    }

    /// The number of cached names.
    pub fn len(&self) -> (n: usize)
        ensures
            n == self@.len(),
    {
        assert(self@.dom() =~= self.names@.dom());
        self.names.len()
    }

    /// The cached name of `user_id` at time `now`, if it was fetched less than
    /// fifteen minutes earlier.
    pub fn get_cached(&self, user_id: u64, now: u64) -> (r: Option<String>)
        ensures
            match r {
                Some(name) => self@.contains_key(user_id) && name@ == self@[user_id].0 && fresh(self@[user_id].1, now),
                None => !(self@.contains_key(user_id) && fresh(self@[user_id].1, now)),
            },
    {
        match self.names.get(&user_id) {
            Some(entry) => {
                if is_fresh(entry.1, now) {
                    Some(string_from_chars(&chars_of(entry.0.as_str())))
                } else {
                    None
                }
            },
            None => None,
        }
    }

    /// Drops the names stale at `now`.
    fn drop_stale(&mut self, now: u64)
        ensures
            final(self)@ == fresh_only(old(self)@, now),
    {
        let ghost before = self.names@;
        let mut stale: Vec<u64> = Vec::new();
        let ghost ks = vstd::std_specs::hash::spec_keys_iter(&self.names).remaining();
        assert(ks.unref().to_set() == before.dom());
        let ghost mut done: int = 0;
        for k in it: self.names.keys()
            invariant
                self.names@ == before,
                it.seq() == ks,
                ks.unref().to_set() == before.dom(),
                done == it.index(),
                forall|j: int| 0 <= j < stale@.len() ==> before.contains_key(#[trigger] stale@[j])
                    && !fresh(before[stale@[j]].1, now),
                forall|j: int| 0 <= j < done && !fresh(before[*#[trigger] ks[j]].1, now)
                    ==> stale@.contains(*ks[j]),
        {
            let ghost idx = it.index();
            assert(ks.unref()[idx] == *k);
            assert(ks.unref().to_set().contains(*k));
            let ghost old_stale = stale@;
            match self.names.get(k) {
                Some(entry) => {
                    if !is_fresh(entry.1, now) {
                        stale.push(*k);
                        assert(stale@[stale@.len() - 1] == *k);
                    }
                },
                None => {},
            }
            assert forall|j: int| 0 <= j < idx + 1 && !fresh(before[*#[trigger] ks[j]].1, now)
                implies stale@.contains(*ks[j]) by {
                if j < idx {
                    assert(old_stale.contains(*ks[j]));
                    let w = choose|w: int| 0 <= w < old_stale.len() && old_stale[w] == *ks[j];
                    assert(stale@[w] == old_stale[w]);
                } else {
                    assert(stale@[stale@.len() - 1] == *k);
                }
            }
            proof {
                done = done + 1;
            }
        }
        assert(done == ks.len());
        assert forall|k: u64| before.contains_key(k) && !fresh(before[k].1, now) implies stale@.contains(k) by {
            assert(ks.unref().to_set().contains(k));
            let j = choose|j: int| 0 <= j < ks.unref().len() && ks.unref()[j] == k;
            assert(*ks[j] == k);
        }
        let mut i: usize = 0;
        assert(self.names@ =~= Map::new(
            |k: u64| before.contains_key(k) && !stale@.subrange(0, 0).contains(k),
            |k: u64| before[k],
        ));
        while i < stale.len()
            invariant
                i <= stale@.len(),
                forall|j: int| 0 <= j < stale@.len() ==> before.contains_key(#[trigger] stale@[j])
                    && !fresh(before[stale@[j]].1, now),
                forall|k: u64| before.contains_key(k) && !fresh(before[k].1, now) ==> stale@.contains(k),
                self.names@ == Map::new(
                    |k: u64| before.contains_key(k) && !stale@.subrange(0, i as int).contains(k),
                    |k: u64| before[k],
                ),
            decreases stale@.len() - i,
        {
            let ghost prev = self.names@;
            self.names.remove(&stale[i]);
            let ghost upto = stale@.subrange(0, i as int);
            let ghost next = stale@.subrange(0, i + 1);
            assert(next =~= upto.push(stale@[i as int]));
            assert forall|k: u64| next.contains(k) <==> (upto.contains(k) || k == stale@[i as int]) by {
                if next.contains(k) {
                    let w = choose|w: int| 0 <= w < next.len() && #[trigger] next[w] == k;
                    if w < i {
                        assert(upto[w] == k);
                    }
                }
                if upto.contains(k) {
                    let w = choose|w: int| 0 <= w < upto.len() && #[trigger] upto[w] == k;
                    assert(next[w] == k);
                }
                if k == stale@[i as int] {
                    assert(next[i as int] == k);
                }
            }
            assert(self.names@ =~= Map::new(
                |k: u64| before.contains_key(k) && !stale@.subrange(0, i + 1).contains(k),
                |k: u64| before[k],
            ));
            i = i + 1;
        }
        assert(stale@.subrange(0, stale@.len() as int) =~= stale@);
        assert forall|k: u64| stale@.contains(k) implies before.contains_key(k) && !fresh(before[k].1, now) by {
            let w = choose|w: int| 0 <= w < stale@.len() && stale@[w] == k;
            assert(before.contains_key(stale@[w]));
        }
        assert(self@ =~= fresh_only(names_view(before), now));
    }

    /// Stores the name fetched for `user_id` at time `now`. When the cache holds
    /// more than five hundred names, those stale at `now` are dropped first.
    pub fn store(&mut self, user_id: u64, username: String, now: u64)
        ensures
            final(self)@ == (if old(self)@.len() > CACHE_CLEANUP_THRESHOLD {
                fresh_only(old(self)@, now)
            } else {
                old(self)@
            }).insert(user_id, (username@, now)),
    {
        if self.len() > CACHE_CLEANUP_THRESHOLD {
            self.drop_stale(now);
        }
        self.names.insert(user_id, (username, now));
    }
}

/// A name stored at time `t` is served until fifteen minutes have passed, and
/// storing one user's name leaves every other user's cached name as it was,
/// unless it was stale and the cache was being cleaned.
pub proof fn lemma_store_then_get(m: Map<u64, (Seq<char>, u64)>, user_id: u64, username: Seq<char>, t: u64, now: u64, other: u64)
    requires
        now >= t,
        now - t < CACHE_TTL_SECS,
        other != user_id,
    ensures
        ({
            let stored = (if m.len() > CACHE_CLEANUP_THRESHOLD { fresh_only(m, t) } else { m }).insert(user_id, (username, t));
            &&& stored.contains_key(user_id)
            &&& stored[user_id].0 == username
            &&& fresh(stored[user_id].1, now)
            &&& (m.contains_key(other) && (m.len() <= CACHE_CLEANUP_THRESHOLD || fresh(m[other].1, t))) ==> stored.contains_key(other) && stored[other] == m[other]
        }),
{
}

} // verus!
