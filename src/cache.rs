//! The persistent cache of artwork searches, keyed by app id.
use vstd::prelude::*;

verus! {

/// The game id that a search returned first, or `None` when it found nothing.
pub open spec fn first_match(found: Seq<usize>) -> Option<usize> {
    if found.len() == 0 {
        None
    } else {
        Some(found[0])
    }
}

/// What `entries` hold for `app_id`: the last entry for it, if any.
pub open spec fn lookup(entries: Seq<(u32, Option<usize>)>, app_id: u32) -> Option<Option<usize>>
    decreases entries.len(),
{
    if entries.len() == 0 {
        None
    } else if entries.last().0 == app_id {
        Some(entries.last().1)
    } else {
        lookup(entries.drop_last(), app_id)
    }
}

/// The map that a list of entries stands for; a later entry for an app id
/// overrides an earlier one.
pub open spec fn entries_map(entries: Seq<(u32, Option<usize>)>) -> Map<u32, Option<usize>> {
    Map::new(|k: u32| lookup(entries, k) is Some, |k: u32| lookup(entries, k)->0)
}

/// The cache after a search for `app_id` that returned `found` (in the
/// service's order of relevance): an app id already cached keeps its result.
pub open spec fn after_search(m: Map<u32, Option<usize>>, app_id: u32, found: Seq<usize>) -> Map<u32, Option<usize>> {
    if m.contains_key(app_id) {
        m
    } else {
        m.insert(app_id, first_match(found))
    }
}

/// Search results by app id. `None` as a result means that the search found
/// no game: that, too, is cached.
pub struct CachedSearch {
    entries: Vec<(u32, Option<usize>)>,
}

impl View for CachedSearch {
    type V = Map<u32, Option<usize>>;

    closed spec fn view(&self) -> Map<u32, Option<usize>> {
        entries_map(self.entries@)
    }
}

impl CachedSearch {
    /// An empty cache.
    pub fn new() -> (r: CachedSearch)
        ensures
            r@ == Map::<u32, Option<usize>>::empty(),
    {
        let r = CachedSearch { entries: Vec::new() };
        assert(r@ =~= Map::<u32, Option<usize>>::empty());
        r
    }

    /// A cache that holds what `entries` stand for, as read back from storage.
    pub fn from_entries(entries: Vec<(u32, Option<usize>)>) -> (r: CachedSearch)
        ensures
            r@ == entries_map(entries@),
    {
        CachedSearch { entries }
    }

    /// The entries to store, from which `from_entries` builds this cache again.
    pub fn to_entries(&self) -> (r: Vec<(u32, Option<usize>)>)
        ensures
            entries_map(r@) == self@,
    {
        let mut r: Vec<(u32, Option<usize>)> = Vec::new();
        let mut i: usize = 0;
        while i < self.entries.len()
            invariant
                i <= self.entries@.len(),
                r@ == self.entries@.take(i as int),
            decreases self.entries@.len() - i,
        {
            r.push(self.entries[i]);
            assert(r@ =~= self.entries@.take(i as int + 1));
            i = i + 1;
        }
        assert(r@ =~= self.entries@);
        r
    }

    /// The cached result for `app_id`, if there is one. A hit means that no
    /// search is needed.
    pub fn cached(&self, app_id: u32) -> (r: Option<Option<usize>>)
        ensures
            r == (if self@.contains_key(app_id) {
                Some(self@[app_id])
            } else {
                None
            }),
    {
        let mut i: usize = self.entries.len();
        assert(self.entries@.take(i as int) =~= self.entries@);
        while i > 0
            invariant
                i <= self.entries@.len(),
                lookup(self.entries@, app_id) == lookup(self.entries@.take(i as int), app_id),
            decreases i,
        {
            let e = self.entries[i - 1];
            assert(self.entries@.take(i as int).drop_last() =~= self.entries@.take(i - 1));
            if e.0 == app_id {
                return Some(e.1);
            }
            i = i - 1;
        }
        None
    }

    /// Records what a search for `app_id` returned, best match first, and
    /// gives the result that the cache now holds for `app_id`. An app id that
    /// is already cached keeps its result.
    pub fn record(&mut self, app_id: u32, found: &Vec<usize>) -> (r: Option<usize>)
        ensures
            final(self)@ == after_search(old(self)@, app_id, found@),
            r == final(self)@[app_id],
    {
        match self.cached(app_id) {
            Some(res) => res,
            None => {
                let res = if found.len() == 0 {
                    None
                } else {
                    Some(found[0])
                };
                self.insert(app_id, res);
                res
            },
        }
    }

    /// Stores `res` for `app_id`, replacing what was cached for it.
    pub fn insert(&mut self, app_id: u32, res: Option<usize>)
        ensures
            final(self)@ == old(self)@.insert(app_id, res),
    {
        self.entries.push((app_id, res));
        proof {
            assert forall|k: u32| #[trigger] lookup(self.entries@, k) == (if k == app_id {
                Some(res)
            } else {
                lookup(old(self).entries@, k)
            }) by {
                assert(self.entries@.drop_last() =~= old(self).entries@);
            }
            assert(self@ =~= old(self)@.insert(app_id, res));
        }
    }
}

/// Once an app id has a cached result, even "not found", a later search
/// for any app id leaves that result as it is, so the app id is never
/// searched for again.
pub proof fn lemma_cached_result_is_kept(m: Map<u32, Option<usize>>, app_id: u32, other: u32, found: Seq<usize>)
    requires
        m.contains_key(app_id),
    ensures
        after_search(m, other, found).contains_key(app_id),
        after_search(m, other, found)[app_id] == m[app_id],
{
}

/// A search that found nothing is cached as "not found".
pub proof fn lemma_not_found_is_cached(m: Map<u32, Option<usize>>, app_id: u32)
    requires
        !m.contains_key(app_id),
    ensures
        after_search(m, app_id, Seq::empty()).contains_key(app_id),
        after_search(m, app_id, Seq::empty())[app_id] == None::<usize>,
{
}

} // verus!
