//! Answered queries, the least recently used of which are forgotten first.

use crate::text::same_text;
use vstd::prelude::*;

verus! {

#[derive(Debug, PartialEq, Eq)]
pub struct CacheKey {
    pub server: String,
    pub generation: u64,
    pub query: String,
    pub mode: i32,
    pub limit: u32,
}

/// What a cache key stands for.
#[verifier::ext_equal]
pub struct KeyView {
    pub server: Seq<char>,
    pub generation: u64,
    pub query: Seq<char>,
    pub mode: i32,
    pub limit: u32,
}

impl View for CacheKey {
    type V = KeyView;

    open spec fn view(&self) -> KeyView {
        KeyView {
            server: self.server@,
            generation: self.generation,
            query: self.query@,
            mode: self.mode,
            limit: self.limit,
        }
    }
}

impl CacheKey {
    pub fn same(&self, other: &Self) -> (same: bool)
        ensures
            same == (self@ == other@),
    {
        self.generation == other.generation && self.mode == other.mode && self.limit == other.limit
            && same_text(self.server.as_str(), other.server.as_str()) && same_text(
            self.query.as_str(),
            other.query.as_str(),
        )
    }
}

/// A cache of at most `capacity` answers, the most recently used last.
#[derive(Debug)]
pub struct QueryCache<V> {
    pub entries: Vec<(CacheKey, V)>,
    pub capacity: usize,
}

pub open spec fn keyed<V>(entries: Seq<(CacheKey, V)>, i: int, key: KeyView) -> bool {
    0 <= i < entries.len() && entries[i].0@ == key
}

/// The entries without those of a key.
pub open spec fn without<V>(entries: Seq<(CacheKey, V)>, key: KeyView) -> Seq<(CacheKey, V)> {
    entries.filter(has_other_key(key))
}

pub open spec fn has_other_key<V>(key: KeyView) -> spec_fn((CacheKey, V)) -> bool {
    |entry: (CacheKey, V)| entry.0@ != key
}

/// The last entries, at most `n`.
pub open spec fn newest_of<V>(entries: Seq<(CacheKey, V)>, n: nat) -> Seq<(CacheKey, V)> {
    if entries.len() <= n {
        entries
    } else {
        entries.skip(entries.len() - n)
    }
}

/// The entries of other servers.
pub open spec fn of_others<V>(entries: Seq<(CacheKey, V)>, server: Seq<char>) -> Seq<
    (CacheKey, V),
> {
    entries.filter(has_other_server(server))
}

pub open spec fn has_other_server<V>(server: Seq<char>) -> spec_fn((CacheKey, V)) -> bool {
    |entry: (CacheKey, V)| entry.0.server@ != server
}

impl<V> QueryCache<V> {
    /// No key is cached twice, and no more is cached than fits.
    pub open spec fn wf(self) -> bool {
        &&& forall|i: int, j: int|
            0 <= i < j < self.entries@.len() ==> (#[trigger] self.entries@[i]).0@ != (
            #[trigger] self.entries@[j]).0@
        &&& self.entries@.len() <= self.capacity
    }

    pub open spec fn holds(self, key: KeyView) -> bool {
        exists|i: int| keyed(self.entries@, i, key)
    }

    pub fn new(capacity: usize) -> (cache: Self)
        ensures
            cache.wf(),
            cache.entries@ == Seq::<(CacheKey, V)>::empty(),
            cache.capacity == capacity,
    {
        QueryCache { entries: Vec::new(), capacity }
    }

    fn position(&self, key: &CacheKey) -> (at: Option<usize>)
        ensures
            at matches Some(i) ==> keyed(self.entries@, i as int, key@),
            at is None ==> forall|j: int| !keyed(self.entries@, j, key@),
    {
        let mut i: usize = 0;
        while i < self.entries.len()
            invariant
                i <= self.entries.len(),
                forall|j: int| j < i ==> !keyed(self.entries@, j, key@),
            decreases self.entries.len() - i,
        {
            if self.entries[i].0.same(key) {
                return Some(i);
            }
            i += 1;
        }
        None
    }

    /// The cached answer, which becomes the most recently used one.
    pub fn get(&mut self, key: &CacheKey) -> (value: Option<&V>)
        requires
            old(self).wf(),
        ensures
            final(self).wf(),
            final(self).capacity == old(self).capacity,
            value is Some <==> old(self).holds(key@),
            value is None ==> final(self).entries@ == old(self).entries@,
            value matches Some(v) ==> exists|i: int|
                keyed(old(self).entries@, i, key@) && *v == (#[trigger] old(self).entries@[i]).1
                    && final(self).entries@ == without(old(self).entries@, key@).push(
                    old(self).entries@[i],
                ),
    {
        match self.position(key) {
            Some(i) => {
                let ghost before = self.entries@;
                let entry = self.entries.remove(i);
                self.entries.push(entry);
                proof {
                    assert(keyed(before, i as int, key@));
                    without_one(before, i as int, key@);
                    assert(self.entries@ =~= without(before, key@).push(before[i as int]));
                    moved_stay_distinct(before, i as int);
                }
                let last: usize = self.entries.len() - 1;
                Some(&self.entries[last].1)
            },
            None => None,
        }
    }

    /// Caches an answer as the most recently used one and forgets the least
    /// recently used ones that no longer fit.
    pub fn insert(&mut self, key: CacheKey, value: V)
        requires
            old(self).wf(),
        ensures
            final(self).wf(),
            final(self).capacity == old(self).capacity,
            final(self).entries@ == newest_of(
                without(old(self).entries@, key@).push((key, value)),
                old(self).capacity as nat,
            ),
    {
        let ghost before = self.entries@;
        if let Some(i) = self.position(&key) {
            let _ = self.entries.remove(i);
            proof {
                without_one(before, i as int, key@);
            }
        } else {
            proof {
                without_none(before, key@);
            }
        }
        assert(self.entries@ =~= without(before, key@));
        proof {
            without_is_distinct(before, key@);
        }
        self.entries.push((key, value));
        let ghost full = self.entries@;
        proof {
            assert forall|i: int, j: int| 0 <= i < j < full.len() implies (
            #[trigger] full[i]).0@ != (#[trigger] full[j]).0@ by {
                assert(without(before, key@)[i].0@ != key@);
            }
            assert(full.skip(0) =~= full);
        }
        while self.entries.len() > self.capacity
            invariant
                self.capacity == old(self).capacity,
                self.entries@.len() <= full.len(),
                self.entries@ == full.skip(full.len() - self.entries@.len()),
                full.len() <= self.capacity || self.entries@.len() >= self.capacity,
                full.len() <= self.capacity ==> self.entries@.len() == full.len(),
            decreases self.entries.len(),
        {
            let ghost had = self.entries@;
            let _ = self.entries.remove(0);
            assert(self.entries@ =~= full.skip(full.len() - self.entries@.len())) by {
                assert(self.entries@ =~= had.skip(1));
            }
        }
        proof {
            assert forall|i: int, j: int| 0 <= i < j < self.entries@.len() implies (
            #[trigger] self.entries@[i]).0@ != (#[trigger] self.entries@[j]).0@ by {
                let gap = full.len() - self.entries@.len();
                assert(full[i + gap].0@ != full[j + gap].0@);
            }
        }
    }

    /// Forgets every answer about a server.
    pub fn clear_server(&mut self, server: &str)
        requires
            old(self).wf(),
        ensures
            final(self).wf(),
            final(self).capacity == old(self).capacity,
            final(self).entries@ == of_others(old(self).entries@, server@),
    {
        let ghost before = self.entries@;
        let ghost other = has_other_server::<V>(server@);
        let mut i: usize = 0;
        proof {
            assert(before.take(0) =~= Seq::empty());
            reveal(Seq::filter);
            assert(self.entries@ =~= before.skip(0));
        }
        let ghost mut seen: int = 0;
        while i < self.entries.len()
            invariant
                i <= self.entries@.len(),
                0 <= seen <= before.len(),
                self.capacity == old(self).capacity,
                other == has_other_server::<V>(server@),
                self.entries@.len() - i == before.len() - seen,
                self.entries@ == before.take(seen).filter(other) + before.skip(seen),
                before.take(seen).filter(other).len() == i,
            decreases self.entries.len() - i,
        {
            let ghost head = before.take(seen).filter(other);
            let ghost had = self.entries@;
            proof {
                assert(before.take(seen + 1).drop_last() =~= before.take(seen));
                assert(before.take(seen + 1).last() == before[seen]);
                assert(had[i as int] == before[seen]);
                reveal(Seq::filter);
            }
            if same_text(self.entries[i].0.server.as_str(), server) {
                let _ = self.entries.remove(i);
                assert(self.entries@ =~= before.take(seen + 1).filter(other) + before.skip(
                    seen + 1,
                ));
            } else {
                i += 1;
                assert(self.entries@ =~= before.take(seen + 1).filter(other) + before.skip(
                    seen + 1,
                ));
            }
            proof {
                seen = seen + 1;
            }
        }
        proof {
            assert(before.take(before.len() as int) =~= before);
            assert(self.entries@ =~= of_others(before, server@));
            filter_is_distinct(before, other);
            before.lemma_filter_len(other);
        }
    }
}

proof fn without_none<V>(entries: Seq<(CacheKey, V)>, key: KeyView)
    requires
        forall|j: int| !keyed(entries, j, key),
    ensures
        without(entries, key) == entries,
    decreases entries.len(),
{
    reveal(Seq::filter);
    if entries.len() > 0 {
        let rest = entries.drop_last();
        assert(!keyed(entries, entries.len() - 1, key));
        assert forall|j: int| !keyed(rest, j, key) by {
            assert(!keyed(entries, j, key));
        }
        without_none(rest, key);
        assert(entries =~= rest.push(entries.last()));
    }
}

proof fn without_one<V>(entries: Seq<(CacheKey, V)>, at: int, key: KeyView)
    requires
        keyed(entries, at, key),
        forall|i: int, j: int|
            0 <= i < j < entries.len() ==> (#[trigger] entries[i]).0@ != (
            #[trigger] entries[j]).0@,
    ensures
        without(entries, key) == entries.remove(at),
    decreases entries.len(),
{
    reveal(Seq::filter);
    let rest = entries.drop_last();
    if at == entries.len() - 1 {
        assert forall|j: int| !keyed(rest, j, key) by {
            if 0 <= j < rest.len() {
                assert(entries[j].0@ != entries[at].0@);
            }
        }
        without_none(rest, key);
        assert(entries.remove(at) =~= rest);
    } else {
        without_one(rest, at, key);
        assert(entries[at].0@ != entries[entries.len() - 1].0@);
        assert(entries.remove(at) =~= rest.remove(at).push(entries.last()));
    }
}

proof fn filter_is_distinct<V>(
    entries: Seq<(CacheKey, V)>,
    keep: spec_fn((CacheKey, V)) -> bool,
)
    requires
        forall|i: int, j: int|
            0 <= i < j < entries.len() ==> (#[trigger] entries[i]).0@ != (
            #[trigger] entries[j]).0@,
    ensures
        forall|i: int, j: int|
            0 <= i < j < entries.filter(keep).len() ==> (#[trigger] entries.filter(keep)[i]).0@
                != (#[trigger] entries.filter(keep)[j]).0@,
        forall|i: int|
            0 <= i < entries.filter(keep).len() ==> entries.contains(
                #[trigger] entries.filter(keep)[i],
            ) && keep(entries.filter(keep)[i]),
    decreases entries.len(),
{
    reveal(Seq::filter);
    if entries.len() > 0 {
        let rest = entries.drop_last();
        filter_is_distinct(rest, keep);
        let kept = rest.filter(keep);
        let all = entries.filter(keep);
        assert forall|i: int| 0 <= i < kept.len() implies entries.contains(#[trigger] kept[i])
            && kept[i].0@ != entries.last().0@ by {
            assert(rest.contains(kept[i]));
            let k = choose|k: int| 0 <= k < rest.len() && rest[k] == kept[i];
            assert(entries[k] == kept[i]);
            assert(entries[k].0@ != entries[entries.len() - 1].0@);
        }
        assert(entries.contains(entries.last())) by {
            assert(entries[entries.len() - 1] == entries.last());
        }
        if keep(entries.last()) {
            assert(all =~= kept.push(entries.last()));
        } else {
            assert(all =~= kept);
        }
    }
}

proof fn without_is_distinct<V>(entries: Seq<(CacheKey, V)>, key: KeyView)
    requires
        forall|i: int, j: int|
            0 <= i < j < entries.len() ==> (#[trigger] entries[i]).0@ != (
            #[trigger] entries[j]).0@,
    ensures
        forall|i: int, j: int|
            0 <= i < j < without(entries, key).len() ==> (
            #[trigger] without(entries, key)[i]).0@ != (#[trigger] without(entries, key)[j]).0@,
        forall|i: int|
            0 <= i < without(entries, key).len() ==> (#[trigger] without(entries, key)[i]).0@
                != key,
{
    let keep = has_other_key::<V>(key);
    filter_is_distinct(entries, keep);
    let kept = entries.filter(keep);
    assert(without(entries, key) == kept);
    assert forall|i: int, j: int| 0 <= i < j < without(entries, key).len() implies (
    #[trigger] without(entries, key)[i]).0@ != (#[trigger] without(entries, key)[j]).0@ by {
        assert(kept[i].0@ != kept[j].0@);
    }
    assert forall|i: int| 0 <= i < without(entries, key).len() implies (
    #[trigger] without(entries, key)[i]).0@ != key by {
        assert(keep(kept[i]));
    }
}

proof fn moved_stay_distinct<V>(entries: Seq<(CacheKey, V)>, at: int)
    requires
        0 <= at < entries.len(),
        forall|i: int, j: int|
            0 <= i < j < entries.len() ==> (#[trigger] entries[i]).0@ != (
            #[trigger] entries[j]).0@,
    ensures
        forall|i: int, j: int|
            0 <= i < j < entries.len() ==> (#[trigger] entries.remove(at).push(
                entries[at],
            )[i]).0@ != (#[trigger] entries.remove(at).push(entries[at])[j]).0@,
{
    let after = entries.remove(at).push(entries[at]);
    let back = |i: int|
        if i == entries.len() - 1 {
            at
        } else if i < at {
            i
        } else {
            i + 1
        };
    assert forall|i: int, j: int| 0 <= i < j < entries.len() implies (
    #[trigger] after[i]).0@ != (#[trigger] after[j]).0@ by {
        let a = back(i);
        let b = back(j);
        if a < b {
            assert(entries[a].0@ != entries[b].0@);
        } else {
            assert(entries[b].0@ != entries[a].0@);
        }
    }
}

/// What was cached last is found until it is forgotten or its server cleared,
/// provided that the cache has room for anything.
pub proof fn inserted_is_found<V>(
    before: QueryCache<V>,
    after: QueryCache<V>,
    key: CacheKey,
    value: V,
)
    requires
        before.capacity > 0,
        after.entries@ == newest_of(
            without(before.entries@, key@).push((key, value)),
            before.capacity as nat,
        ),
    ensures
        after.holds(key@),
        after.entries@.last() == (key, value),
        after.entries@.len() <= before.capacity,
{
    assert(keyed(after.entries@, after.entries@.len() - 1, key@));
}

/// Once a server is cleared, nothing about it is found.
pub proof fn cleared_server_is_forgotten<V>(entries: Seq<(CacheKey, V)>, key: KeyView, i: int)
    ensures
        !keyed(of_others(entries, key.server), i, key),
{
    let keep = has_other_server::<V>(key.server);
    if keyed(of_others(entries, key.server), i, key) {
        entries.lemma_filter_pred(keep, i);
    }
}

/// What is remembered becomes the newest. Something that was remembered under
/// the same key makes place for it; else, in a full cache, the oldest does; and
/// everything else stays, in its order.
pub proof fn the_oldest_makes_place<V>(
    before: QueryCache<V>,
    after: QueryCache<V>,
    key: CacheKey,
    value: V,
    at: int,
)
    requires
        before.wf(),
        before.capacity > 0,
        after.entries@ == newest_of(
            without(before.entries@, key@).push((key, value)),
            before.capacity as nat,
        ),
    ensures
        0 <= at < before.entries@.len() && before.entries@[at].0@ == key@ ==> after.entries@
            == before.entries@.remove(at).push((key, value)),
        (forall|i: int| 0 <= i < before.entries@.len() ==> (#[trigger] before.entries@[i]).0@
            != key@) && before.entries@.len() < before.capacity ==> after.entries@
            == before.entries@.push((key, value)),
        (forall|i: int| 0 <= i < before.entries@.len() ==> (#[trigger] before.entries@[i]).0@
            != key@) && before.entries@.len() == before.capacity ==> after.entries@
            == before.entries@.skip(1).push((key, value)),
{
    if 0 <= at < before.entries@.len() && before.entries@[at].0@ == key@ {
        without_one(before.entries@, at, key@);
    }
    if forall|i: int| 0 <= i < before.entries@.len() ==> (#[trigger] before.entries@[i]).0@
        != key@ {
        assert forall|j: int| !keyed(before.entries@, j, key@) by {}
        without_none(before.entries@, key@);
        if before.entries@.len() == before.capacity {
            assert(after.entries@ =~= before.entries@.skip(1).push((key, value)));
        }
    }
}

/// What was asked for again becomes the newest, and everything else stays, in
/// its order.
pub proof fn asking_makes_new<V>(cache: QueryCache<V>, at: int)
    requires
        cache.wf(),
        0 <= at < cache.entries@.len(),
    ensures
        cache.holds(cache.entries@[at].0@),
        without(cache.entries@, cache.entries@[at].0@).push(cache.entries@[at])
            == cache.entries@.remove(at).push(cache.entries@[at]),
{
    assert(keyed(cache.entries@, at, cache.entries@[at].0@));
    without_one(cache.entries@, at, cache.entries@[at].0@);
}

/// Forgetting a server keeps what is remembered of all others.
pub proof fn other_servers_are_remembered<V>(
    entries: Seq<(CacheKey, V)>,
    server: Seq<char>,
    at: int,
)
    requires
        0 <= at < entries.len(),
    ensures
        entries[at].0.server@ != server ==> of_others(entries, server).contains(entries[at]),
        forall|i: int|
            0 <= i < of_others(entries, server).len() ==> (
            #[trigger] of_others(entries, server)[i]).0.server@ != server,
{
    let keep = has_other_server::<V>(server);
    if keep(entries[at]) {
        entries.lemma_filter_contains(keep, at);
    }
    assert forall|i: int| 0 <= i < of_others(entries, server).len() implies (
    #[trigger] of_others(entries, server)[i]).0.server@ != server by {
        entries.lemma_filter_pred(keep, i);
    }
}

} // verus!
