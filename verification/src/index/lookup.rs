//! Searches from request to answer.

use crate::index::cache::CacheKey;
use crate::index::manager::{CachedSearch, IndexManager};
use crate::index::search::{copy_matches, normalize_query, IndexedMatch};
use crate::index::status::{empty_status, IndexState, IndexStatus, IndexedSearch};
use crate::text::is_empty_text;
use vstd::prelude::*;

verus! {

/// A search that has to read the database.
#[derive(Debug)]
pub struct SearchRun {
    pub key: CacheKey,
    pub status: IndexStatus,
}

/// How a search goes on.
#[derive(Debug)]
pub enum SearchBegin {
    Refused(String),
    Answered(IndexedSearch),
    Run(SearchRun),
}

/// How many matches a search may return: at least one is asked for, and no
/// more than the configured number given.
pub open spec fn effective_limit(limit: u32, max_results: u32) -> u32 {
    let wanted = if limit < 1 {
        1
    } else {
        limit
    };
    if wanted > max_results {
        max_results
    } else {
        wanted
    }
}

/// The generation that a search reads: the active one or, unless one is just
/// being promoted, whichever is stored.
pub open spec fn generation_for(status: IndexStatus, stored: Option<u64>) -> Option<u64> {
    if status.active_generation > 0 {
        Some(status.active_generation)
    } else if status.state == IndexState::Promoting {
        None
    } else {
        stored
    }
}

pub open spec fn search_key(
    server: Seq<char>,
    generation: u64,
    query: Seq<char>,
    mode: i32,
    limit: u32,
) -> crate::index::cache::KeyView {
    crate::index::cache::KeyView {
        server,
        generation,
        query: crate::index::search::normalized(query),
        mode,
        limit,
    }
}

impl IndexManager {
    /// Whether a search can be answered from the cache: only answers about the
    /// active generation are.
    pub open spec fn answers_from_cache(
        self,
        status: IndexStatus,
        key: crate::index::cache::KeyView,
    ) -> bool {
        status.active_generation == key.generation && self.cache.holds(key)
    }

    /// How a search starts, and what it makes of the manager.
    pub open spec fn begins(
        before: Self,
        after: Self,
        server: Seq<char>,
        query: Seq<char>,
        mode: i32,
        limit: u32,
        status: IndexStatus,
        stored: Option<u64>,
        begin: SearchBegin,
    ) -> bool {
        let empty = crate::index::search::normalized(query).len() == 0;
        let known = before.configures(server);
        let generation = generation_for(status, stored);
        let key = search_key(
            server,
            generation->0,
            query,
            mode,
            effective_limit(limit, before.settings.max_results),
        );
        let cached = before.answers_from_cache(status, key);
        &&& after == (IndexManager { cache: after.cache, ..before })
        &&& after.cache.capacity == before.cache.capacity
        &&& begin is Refused <==> empty
        &&& begin matches SearchBegin::Refused(message) ==> message@
            == "search query must not be empty"@
        &&& begin is Run <==> !empty && known && generation is Some && !cached
        &&& begin matches SearchBegin::Run(run) ==> run.key@ == key && run.status == status
        &&& begin matches SearchBegin::Answered(answer) ==> if !known {
            &&& answer.matches@.len() == 0
            &&& !answer.has_more
            &&& answer.status@ == crate::index::status::blank(
                server,
                false,
                IndexState::NotIndexed,
            )
        } else if generation is None {
            answer.matches@.len() == 0 && !answer.has_more && answer.status == status
        } else {
            &&& answer.status == status
            &&& exists|i: int|
                crate::index::cache::keyed(before.cache.entries@, i, key)
                    && crate::index::search::same_matches(
                    answer.matches@,
                    (#[trigger] before.cache.entries@[i]).1.matches@,
                ) && answer.has_more == before.cache.entries@[i].1.has_more
                    && after.cache.entries@ == crate::index::cache::without(
                    before.cache.entries@,
                    key,
                ).push(before.cache.entries@[i])
        }
        &&& empty || !known || generation is None || !cached ==> after.cache.entries@
            == before.cache.entries@
    }

    /// Starts a search. `stored` is the generation that searches would read
    /// according to the database. An answer from the cache becomes the most
    /// recently used one.
    pub fn begin_search(
        &mut self,
        server: &str,
        query: &str,
        mode: i32,
        limit: u32,
        status: IndexStatus,
        stored: Option<u64>,
    ) -> (begin: SearchBegin)
        requires
            old(self).wf(),
        ensures
            final(self).wf(),
            Self::begins(
                *old(self),
                *final(self),
                server@,
                query@,
                mode,
                limit,
                status,
                stored,
                begin,
            ),
    {
        let normalized_query = normalize_query(query);
        if is_empty_text(normalized_query.as_str()) {
            return SearchBegin::Refused("search query must not be empty".to_owned());
        }
        if !self.is_configured(server) {
            return SearchBegin::Answered(
                IndexedSearch {
                    matches: Vec::new(),
                    has_more: false,
                    status: empty_status(server, false, IndexState::NotIndexed),
                },
            );
        }
        let wanted: u32 = if limit < 1 {
            1
        } else {
            limit
        };
        let limit: u32 = if wanted > self.settings.max_results {
            self.settings.max_results
        } else {
            wanted
        };
        let generation: Option<u64> = if status.active_generation > 0 {
            Some(status.active_generation)
        } else if status.state == IndexState::Promoting {
            None
        } else {
            stored
        };
        let generation: u64 = match generation {
            Some(generation) => generation,
            None => {
                return SearchBegin::Answered(
                    IndexedSearch { matches: Vec::new(), has_more: false, status },
                );
            },
        };
        let key = CacheKey {
            server: server.to_owned(),
            generation,
            query: normalized_query,
            mode,
            limit,
        };
        if status.active_generation == generation {
            if let Some(cached) = self.cache.get(&key) {
                let matches = copy_matches(&cached.matches);
                let has_more = cached.has_more;
                return SearchBegin::Answered(IndexedSearch { matches, has_more, status });
            }
        }
        SearchBegin::Run(SearchRun { key, status })
    }

    /// How a search ends that has read the database, and what it makes of the
    /// manager.
    pub open spec fn finishes(
        before: Self,
        after: Self,
        run: SearchRun,
        matches: Seq<IndexedMatch>,
        answer: IndexedSearch,
    ) -> bool {
        &&& after == (IndexManager { cache: after.cache, ..before })
        &&& after.cache.capacity == before.cache.capacity
        &&& answer.status == run.status
        &&& answer.has_more == (matches.len() > run.key.limit)
        &&& answer.matches@ == (if matches.len() > run.key.limit {
            matches.take(run.key.limit as int)
        } else {
            matches
        })
        &&& run.status.active_generation != run.key.generation ==> after.cache.entries@
            == before.cache.entries@
        &&& run.status.active_generation == run.key.generation ==> exists|value: CachedSearch|
            crate::index::search::same_matches(value.matches@, answer.matches@)
                && value.has_more == answer.has_more && after.cache.entries@
                == crate::index::cache::newest_of(
                crate::index::cache::without(before.cache.entries@, run.key@).push(
                    #[trigger] entry(run.key, value),
                ),
                before.cache.capacity as nat,
            )
    }

    /// Ends a search that has read the database: what exceeds the limit is cut
    /// off, and an answer about the active generation is remembered.
    pub fn finish_search(&mut self, run: SearchRun, matches: Vec<IndexedMatch>) -> (answer:
        IndexedSearch)
        requires
            old(self).wf(),
        ensures
            final(self).wf(),
            Self::finishes(*old(self), *final(self), run, matches@, answer),
    {
        let mut matches = matches;
        let limit: usize = run.key.limit as usize;
        let has_more = matches.len() > limit;
        if has_more {
            matches.truncate(limit);
        }
        if run.status.active_generation == run.key.generation {
            let value = CachedSearch { matches: copy_matches(&matches), has_more };
            let ghost cached = entry(run.key, value);
            self.cache.insert(run.key, value);
        }
        IndexedSearch { matches, has_more, status: run.status }
    }

    /// Forgets every answer about a server.
    pub fn forget_answers(&mut self, server: &str)
        requires
            old(self).wf(),
        ensures
            final(self).wf(),
            *final(self) == (IndexManager { cache: final(self).cache, ..*old(self) }),
            final(self).cache.capacity == old(self).cache.capacity,
            final(self).cache.entries@ == crate::index::cache::of_others(
                old(self).cache.entries@,
                server@,
            ),
    {
        self.cache.clear_server(server);
    }
}

pub open spec fn entry(key: CacheKey, value: CachedSearch) -> (CacheKey, CachedSearch) {
    (key, value)
}

/// A search never returns more than the configured number of matches, nor more
/// than asked for, unless nothing was asked for.
pub proof fn limit_is_kept(limit: u32, max_results: u32)
    ensures
        effective_limit(limit, max_results) <= max_results,
        limit >= 1 ==> effective_limit(limit, max_results) <= limit,
        max_results >= 1 ==> effective_limit(limit, max_results) >= 1,
{
}

/// A search that is repeated while its generation stays active is answered
/// without reading the database, with the same matches.
pub proof fn repeated_search_is_answered_alike(
    idle: IndexManager,
    begun: IndexManager,
    done: IndexManager,
    again: IndexManager,
    server: Seq<char>,
    query: Seq<char>,
    mode: i32,
    limit: u32,
    status: IndexStatus,
    stored: Option<u64>,
    first: SearchBegin,
    matches: Seq<IndexedMatch>,
    answer: IndexedSearch,
    later: IndexStatus,
    second: SearchBegin,
)
    requires
        done.wf(),
        IndexManager::begins(
            idle,
            begun,
            server,
            query,
            mode,
            limit,
            status,
            stored,
            first,
        ),
        first matches SearchBegin::Run(run) && IndexManager::finishes(
            begun,
            done,
            run,
            matches,
            answer,
        ),
        status.active_generation > 0,
        later.active_generation == status.active_generation,
        IndexManager::begins(
            done,
            again,
            server,
            query,
            mode,
            limit,
            later,
            stored,
            second,
        ),
    ensures
        second matches SearchBegin::Answered(repeated) && crate::index::search::same_matches(
            repeated.matches@,
            answer.matches@,
        ) && repeated.has_more == answer.has_more && repeated.status == later,
{
    let run = first->Run_0;
    let key = run.key@;
    let kept = done.cache.entries@;
    let value = choose|value: CachedSearch|
        crate::index::search::same_matches(value.matches@, answer.matches@) && value.has_more
            == answer.has_more && kept == crate::index::cache::newest_of(
            crate::index::cache::without(begun.cache.entries@, key).push(
                #[trigger] entry(run.key, value),
            ),
            begun.cache.capacity as nat,
        );
    crate::index::cache::inserted_is_found(begun.cache, done.cache, run.key, value);
    let at = kept.len() - 1;
    assert(crate::index::cache::keyed(kept, at, key));
    assert(done.answers_from_cache(later, key));
    let repeated = second->Answered_0;
    let i = choose|i: int|
        crate::index::cache::keyed(kept, i, key) && crate::index::search::same_matches(
            repeated.matches@,
            (#[trigger] kept[i]).1.matches@,
        ) && repeated.has_more == kept[i].1.has_more && again.cache.entries@
            == crate::index::cache::without(kept, key).push(kept[i]);
    if i != at {
        assert(kept[i].0@ != kept[at].0@);
    }
    assert(kept[at] == (run.key, value));
}

/// A search gives as many results as were asked for, at least one, and never
/// more than are allowed.
pub proof fn limits_are_what_was_asked_for(limit: u32, max_results: u32)
    ensures
        1 <= limit <= max_results ==> effective_limit(limit, max_results) == limit,
        limit > max_results ==> effective_limit(limit, max_results) == max_results,
        limit == 0 && max_results >= 1 ==> effective_limit(limit, max_results) == 1,
{
}

/// A search goes to the active generation. Where there is none it goes to what is
/// stored, and nowhere while a generation is being promoted.
pub proof fn searches_go_to_the_active_generation(status: IndexStatus, stored: Option<u64>)
    ensures
        status.active_generation > 0 ==> generation_for(status, stored) == Some(
            status.active_generation,
        ),
        status.active_generation == 0 && status.state is Promoting ==> generation_for(
            status,
            stored,
        ) is None,
        status.active_generation == 0 && !(status.state is Promoting) ==> generation_for(
            status,
            stored,
        ) == stored,
{
}

/// A search that asks for something is run on the active generation of its
/// server, for the query as it counts, in its mode and with its limit; or it is
/// answered by what the same search has found there before. A server that is not
/// configured has no answers, and a blank query is refused.
pub proof fn searches_run_as_asked(
    before: IndexManager,
    after: IndexManager,
    server: Seq<char>,
    query: Seq<char>,
    mode: i32,
    limit: u32,
    status: IndexStatus,
    stored: Option<u64>,
    begin: SearchBegin,
)
    requires
        IndexManager::begins(
            before,
            after,
            server,
            query,
            mode,
            limit,
            status,
            stored,
            begin,
        ),
        1 <= limit <= before.settings.max_results,
    ensures
        crate::text::is_blank(query) ==> begin is Refused,
        begin matches SearchBegin::Run(run) ==> {
            &&& before.configures(server)
            &&& run.key.server@ == server
            &&& run.key.query@ == crate::index::search::normalized(query)
            &&& run.key.mode == mode
            &&& run.key.limit == limit
            &&& status.active_generation > 0 ==> run.key.generation == status.active_generation
            &&& status.active_generation == 0 ==> stored == Some(run.key.generation)
            &&& run.status == status
        },
        begin matches SearchBegin::Answered(answer) ==> {
            &&& !before.configures(server) ==> answer.matches@.len() == 0 && !answer.has_more
                && !answer.status.configured
            &&& before.configures(server) ==> answer.status == status
            &&& before.configures(server) && status.active_generation == 0 && stored is None
                ==> answer.matches@.len() == 0 && !answer.has_more
            &&& before.configures(server) && status.active_generation > 0 ==> exists|i: int|
                0 <= i < before.cache.entries@.len() && {
                    let known = #[trigger] before.cache.entries@[i];
                    &&& known.0.server@ == server
                    &&& known.0.query@ == crate::index::search::normalized(query)
                    &&& known.0.generation == status.active_generation
                    &&& known.0.mode == mode
                    &&& known.0.limit == limit
                    &&& crate::index::search::same_matches(answer.matches@, known.1.matches@)
                    &&& answer.has_more == known.1.has_more
                }
        },
        before.configures(server) && crate::index::search::normalized(query).len() > 0
            && status.active_generation > 0 && before.cache.entries@.len() == 0 ==> begin is Run,
{
    if crate::text::is_blank(query) {
        crate::index::search::blank_queries_are_empty(query);
    }
}

/// The answer of a search is what was found, up to its limit; whether there is
/// more is told by whether more was found. Answers are remembered only for the
/// active generation.
pub proof fn answers_are_cut_at_the_limit(
    before: IndexManager,
    after: IndexManager,
    run: SearchRun,
    matches: Seq<IndexedMatch>,
    answer: IndexedSearch,
)
    requires
        IndexManager::finishes(before, after, run, matches, answer),
    ensures
        matches.len() <= run.key.limit ==> answer.matches@ == matches && !answer.has_more,
        matches.len() > run.key.limit ==> answer.matches@.len() == run.key.limit && answer.has_more
            && forall|i: int|
            0 <= i < run.key.limit ==> #[trigger] answer.matches@[i] == matches[i],
        answer.status == run.status,
        run.status.active_generation != run.key.generation ==> after.cache.entries@
            == before.cache.entries@,
{
}

/// Beginning and finishing a search change nothing but what is remembered of
/// searches, and not how much may be. A search that is not answered from memory
/// leaves even that as it was.
pub proof fn searches_change_nothing_else(
    before: IndexManager,
    begun: IndexManager,
    done: IndexManager,
    server: Seq<char>,
    query: Seq<char>,
    mode: i32,
    limit: u32,
    status: IndexStatus,
    stored: Option<u64>,
    begin: SearchBegin,
    matches: Seq<IndexedMatch>,
    answer: IndexedSearch,
)
    requires
        IndexManager::begins(
            before,
            begun,
            server,
            query,
            mode,
            limit,
            status,
            stored,
            begin,
        ),
        begin matches SearchBegin::Run(run) && IndexManager::finishes(
            begun,
            done,
            run,
            matches,
            answer,
        ),
    ensures
        begun == (IndexManager { cache: begun.cache, ..before }),
        begun.cache.entries@ == before.cache.entries@,
        begun.cache.capacity == before.cache.capacity,
        done == (IndexManager { cache: done.cache, ..before }),
        done.cache.capacity == before.cache.capacity,
{
}

} // verus!
