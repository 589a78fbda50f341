//! The pool: what a query is answered with, in front of the upstreams.
//!
//! A fresh cache hit is answered at once; one in the last tenth of its life also
//! has its entry refreshed in the background. An expired entry is refreshed while
//! the client waits for a short time, and is served stale where the refresh does
//! not come through. At most one refresh of a question runs at a time.

use vstd::prelude::*;

use crate::dns;
use crate::dns::{Message, Query, Response, ResponseCode};
use crate::metrics;
use crate::metrics::{Counters, Metrics};
use crate::upstream::cache;
use crate::upstream::cache::{
    CacheEntry, CacheLookup, CachedResponse, Key, KeyModel, StaleCache, Store,
};
use crate::upstream::CacheStatus;

verus! {

/// RFC 8767 client-response timer, in milliseconds: where the refresh of an
/// expired entry has not come back within it, the stale answer is served.
pub const CLIENT_RESPONSE_TIMEOUT_MS: u64 = 1800;

/// What to do with a query.
#[derive(Debug)]
pub enum Action {
    /// Answer with `response`; where `refresh` is set, also refresh the question
    /// in the background.
    Answer { response: Response, status: CacheStatus, refresh: bool },
    /// Refresh the question, wait for [`CLIENT_RESPONSE_TIMEOUT_MS`] at most, and
    /// settle with what came ([`settle`]).
    Await { stale: Response },
    /// Ask the upstreams, and pass the reply to [`Pool::resolve_and_cache`].
    Ask(CacheStatus),
}

/// What became of a refresh that a client waits for.
#[derive(Debug)]
pub enum Refresh {
    /// A fresh answer came in time.
    Fresh(Response),
    /// Every upstream failed, or the refresh broke.
    Failed,
    /// The timer fired first.
    TimedOut,
}

/// The response that a cached entry is rebuilt into.
pub open spec fn rebuilt(c: CachedResponse, r: Response) -> bool {
    &&& r.rcode == c.response_code
    &&& !r.authentic
    &&& r.answers == c.answers
    &&& r.authority == c.authority
    &&& r.additionals@.len() == 0
}

/// Whether a cached response carries neither an answer nor an authority.
pub open spec fn blank(c: CachedResponse) -> bool {
    c.answers@.len() == 0 && c.authority@.len() == 0
}

/// Rebuilds a response from a cached entry: the answer section of a positive hit,
/// or the response code and authority SOA of a negative one. Nothing for an entry
/// that carries neither.
pub fn build_cached_response(response: CachedResponse) -> (r: Option<Response>)
    ensures
        match r {
            Some(m) => !blank(response) && rebuilt(response, m),
            None => blank(response),
        },
{
    if response.answers.len() == 0 && response.authority.len() == 0 {
        return None;
    }
    Some(
        Response {
            rcode: response.response_code,
            authentic: false,
            answers: response.answers,
            authority: response.authority,
            additionals: Vec::new(),
        },
    )
}

/// The keys of a list.
pub open spec fn key_models(v: Seq<Key>) -> Seq<KeyModel> {
    Seq::new(v.len(), |i: int| cache::key_model(v[i]))
}

/// The questions with a refresh in flight, each once.
pub struct InFlight {
    keys: Vec<Key>,
}

impl View for InFlight {
    type V = Seq<KeyModel>;

    closed spec fn view(&self) -> Seq<KeyModel> {
        key_models(self.keys@)
    }
}

impl InFlight {
    /// No question has two refreshes in flight.
    #[verifier::type_invariant]
    closed spec fn wf(self) -> bool {
        key_models(self.keys@).no_duplicates()
    }

    /// No refresh in flight.
    pub fn new() -> (r: Self)
        ensures
            r@.len() == 0,
    {
        InFlight { keys: Vec::new() }
    }

    fn position(&self, key: &Key) -> (r: Option<usize>)
        ensures
            match r {
                Some(i) => i < self@.len() && self@[i as int] == cache::key_model(*key),
                None => !self@.contains(cache::key_model(*key)),
            },
    {
        let mut i: usize = 0;
        while i < self.keys.len()
            invariant
                0 <= i <= self.keys@.len(),
                forall|j: int| 0 <= j < i ==> #[trigger] self@[j] != cache::key_model(*key),
            decreases self.keys@.len() - i,
        {
            if cache::same_key(&self.keys[i], key) {
                return Some(i);
            }
            i = i + 1;
        }
        None
    }

    /// Adds a question. Refused where it is there.
    pub fn claim(&mut self, question: &Query) -> (r: bool)
        ensures
            r == !old(self)@.contains(cache::key_of(*question)),
            final(self)@ == (if r {
                old(self)@.push(cache::key_of(*question))
            } else {
                old(self)@
            }),
            final(self)@.no_duplicates(),
    {
        proof {
            use_type_invariant(&*self);
        }
        let key = cache::question_key(question);
        match self.position(&key) {
            Some(_) => {
                return false;
            },
            None => {},
        }
        let ghost before = self@;
        let mut keys: Vec<Key> = Vec::new();
        std::mem::swap(&mut self.keys, &mut keys);
        keys.push(key);
        assert(key_models(keys@) =~= before.push(cache::key_of(*question)));
        self.keys = keys;
        true
    }

    /// Takes a question out, where it is there.
    pub fn release(&mut self, question: &Query)
        ensures
            !final(self)@.contains(cache::key_of(*question)),
            forall|k: KeyModel|
                k != cache::key_of(*question) ==> (#[trigger] final(self)@.contains(k)
                    <==> old(self)@.contains(k)),
            final(self)@.no_duplicates(),
    {
        proof {
            use_type_invariant(&*self);
        }
        let key = cache::question_key(question);
        match self.position(&key) {
            Some(i) => {
                let ghost before = self@;
                let mut keys: Vec<Key> = Vec::new();
                std::mem::swap(&mut self.keys, &mut keys);
                keys.remove(i);
                let ghost after = key_models(keys@);
                proof {
                    assert(after =~= before.remove(i as int));
                    removed_once(before, i as int);
                }
                self.keys = keys;
            },
            None => {},
        }
    }
}

/// A list without duplicates, with the member at a place removed, has every other
/// member and that one no more.
proof fn removed_once(v: Seq<KeyModel>, i: int)
    requires
        v.no_duplicates(),
        0 <= i < v.len(),
    ensures
        v.remove(i).no_duplicates(),
        !v.remove(i).contains(v[i]),
        forall|k: KeyModel|
            k != v[i] ==> (#[trigger] v.remove(i).contains(k) <==> v.contains(k)),
{
    let after = v.remove(i);
    assert forall|k: KeyModel| k != v[i] implies (#[trigger] after.contains(k) <==> v.contains(
        k,
    )) by {
        if v.contains(k) {
            let p = v.index_of(k);
            if p < i {
                assert(after[p] == k);
            } else {
                assert(after[p - 1] == k);
            }
        }
        if after.contains(k) {
            let p = after.index_of(k);
            if p < i {
                assert(v[p] == k);
            } else {
                assert(v[p + 1] == k);
            }
        }
    }
}

/// The pool's own state: the optional cache, and the questions with a refresh in
/// flight.
pub struct Pool {
    cache: Option<StaleCache>,
    in_flight: InFlight,
}

/// The counters after a hit.
pub open spec fn hit_counters(c: Counters, negative: bool, prefetched: bool) -> Counters {
    Counters {
        cache_hits: metrics::bump(c.cache_hits),
        negative_cache_hits: if negative {
            metrics::bump(c.negative_cache_hits)
        } else {
            c.negative_cache_hits
        },
        prefetches: if prefetched {
            metrics::bump(c.prefetches)
        } else {
            c.prefetches
        },
        ..c
    }
}

/// The counters after an expired entry was found; `served` where it is served
/// without waiting.
pub open spec fn stale_counters(c: Counters, negative: bool, served: bool) -> Counters {
    Counters {
        negative_cache_hits: if negative {
            metrics::bump(c.negative_cache_hits)
        } else {
            c.negative_cache_hits
        },
        served_stale: if served {
            metrics::bump(c.served_stale)
        } else {
            c.served_stale
        },
        ..c
    }
}

/// What is done with a cacheable query, by what the cache had for it; `free` says
/// that no refresh of the question is in flight.
pub open spec fn acts(looked: Option<CacheLookup>, free: bool, a: Action) -> bool {
    match looked {
        None => a == Action::Ask(CacheStatus::Miss),
        Some(CacheLookup::Fresh { response, prefetch }) => if blank(response) {
            a == Action::Ask(CacheStatus::Miss)
        } else {
            a matches Action::Answer { response: r, status, refresh } && rebuilt(response, r)
                && status == CacheStatus::Hit && refresh == (prefetch && free)
        },
        Some(CacheLookup::Stale(response)) => if blank(response) {
            a == Action::Ask(CacheStatus::Miss)
        } else if free {
            a matches Action::Await { stale } && rebuilt(response, stale)
        } else {
            a matches Action::Answer { response: r, status, refresh } && rebuilt(response, r)
                && status == CacheStatus::Stale && !refresh
        },
    }
}

/// Whether what the cache had leads to a refresh.
pub open spec fn refreshes(looked: Option<CacheLookup>, free: bool) -> bool {
    free && match looked {
        None => false,
        Some(CacheLookup::Fresh { response, prefetch }) => !blank(response) && prefetch,
        Some(CacheLookup::Stale(response)) => !blank(response),
    }
}

/// The counters after a cacheable query, by what the cache had for it.
pub open spec fn counts(looked: Option<CacheLookup>, free: bool, c: Counters) -> Counters {
    match looked {
        None => Counters { cache_misses: metrics::bump(c.cache_misses), ..c },
        Some(CacheLookup::Fresh { response, prefetch }) => if blank(response) {
            c
        } else {
            hit_counters(c, response.negative, prefetch && free)
        },
        Some(CacheLookup::Stale(response)) => if blank(response) {
            c
        } else {
            stale_counters(c, response.negative, !free)
        },
    }
}

/// What the cache may have for a question at `now`.
pub open spec fn may_find(c: StaleCache, q: Query, now: u64, looked: Option<CacheLookup>) -> bool {
    looked is Some ==> c.entries().contains_key(cache::key_of(q)) && cache::looked_up(
        c.entries()[cache::key_of(q)],
        now,
        c.window(),
        looked,
    )
}

/// What of an upstream response is stored.
pub enum Stored {
    Positive,
    Negative,
    Nothing,
}

/// What of an upstream response is stored: an answer without error whole, a
/// denial with its SOA, nothing else.
pub open spec fn stored(r: Response) -> Stored {
    if r.rcode == ResponseCode::NoError && r.answers@.len() > 0 {
        Stored::Positive
    } else if (r.rcode == ResponseCode::NXDomain || r.rcode == ResponseCode::NoError)
        && cache::soa_only(r.authority@).len() > 0 {
        Stored::Negative
    } else {
        Stored::Nothing
    }
}

/// `e` is the entry that is stored for an upstream response.
pub open spec fn stored_entry(r: Response, now: u64, e: CacheEntry) -> bool {
    match stored(r) {
        Stored::Positive => cache::positive_entry(e, e.answers@, now) && dns::same_records(
            e.answers@,
            r.answers@,
        ),
        Stored::Negative => cache::negative_entry(e, r.rcode, e.authority@, now)
            && dns::same_records(e.authority@, cache::soa_only(r.authority@)),
        Stored::Nothing => false,
    }
}

impl Pool {
    /// The cache, where there is one.
    pub closed spec fn caching(&self) -> Option<StaleCache> {
        self.cache
    }

    /// The questions with a refresh in flight.
    pub closed spec fn refreshing(&self) -> Seq<KeyModel> {
        self.in_flight@
    }

    /// Whether no refresh of a question is in flight.
    pub open spec fn free(&self, q: Query) -> bool {
        !self.refreshing().contains(cache::key_of(q))
    }

    /// A pool over an optional store (none where caching is disabled). Without
    /// serve-stale the stale window is zero, so that an expired entry is never
    /// served.
    pub fn from_parts(store: Option<Store>, serve_stale: bool) -> (r: Self)
        ensures
            r.refreshing().len() == 0,
            match store {
                Some(s) => r.caching() matches Some(c) && c.entries() == cache::written(s)
                    && c.window() == (if serve_stale {
                    cache::STALE_MAX_WINDOW
                } else {
                    0
                }),
                None => r.caching() is None,
            },
    {
        let window: u64 = if serve_stale {
            cache::STALE_MAX_WINDOW
        } else {
            0
        };
        let c: Option<StaleCache> = match store {
            Some(s) => Some(StaleCache::new(s, window)),
            None => None,
        };
        Pool { cache: c, in_flight: InFlight::new() }
    }

    /// Claims the refresh slot of a question. Refused where a refresh is in
    /// flight.
    pub fn try_claim_refresh(&mut self, question: &Query) -> (r: bool)
        ensures
            final(self).refreshing().no_duplicates(),
            final(self).caching() == old(self).caching(),
            r == old(self).free(*question),
            final(self).refreshing() == (if r {
                old(self).refreshing().push(cache::key_of(*question))
            } else {
                old(self).refreshing()
            }),
    {
        self.in_flight.claim(question)
    }

    /// Frees the refresh slot of a question.
    pub fn release_refresh(&mut self, question: &Query)
        ensures
            final(self).refreshing().no_duplicates(),
            final(self).caching() == old(self).caching(),
            final(self).free(*question),
            forall|k: KeyModel|
                k != cache::key_of(*question) ==> (#[trigger] final(self).refreshing().contains(k)
                    <==> old(self).refreshing().contains(k)),
    {
        self.in_flight.release(question)
    }

    /// What to do with a cacheable query, by what the cache had for its question.
    pub fn decide(
        &mut self,
        question: &Query,
        looked: Option<CacheLookup>,
        metrics: &mut Metrics,
    ) -> (r: Action)
        ensures
            final(self).refreshing().no_duplicates(),
            final(self).caching() == old(self).caching(),
            acts(looked, old(self).free(*question), r),
            final(self).refreshing() == (if refreshes(looked, old(self).free(*question)) {
                old(self).refreshing().push(cache::key_of(*question))
            } else {
                old(self).refreshing()
            }),
            final(metrics)@ == metrics::with_counters(
                old(metrics)@,
                counts(looked, old(self).free(*question), old(metrics)@.c),
            ),
    {
        proof {
            use_type_invariant(&self.in_flight);
        }
        match looked {
            None => {
                metrics.inc_cache_miss();
                Action::Ask(CacheStatus::Miss)
            },
            Some(CacheLookup::Fresh { response, prefetch }) => {
                let negative = response.negative;
                match build_cached_response(response) {
                    Some(resp) => {
                        metrics.inc_cache_hit();
                        if negative {
                            metrics.inc_negative_cache_hit();
                        }
                        let refresh: bool = prefetch && self.try_claim_refresh(question);
                        if refresh {
                            metrics.inc_prefetch();
                        }
                        Action::Answer { response: resp, status: CacheStatus::Hit, refresh }
                    },
                    None => Action::Ask(CacheStatus::Miss),
                }
            },
            Some(CacheLookup::Stale(response)) => {
                let negative = response.negative;
                match build_cached_response(response) {
                    Some(stale) => {
                        if negative {
                            metrics.inc_negative_cache_hit();
                        }
                        if self.try_claim_refresh(question) {
                            Action::Await { stale }
                        } else {
                            metrics.inc_served_stale();
                            Action::Answer {
                                response: stale,
                                status: CacheStatus::Stale,
                                refresh: false,
                            }
                        }
                    },
                    None => Action::Ask(CacheStatus::Miss),
                }
            },
        }
    }

    /// What to do with a query at `now`. One that may not be cached, or that
    /// finds no cache, goes to the upstreams; another is decided by what the cache
    /// has for its question.
    pub fn resolve_observed(&mut self, query: &Message, now: u64, metrics: &mut Metrics) -> (r:
        Action)
        ensures
            final(self).refreshing().no_duplicates(),
            final(self).caching() == old(self).caching(),
            match old(self).caching() {
                Some(c) => if cache::cacheable(*query) {
                    exists|looked: Option<CacheLookup>|
                        {
                            &&& #[trigger] may_find(c, query.queries@[0], now, looked)
                            &&& acts(looked, old(self).free(query.queries@[0]), r)
                            &&& final(self).refreshing() == (if refreshes(
                                looked,
                                old(self).free(query.queries@[0]),
                            ) {
                                old(self).refreshing().push(cache::key_of(query.queries@[0]))
                            } else {
                                old(self).refreshing()
                            })
                            &&& final(metrics)@ == metrics::with_counters(
                                old(metrics)@,
                                counts(
                                    looked,
                                    old(self).free(query.queries@[0]),
                                    old(metrics)@.c,
                                ),
                            )
                        }
                } else {
                    r == Action::Ask(CacheStatus::Uncached) && final(self).refreshing() == old(
                        self,
                    ).refreshing() && final(metrics)@ == old(metrics)@
                },
                None => r == Action::Ask(CacheStatus::Uncached) && final(self).refreshing() == old(
                    self,
                ).refreshing() && final(metrics)@ == old(metrics)@,
            },
    {
        proof {
            use_type_invariant(&self.in_flight);
        }
        let question = match cache::cacheable_question(query) {
            Some(q) => q,
            None => {
                return Action::Ask(CacheStatus::Uncached);
            },
        };
        let looked: Option<CacheLookup> = match &self.cache {
            Some(c) => c.get(&question, now),
            None => {
                return Action::Ask(CacheStatus::Uncached);
            },
        };
        assert(may_find(old(self).caching()->0, query.queries@[0], now, looked));
        self.decide(&question, looked, metrics)
    }

    /// Takes the upstreams' reply to a query: counts the failure where there is
    /// none, and otherwise stores what may be stored. The reply is handed back.
    pub fn resolve_and_cache(
        &mut self,
        query: &Message,
        reply: Option<Response>,
        now: u64,
        metrics: &mut Metrics,
    ) -> (r: Option<Response>)
        ensures
            r == reply,
            final(self).refreshing() == old(self).refreshing(),
            final(metrics)@ == (if reply is None {
                metrics::with_counters(
                    old(metrics)@,
                    (Counters {
                        upstream_failed: metrics::bump(old(metrics)@.c.upstream_failed),
                        ..old(metrics)@.c
                    }),
                )
            } else {
                old(metrics)@
            }),
            match (old(self).caching(), final(self).caching()) {
                (Some(before), Some(after)) => {
                    &&& after.window() == before.window()
                    &&& if cache::cacheable(*query) && reply is Some && !(stored(
                        reply->0,
                    ) is Nothing) {
                        exists|e: CacheEntry| #[trigger]
                            stored_entry(reply->0, now, e) && after.entries()
                                == before.entries().insert(
                                cache::key_of(query.queries@[0]),
                                e,
                            )
                    } else {
                        after.entries() == before.entries()
                    }
                },
                (None, None) => true,
                _ => false,
            },
    {
        let resp = match reply {
            Some(resp) => resp,
            None => {
                metrics.inc_upstream_failed();
                return None;
            },
        };
        let question = match cache::cacheable_question(query) {
            Some(q) => q,
            None => {
                return Some(resp);
            },
        };
        let ghost key = cache::key_of(query.queries@[0]);
        match &mut self.cache {
            Some(c) => {
                let ghost before = c.entries();
                match resp.rcode {
                    ResponseCode::NoError if resp.answers.len() > 0 => {
                        let answers = dns::copy_records(&resp.answers);
                        let ghost a = answers@;
                        c.insert(&question, answers, now);
                        proof {
                            let e = choose|e: CacheEntry| #[trigger]
                                cache::positive_entry(e, a, now) && c.entries() == before.insert(
                                    key,
                                    e,
                                );
                            assert(stored_entry(resp, now, e));
                        }
                    },
                    ResponseCode::NoError | ResponseCode::NXDomain => {
                        let soa = cache::negative_soa(&resp);
                        if soa.len() > 0 {
                            let ghost s = soa@;
                            c.insert_negative(&question, resp.rcode, soa, now);
                            proof {
                                let e = choose|e: CacheEntry| #[trigger]
                                    cache::negative_entry(e, resp.rcode, s, now) && c.entries()
                                        == before.insert(key, e);
                                assert(stored_entry(resp, now, e));
                            }
                        }
                    },
                    _ => {},
                }
            },
            None => {},
        }
        Some(resp)
    }
}

/// Settles a query that waited for a refresh with a stale answer at hand: with
/// the fresh answer, which the upstreams gave, where it came in time, else with the
/// stale one.
pub fn settle(stale: Response, refresh: Refresh, metrics: &mut Metrics) -> (r: (
    Response,
    CacheStatus,
))
    ensures
        r.0 == (match refresh {
            Refresh::Fresh(fresh) => fresh,
            _ => stale,
        }),
        r.1 == (if refresh is Fresh {
            CacheStatus::Miss
        } else {
            CacheStatus::Stale
        }),
        final(metrics)@ == (if refresh is Fresh {
            old(metrics)@
        } else {
            metrics::with_counters(
                old(metrics)@,
                (Counters {
                    served_stale: metrics::bump(old(metrics)@.c.served_stale),
                    ..old(metrics)@.c
                }),
            )
        }),
{
    match refresh {
        Refresh::Fresh(fresh) => (fresh, CacheStatus::Miss),
        Refresh::Failed | Refresh::TimedOut => {
            metrics.inc_served_stale();
            (stale, CacheStatus::Stale)
        },
    }
}

} // verus!
