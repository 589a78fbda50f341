//! The response cache, which retains expired answers for a stale window
//! (RFC 8767).
//!
//! Positive answers are stored whole, under the single question, with a deadline
//! of their least TTL (at most [`MAX_TTL`]). Negative answers (RFC 2308) store
//! their response code and the authority-section SOA, with a deadline of
//! `min(SOA TTL, SOA MINIMUM)`, at most [`NEG_MAX_TTL`].
//!
//! Instants are nanoseconds since some fixed moment.

use std::sync::Arc;

use vstd::prelude::*;

use crate::dns;
use crate::dns::{Message, Query, RData, Record, Response, ResponseCode};
use crate::text;

verus! {

/// Upper bound that a cached TTL is clamped to (one day).
pub const MAX_TTL: u32 = 86_400;

/// Upper bound on a negative-cache TTL.
pub const NEG_MAX_TTL: u32 = 3_600;

/// TTL stamped on a stale answer (RFC 8767, section 4): short, so that the client
/// asks again soon.
pub const STALE_SERVE_TTL: u32 = 30;

/// How long an answer may be served past its TTL: one day, in nanoseconds.
pub const STALE_MAX_WINDOW: u64 = 86_400_000_000_000;

// ---------------------------------------------------------------------------
// Keys
// ---------------------------------------------------------------------------

/// The key of a question: its name in lower case, its type and its class.
pub type Key = (String, u16, u16);

/// A key as mathematical values.
pub type KeyModel = (Seq<char>, u16, u16);

/// A key's mathematical values.
pub open spec fn key_model(k: Key) -> KeyModel {
    (k.0@, k.1, k.2)
}

/// The key of a question. Names that differ by case alone have one key.
pub open spec fn key_of(q: Query) -> KeyModel {
    (text::lower(q.name@), q.qtype.code_of(), q.qclass)
}

/// The key of a question.
pub fn question_key(q: &Query) -> (r: Key)
    ensures
        key_model(r) == key_of(*q),
{
    let v = text::to_chars(q.name.text.as_str());
    let l = text::lower_chars(v.as_slice());
    (text::from_chars(l.as_slice()), q.qtype.code(), q.qclass)
}

/// Whether two keys are the same.
pub fn same_key(a: &Key, b: &Key) -> (r: bool)
    ensures
        r == (key_model(*a) == key_model(*b)),
{
    text::same(a.0.as_str(), b.0.as_str()) && a.1 == b.1 && a.2 == b.2
}

/// Whether the answer to a query may be cached: the DO bit is clear, so that
/// DNSSEC-aware clients always get an untouched upstream answer, and there is
/// exactly one question.
pub open spec fn cacheable(m: Message) -> bool {
    &&& !(m.edns matches Some(e) && e.dnssec_ok)
    &&& m.queries@.len() == 1
}

/// The question that a query's answer is cached under, if it may be cached.
pub fn cacheable_question(query: &Message) -> (r: Option<Query>)
    ensures
        match r {
            Some(q) => cacheable(*query) && q == query.queries@[0],
            None => !cacheable(*query),
        },
{
    let dnssec_ok: bool = match query.edns {
        Some(e) => e.dnssec_ok,
        None => false,
    };
    if dnssec_ok || query.queries.len() != 1 {
        return None;
    }
    Some(query.queries[0].clone())
}

// ---------------------------------------------------------------------------
// Entries
// ---------------------------------------------------------------------------

/// A stored answer.
#[derive(Debug)]
pub struct CacheEntry {
    /// Positive answer section; empty for a negative entry.
    pub answers: Vec<Record>,
    /// Authority SOA that proves a negative answer; empty for a positive one.
    pub authority: Vec<Record>,
    /// The response code to rebuild.
    pub response_code: ResponseCode,
    /// When the entry was stored.
    pub fetched_at: u64,
    /// Freshness deadline.
    pub valid_until: u128,
}

/// A cache entry rendered back into the pieces of a response.
#[derive(Debug)]
pub struct CachedResponse {
    pub response_code: ResponseCode,
    /// True for a negative (NXDOMAIN or NODATA) entry.
    pub negative: bool,
    pub answers: Vec<Record>,
    pub authority: Vec<Record>,
}

/// What became of a lookup of an entry that is present.
#[derive(Debug)]
pub enum CacheLookup {
    /// Still within its TTL. `prefetch` is set in the last tenth of its life.
    Fresh { response: CachedResponse, prefetch: bool },
    /// Expired but within the stale window.
    Stale(CachedResponse),
}

/// Records that differ from others in nothing but the TTL, which is `ttl`.
pub open spec fn stamped(v: Seq<Record>, w: Seq<Record>, ttl: u32) -> bool {
    &&& v.len() == w.len()
    &&& forall|i: int|
        0 <= i < v.len() ==> {
            &&& (#[trigger] v[i]).ttl == ttl
            &&& v[i].name == w[i].name
            &&& v[i].rtype == w[i].rtype
            &&& v[i].data == w[i].data
            &&& v[i].wire@ == w[i].wire@
        }
}

/// A copy of some records, each with the given TTL.
pub fn stamp_ttl(answers: &Vec<Record>, ttl: u32) -> (r: Vec<Record>)
    ensures
        stamped(r@, answers@, ttl),
{
    let mut out: Vec<Record> = Vec::new();
    let mut i: usize = 0;
    while i < answers.len()
        invariant
            0 <= i <= answers@.len(),
            stamped(out@, answers@.take(i as int), ttl),
        decreases answers@.len() - i,
    {
        let mut r = answers[i].clone();
        r.ttl = ttl;
        out.push(r);
        i = i + 1;
    }
    assert(answers@.take(answers@.len() as int) =~= answers@);
    out
}

/// `c` is the entry as a response with the given TTL on every record.
pub open spec fn renders(c: CachedResponse, e: CacheEntry, ttl: u32) -> bool {
    &&& c.response_code == e.response_code
    &&& c.negative == (e.answers@.len() == 0)
    &&& stamped(c.answers@, e.answers@, ttl)
    &&& stamped(c.authority@, e.authority@, ttl)
}

impl CacheEntry {
    /// The entry as a response, with `ttl` on every record.
    pub fn to_response(&self, ttl: u32) -> (r: CachedResponse)
        ensures
            renders(r, *self, ttl),
    {
        CachedResponse {
            response_code: self.response_code,
            negative: self.answers.len() == 0,
            answers: stamp_ttl(&self.answers, ttl),
            authority: stamp_ttl(&self.authority, ttl),
        }
    }
}

/// How much of an entry's life is left, in nanoseconds.
pub open spec fn remaining(e: CacheEntry, now: u64) -> int {
    e.valid_until - now
}

/// How long an entry lives, in nanoseconds.
pub open spec fn lifetime(e: CacheEntry) -> int {
    if e.valid_until > e.fetched_at {
        e.valid_until - e.fetched_at
    } else {
        0
    }
}

/// Whether an entry is in the last tenth of a life that is not zero.
pub open spec fn prefetch_due(e: CacheEntry, now: u64) -> bool {
    lifetime(e) > 0 && remaining(e, now) * 10 <= lifetime(e)
}

/// What a lookup of an entry gives: until the deadline the entry with what is
/// left of its TTL in whole seconds, within the window behind it the entry with
/// the short stale TTL, and nothing later.
pub open spec fn looked_up(e: CacheEntry, now: u64, window: u64, r: Option<CacheLookup>) -> bool {
    if now <= e.valid_until {
        r matches Some(CacheLookup::Fresh { response, prefetch }) && renders(
            response,
            e,
            (remaining(e, now) / 1_000_000_000) as u32,
        ) && prefetch == prefetch_due(e, now)
    } else if now <= e.valid_until + window {
        r matches Some(CacheLookup::Stale(response)) && renders(response, e, STALE_SERVE_TTL)
    } else {
        r is None
    }
}

/// Looks an entry up at `now`, with the given stale window.
pub fn look(e: &CacheEntry, now: u64, stale_window: u64) -> (r: Option<CacheLookup>)
    ensures
        looked_up(*e, now, stale_window, r),
{
    let at: u128 = now as u128;
    if at <= e.valid_until {
        let left: u128 = e.valid_until - at;
        let total: u128 = if e.valid_until > e.fetched_at as u128 {
            e.valid_until - (e.fetched_at as u128)
        } else {
            0
        };
        let prefetch: bool = total > 0 && left <= total / 10;
        let secs: u32 = (left / 1_000_000_000) as u32;
        Some(CacheLookup::Fresh { response: e.to_response(secs), prefetch })
    } else if at - e.valid_until <= stale_window as u128 {
        Some(CacheLookup::Stale(e.to_response(STALE_SERVE_TTL)))
    } else {
        None
    }
}

// ---------------------------------------------------------------------------
// TTLs
// ---------------------------------------------------------------------------

/// The smaller of two numbers.
pub open spec fn lesser(a: u32, b: u32) -> u32 {
    if a < b {
        a
    } else {
        b
    }
}

fn smaller(a: u32, b: u32) -> (r: u32)
    ensures
        r == lesser(a, b),
{
    if a < b {
        a
    } else {
        b
    }
}

/// The least TTL of some records; none if there are none.
pub open spec fn least_of(v: Seq<Record>) -> Option<u32>
    decreases v.len(),
{
    if v.len() == 0 {
        None
    } else {
        match least_of(v.drop_last()) {
            Some(t) => Some(lesser(t, v.last().ttl)),
            None => Some(v.last().ttl),
        }
    }
}

/// The TTL of a positive entry: the least one of its records, at most
/// [`MAX_TTL`].
pub open spec fn positive_ttl(v: Seq<Record>) -> u32 {
    match least_of(v) {
        Some(t) => lesser(t, MAX_TTL),
        None => 0,
    }
}

/// The least `min(TTL, MINIMUM)` of the SOA records among some records.
pub open spec fn least_soa(v: Seq<Record>) -> Option<u32>
    decreases v.len(),
{
    if v.len() == 0 {
        None
    } else {
        match v.last().data {
            RData::Soa { minimum, .. } => {
                let here = lesser(v.last().ttl, minimum);
                match least_soa(v.drop_last()) {
                    Some(t) => Some(lesser(t, here)),
                    None => Some(here),
                }
            },
            _ => least_soa(v.drop_last()),
        }
    }
}

/// The TTL of a negative entry: `min(SOA TTL, SOA MINIMUM)`, at most
/// [`NEG_MAX_TTL`].
pub open spec fn negative_ttl(v: Seq<Record>) -> u32 {
    match least_soa(v) {
        Some(t) => lesser(t, NEG_MAX_TTL),
        None => 0,
    }
}

fn find_positive_ttl(v: &Vec<Record>) -> (r: u32)
    ensures
        r == positive_ttl(v@),
{
    let mut best: Option<u32> = None;
    let mut i: usize = 0;
    while i < v.len()
        invariant
            0 <= i <= v@.len(),
            best == least_of(v@.take(i as int)),
        decreases v@.len() - i,
    {
        assert(v@.take(i + 1).drop_last() =~= v@.take(i as int));
        let t: u32 = v[i].ttl;
        best = match best {
            Some(b) => Some(smaller(b, t)),
            None => Some(t),
        };
        i = i + 1;
    }
    assert(v@.take(v@.len() as int) =~= v@);
    match best {
        Some(t) => smaller(t, MAX_TTL),
        None => 0,
    }
}

fn find_negative_ttl(v: &Vec<Record>) -> (r: u32)
    ensures
        r == negative_ttl(v@),
{
    let mut best: Option<u32> = None;
    let mut i: usize = 0;
    while i < v.len()
        invariant
            0 <= i <= v@.len(),
            best == least_soa(v@.take(i as int)),
        decreases v@.len() - i,
    {
        assert(v@.take(i + 1).drop_last() =~= v@.take(i as int));
        match &v[i].data {
            RData::Soa { rname: _, minimum } => {
                let here: u32 = smaller(v[i].ttl, *minimum);
                best = match best {
                    Some(b) => Some(smaller(b, here)),
                    None => Some(here),
                };
            },
            _ => {},
        }
        i = i + 1;
    }
    assert(v@.take(v@.len() as int) =~= v@);
    match best {
        Some(t) => smaller(t, NEG_MAX_TTL),
        None => 0,
    }
}

/// `e` is the positive entry for some answers stored at `now`.
pub open spec fn positive_entry(e: CacheEntry, answers: Seq<Record>, now: u64) -> bool {
    &&& e.answers@ == answers
    &&& e.authority@.len() == 0
    &&& e.response_code == ResponseCode::NoError
    &&& e.fetched_at == now
    &&& e.valid_until == now + positive_ttl(answers) * 1_000_000_000
}

/// `e` is the negative entry for an SOA stored at `now`.
pub open spec fn negative_entry(
    e: CacheEntry,
    code: ResponseCode,
    soa: Seq<Record>,
    now: u64,
) -> bool {
    &&& e.answers@.len() == 0
    &&& e.authority@ == soa
    &&& e.response_code == code
    &&& e.fetched_at == now
    &&& e.valid_until == now + negative_ttl(soa) * 1_000_000_000
}

/// The entry of a positive answer.
pub fn positive(answers: Vec<Record>, now: u64) -> (r: CacheEntry)
    ensures
        positive_entry(r, answers@, now),
{
    let ttl: u32 = find_positive_ttl(&answers);
    CacheEntry {
        answers,
        authority: Vec::new(),
        response_code: ResponseCode::NoError,
        fetched_at: now,
        valid_until: (now as u128) + (ttl as u128) * 1_000_000_000,
    }
}

/// The entry of a negative answer.
pub fn negative(response_code: ResponseCode, soa: Vec<Record>, now: u64) -> (r: CacheEntry)
    ensures
        negative_entry(r, response_code, soa@, now),
{
    let ttl: u32 = find_negative_ttl(&soa);
    CacheEntry {
        answers: Vec::new(),
        authority: soa,
        response_code,
        fetched_at: now,
        valid_until: (now as u128) + (ttl as u128) * 1_000_000_000,
    }
}

/// The SOA records of some records, in order.
pub open spec fn soa_only(v: Seq<Record>) -> Seq<Record>
    decreases v.len(),
{
    if v.len() == 0 {
        v
    } else if v.last().data is Soa {
        soa_only(v.drop_last()).push(v.last())
    } else {
        soa_only(v.drop_last())
    }
}

/// The authority-section SOA records of a response, which prove a negative answer
/// and give its TTL.
pub fn negative_soa(resp: &Response) -> (r: Vec<Record>)
    ensures
        dns::same_records(r@, soa_only(resp.authority@)),
{
    let mut out: Vec<Record> = Vec::new();
    let mut i: usize = 0;
    while i < resp.authority.len()
        invariant
            0 <= i <= resp.authority@.len(),
            dns::same_records(out@, soa_only(resp.authority@.take(i as int))),
        decreases resp.authority@.len() - i,
    {
        assert(resp.authority@.take(i + 1).drop_last() =~= resp.authority@.take(i as int));
        let is_soa: bool = match &resp.authority[i].data {
            RData::Soa { rname: _, minimum: _ } => true,
            _ => false,
        };
        if is_soa {
            out.push(resp.authority[i].clone());
        }
        i = i + 1;
    }
    assert(resp.authority@.take(resp.authority@.len() as int) =~= resp.authority@);
    out
}

// ---------------------------------------------------------------------------
// The store
// ---------------------------------------------------------------------------

/// The concurrent cache that holds the entries.
pub type Store = moka::sync::Cache<Key, Arc<CacheEntry>>;

/// The concurrent cache of moka, whose contents only [`written`] speaks of.
#[verifier::external_type_specification]
#[verifier::external_body]
#[verifier::reject_recursive_types(K)]
#[verifier::reject_recursive_types(V)]
#[verifier::reject_recursive_types(S)]
pub struct ExCache<K, V, S>(moka::sync::Cache<K, V, S>);

/// The entry that was last written under each key of a store. The store may have
/// dropped any of them since.
pub uninterp spec fn written(
    c: moka::sync::Cache<(String, u16, u16), Arc<CacheEntry>>,
) -> Map<(Seq<char>, u16, u16), CacheEntry>;

/// `Cache::insert` of moka writes an entry under a key, in place of one that is
/// there. Whether and how long the store keeps it is left open.
#[verifier::external_body]
fn put(store: &mut Store, key: Key, entry: Arc<CacheEntry>)
    ensures
        written(*final(store)) == written(*old(store)).insert(key_model(key), *entry),
{
    store.insert(key, entry);
}

/// `Cache::get` of moka gives the entry that was last written under a key, or
/// nothing. That nothing comes is never ruled out: the store drops entries by its
/// capacity and at their expiry.
#[verifier::external_body]
fn fetch(store: &Store, key: &Key) -> (r: Option<Arc<CacheEntry>>)
    ensures
        r is Some ==> written(*store).contains_key(key_model(*key)) && *(r->0) == written(
            *store,
        )[key_model(*key)],
{
    store.get(key)
}

/// A response cache that retains expired answers for a stale window.
pub struct StaleCache {
    store: Store,
    /// How long past its deadline an entry may still be served, in nanoseconds.
    stale_window: u64,
}

impl StaleCache {
    /// The entry last written under each key.
    pub closed spec fn entries(&self) -> Map<KeyModel, CacheEntry> {
        written(self.store)
    }

    /// How long past its deadline an entry may be served, in nanoseconds.
    pub closed spec fn window(&self) -> u64 {
        self.stale_window
    }

    /// A cache over a store, with the given stale window.
    pub fn new(store: Store, stale_window: u64) -> (r: Self)
        ensures
            r.entries() == written(store),
            r.window() == stale_window,
    {
        StaleCache { store, stale_window }
    }

    /// Caches a positive answer.
    pub fn insert(&mut self, question: &Query, answers: Vec<Record>, now: u64)
        ensures
            final(self).window() == old(self).window(),
            exists|e: CacheEntry| #[trigger]
                positive_entry(e, answers@, now) && final(self).entries() == old(
                    self,
                ).entries().insert(key_of(*question), e),
    {
        let e = positive(answers, now);
        assert(positive_entry(e, answers@, now));
        put(&mut self.store, question_key(question), Arc::new(e));
    }

    /// Caches a negative answer (RFC 2308), with its authority-section SOA.
    pub fn insert_negative(
        &mut self,
        question: &Query,
        response_code: ResponseCode,
        soa: Vec<Record>,
        now: u64,
    )
        ensures
            final(self).window() == old(self).window(),
            exists|e: CacheEntry| #[trigger]
                negative_entry(e, response_code, soa@, now) && final(self).entries() == old(
                    self,
                ).entries().insert(key_of(*question), e),
    {
        let e = negative(response_code, soa, now);
        assert(negative_entry(e, response_code, soa@, now));
        put(&mut self.store, question_key(question), Arc::new(e));
    }

    /// What the cache has for a question at `now`: what is made of the entry last
    /// written for it, or nothing where the store has it no more.
    pub fn get(&self, question: &Query, now: u64) -> (r: Option<CacheLookup>)
        ensures
            r is Some ==> self.entries().contains_key(key_of(*question)) && looked_up(
                self.entries()[key_of(*question)],
                now,
                self.window(),
                r,
            ),
    {
        match fetch(&self.store, &question_key(question)) {
            Some(e) => look(&e, now, self.stale_window),
            None => None,
        }
    }
}

// ---------------------------------------------------------------------------
// Expiry
// ---------------------------------------------------------------------------

/// The expiry policy: an entry is kept until `stale_window` past its deadline, so
/// that expired answers remain to be served stale. Without a window that is
/// exactly its TTL.
#[derive(Debug, Clone, Copy)]
pub struct StaleExpiry {
    pub stale_window: u64,
}

impl StaleExpiry {
    /// How long an entry is kept from an instant on, in nanoseconds, as far as
    /// the result can hold it.
    pub open spec fn kept(self, e: CacheEntry, at: u64) -> int {
        let k = (if e.valid_until > at {
            e.valid_until - at
        } else {
            0
        }) + self.stale_window;
        if k > u128::MAX {
            u128::MAX as int
        } else {
            k
        }
    }

    /// How long an entry is kept when it is created, in nanoseconds.
    pub fn expire_after_create(&self, value: &CacheEntry, created_at: u64) -> (r: u128)
        ensures
            r == self.kept(*value, created_at),
    {
        let left: u128 = if value.valid_until > created_at as u128 {
            value.valid_until - (created_at as u128)
        } else {
            0
        };
        left.saturating_add(self.stale_window as u128)
    }

    /// How long an entry is kept when it is replaced, in nanoseconds.
    pub fn expire_after_update(&self, value: &CacheEntry, updated_at: u64) -> (r: u128)
        ensures
            r == self.kept(*value, updated_at),
    {
        self.expire_after_create(value, updated_at)
    }
}

} // verus!
