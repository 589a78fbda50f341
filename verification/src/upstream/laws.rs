//! What holds of every course of the cache and the pool.

use vstd::prelude::*;

use crate::dns;
use crate::dns::{Message, Query, Record, Response};
use crate::upstream::cache;
use crate::upstream::cache::{CacheEntry, CacheLookup, StaleCache, StaleExpiry};
use crate::upstream::pool;
use crate::upstream::pool::{Action, Pool};
use crate::upstream::CacheStatus;

verus! {

proof fn least_is_least(v: Seq<Record>, i: int)
    requires
        0 <= i < v.len(),
    ensures
        cache::least_of(v) is Some,
        cache::least_of(v)->0 <= v[i].ttl,
    decreases v.len(),
{
    if i < v.len() - 1 {
        least_is_least(v.drop_last(), i);
    }
}

/// A positive answer lives no longer than any of its records, and at most a day.
pub proof fn a_positive_ttl_is_the_least(answers: Seq<Record>, i: int)
    requires
        0 <= i < answers.len(),
    ensures
        cache::positive_ttl(answers) <= answers[i].ttl,
        cache::positive_ttl(answers) <= cache::MAX_TTL,
{
    least_is_least(answers, i);
}

/// What was stored as a positive answer is read back within its TTL: the same
/// records, each with what is left of the TTL in whole seconds.
pub proof fn a_fresh_answer_comes_back(
    e: CacheEntry,
    answers: Seq<Record>,
    stored_at: u64,
    now: u64,
    window: u64,
    r: Option<CacheLookup>,
)
    requires
        cache::positive_entry(e, answers, stored_at),
        answers.len() > 0,
        stored_at <= now <= stored_at + cache::positive_ttl(answers) * 1_000_000_000,
        cache::looked_up(e, now, window, r),
    ensures
        r matches Some(CacheLookup::Fresh { response, prefetch }) && {
            &&& !response.negative
            &&& response.response_code == dns::ResponseCode::NoError
            &&& response.authority@.len() == 0
            &&& cache::stamped(
                response.answers@,
                answers,
                ((stored_at + cache::positive_ttl(answers) * 1_000_000_000 - now) / 1_000_000_000) as u32,
            )
            &&& !pool::blank(response)
        },
{
}

/// A record that is read back carries a TTL no greater than the one it came with.
pub proof fn a_ttl_never_grows(
    answers: Seq<Record>,
    stored_at: u64,
    now: u64,
    i: int,
)
    requires
        0 <= i < answers.len(),
        stored_at <= now <= stored_at + cache::positive_ttl(answers) * 1_000_000_000,
    ensures
        ((stored_at + cache::positive_ttl(answers) * 1_000_000_000 - now) / 1_000_000_000) as u32
            <= answers[i].ttl,
{
    a_positive_ttl_is_the_least(answers, i);
}

/// An expired entry is served with the short stale TTL within the window behind
/// its deadline, and never later. Without a window it is never served.
pub proof fn a_stale_answer_is_bounded(
    e: CacheEntry,
    now: u64,
    window: u64,
    r: Option<CacheLookup>,
)
    requires
        now > e.valid_until,
        cache::looked_up(e, now, window, r),
    ensures
        now <= e.valid_until + window ==> (r matches Some(CacheLookup::Stale(response))
            && cache::renders(response, e, cache::STALE_SERVE_TTL)),
        now > e.valid_until + window ==> r is None,
        window == 0 ==> r is None,
{
}

proof fn least_soa_is_least(v: Seq<Record>, i: int)
    requires
        0 <= i < v.len(),
        v[i].data is Soa,
    ensures
        cache::least_soa(v) is Some,
        cache::least_soa(v)->0 <= v[i].ttl,
        cache::least_soa(v)->0 <= v[i].data->minimum,
    decreases v.len(),
{
    if i < v.len() - 1 {
        least_soa_is_least(v.drop_last(), i);
    }
}

/// A negative answer lives no longer than the TTL and the MINIMUM of its SOA, and
/// at most an hour.
pub proof fn a_negative_ttl_is_bounded(soa: Seq<Record>, i: int)
    requires
        0 <= i < soa.len(),
        soa[i].data is Soa,
    ensures
        cache::negative_ttl(soa) <= soa[i].ttl,
        cache::negative_ttl(soa) <= soa[i].data->minimum,
        cache::negative_ttl(soa) <= cache::NEG_MAX_TTL,
{
    least_soa_is_least(soa, i);
}

/// With a single SOA the TTL is the lesser of its TTL and its MINIMUM, at most an
/// hour.
pub proof fn a_single_soa_gives_the_negative_ttl(soa: Seq<Record>)
    requires
        soa.len() == 1,
        soa[0].data is Soa,
    ensures
        cache::negative_ttl(soa) == cache::lesser(
            cache::lesser(soa[0].ttl, soa[0].data->minimum),
            cache::NEG_MAX_TTL,
        ),
{
    assert(soa.drop_last() =~= Seq::empty());
    reveal_with_fuel(cache::least_soa, 2);
}

/// A fresh hit is due for a prefetch exactly in the last tenth of its TTL.
pub proof fn prefetch_is_due_in_the_last_tenth(e: CacheEntry, now: u64, ttl: u32)
    requires
        ttl > 0,
        e.valid_until == e.fetched_at + ttl * 1_000_000_000,
        e.fetched_at <= now <= e.valid_until,
    ensures
        cache::prefetch_due(e, now) <==> now >= e.fetched_at + ttl * 900_000_000,
{
}

/// An entry that is stored carries an answer or an SOA, so that it can always be
/// rebuilt into a response.
pub proof fn stored_entries_are_never_blank(
    resp: Response,
    e: CacheEntry,
    now: u64,
    then: u64,
    window: u64,
    r: CacheLookup,
)
    requires
        pool::stored_entry(resp, now, e),
        cache::looked_up(e, then, window, Some(r)),
    ensures
        match r {
            CacheLookup::Fresh { response, .. } => !pool::blank(response),
            CacheLookup::Stale(response) => !pool::blank(response),
        },
{
}

/// A denial is stored only with its SOA.
pub proof fn a_denial_without_soa_is_not_stored(resp: Response)
    requires
        resp.answers@.len() == 0,
        cache::soa_only(resp.authority@).len() == 0,
    ensures
        pool::stored(resp) is Nothing,
{
}

/// A query with the DO bit set never touches the cache.
pub proof fn dnssec_aware_queries_are_not_cacheable(m: Message)
    requires
        m.edns matches Some(e) && e.dnssec_ok,
    ensures
        !cache::cacheable(m),
{
}

/// Questions that differ in the case of their names alone share an entry.
pub proof fn keys_ignore_case(a: Query, b: Query)
    requires
        crate::text::lower(a.name@) == crate::text::lower(b.name@),
        a.qtype == b.qtype,
        a.qclass == b.qclass,
    ensures
        cache::key_of(a) == cache::key_of(b),
{
}

/// While a refresh of a question is in flight, no other one is begun: the second
/// query for an expired entry is answered stale at once, and a fresh hit begins no
/// prefetch.
pub proof fn one_refresh_at_a_time(looked: Option<CacheLookup>, a: Action)
    requires
        pool::acts(looked, false, a),
    ensures
        !(a is Await),
        a matches Action::Answer { refresh, .. } ==> !refresh,
        !pool::refreshes(looked, false),
{
}

/// Once the refresh slot of a question is claimed, it is not free.
pub proof fn a_claimed_slot_is_not_free(before: Pool, after: Pool, q: Query)
    requires
        after.refreshing() == before.refreshing().push(cache::key_of(q)),
    ensures
        !after.free(q),
{
    assert(after.refreshing()[before.refreshing().len() as int] == cache::key_of(q));
}

/// An expired answer that can be rebuilt is never lost: the query is answered with
/// it, or waits with it at hand.
pub proof fn a_stale_answer_is_a_backstop(looked: Option<CacheLookup>, free: bool, a: Action)
    requires
        looked matches Some(CacheLookup::Stale(response)) && !pool::blank(response),
        pool::acts(looked, free, a),
    ensures
        !(a is Ask),
{
}

/// The store is told to keep an entry as long as it can be served, to the
/// nanosecond.
pub proof fn an_entry_is_kept_while_it_can_be_served(
    x: StaleExpiry,
    e: CacheEntry,
    at: u64,
    now: u64,
    r: Option<CacheLookup>,
)
    requires
        at <= e.valid_until,
        e.valid_until <= u128::MAX - u64::MAX,
        cache::looked_up(e, now, x.stale_window, r),
    ensures
        r is Some <==> now <= at + x.kept(e, at),
{
}

// ---------------------------------------------------------------------------
// Keys
// ---------------------------------------------------------------------------

/// Questions share a key only where they have the same type, the same class and
/// names that differ in case alone.
pub proof fn keys_tell_questions_apart(a: Query, b: Query)
    requires
        cache::key_of(a) == cache::key_of(b),
    ensures
        crate::text::lower(a.name@) == crate::text::lower(b.name@),
        a.qtype.code_of() == b.qtype.code_of(),
        a.qclass == b.qclass,
{
}

/// What is stored for a question changes nothing for one of another type, another
/// class or another name.
pub proof fn storing_one_question_leaves_the_others(
    before: Map<cache::KeyModel, CacheEntry>,
    a: Query,
    b: Query,
    e: CacheEntry,
)
    requires
        a.qtype.code_of() != b.qtype.code_of() || a.qclass != b.qclass || crate::text::lower(
            a.name@,
        ) != crate::text::lower(b.name@),
    ensures
        before.insert(cache::key_of(a), e).contains_key(cache::key_of(b)) <==> before.contains_key(
            cache::key_of(b),
        ),
        before.contains_key(cache::key_of(b)) ==> before.insert(cache::key_of(a), e)[cache::key_of(
            b,
        )] == before[cache::key_of(b)],
{
    if cache::key_of(a) == cache::key_of(b) {
        keys_tell_questions_apart(a, b);
    }
}

/// The reply to a query that is cacheable is found again by a query for the same
/// question, whatever the case of its name, and by no query for another question.
pub proof fn a_stored_question_is_found_by_itself_alone(
    before: Map<cache::KeyModel, CacheEntry>,
    a: Query,
    b: Query,
    e: CacheEntry,
)
    requires
        !before.contains_key(cache::key_of(b)),
    ensures
        before.insert(cache::key_of(a), e).contains_key(cache::key_of(b)) <==> {
            &&& crate::text::lower(a.name@) == crate::text::lower(b.name@)
            &&& a.qtype.code_of() == b.qtype.code_of()
            &&& a.qclass == b.qclass
        },
{
    if cache::key_of(a) == cache::key_of(b) {
        keys_tell_questions_apart(a, b);
    }
}

/// A query is cacheable exactly where it has one question and does not set the DO
/// bit, whatever its CD bit and its payload size.
pub proof fn cacheable_goes_by_questions_and_the_do_bit(m: Message)
    ensures
        cache::cacheable(m) <==> m.queries@.len() == 1 && (m.edns is None
            || !m.edns->0.dnssec_ok),
{
}

// ---------------------------------------------------------------------------
// How long an answer lives
// ---------------------------------------------------------------------------

proof fn least_is_one_of_them(v: Seq<Record>) -> (i: int)
    requires
        v.len() > 0,
    ensures
        0 <= i < v.len(),
        cache::least_of(v) == Some(v[i].ttl),
    decreases v.len(),
{
    let d = v.drop_last();
    if d.len() == 0 {
        v.len() - 1
    } else {
        let j = least_is_one_of_them(d);
        if cache::least_of(v) == Some(v.last().ttl) {
            v.len() - 1
        } else {
            j
        }
    }
}

/// A positive answer lives as long as the record that lives shortest, but a day at
/// most; and a positive entry is fresh for exactly that long.
pub proof fn a_positive_answer_lives_as_its_shortest_record(
    e: CacheEntry,
    answers: Seq<Record>,
    now: u64,
)
    requires
        answers.len() > 0,
        cache::positive_entry(e, answers, now),
    ensures
        e.fetched_at == now,
        e.answers@ == answers,
        e.authority@.len() == 0,
        e.response_code is NoError,
        forall|i: int|
            0 <= i < answers.len() ==> e.valid_until <= now + (#[trigger] answers[i]).ttl
                * 1_000_000_000,
        e.valid_until <= now + 86_400_000_000_000,
        e.valid_until == now + 86_400_000_000_000 || exists|i: int|
            0 <= i < answers.len() && e.valid_until == now + (#[trigger] answers[i]).ttl
                * 1_000_000_000,
{
    assert forall|i: int| 0 <= i < answers.len() implies e.valid_until <= now + (
    #[trigger] answers[i]).ttl * 1_000_000_000 by {
        least_is_least(answers, i);
    }
    let i = least_is_one_of_them(answers);
    assert(e.valid_until == now + 86_400_000_000_000 || e.valid_until == now + answers[i].ttl
        * 1_000_000_000);
}

/// The lesser of the TTL and the MINIMUM of an SOA record.
pub open spec fn soa_life(r: Record) -> int {
    if r.ttl < r.data->minimum {
        r.ttl as int
    } else {
        r.data->minimum as int
    }
}

proof fn least_soa_is_one_of_them(v: Seq<Record>) -> (i: int)
    requires
        cache::least_soa(v) is Some,
    ensures
        0 <= i < v.len(),
        v[i].data is Soa,
        cache::least_soa(v)->0 == soa_life(v[i]),
    decreases v.len(),
{
    let d = v.drop_last();
    match v.last().data {
        dns::RData::Soa { minimum, .. } => {
            if cache::least_soa(d) is Some {
                let j = least_soa_is_one_of_them(d);
                if cache::least_soa(v)->0 == soa_life(v.last()) {
                    v.len() - 1
                } else {
                    j
                }
            } else {
                v.len() - 1
            }
        },
        _ => least_soa_is_one_of_them(d),
    }
}

/// A negative answer lives as long as the shortest of its SOA records says by its
/// TTL and its MINIMUM, but an hour at most.
pub proof fn a_negative_answer_lives_as_its_soa_says(
    e: CacheEntry,
    code: dns::ResponseCode,
    soa: Seq<Record>,
    now: u64,
)
    requires
        soa.len() > 0,
        forall|i: int| 0 <= i < soa.len() ==> (#[trigger] soa[i]).data is Soa,
        cache::negative_entry(e, code, soa, now),
    ensures
        e.fetched_at == now,
        e.answers@.len() == 0,
        e.authority@ == soa,
        e.response_code == code,
        forall|i: int|
            0 <= i < soa.len() ==> e.valid_until <= now + soa_life(#[trigger] soa[i])
                * 1_000_000_000,
        e.valid_until <= now + 3_600_000_000_000,
        e.valid_until == now + 3_600_000_000_000 || exists|i: int|
            0 <= i < soa.len() && e.valid_until == now + soa_life(#[trigger] soa[i])
                * 1_000_000_000,
{
    assert forall|i: int| 0 <= i < soa.len() implies e.valid_until <= now + soa_life(
        #[trigger] soa[i],
    ) * 1_000_000_000 by {
        least_soa_is_least(soa, i);
    }
    least_soa_is_least(soa, 0);
    let i = least_soa_is_one_of_them(soa);
    assert(e.valid_until == now + 3_600_000_000_000 || e.valid_until == now + soa_life(soa[i])
        * 1_000_000_000);
}

// ---------------------------------------------------------------------------
// What a lookup gives
// ---------------------------------------------------------------------------

/// Records that are others with one TTL on all of them.
pub open spec fn with_ttl(v: Seq<Record>, w: Seq<Record>, ttl: int) -> bool {
    &&& v.len() == w.len()
    &&& forall|i: int|
        0 <= i < v.len() ==> (#[trigger] v[i]).ttl == ttl && v[i].name == w[i].name && v[i].rtype
            == w[i].rtype && v[i].data == w[i].data && v[i].wire@ == w[i].wire@
}

/// Up to its deadline an entry is given as it was stored, with the whole seconds
/// that are left on every record; behind it, within the window, with 30 seconds;
/// and later not at all.
pub proof fn a_lookup_goes_by_the_deadline(
    e: CacheEntry,
    now: u64,
    window: u64,
    r: Option<CacheLookup>,
)
    requires
        cache::looked_up(e, now, window, r),
        e.valid_until - now <= 4_294_967_295_000_000_000,
    ensures
        now <= e.valid_until ==> (r matches Some(CacheLookup::Fresh { response, prefetch }) && {
            &&& response.response_code == e.response_code
            &&& response.negative <==> e.answers@.len() == 0
            &&& with_ttl(response.answers@, e.answers@, (e.valid_until - now) / 1_000_000_000)
            &&& with_ttl(response.authority@, e.authority@, (e.valid_until - now) / 1_000_000_000)
            &&& prefetch <==> e.valid_until > e.fetched_at && 10 * (e.valid_until - now)
                <= e.valid_until - e.fetched_at
        }),
        e.valid_until < now && now - e.valid_until <= window ==> (r matches Some(
            CacheLookup::Stale(response),
        ) && {
            &&& response.response_code == e.response_code
            &&& response.negative <==> e.answers@.len() == 0
            &&& with_ttl(response.answers@, e.answers@, 30)
            &&& with_ttl(response.authority@, e.authority@, 30)
        }),
        e.valid_until + window < now ==> r is None,
{
}

// ---------------------------------------------------------------------------
// What is stored
// ---------------------------------------------------------------------------

/// Whether some records hold an SOA record.
pub open spec fn has_soa(v: Seq<Record>) -> bool {
    exists|i: int| 0 <= i < v.len() && (#[trigger] v[i]).data is Soa
}

proof fn soa_only_is_empty_without_soa(v: Seq<Record>)
    ensures
        cache::soa_only(v).len() > 0 <==> has_soa(v),
    decreases v.len(),
{
    if v.len() > 0 {
        let d = v.drop_last();
        soa_only_is_empty_without_soa(d);
        if has_soa(d) {
            let i = choose|i: int| 0 <= i < d.len() && (#[trigger] d[i]).data is Soa;
            assert(v[i].data is Soa);
        }
        if v.last().data is Soa {
            assert(v[v.len() - 1].data is Soa);
        }
        if has_soa(v) {
            let i = choose|i: int| 0 <= i < v.len() && (#[trigger] v[i]).data is Soa;
            if i < d.len() {
                assert(d[i].data is Soa);
            }
        }
    }
}

/// The SOA records of two lists in a row are those of each; one record alone is kept
/// where it is one.
pub proof fn soa_records_add_up(v: Seq<Record>, w: Seq<Record>, r: Record)
    ensures
        cache::soa_only(v + w) == cache::soa_only(v) + cache::soa_only(w),
        r.data is Soa ==> cache::soa_only(seq![r]) == seq![r],
        !(r.data is Soa) ==> cache::soa_only(seq![r]).len() == 0,
    decreases w.len(),
{
    reveal_with_fuel(cache::soa_only, 2);
    assert(seq![r].drop_last() =~= Seq::<Record>::empty());
    assert(Seq::<Record>::empty().push(r) =~= seq![r]);
    if w.len() == 0 {
        assert(v + w =~= v);
        assert(cache::soa_only(v) + cache::soa_only(w) =~= cache::soa_only(v));
    } else {
        soa_records_add_up(v, w.drop_last(), r);
        assert((v + w).drop_last() =~= v + w.drop_last());
        assert(cache::soa_only(v + w) =~= cache::soa_only(v) + cache::soa_only(w));
    }
}

/// Which replies are stored: one without error that has answers, as a positive
/// answer; one that denies the name or the type, with an SOA, as a negative one; and
/// no other.
pub proof fn what_is_stored(r: Response)
    ensures
        pool::stored(r) is Positive <==> r.rcode is NoError && r.answers@.len() > 0,
        pool::stored(r) is Negative <==> has_soa(r.authority@) && (r.rcode is NXDomain || (
        r.rcode is NoError && r.answers@.len() == 0)),
        pool::stored(r) is Nothing <==> !(r.rcode is NoError && r.answers@.len() > 0) && !(has_soa(
            r.authority@,
        ) && (r.rcode is NXDomain || r.rcode is NoError)),
{
    soa_only_is_empty_without_soa(r.authority@);
}

/// What is stored of a reply is what a client then gets: every answer record of a
/// positive one, and of a negative one its code and its SOA records, with the TTL
/// that is left.
pub proof fn a_stored_reply_comes_back(
    resp: Response,
    e: CacheEntry,
    stored_at: u64,
    now: u64,
    window: u64,
    free: bool,
    looked: Option<CacheLookup>,
    a: Action,
)
    requires
        pool::stored_entry(resp, stored_at, e),
        stored_at <= now <= e.valid_until,
        cache::looked_up(e, now, window, looked),
        pool::acts(looked, free, a),
    ensures
        a matches Action::Answer { response, status, refresh } && {
            &&& status is Hit
            &&& response.rcode == resp.rcode
            &&& !response.authentic
            &&& response.additionals@.len() == 0
            &&& resp.answers@.len() > 0 && resp.rcode is NoError ==> {
                &&& response.answers@.len() == resp.answers@.len()
                &&& response.authority@.len() == 0
                &&& forall|i: int|
                    0 <= i < resp.answers@.len() ==> {
                        &&& (#[trigger] response.answers@[i]).name == resp.answers@[i].name
                        &&& response.answers@[i].data == resp.answers@[i].data
                        &&& response.answers@[i].rtype == resp.answers@[i].rtype
                        &&& response.answers@[i].ttl <= resp.answers@[i].ttl
                    }
            }
            &&& !(resp.answers@.len() > 0 && resp.rcode is NoError) ==> {
                &&& response.answers@.len() == 0
                &&& response.authority@.len() == cache::soa_only(resp.authority@).len()
            }
        },
{
    what_is_stored(resp);
    if resp.answers@.len() > 0 && resp.rcode is NoError {
        let v = e.answers@;
        assert forall|i: int| 0 <= i < v.len() implies e.valid_until <= stored_at + (
        #[trigger] v[i]).ttl * 1_000_000_000 by {
            least_is_least(v, i);
        }
        least_is_least(v, 0);
        let r = a->response;
        assert forall|i: int| 0 <= i < resp.answers@.len() implies {
            &&& (#[trigger] r.answers@[i]).name == resp.answers@[i].name
            &&& r.answers@[i].data == resp.answers@[i].data
            &&& r.answers@[i].rtype == resp.answers@[i].rtype
            &&& r.answers@[i].ttl <= resp.answers@[i].ttl
        } by {
            assert(dns::same_record(v[i], resp.answers@[i]));
            assert(e.valid_until <= stored_at + v[i].ttl * 1_000_000_000);
        }
    }
}

// ---------------------------------------------------------------------------
// What is done
// ---------------------------------------------------------------------------

/// A response with the code, the answers and the authority of what the cache had,
/// the AD bit clear and nothing else.
pub open spec fn is_rebuilt(c: cache::CachedResponse, r: Response) -> bool {
    &&& r.rcode == c.response_code
    &&& !r.authentic
    &&& r.answers@ == c.answers@
    &&& r.authority@ == c.authority@
    &&& r.additionals@.len() == 0
}

/// Whether there is anything to rebuild a response from.
pub open spec fn has_records(c: cache::CachedResponse) -> bool {
    c.answers@.len() > 0 || c.authority@.len() > 0
}

/// What is done with a cacheable query: what is fresh is answered as a hit, and
/// refreshed in the background where that is due and no refresh is in flight; what
/// is stale is refreshed first where no refresh is in flight, and served at once
/// where one is; and everything else is asked of the upstreams as a miss.
pub proof fn what_is_done_by_what_the_cache_had(looked: Option<CacheLookup>, free: bool, a: Action)
    requires
        pool::acts(looked, free, a),
    ensures
        match looked {
            Some(CacheLookup::Fresh { response, prefetch }) => if has_records(response) {
                a matches Action::Answer { response: r, status, refresh } && is_rebuilt(
                    response,
                    r,
                ) && status is Hit && (refresh <==> prefetch && free)
            } else {
                a matches Action::Ask(s) && s is Miss
            },
            Some(CacheLookup::Stale(response)) => if has_records(response) && free {
                a matches Action::Await { stale } && is_rebuilt(response, stale)
            } else if has_records(response) {
                a matches Action::Answer { response: r, status, refresh } && is_rebuilt(
                    response,
                    r,
                ) && status is Stale && !refresh
            } else {
                a matches Action::Ask(s) && s is Miss
            },
            None => a matches Action::Ask(s) && s is Miss,
        },
        pool::refreshes(looked, free) <==> a is Await || (a matches Action::Answer {
            refresh,
            ..
        } && refresh),
{
}

/// The number behind a counter's number; it starts anew behind the greatest.
pub open spec fn counted_on(n: u64) -> u64 {
    if n == 0xffff_ffff_ffff_ffff {
        0
    } else {
        (n + 1) as u64
    }
}

/// How a cacheable query is counted: a miss, a hit, a stale answer that is served
/// without waiting, a negative entry, and a prefetch, each once, and nothing else.
pub proof fn how_a_query_is_counted(
    looked: Option<CacheLookup>,
    free: bool,
    a: Action,
    c: crate::metrics::Counters,
)
    requires
        pool::acts(looked, free, a),
    ensures
        ({
            let d = pool::counts(looked, free, c);
            let hit = a matches Action::Answer { status, .. } && status is Hit;
            let stale = a matches Action::Answer { status, .. } && status is Stale;
            let negative = !(a is Ask) && match looked {
                Some(CacheLookup::Fresh { response, .. }) => response.negative,
                Some(CacheLookup::Stale(response)) => response.negative,
                None => false,
            };
            let prefetch = a matches Action::Answer { refresh, .. } && refresh;
            d == (crate::metrics::Counters {
                cache_misses: if looked is None {
                    counted_on(c.cache_misses)
                } else {
                    c.cache_misses
                },
                cache_hits: if hit {
                    counted_on(c.cache_hits)
                } else {
                    c.cache_hits
                },
                served_stale: if stale {
                    counted_on(c.served_stale)
                } else {
                    c.served_stale
                },
                negative_cache_hits: if negative {
                    counted_on(c.negative_cache_hits)
                } else {
                    c.negative_cache_hits
                },
                prefetches: if prefetch {
                    counted_on(c.prefetches)
                } else {
                    c.prefetches
                },
                ..c
            })
        }),
{
}

/// The limits of the cache: a day for an answer, an hour for a denial, 30 seconds on what
/// is stale, a day behind its deadline at most; and 1.8 seconds for a refresh to come.
pub proof fn the_limits_of_the_cache()
    ensures
        cache::MAX_TTL == 86_400,
        cache::NEG_MAX_TTL == 3_600,
        cache::STALE_SERVE_TTL == 30,
        cache::STALE_MAX_WINDOW == 86_400 * 1_000_000_000,
        pool::CLIENT_RESPONSE_TIMEOUT_MS == 1_800,
{
}

/// An entry is kept until its deadline and the window behind it have passed.
pub proof fn how_long_an_entry_is_kept(x: StaleExpiry, e: CacheEntry, at: u64)
    ensures
        e.valid_until > at && e.valid_until - at + x.stale_window <= u128::MAX ==> x.kept(e, at)
            == e.valid_until - at + x.stale_window,
        e.valid_until <= at ==> x.kept(e, at) == x.stale_window,
{
}

/// The label of each cache status.
pub proof fn cache_states_have_labels(s: CacheStatus)
    ensures
        s is Uncached ==> crate::upstream::status_label(s) == "uncached"@,
        s is Miss ==> crate::upstream::status_label(s) == "miss"@,
        s is Hit ==> crate::upstream::status_label(s) == "hit"@,
        s is Stale ==> crate::upstream::status_label(s) == "stale"@,
{
}

/// What is found is the entry of the question, of its name in whatever case, its type
/// and its class.
pub proof fn what_is_found_is_of_the_question(
    c: StaleCache,
    q: Query,
    now: u64,
    looked: Option<CacheLookup>,
)
    requires
        pool::may_find(c, q, now, looked),
        looked is Some,
    ensures
        ({
            let k = (crate::text::lower(q.name@), q.qtype.code_of(), q.qclass);
            c.entries().contains_key(k) && cache::looked_up(
                c.entries()[k],
                now,
                c.window(),
                looked,
            )
        }),
{
}

} // verus!
