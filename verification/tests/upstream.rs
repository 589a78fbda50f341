use std::sync::Arc;

use dnsix::dns::{
    Edns, Message, Name, Query, RData, Record, RecordType, Response, ResponseCode, CLASS_IN,
};
use dnsix::metrics::Metrics;
use dnsix::net::Ipv4Addr;
use dnsix::upstream::cache::{
    cacheable_question, negative_soa, CacheEntry, CacheLookup, Key, StaleCache, StaleExpiry,
    Store, MAX_TTL, NEG_MAX_TTL, STALE_MAX_WINDOW, STALE_SERVE_TTL,
};
use dnsix::upstream::conn::{
    after_reply, first_upstream, retry_over, Attempts, Failover, Transport, Upstream,
};
use dnsix::upstream::pool::{
    settle, Action, Pool, Refresh, CLIENT_RESPONSE_TIMEOUT_MS,
};
use dnsix::upstream::CacheStatus;

const SEC: u64 = 1_000_000_000;

fn store() -> Store {
    moka::sync::Cache::<Key, Arc<CacheEntry>>::new(64)
}

fn a_query(name: &str) -> Query {
    Query {
        name: Name::from_ascii(name).unwrap(),
        qtype: RecordType::A,
        qclass: CLASS_IN,
    }
}

fn a_record(name: &str, ip: [u8; 4], ttl: u32) -> Record {
    Record {
        name: Name::from_ascii(name).unwrap(),
        rtype: RecordType::A,
        ttl,
        data: RData::A(Ipv4Addr::new(ip[0], ip[1], ip[2], ip[3])),
        wire: vec![1, 2, 3],
    }
}

/// An SOA record at `zone` with the given record TTL and MINIMUM field, as a
/// negative answer's authority section would carry.
fn soa_record(zone: &str, ttl: u32, minimum: u32) -> Record {
    let name = Name::from_ascii(zone).unwrap();
    Record {
        name: name.clone(),
        rtype: RecordType::from_code(6),
        ttl,
        data: RData::Soa { rname: name, minimum },
        wire: vec![],
    }
}

fn first_ip(records: &[Record]) -> Ipv4Addr {
    match &records[0].data {
        RData::A(ip) => *ip,
        other => panic!("expected A record, got {other:?}"),
    }
}

#[test]
fn fresh_hit_round_trips() {
    let mut cache = StaleCache::new(store(), STALE_MAX_WINDOW);
    let q = a_query("example.com.");
    let now = 1000 * SEC;
    cache.insert(&q, vec![a_record("example.com.", [93, 1, 2, 3], 300)], now);

    match cache.get(&q, now) {
        Some(CacheLookup::Fresh { response, prefetch }) => {
            assert_eq!(first_ip(&response.answers), Ipv4Addr::new(93, 1, 2, 3));
            assert_eq!(response.answers[0].wire, vec![1, 2, 3]);
            assert!(!prefetch, "a just-stored entry is not yet due for prefetch");
        }
        other => panic!("expected a fresh hit, got {:?}", other.is_some()),
    }
}

/// A fresh hit carries the record's *remaining* TTL, not its original.
#[test]
fn fresh_hit_decrements_ttl() {
    let mut cache = StaleCache::new(store(), STALE_MAX_WINDOW);
    let q = a_query("example.com.");
    let now = 1000 * SEC;
    cache.insert(&q, vec![a_record("example.com.", [93, 1, 2, 3], 300)], now);

    match cache.get(&q, now + 100 * SEC) {
        Some(CacheLookup::Fresh { response, .. }) => {
            assert!(
                response.answers[0].ttl <= 200,
                "ttl should have decayed, got {}",
                response.answers[0].ttl
            );
            assert_eq!(response.answers[0].ttl, 200);
        }
        _ => panic!("expected a fresh hit"),
    }
}

/// Entering the last 10% of the TTL flags the entry for prefetch.
#[test]
fn fresh_hit_flags_prefetch_near_expiry() {
    let mut cache = StaleCache::new(store(), STALE_MAX_WINDOW);
    let q = a_query("example.com.");
    let now = 1000 * SEC;
    cache.insert(&q, vec![a_record("example.com.", [93, 1, 2, 3], 100)], now);

    // 80% through: not yet due.
    match cache.get(&q, now + 80 * SEC) {
        Some(CacheLookup::Fresh { prefetch, .. }) => assert!(!prefetch),
        _ => panic!("expected a fresh hit"),
    }
    // 95% through: into the last 10%, so due.
    match cache.get(&q, now + 95 * SEC) {
        Some(CacheLookup::Fresh { prefetch, .. }) => assert!(prefetch),
        _ => panic!("expected a fresh hit"),
    }
}

#[test]
fn expired_within_window_is_stale() {
    let mut cache = StaleCache::new(store(), STALE_MAX_WINDOW);
    let q = a_query("example.com.");
    let now = 1000 * SEC;
    cache.insert(&q, vec![a_record("example.com.", [93, 1, 2, 3], 5)], now);

    match cache.get(&q, now + 10 * SEC) {
        Some(CacheLookup::Stale(response)) => {
            assert_eq!(first_ip(&response.answers), Ipv4Addr::new(93, 1, 2, 3));
            // Stale answers are stamped with the short self-correcting TTL.
            assert_eq!(response.answers[0].ttl, STALE_SERVE_TTL);
        }
        _ => panic!("expected a stale hit"),
    }
}

#[test]
fn stale_beyond_window_is_a_miss() {
    let mut cache = StaleCache::new(store(), 60 * SEC);
    let q = a_query("example.com.");
    let now = 1000 * SEC;
    cache.insert(&q, vec![a_record("example.com.", [93, 1, 2, 3], 5)], now);

    // 5s TTL + 60s window = served until 65s; 100s is past that.
    assert!(cache.get(&q, now + 100 * SEC).is_none());
}

/// With serve-stale disabled (zero window), an expired entry is a plain miss.
#[test]
fn disabled_serve_stale_expires_at_ttl() {
    let mut cache = StaleCache::new(store(), 0);
    let q = a_query("example.com.");
    let now = 1000 * SEC;
    cache.insert(&q, vec![a_record("example.com.", [93, 1, 2, 3], 5)], now);

    assert!(matches!(cache.get(&q, now), Some(CacheLookup::Fresh { .. })));
    assert!(cache.get(&q, now + 10 * SEC).is_none());
}

/// A negative entry round-trips with its RCODE and the authority SOA.
#[test]
fn negative_entry_round_trips_rcode_and_soa() {
    let mut cache = StaleCache::new(store(), STALE_MAX_WINDOW);
    let q = a_query("nope.example.com.");
    let now = 1000 * SEC;
    cache.insert_negative(
        &q,
        ResponseCode::NXDomain,
        vec![soa_record("example.com.", 300, 60)],
        now,
    );

    match cache.get(&q, now) {
        Some(CacheLookup::Fresh { response, .. }) => {
            assert!(response.negative);
            assert!(response.answers.is_empty());
            assert_eq!(response.response_code, ResponseCode::NXDomain);
            assert!(matches!(response.authority[0].data, RData::Soa { .. }));
        }
        _ => panic!("expected a fresh negative hit"),
    }
}

/// The negative TTL is `min(SOA TTL, SOA MINIMUM)` (RFC 2308 §5).
#[test]
fn negative_ttl_is_min_of_soa_ttl_and_minimum() {
    let mut cache = StaleCache::new(store(), 0);
    let q = a_query("nope.example.com.");
    let now = 1000 * SEC;
    // SOA TTL 300, MINIMUM 60 -> the entry expires after 60s.
    cache.insert_negative(
        &q,
        ResponseCode::NXDomain,
        vec![soa_record("example.com.", 300, 60)],
        now,
    );

    assert!(matches!(
        cache.get(&q, now + 59 * SEC),
        Some(CacheLookup::Fresh { .. })
    ));
    assert!(cache.get(&q, now + 61 * SEC).is_none());
}

/// A negative TTL is clamped to `NEG_MAX_TTL` even when the SOA asks for more.
#[test]
fn negative_ttl_is_clamped() {
    let mut cache = StaleCache::new(store(), 0);
    let q = a_query("nope.example.com.");
    let now = 1000 * SEC;
    cache.insert_negative(
        &q,
        ResponseCode::NXDomain,
        vec![soa_record("example.com.", 100_000, 100_000)],
        now,
    );

    assert!(cache
        .get(&q, now + (u64::from(NEG_MAX_TTL) + 1) * SEC)
        .is_none());
    assert!(cache
        .get(&q, now + (u64::from(NEG_MAX_TTL) - 1) * SEC)
        .is_some());
}

fn response(rcode: ResponseCode, answers: Vec<Record>, authority: Vec<Record>) -> Response {
    Response {
        rcode,
        authentic: false,
        answers,
        authority,
        additionals: vec![],
    }
}

/// `negative_soa` returns only the SOA records, and nothing when there is none.
#[test]
fn negative_soa_extracts_only_soa() {
    let with_soa = response(
        ResponseCode::NoError,
        vec![],
        vec![
            soa_record("example.com.", 300, 60),
            a_record("ns.example.com.", [1, 2, 3, 4], 300),
        ],
    );
    let soa = negative_soa(&with_soa);
    assert_eq!(soa.len(), 1);
    assert!(matches!(soa[0].data, RData::Soa { .. }));

    let without = response(ResponseCode::NoError, vec![], vec![]);
    assert!(negative_soa(&without).is_empty());
}

fn message_with(queries: &[Query], dnssec_ok: bool) -> Message {
    Message {
        queries: queries.to_vec(),
        checking_disabled: false,
        edns: Some(Edns { payload: 1232, dnssec_ok }),
    }
}

#[test]
fn dnssec_aware_queries_are_not_cached() {
    let msg = message_with(&[a_query("example.com.")], true);
    assert!(cacheable_question(&msg).is_none());
}

#[test]
fn plain_single_question_is_cacheable() {
    let msg = message_with(&[a_query("example.com.")], false);
    assert!(cacheable_question(&msg).is_some());
}

#[test]
fn multi_question_is_not_cached() {
    let msg = message_with(&[a_query("a.example."), a_query("b.example.")], false);
    assert!(cacheable_question(&msg).is_none());
}

// --- Reconnecting ---

/// A connection that answers `remaining` queries and then fails every later one.
struct FlakyConn {
    remaining: usize,
}

/// Sends one query over an upstream, dialing where there is no connection.
fn send(
    upstream: &mut Upstream<FlakyConn>,
    dials: &mut usize,
    uses_per_conn: usize,
) -> Result<(), ()> {
    let mut attempts = Attempts::new();
    loop {
        let (generation, remaining) = match upstream.acquire() {
            Some((g, c)) => (g, c.remaining),
            None => {
                *dials += 1;
                let g = upstream.connected(FlakyConn { remaining: uses_per_conn });
                (g, uses_per_conn)
            }
        };
        if remaining > 0 {
            upstream.invalidate(generation);
            upstream.connected(FlakyConn { remaining: remaining - 1 });
            return Ok(());
        }
        upstream.invalidate(generation);
        if !attempts.failed() {
            return Err(());
        }
    }
}

#[test]
fn upstream_redials_after_connection_dies() {
    // Each connection serves exactly one query before "dying", so every query
    // after the first must transparently redial and still succeed.
    let mut upstream = Upstream::new();
    let mut dials = 0;
    for i in 0..4 {
        let resp = send(&mut upstream, &mut dials, 1);
        assert!(resp.is_ok(), "query {i} should heal via reconnect, got {resp:?}");
    }
    // One initial dial plus three reconnects — not a single permanent failure.
    assert_eq!(dials, 4);
}

#[test]
fn upstream_gives_up_after_one_reconnect_when_dead() {
    // A connection that fails immediately and stays dead: try once, redial once,
    // then give up.
    let mut upstream = Upstream::new();
    let mut dials = 0;
    let resp = send(&mut upstream, &mut dials, 0);
    assert!(resp.is_err(), "a permanently dead upstream must surface an error");
    assert_eq!(dials, 2, "exactly one redial attempt before giving up");
}

#[test]
fn a_replaced_connection_is_not_dropped() {
    let mut upstream: Upstream<u8> = Upstream::new();
    assert!(upstream.acquire().is_none());
    let first = upstream.connected(1);
    let second = upstream.connected(2);
    assert_ne!(first, second);
    upstream.invalidate(first);
    assert_eq!(upstream.acquire(), Some((second, &2)));
    upstream.invalidate(second);
    assert!(upstream.acquire().is_none());
}

#[test]
fn a_truncated_udp_answer_is_asked_again_over_tcp() {
    assert_eq!(retry_over(Transport::Udp, true), Some(Transport::Tcp));
    assert_eq!(retry_over(Transport::Udp, false), None);
    assert_eq!(retry_over(Transport::Tcp, true), None);
    assert_eq!(retry_over(Transport::Tls, true), None);
}

#[test]
fn servfail_and_errors_fail_over() {
    assert!(matches!(first_upstream(0), Failover::AllFailed));
    assert!(matches!(first_upstream(2), Failover::Try(0)));
    assert!(matches!(after_reply(2, 0, None), Failover::Try(1)));
    let servfail = response(ResponseCode::ServFail, vec![], vec![]);
    assert!(matches!(after_reply(2, 1, Some(servfail)), Failover::AllFailed));
    let nx = response(ResponseCode::NXDomain, vec![], vec![]);
    match after_reply(2, 0, Some(nx)) {
        Failover::Answer(r) => assert_eq!(r.rcode, ResponseCode::NXDomain),
        other => panic!("expected an answer, got {other:?}"),
    }
}

// --- The pool over a mock upstream ---

/// A controllable upstream: counts its queries, takes `delay` to answer, and
/// returns a response or nothing (every upstream down).
struct Mock {
    calls: usize,
    delay: u64,
    response: Box<dyn Fn(&Query) -> Option<Response>>,
}

impl Mock {
    fn a(response: Option<([u8; 4], u32)>, delay: u64) -> Self {
        Mock {
            calls: 0,
            delay,
            response: Box::new(move |q: &Query| {
                let (ip, ttl) = response?;
                Some(Response {
                    rcode: ResponseCode::NoError,
                    authentic: true,
                    answers: vec![a_record(&q.name.text, ip, ttl)],
                    authority: vec![],
                    additionals: vec![],
                })
            }),
        }
    }

    fn negative(code: ResponseCode, with_soa: bool) -> Self {
        Mock {
            calls: 0,
            delay: 0,
            response: Box::new(move |_: &Query| {
                let mut authority = vec![];
                if with_soa {
                    authority.push(soa_record("example.com.", 300, 60));
                }
                Some(Response {
                    rcode: code,
                    authentic: false,
                    answers: vec![],
                    authority,
                    additionals: vec![],
                })
            }),
        }
    }

    fn ask(&mut self, msg: &Message) -> Option<Response> {
        self.calls += 1;
        (self.response)(&msg.queries[0])
    }
}

fn query_msg(name: &str) -> Message {
    Message { queries: vec![a_query(name)], checking_disabled: false, edns: None }
}

/// The refreshes that are still under way: when each is done.
type Pending = Vec<(u64, Message)>;

fn resolve(
    pool: &mut Pool,
    mock: &mut Mock,
    metrics: &mut Metrics,
    pending: &mut Pending,
    msg: &Message,
    now: u64,
) -> Option<(Response, CacheStatus)> {
    let copy = Message {
        queries: msg.queries.clone(),
        checking_disabled: msg.checking_disabled,
        edns: msg.edns,
    };
    match pool.resolve_observed(msg, now, metrics) {
        Action::Answer { response, status, refresh } => {
            if refresh {
                pending.push((now + mock.delay, copy));
            }
            Some((response, status))
        }
        Action::Ask(status) => {
            let reply = mock.ask(msg);
            let done = now + mock.delay;
            pool.resolve_and_cache(msg, reply, done, metrics).map(|r| (r, status))
        }
        Action::Await { stale } => {
            if mock.delay > CLIENT_RESPONSE_TIMEOUT_MS * 1_000_000 {
                pending.push((now + mock.delay, copy));
                return Some(settle(stale, Refresh::TimedOut, metrics));
            }
            let reply = mock.ask(msg);
            let done = now + mock.delay;
            let fresh = pool.resolve_and_cache(msg, reply, done, metrics);
            pool.release_refresh(&msg.queries[0]);
            let refresh = match fresh {
                Some(r) => Refresh::Fresh(r),
                None => Refresh::Failed,
            };
            Some(settle(stale, refresh, metrics))
        }
    }
}

/// Lets the refreshes under way finish.
fn finish(pool: &mut Pool, mock: &mut Mock, metrics: &mut Metrics, pending: &mut Pending) {
    for (done, msg) in pending.drain(..) {
        let reply = mock.ask(&msg);
        pool.resolve_and_cache(&msg, reply, done, metrics);
        pool.release_refresh(&msg.queries[0]);
    }
}

const NOW: u64 = 100_000 * SEC;

/// Seeds a cache entry that was fetched `age_secs` ago, so that it is fresh (when
/// `age_secs < ttl`) or expired (when `age_secs > ttl`).
fn seed(pool: &mut Pool, name: &str, ip: [u8; 4], ttl: u32, age_secs: u64) {
    let reply = response(ResponseCode::NoError, vec![a_record(name, ip, ttl)], vec![]);
    let mut other = Metrics::new(&vec![]);
    pool.resolve_and_cache(&query_msg(name), Some(reply), NOW - age_secs * SEC, &mut other);
}

fn pool() -> (Pool, Metrics, Pending) {
    (Pool::from_parts(Some(store()), true), Metrics::new(&vec![]), vec![])
}

/// Read a scalar Prometheus counter out of the exposition.
fn counter(metrics: &Metrics, name: &str) -> u64 {
    for line in metrics.render_prometheus().lines() {
        if let Some(value) = line.strip_prefix(name).and_then(|r| r.strip_prefix(' ')) {
            return value.trim().parse().unwrap();
        }
    }
    panic!("metric {name} not found");
}

#[test]
fn cold_miss_caches_then_serves_fresh_without_re_querying() {
    let (mut pool, mut m, mut p) = pool();
    let mut mock = Mock::a(Some(([1, 2, 3, 4], 300)), 0);
    let msg = query_msg("example.com.");

    let (r1, s1) = resolve(&mut pool, &mut mock, &mut m, &mut p, &msg, NOW).expect("answer");
    assert_eq!(first_ip(&r1.answers), Ipv4Addr::new(1, 2, 3, 4));
    assert_eq!(s1, CacheStatus::Miss);

    let (r2, s2) = resolve(&mut pool, &mut mock, &mut m, &mut p, &msg, NOW).expect("answer");
    assert_eq!(first_ip(&r2.answers), Ipv4Addr::new(1, 2, 3, 4));
    assert_eq!(s2, CacheStatus::Hit);
    assert!(!r2.authentic);

    assert_eq!(mock.calls, 1, "the second query is served from cache");
    assert_eq!(counter(&m, "dns_cache_hits_total"), 1);
    assert_eq!(counter(&m, "dns_cache_misses_total"), 1);
}

#[test]
fn serves_stale_when_upstream_is_down() {
    let (mut pool, mut m, mut p) = pool();
    let mut mock = Mock::a(None, 0); // every upstream down
    seed(&mut pool, "example.com.", [9, 9, 9, 9], 5, 100); // expired ~95s ago

    let msg = query_msg("example.com.");
    let (r, s) = resolve(&mut pool, &mut mock, &mut m, &mut p, &msg, NOW)
        .expect("stale answer, not SERVFAIL");
    assert_eq!(first_ip(&r.answers), Ipv4Addr::new(9, 9, 9, 9));
    assert_eq!(
        r.answers[0].ttl, STALE_SERVE_TTL,
        "stale answers carry the short self-correcting TTL"
    );
    assert_eq!(s, CacheStatus::Stale);
    assert_eq!(mock.calls, 1, "a refresh was attempted");
    assert_eq!(counter(&m, "dns_served_stale_total"), 1);
}

#[test]
fn fast_refresh_beats_timer_and_serves_fresh() {
    let (mut pool, mut m, mut p) = pool();
    // Refresh returns in 1s, inside the 1.8s client-response window.
    let mut mock = Mock::a(Some(([2, 2, 2, 2], 300)), SEC);
    seed(&mut pool, "example.com.", [9, 9, 9, 9], 5, 100);

    let msg = query_msg("example.com.");
    let (r, _) = resolve(&mut pool, &mut mock, &mut m, &mut p, &msg, NOW).expect("answer");
    assert_eq!(
        first_ip(&r.answers),
        Ipv4Addr::new(2, 2, 2, 2),
        "the refresh won the race, so the client gets fresh data"
    );
    assert_eq!(counter(&m, "dns_served_stale_total"), 0);
    assert_eq!(mock.calls, 1);
}

#[test]
fn a_fresh_answer_is_not_reported_as_stale() {
    let (mut pool, mut m, mut p) = pool();
    let mut mock = Mock::a(Some(([2, 2, 2, 2], 300)), SEC);
    seed(&mut pool, "example.com.", [9, 9, 9, 9], 5, 100);

    let msg = query_msg("example.com.");
    let (r, s) = resolve(&mut pool, &mut mock, &mut m, &mut p, &msg, NOW).expect("answer");
    assert_eq!(first_ip(&r.answers), Ipv4Addr::new(2, 2, 2, 2));
    assert_eq!(s, CacheStatus::Miss);
}

#[test]
fn slow_refresh_serves_stale_then_repopulates_cache() {
    let (mut pool, mut m, mut p) = pool();
    // Refresh takes 3s, past the 1.8s timer.
    let mut mock = Mock::a(Some(([2, 2, 2, 2], 300)), 3 * SEC);
    seed(&mut pool, "example.com.", [9, 9, 9, 9], 5, 100);

    let msg = query_msg("example.com.");
    let (r, _) = resolve(&mut pool, &mut mock, &mut m, &mut p, &msg, NOW).expect("stale answer");
    assert_eq!(
        first_ip(&r.answers),
        Ipv4Addr::new(9, 9, 9, 9),
        "timer fired first, so the client gets stale data"
    );
    assert_eq!(counter(&m, "dns_served_stale_total"), 1);

    // Let the detached refresh finish, then the next query is served fresh from
    // the repopulated cache with no further upstream traffic.
    finish(&mut pool, &mut mock, &mut m, &mut p);
    let (r2, _) = resolve(&mut pool, &mut mock, &mut m, &mut p, &msg, NOW + 4 * SEC)
        .expect("answer");
    assert_eq!(
        first_ip(&r2.answers),
        Ipv4Addr::new(2, 2, 2, 2),
        "the background refresh updated the cache"
    );
    assert_eq!(mock.calls, 1, "only the single background refresh hit upstream");
}

#[test]
fn concurrent_stale_queries_trigger_one_refresh() {
    let (mut pool, mut m, _) = pool();
    let mut mock = Mock::a(Some(([2, 2, 2, 2], 300)), SEC);
    seed(&mut pool, "example.com.", [9, 9, 9, 9], 5, 100);

    // Five queries arrive before the refresh comes back.
    let msg = query_msg("example.com.");
    let mut waiting = vec![];
    let mut answered = 0;
    for _ in 0..5 {
        match pool.resolve_observed(&msg, NOW, &mut m) {
            Action::Await { stale } => waiting.push(stale),
            Action::Answer { response, status, refresh } => {
                assert_eq!(first_ip(&response.answers), Ipv4Addr::new(9, 9, 9, 9));
                assert_eq!(status, CacheStatus::Stale);
                assert!(!refresh);
                answered += 1;
            }
            Action::Ask(_) => panic!("a stale entry is at hand"),
        }
    }
    for stale in waiting {
        let reply = mock.ask(&msg);
        let fresh = pool.resolve_and_cache(&msg, reply, NOW + mock.delay, &mut m).unwrap();
        pool.release_refresh(&msg.queries[0]);
        let (r, _) = settle(stale, Refresh::Fresh(fresh), &mut m);
        assert_eq!(first_ip(&r.answers), Ipv4Addr::new(2, 2, 2, 2));
        answered += 1;
    }
    assert_eq!(answered, 5, "every concurrent query gets an answer");
    assert_eq!(
        mock.calls, 1,
        "the in-flight guard collapses the burst to one refresh"
    );
    assert_eq!(counter(&m, "dns_served_stale_total"), 4);
}

#[test]
fn prefetch_refreshes_entry_near_expiry() {
    let (mut pool, mut m, mut p) = pool();
    let mut mock = Mock::a(Some(([2, 2, 2, 2], 300)), 0);
    // Fresh, but 95s into a 100s TTL — inside the last 10%, so prefetch-due.
    seed(&mut pool, "example.com.", [9, 9, 9, 9], 100, 95);

    let msg = query_msg("example.com.");
    let (r, _) = resolve(&mut pool, &mut mock, &mut m, &mut p, &msg, NOW).expect("fresh answer");
    assert_eq!(
        first_ip(&r.answers),
        Ipv4Addr::new(9, 9, 9, 9),
        "the still-fresh cached answer is served immediately"
    );

    // The hit kicked off exactly one background prefetch.
    finish(&mut pool, &mut mock, &mut m, &mut p);
    assert_eq!(mock.calls, 1);
    assert_eq!(counter(&m, "dns_prefetch_total"), 1);
    assert_eq!(counter(&m, "dns_cache_hits_total"), 1);
}

#[test]
fn caches_nxdomain_with_soa() {
    let (mut pool, mut m, mut p) = pool();
    let mut mock = Mock::negative(ResponseCode::NXDomain, true);
    let msg = query_msg("nope.example.com.");

    let (r1, _) = resolve(&mut pool, &mut mock, &mut m, &mut p, &msg, NOW).expect("answer");
    assert_eq!(r1.rcode, ResponseCode::NXDomain);

    let (r2, _) = resolve(&mut pool, &mut mock, &mut m, &mut p, &msg, NOW).expect("answer");
    assert_eq!(r2.rcode, ResponseCode::NXDomain);
    // The cached negative carries its proof of non-existence.
    assert!(r2.authority.iter().any(|r| matches!(r.data, RData::Soa { .. })));

    assert_eq!(mock.calls, 1, "the second query is served from cache");
    assert_eq!(counter(&m, "dns_negative_cache_hits_total"), 1);
    assert_eq!(counter(&m, "dns_cache_hits_total"), 1);
}

#[test]
fn caches_nodata_with_soa() {
    let (mut pool, mut m, mut p) = pool();
    // NODATA: NoError with no answers, but an authority SOA.
    let mut mock = Mock::negative(ResponseCode::NoError, true);
    let msg = query_msg("nodata.example.com.");

    for _ in 0..2 {
        let (r, _) = resolve(&mut pool, &mut mock, &mut m, &mut p, &msg, NOW).expect("answer");
        assert_eq!(r.rcode, ResponseCode::NoError);
        assert!(r.answers.is_empty());
    }
    assert_eq!(mock.calls, 1, "NODATA is cached and re-served");
    assert_eq!(counter(&m, "dns_negative_cache_hits_total"), 1);
}

#[test]
fn negative_without_soa_is_not_cached() {
    let (mut pool, mut m, mut p) = pool();
    let mut mock = Mock::negative(ResponseCode::NXDomain, false);
    let msg = query_msg("nope.example.com.");

    for _ in 0..2 {
        resolve(&mut pool, &mut mock, &mut m, &mut p, &msg, NOW).expect("answer");
    }
    assert_eq!(
        mock.calls, 2,
        "with no SOA there is nothing to cache, so both queries hit upstream"
    );
    assert_eq!(counter(&m, "dns_negative_cache_hits_total"), 0);
}

#[test]
fn a_failure_is_counted_and_not_cached() {
    let (mut pool, mut m, mut p) = pool();
    let mut mock = Mock::a(None, 0);
    let msg = query_msg("example.com.");
    assert!(resolve(&mut pool, &mut mock, &mut m, &mut p, &msg, NOW).is_none());
    assert!(resolve(&mut pool, &mut mock, &mut m, &mut p, &msg, NOW).is_none());
    assert_eq!(mock.calls, 2);
    assert_eq!(m.snapshot().counters.upstream_failed, 2);
}

#[test]
fn without_a_cache_every_query_is_asked() {
    let mut pool = Pool::from_parts(None, true);
    let mut m = Metrics::new(&vec![]);
    let mut p = vec![];
    let mut mock = Mock::a(Some(([1, 2, 3, 4], 300)), 0);
    for _ in 0..2 {
        let (_, s) =
            resolve(&mut pool, &mut mock, &mut m, &mut p, &query_msg("example.com."), NOW)
                .unwrap();
        assert_eq!(s, CacheStatus::Uncached);
    }
    assert_eq!(mock.calls, 2);
    assert_eq!(counter(&m, "dns_cache_misses_total"), 0);
}

#[test]
fn names_are_cached_in_any_case() {
    let (mut pool, mut m, mut p) = pool();
    let mut mock = Mock::a(Some(([1, 2, 3, 4], 300)), 0);
    for name in ["Example.com.", "example.COM."] {
        resolve(&mut pool, &mut mock, &mut m, &mut p, &query_msg(name), NOW).unwrap();
    }
    assert_eq!(mock.calls, 1);
}

#[test]
fn a_long_ttl_is_cut() {
    let mut cache = StaleCache::new(store(), 0);
    let q = a_query("example.com.");
    cache.insert(&q, vec![a_record("example.com.", [1, 2, 3, 4], u32::MAX)], 0);
    match cache.get(&q, 0) {
        Some(CacheLookup::Fresh { response, .. }) => {
            assert_eq!(response.answers[0].ttl, MAX_TTL)
        }
        _ => panic!("expected a fresh hit"),
    }
    assert!(cache.get(&q, (u64::from(MAX_TTL) + 1) * SEC).is_none());
}

#[test]
fn an_entry_is_dropped_after_its_window() {
    let expiry = StaleExpiry { stale_window: 60 * SEC };
    let mut cache = StaleCache::new(store(), 60 * SEC);
    let q = a_query("example.com.");
    cache.insert(&q, vec![a_record("example.com.", [1, 2, 3, 4], 5)], 0);
    assert!(cache.get(&q, 64 * SEC).is_some());
    assert!(cache.get(&q, 66 * SEC).is_none());
    let entry = dnsix::upstream::cache::positive(
        vec![a_record("example.com.", [1, 2, 3, 4], 5)],
        0,
    );
    assert_eq!(expiry.expire_after_create(&entry, 0), 65 * u128::from(SEC));
    assert_eq!(expiry.expire_after_update(&entry, 2 * SEC), 63 * u128::from(SEC));
    assert_eq!(expiry.expire_after_update(&entry, 9 * SEC), 60 * u128::from(SEC));
}
