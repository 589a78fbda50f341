use dnsix::dns::{RecordType, ResponseCode};
use dnsix::net::{IpAddr, Ipv6Addr};
use dnsix::querylog::{Outcome, QueryLog, Record};
use dnsix::upstream::CacheStatus;

fn rec(name: &str) -> Record {
    Record {
        client: IpAddr::V6(Ipv6Addr { bits: 1 }),
        name: name.to_string(),
        qtype: RecordType::Aaaa,
        rcode: ResponseCode::NoError,
        cache: CacheStatus::Miss,
        outcome: Outcome::Passthrough,
        latency: 1_000_000,
    }
}

#[test]
fn ring_evicts_oldest_and_is_newest_first() {
    let mut log = QueryLog::new(2);
    log.record(rec("a"), 1);
    log.record(rec("b"), 2);
    log.record(rec("c"), 3);

    let snap = log.snapshot_newest_first();
    let names: Vec<&str> = snap.iter().map(|e| e.name.as_str()).collect();
    assert_eq!(names, vec!["c", "b"]); // "a" displaced; newest first
    assert_eq!(snap[0].time, 3);
}

#[test]
fn zero_capacity_is_clamped_to_one() {
    let mut log = QueryLog::new(0);
    log.record(rec("only"), 1);
    assert_eq!(log.snapshot_newest_first().len(), 1);
}

#[test]
fn subscribers_receive_live_entries() {
    let mut log = QueryLog::new(8);
    let got = log.record(rec("live"), 7);
    assert_eq!(got.name, "live");
    assert_eq!(got.time, 7);
    assert_eq!(got.latency, 1_000_000);
}

#[test]
fn outcomes_have_kinds_and_labels() {
    let cases = [
        (Outcome::NativeAaaa, "native", "native-aaaa"),
        (Outcome::Nxdomain, "nxdomain", "nxdomain"),
        (Outcome::Synthesized("nat64"), "nat64", "synth:nat64"),
        (Outcome::Synthesized("fastly"), "synth", "synth:fastly"),
        (Outcome::EmptyNodata, "empty", "empty"),
        (Outcome::Passthrough, "passthrough", "passthrough"),
        (Outcome::Blocked, "blocked", "blocked"),
        (Outcome::Refused, "refused", "refused"),
        (Outcome::ServFail, "servfail", "servfail"),
    ];
    for (o, kind, label) in cases {
        assert_eq!(o.kind(), kind);
        assert_eq!(o.label(), label);
    }
}

#[test]
fn cache_states_have_labels() {
    assert_eq!(CacheStatus::Uncached.label(), "uncached");
    assert_eq!(CacheStatus::Miss.label(), "miss");
    assert_eq!(CacheStatus::Hit.label(), "hit");
    assert_eq!(CacheStatus::Stale.label(), "stale");
}
