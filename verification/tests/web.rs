use dnsix::dns::{RecordType, ResponseCode};
use dnsix::metrics::Metrics;
use dnsix::net::IpAddr;
use dnsix::querylog::{Entry, Outcome};
use dnsix::upstream::CacheStatus;
use dnsix::web::{
    fmt_count, host_is_allowed, overview, rankings, rcode_label, strip_port, top_counts,
    visible_rows,
};

/// Digit grouping must not panic at any length (regression: the 5- and 8-digit
/// cases used to subtract with overflow).
#[test]
fn fmt_count_groups_without_overflow() {
    const NB: char = '\u{2009}';
    assert_eq!(fmt_count(0), "0");
    assert_eq!(fmt_count(7), "7");
    assert_eq!(fmt_count(42), "42");
    assert_eq!(fmt_count(999), "999");
    assert_eq!(fmt_count(1_000), format!("1{NB}000"));
    assert_eq!(fmt_count(12_345), format!("12{NB}345"));
    assert_eq!(fmt_count(123_456), format!("123{NB}456"));
    assert_eq!(fmt_count(1_234_567), format!("1{NB}234{NB}567"));
    // Exercise every length 1..=9 to be sure none panic.
    for len in 1..=9 {
        let n: usize = "9".repeat(len).parse().unwrap();
        let _ = fmt_count(n);
    }
}

#[test]
fn rebinding_guard_accepts_ip_and_localhost_only() {
    // Accepted: IP literals (with or without port) and localhost.
    assert!(host_is_allowed(Some("[::1]:8080")));
    assert!(host_is_allowed(Some("[2001:db8::1]:8080")));
    assert!(host_is_allowed(Some("::1")));
    assert!(host_is_allowed(Some("fe80::1")));
    assert!(host_is_allowed(Some("127.0.0.1")));
    assert!(host_is_allowed(Some("127.0.0.1:8080")));
    assert!(host_is_allowed(Some("localhost")));
    assert!(host_is_allowed(Some("localhost:8080")));
    assert!(host_is_allowed(Some("LOCALHOST")));

    // Rejected: any domain name (the rebinding attacker's form) and no Host.
    assert!(!host_is_allowed(Some("attacker.example")));
    assert!(!host_is_allowed(Some("dnsix.local:8080")));
    assert!(!host_is_allowed(Some("")));
    assert!(!host_is_allowed(None));
}

#[test]
fn ports_are_stripped() {
    assert_eq!(strip_port("[::1]:8080"), "::1");
    assert_eq!(strip_port("[::1"), "::1");
    assert_eq!(strip_port("a.example:80"), "a.example");
    assert_eq!(strip_port("::1"), "::1");
    assert_eq!(strip_port("plain"), "plain");
    assert_eq!(strip_port(":80"), "");
}

#[test]
fn grouping_keeps_every_digit() {
    for n in [5, 50, 4_096, 98_765, 1_000_000, 12_345_678_901] {
        let ungrouped: String = fmt_count(n).chars().filter(|c| *c != '\u{2009}').collect();
        assert_eq!(ungrouped, n.to_string());
    }
}

#[test]
fn labels_of_response_codes() {
    assert_eq!(rcode_label(ResponseCode::NoError), "noerror");
    assert_eq!(rcode_label(ResponseCode::NXDomain), "nxdomain");
    assert_eq!(rcode_label(ResponseCode::ServFail), "servfail");
    assert_eq!(rcode_label(ResponseCode::NotImp), "notimp");
    assert_eq!(rcode_label(ResponseCode::FormErr), "formerr");
    assert_eq!(rcode_label(ResponseCode::Refused), "refused");
    let names = [
        (6, "yxdomain"),
        (7, "yxrrset"),
        (8, "nxrrset"),
        (9, "notauth"),
        (10, "notzone"),
        (11, "unknown(11)"),
        (16, "badsig"),
        (17, "badkey"),
        (18, "badtime"),
        (19, "badmode"),
        (20, "badname"),
        (21, "badalg"),
        (22, "badtrunc"),
        (23, "badcookie"),
        (3841, "unknown(3841)"),
    ];
    for (n, label) in names {
        assert_eq!(rcode_label(ResponseCode::from_number(n)), label);
    }
}

fn keys(v: &[&str]) -> Vec<String> {
    v.iter().map(|s| s.to_string()).collect()
}

#[test]
fn rankings_go_by_count_then_by_key() {
    let got = top_counts(&keys(&["b", "a", "c", "b", "aa", "c"]));
    let want = [("b", 2), ("c", 2), ("a", 1), ("aa", 1)];
    assert_eq!(got.len(), want.len());
    for (g, w) in got.iter().zip(want) {
        assert_eq!((g.0.as_str(), g.1), w);
    }
    assert!(top_counts(&vec![]).is_empty());
}

#[test]
fn a_ranking_has_ten_places() {
    let mut all = vec![];
    for i in 0..14u32 {
        for _ in 0..=i {
            all.push(format!("k{i}"));
        }
    }
    let got = top_counts(&all);
    assert_eq!(got.len(), 10);
    assert_eq!(got[0], ("k13".to_string(), 14));
    assert_eq!(got[9], ("k4".to_string(), 5));
}

fn entry(name: &str, client: &str, outcome: Outcome) -> Entry {
    Entry {
        time: 0,
        client: IpAddr::parse(client).unwrap(),
        name: name.to_string(),
        qtype: RecordType::Aaaa,
        rcode: ResponseCode::NoError,
        cache: CacheStatus::Miss,
        outcome,
        latency: 0,
    }
}

#[test]
fn the_log_is_ranked() {
    let entries = vec![
        entry("a.example.", "2001:db8:0::1", Outcome::Blocked),
        entry("b.example.", "2001:db8::1", Outcome::Synthesized("nat64")),
        entry("b.example.", "::2", Outcome::Passthrough),
        entry("c.example.", "2001:db8::1", Outcome::Blocked),
        entry("c.example.", "2001:db8::1", Outcome::Blocked),
    ];
    let r = rankings(&entries);
    let rows = |v: &[(String, u64)]| {
        v.iter().map(|(k, n)| format!("{k}={n}")).collect::<Vec<_>>().join(" ")
    };
    assert_eq!(rows(&r.domains), "b.example.=2 c.example.=2 a.example.=1");
    assert_eq!(rows(&r.clients), "2001:db8::1=4 ::2=1");
    assert_eq!(rows(&r.outcomes), "blocked=3 passthrough=1 synth:nat64=1");
    assert_eq!(rows(&r.blocked), "c.example.=2 a.example.=1");
}

#[test]
fn empty_rows_are_hidden_on_request() {
    let rows = [("a", 1), ("b", 0), ("c", 3)];
    assert_eq!(visible_rows(&rows, true), vec![("a", 1), ("c", 3)]);
    assert_eq!(visible_rows(&rows, false), rows.to_vec());
}

#[test]
fn the_overview_shows_the_counters() {
    let mut m = Metrics::new(&vec![]);
    m.inc_queries_dns64();
    m.inc_queries_passthrough();
    m.inc_blocked();
    m.inc_blocked();
    m.inc_cache_hit();
    m.inc_nodata();
    let o = overview(&m.snapshot().counters);
    assert_eq!(o.total, 4);
    assert_eq!(o.cache_total, 1);
    assert_eq!(
        o.kind,
        vec![("dns64 (AAAA synthesis)", 1), ("passthrough", 1), ("blocked", 2)]
    );
    assert_eq!(o.dns64[2], ("nodata → chain", 1));
    assert_eq!(o.cache[0], ("hits", 1));
    assert_eq!(o.cache.len(), 6);
}
