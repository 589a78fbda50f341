use dnsix::dns::{RecordType, ResponseCode};
use dnsix::metrics::Metrics;
use dnsix::synth::KNOWN_IDS;

fn metrics() -> Metrics {
    Metrics::new(&vec!["fastly".to_string(), "nat64".to_string()])
}

#[test]
fn synth_hit_counts_enabled_and_ignores_unknown() {
    let mut m = metrics();
    m.synth_hit("fastly");
    m.synth_hit("fastly");
    m.synth_hit("nat64");
    m.synth_hit("akamai"); // not enabled -> no-op, never rendered

    let out = m.render_prometheus();
    assert!(out.contains("synth_hits_total{synthesizer=\"fastly\"} 2"));
    assert!(out.contains("synth_hits_total{synthesizer=\"nat64\"} 1"));
    assert!(!out.contains("akamai"));
}

#[test]
fn qtype_buckets_and_other_catch_all() {
    let mut m = metrics();
    m.record_qtype(RecordType::Aaaa);
    m.record_qtype(RecordType::Aaaa);
    m.record_qtype(RecordType::A);
    m.record_qtype(RecordType::from_code(12)); // PTR
    m.record_qtype(RecordType::from_code(13)); // HINFO, unlisted -> "other"

    let out = m.render_prometheus();
    assert!(out.contains("dns_queries_by_qtype_total{qtype=\"AAAA\"} 2"));
    assert!(out.contains("dns_queries_by_qtype_total{qtype=\"A\"} 1"));
    assert!(out.contains("dns_queries_by_qtype_total{qtype=\"PTR\"} 1"));
    assert!(out.contains("dns_queries_by_qtype_total{qtype=\"other\"} 1"));
}

#[test]
fn rcode_and_scalar_counters_render() {
    let mut m = metrics();
    m.inc_queries_dns64();
    m.inc_cache_hit();
    m.inc_cache_hit();
    m.record_rcode(ResponseCode::NoError);
    m.record_rcode(ResponseCode::NXDomain);
    m.record_rcode(ResponseCode::Refused);
    m.record_rcode(ResponseCode::from_number(6)); // YXDomain, maps to "other"

    let out = m.render_prometheus();
    assert!(out.contains("dns_queries_total{kind=\"dns64\"} 1"));
    assert!(out.contains("dns_queries_total{kind=\"passthrough\"} 0"));
    assert!(out.contains("dns_cache_hits_total 2"));
    assert!(out.contains("dns_responses_total{rcode=\"noerror\"} 1"));
    assert!(out.contains("dns_responses_total{rcode=\"nxdomain\"} 1"));
    assert!(out.contains("dns_responses_total{rcode=\"refused\"} 1"));
    assert!(out.contains("dns_responses_total{rcode=\"other\"} 1"));
    // Every counter family carries HELP/TYPE metadata.
    assert!(out.contains("# TYPE dns64_synthesized_total counter"));
}

#[test]
fn a_scrape_is_answered_with_the_exposition() {
    let mut m = metrics();
    m.inc_empty();
    let body = m.render_prometheus();
    let reply = m.handle_conn(b"GET /metrics HTTP/1.1\r\nHost: x\r\n\r\n");
    assert!(reply.starts_with("HTTP/1.1 200 OK\r\n"));
    assert!(reply.ends_with(&format!("\r\n\r\n{body}")));
    assert!(reply.contains(&format!("Content-Length: {}\r\n", body.len())));
}

#[test]
fn another_path_is_not_found() {
    let m = metrics();
    assert!(m.handle_conn(b"GET / HTTP/1.1\r\n\r\n").starts_with("HTTP/1.1 404"));
    assert!(m.handle_conn(b"\xff\xfe").starts_with("HTTP/1.1 404"));
}

#[test]
fn a_snapshot_shows_the_counts() {
    let mut m = metrics();
    m.inc_blocked();
    m.inc_queries_passthrough();
    m.inc_negative_cache_hit();
    m.inc_served_stale();
    m.inc_prefetch();
    m.inc_native_aaaa();
    m.inc_nxdomain64();
    m.inc_nodata();
    m.inc_synthesized();
    m.inc_upstream_failed();
    m.inc_cache_miss();
    m.record_rcode(ResponseCode::FormErr);
    m.record_rcode(ResponseCode::NotImp);
    m.record_rcode(ResponseCode::ServFail);
    m.synth_hit("nat64");
    let s = m.snapshot();
    assert_eq!(s.counters.blocked, 1);
    assert_eq!(s.counters.queries_passthrough, 1);
    assert_eq!(s.counters.queries_dns64, 0);
    assert_eq!(s.counters.negative_cache_hits, 1);
    assert_eq!(s.counters.upstream_failed, 1);
    assert_eq!(s.synth, vec![("fastly", 0), ("nat64", 1)]);
    assert!(s.rcode.contains(&("formerr", 1)));
    assert!(s.rcode.contains(&("noerror", 0)));
    assert_eq!(s.rcode.len(), 7);
    assert_eq!(s.qtype.len(), 17);
}

#[test]
fn an_unknown_synthesizer_is_not_tracked() {
    let m = Metrics::new(&vec!["nope".to_string(), "nat64".to_string()]);
    assert_eq!(m.snapshot().synth, vec![("nat64", 0)]);
}

#[test]
fn every_enabled_synthesizer_has_a_series() {
    let ids: Vec<String> = KNOWN_IDS.iter().rev().map(|s| s.to_string()).collect();
    let m = Metrics::new(&ids);
    let series: Vec<String> = m.snapshot().synth.iter().map(|(id, _)| id.to_string()).collect();
    assert_eq!(series, ids);
    assert!(m.render_prometheus().contains("synth_hits_total{synthesizer=\"edgecast\"} 0"));
}

#[test]
fn the_exposition_has_its_families_and_lines() {
    let mut m = metrics();
    m.inc_cache_hit();
    let out = m.render_prometheus();
    let lines: Vec<&str> = out.lines().collect();
    assert_eq!(lines.len(), 69);
    assert!(out.ends_with('\n'));
    let mut families = vec![];
    let mut samples = 0;
    for (i, line) in lines.iter().enumerate() {
        if let Some(rest) = line.strip_prefix("# HELP ") {
            let name = rest.split(' ').next().unwrap();
            assert_eq!(lines[i + 1], format!("# TYPE {name} counter"));
            assert!(lines[i + 2].starts_with(name));
            assert!(!families.contains(&name));
            families.push(name);
        } else if !line.starts_with('#') {
            samples += 1;
            assert!(line.rsplit(' ').next().unwrap().parse::<u64>().is_ok());
        }
    }
    assert_eq!(families.len(), 15);
    assert_eq!(samples, 39);
    assert_eq!(m.render_prometheus(), out);
}
