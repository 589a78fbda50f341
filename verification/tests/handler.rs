use dnsix::acl::ClientAcl;
use dnsix::blocklist::Blocklist;
use dnsix::dns::{
    Edns, Name, Query, RData, Record, RecordType, Response, ResponseCode, CLASS_IN,
};
use dnsix::handler::{
    capture, finish_dns64, handle_dns64, passthrough, Dns64, Dns64Handler, Next, Reply, Request,
};
use dnsix::metrics::Metrics;
use dnsix::net::{IpAddr, Ipv4Addr, Ipv6Addr};
use dnsix::querylog::{Outcome, QueryLog};
use dnsix::synth::{Chain, Step, Synthesized};
use dnsix::upstream::CacheStatus;

fn name(s: &str) -> Name {
    Name::from_ascii(s).unwrap()
}

fn request(n: &str, qtype: RecordType) -> Request {
    Request {
        op_code: 0,
        is_response: false,
        queries: vec![Query { name: name(n), qtype, qclass: CLASS_IN }],
        checking_disabled: false,
        edns: None,
        client: IpAddr::parse("2001:db8::1").unwrap(),
    }
}

fn metrics() -> Metrics {
    Metrics::new(&vec!["nat64".to_string()])
}

fn open_handler() -> Dns64Handler {
    Dns64Handler::new(ClientAcl::default(), None)
}

fn blocking_handler() -> Dns64Handler {
    let mut bl = Blocklist::new();
    bl.add_source(
        "https://l.example/".to_string(),
        Ok("||ads.example^\n@@||ok.ads.example^\n".to_string()),
    );
    let acl = ClientAcl::parse(&["2001:db8::/32".to_string()]).unwrap();
    Dns64Handler::new(acl, Some(bl))
}

fn record(n: &str, data: RData, rtype: RecordType, ttl: u32) -> Record {
    Record { name: name(n), rtype, ttl, data, wire: vec![7] }
}

fn response(rcode: ResponseCode, answers: Vec<Record>, authority: Vec<Record>) -> Response {
    Response { rcode, authentic: true, answers, authority, additionals: vec![] }
}

fn error_code(next: Next) -> (ResponseCode, Option<&'static str>) {
    match next {
        Next::Reply(Reply::Error(code), o) => (code, o.map(|o| o.outcome.kind())),
        other => panic!("expected an error, got {other:?}"),
    }
}

#[test]
fn only_standard_queries_are_implemented() {
    let mut m = metrics();
    let mut r = request("x.example.", RecordType::A);
    r.op_code = 5;
    assert_eq!(
        error_code(open_handler().handle_request(&r, &mut m)),
        (ResponseCode::NotImp, None)
    );
    r.op_code = 0;
    r.is_response = true;
    assert_eq!(
        error_code(open_handler().handle_request(&r, &mut m)),
        (ResponseCode::NotImp, None)
    );
    assert_eq!(m.snapshot().rcode[3], ("notimp", 2));
}

#[test]
fn exactly_one_question_is_needed() {
    let mut m = metrics();
    let mut r = request("x.example.", RecordType::A);
    let q = r.queries[0].clone();
    r.queries.push(q);
    assert_eq!(
        error_code(open_handler().handle_request(&r, &mut m)),
        (ResponseCode::FormErr, None)
    );
    r.queries.clear();
    assert_eq!(
        error_code(open_handler().handle_request(&r, &mut m)),
        (ResponseCode::FormErr, None)
    );
    assert!(m.snapshot().qtype.iter().all(|(_, n)| *n == 0));
}

#[test]
fn a_client_outside_the_allowlist_is_refused() {
    let mut m = metrics();
    let mut r = request("ads.example.", RecordType::Aaaa);
    r.client = IpAddr::parse("2001:db9::1").unwrap();
    match blocking_handler().handle_request(&r, &mut m) {
        Next::Reply(Reply::Error(ResponseCode::Refused), Some(o)) => {
            assert_eq!(o.rcode, ResponseCode::Refused);
            assert_eq!(o.cache, CacheStatus::Uncached);
            assert!(matches!(o.outcome, Outcome::Refused));
        }
        other => panic!("expected a refusal, got {other:?}"),
    }
    let s = m.snapshot();
    assert_eq!(s.counters.blocked, 0);
    assert_eq!(s.counters.queries_dns64 + s.counters.queries_passthrough, 0);
    assert!(s.rcode.contains(&("refused", 1)));
}

#[test]
fn a_blocked_name_does_not_exist_for_any_query() {
    let mut m = metrics();
    for (qtype, cd, dnssec_ok) in [
        (RecordType::A, false, false),
        (RecordType::Aaaa, false, true),
        (RecordType::Aaaa, true, true),
        (RecordType::from_code(16), true, false),
    ] {
        let mut r = request("x.ADS.example.", qtype);
        r.checking_disabled = cd;
        r.edns = Some(Edns { payload: 4096, dnssec_ok });
        match blocking_handler().handle_request(&r, &mut m) {
            Next::Reply(Reply::Error(ResponseCode::NXDomain), Some(o)) => {
                assert_eq!(o.rcode, ResponseCode::NXDomain);
                assert!(matches!(o.outcome, Outcome::Blocked));
            }
            other => panic!("expected a block, got {other:?}"),
        }
    }
    let s = m.snapshot();
    assert_eq!(s.counters.blocked, 4);
    assert_eq!(s.counters.queries_dns64 + s.counters.queries_passthrough, 0);
    assert!(s.rcode.contains(&("nxdomain", 4)));
    assert!(matches!(
        blocking_handler().handle_request(&request("ok.ads.example.", RecordType::A), &mut m),
        Next::Forward(_)
    ));
}

#[test]
fn a_query_is_forwarded_with_its_dnssec_bits() {
    let mut m = metrics();
    let mut r = request("x.example.", RecordType::Aaaa);
    r.checking_disabled = true;
    r.edns = Some(Edns { payload: 4096, dnssec_ok: true });
    match open_handler().handle_request(&r, &mut m) {
        Next::Forward(msg) => {
            assert_eq!(msg.queries.len(), 1);
            assert_eq!(msg.queries[0].name.text, "x.example.");
            assert_eq!(msg.queries[0].qtype, RecordType::Aaaa);
            assert!(msg.checking_disabled);
            assert_eq!(msg.edns, Some(Edns { payload: 1232, dnssec_ok: true }));
        }
        other => panic!("expected a passthrough, got {other:?}"),
    }
    assert_eq!(m.snapshot().counters.queries_passthrough, 1);
}

#[test]
fn an_aaaa_query_looks_up_both_families() {
    let mut m = metrics();
    let r = request("x.example.", RecordType::Aaaa);
    match open_handler().handle_request(&r, &mut m) {
        Next::Dns64 { aaaa, a } => {
            assert_eq!(aaaa.queries[0].qtype, RecordType::Aaaa);
            assert_eq!(a.queries[0].qtype, RecordType::A);
            assert_eq!(a.queries[0].name.text, "x.example.");
            assert_eq!(a.queries[0].qclass, CLASS_IN);
            assert_eq!(a.edns, Some(Edns { payload: 1232, dnssec_ok: false }));
        }
        other => panic!("expected both lookups, got {other:?}"),
    }
    assert_eq!(m.snapshot().counters.queries_dns64, 1);
    assert!(m.snapshot().qtype.contains(&("AAAA", 1)));
    let mut chaos = request("x.example.", RecordType::Aaaa);
    chaos.queries[0].qclass = 3;
    assert!(matches!(open_handler().handle_request(&chaos, &mut m), Next::Forward(_)));
}

#[test]
fn a_passthrough_relays_everything() {
    let mut m = metrics();
    let mut r = request("x.example.", RecordType::A);
    r.edns = Some(Edns { payload: 512, dnssec_ok: true });
    let rec = record("x.example.", RData::Other, RecordType::from_code(16), 9);
    let mut resp = response(ResponseCode::from_number(6), vec![rec.clone()], vec![rec.clone()]);
    resp.additionals = vec![rec];
    let (reply, o) = passthrough(&r, Some(resp), CacheStatus::Miss, &mut m);
    match reply {
        Reply::Answer { rcode, authentic, answers, authority, additionals, edns } => {
            assert_eq!(rcode, ResponseCode::Other(6));
            assert!(authentic);
            assert_eq!((answers.len(), authority.len(), additionals.len()), (1, 1, 1));
            assert_eq!(answers[0].wire, vec![7]);
            assert_eq!(edns, Some(Edns { payload: 1232, dnssec_ok: true }));
        }
        other => panic!("expected an answer, got {other:?}"),
    }
    assert!(matches!(o.outcome, Outcome::Passthrough));
    assert_eq!(o.cache, CacheStatus::Miss);
}

#[test]
fn a_failed_passthrough_is_servfail() {
    let mut m = metrics();
    let r = request("x.example.", RecordType::A);
    let (reply, o) = passthrough(&r, None, CacheStatus::Uncached, &mut m);
    assert!(matches!(reply, Reply::Error(ResponseCode::ServFail)));
    assert_eq!(o.rcode, ResponseCode::ServFail);
    assert!(matches!(o.outcome, Outcome::Passthrough));
}

#[test]
fn a_failed_aaaa_lookup_is_servfail() {
    let mut m = metrics();
    let r = request("x.example.", RecordType::Aaaa);
    match handle_dns64(&r, None, &None, CacheStatus::Miss, &mut m) {
        Dns64::Reply(Reply::Error(ResponseCode::ServFail), o) => {
            assert!(matches!(o.outcome, Outcome::ServFail))
        }
        other => panic!("expected a failure, got {other:?}"),
    }
}

#[test]
fn native_aaaa_is_relayed_untouched() {
    let mut m = metrics();
    let r = request("x.example.", RecordType::Aaaa);
    let native = record(
        "x.example.",
        RData::Aaaa(Ipv6Addr::parse("2001:db8::5").unwrap()),
        RecordType::Aaaa,
        60,
    );
    let resp = response(ResponseCode::NoError, vec![native], vec![]);
    match handle_dns64(&r, Some(resp), &None, CacheStatus::Hit, &mut m) {
        Dns64::Reply(Reply::Answer { authentic, answers, edns, .. }, o) => {
            assert!(authentic);
            assert_eq!(answers[0].ttl, 60);
            assert_eq!(edns, None);
            assert!(matches!(o.outcome, Outcome::NativeAaaa));
            assert_eq!(o.cache, CacheStatus::Hit);
        }
        other => panic!("expected a relay, got {other:?}"),
    }
    assert_eq!(m.snapshot().counters.native_aaaa, 1);
}

#[test]
fn nxdomain_is_relayed_untouched() {
    let mut m = metrics();
    let r = request("x.example.", RecordType::Aaaa);
    let resp = response(ResponseCode::NXDomain, vec![], vec![]);
    match handle_dns64(&r, Some(resp), &None, CacheStatus::Miss, &mut m) {
        Dns64::Reply(Reply::Answer { rcode, .. }, o) => {
            assert_eq!(rcode, ResponseCode::NXDomain);
            assert!(matches!(o.outcome, Outcome::Nxdomain));
        }
        other => panic!("expected a relay, got {other:?}"),
    }
    assert_eq!(m.snapshot().counters.nxdomain64, 1);
}

fn chain() -> Chain {
    let prefix = Ipv6Addr::parse("64:ff9b::").unwrap();
    match Chain::build(&vec!["nat64".to_string()], prefix, None, true) {
        Ok(c) => c,
        Err(e) => panic!("{}", e.message()),
    }
}

fn run(d: Dns64) -> (Response, Option<Synthesized>) {
    match d {
        Dns64::Synthesize { context, aaaa } => {
            let c = chain();
            let mut step = c.synthesize(&context);
            loop {
                match step {
                    Step::Done(s) => return (aaaa, s),
                    Step::Lookup { index, .. } => step = c.resume(&context, index, &[]),
                }
            }
        }
        other => panic!("expected synthesis, got {other:?}"),
    }
}

#[test]
fn a_name_without_aaaa_is_synthesized() {
    let mut m = metrics();
    let r = request("x.example.", RecordType::Aaaa);
    let soa = record(
        "example.",
        RData::Soa { rname: name("admin.example."), minimum: 60 },
        RecordType::from_code(6),
        60,
    );
    let cname = record("x.example.", RData::Cname(name("y.example.")), RecordType::Cname, 60);
    let nodata = response(ResponseCode::NoError, vec![cname], vec![soa]);
    let a = response(
        ResponseCode::NoError,
        vec![record("y.example.", RData::A(Ipv4Addr::new(93, 184, 216, 34)), RecordType::A, 77)],
        vec![],
    );
    let d = handle_dns64(&r, Some(nodata), &Some(a), CacheStatus::Miss, &mut m);
    match &d {
        Dns64::Synthesize { context, .. } => {
            assert_eq!(context.name.text, "x.example.");
            assert_eq!(context.cname_targets[0].text, "y.example.");
            assert_eq!(context.a_records, vec![(Ipv4Addr::new(93, 184, 216, 34), 77)]);
            assert_eq!(context.authority.soa_admin.as_ref().unwrap().text, "admin.example.");
            assert_eq!(context.authority.soa_zone.as_ref().unwrap().text, "example.");
        }
        other => panic!("expected synthesis, got {other:?}"),
    }
    let (aaaa, s) = run(d);
    let (reply, o) = finish_dns64(&r, aaaa, s, CacheStatus::Miss, &mut m);
    match reply {
        Reply::Answer { rcode, authentic, answers, authority, additionals, .. } => {
            assert_eq!(rcode, ResponseCode::NoError);
            assert!(!authentic, "synthesized data is unsigned");
            assert_eq!(answers.len(), 1);
            assert_eq!(answers[0].name.text, "x.example.");
            assert_eq!(answers[0].ttl, 77);
            match &answers[0].data {
                RData::Aaaa(ip) => assert_eq!(ip.text(), "64:ff9b::5db8:d822"),
                other => panic!("expected an address, got {other:?}"),
            }
            assert!(authority.is_empty() && additionals.is_empty());
        }
        other => panic!("expected an answer, got {other:?}"),
    }
    assert_eq!(o.outcome.label(), "synth:nat64");
    let s = m.snapshot();
    assert_eq!((s.counters.nodata, s.counters.synthesized), (1, 1));
    assert_eq!(s.synth, vec![("nat64", 1)]);
}

#[test]
fn an_empty_answer_is_relayed_honestly() {
    let mut m = metrics();
    let r = request("x.example.", RecordType::Aaaa);
    let nodata = response(ResponseCode::NoError, vec![], vec![]);
    // The A reply is an error, so its records do not count.
    let a = response(
        ResponseCode::ServFail,
        vec![record("x.example.", RData::A(Ipv4Addr::new(93, 184, 216, 34)), RecordType::A, 1)],
        vec![],
    );
    let (aaaa, s) = run(handle_dns64(&r, Some(nodata), &Some(a), CacheStatus::Miss, &mut m));
    assert!(s.is_none());
    let (reply, o) = finish_dns64(&r, aaaa, s, CacheStatus::Miss, &mut m);
    match reply {
        Reply::Answer { rcode, authentic, answers, .. } => {
            assert_eq!(rcode, ResponseCode::NoError);
            assert!(authentic);
            assert!(answers.is_empty());
        }
        other => panic!("expected an answer, got {other:?}"),
    }
    assert!(matches!(o.outcome, Outcome::EmptyNodata));
    assert_eq!(m.snapshot().counters.empty, 1);
}

#[test]
fn queries_are_captured_only_with_a_log() {
    let mut m = metrics();
    let r = request("x.example.", RecordType::A);
    let (_, o) = passthrough(&r, None, CacheStatus::Miss, &mut m);
    let mut none: Option<QueryLog> = None;
    assert!(capture(&mut none, &r, "x.example.".to_string(), o, 5, 9).is_none());
    assert!(none.is_none());
    let mut log = Some(QueryLog::new(4));
    let e = capture(&mut log, &r, "x.example.".to_string(), o, 5, 9).unwrap();
    assert_eq!((e.name.as_str(), e.latency, e.time), ("x.example.", 5, 9));
    assert_eq!(e.rcode, ResponseCode::ServFail);
    assert_eq!(log.unwrap().snapshot_newest_first().len(), 1);
}
