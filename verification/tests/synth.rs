use dnsix::dns::{Message, Name, RData, Record, RecordType, Response, ResponseCode};
use dnsix::net::{Ipv4Addr, Ipv6Addr};
use dnsix::synth::cidr::{in_any, in_cidr};
use dnsix::synth::labels::{ends_with, labels, name_from_labels, parse_name};
use dnsix::synth::{
    aaaa_query, capped_ttl, is_global_unicast_v6, nat64_is_not_last, resolve_aaaa,
    validate_order, Chain, ChainError, Step, SynthContext, Synthesized,
};

fn n(s: &str) -> Name {
    Name::from_ascii(s).unwrap()
}

fn v4(s: &str) -> Ipv4Addr {
    Ipv4Addr::parse(s).unwrap()
}

fn v6(s: &str) -> Ipv6Addr {
    Ipv6Addr::parse(s).unwrap()
}

fn ids(v: &[&str]) -> Vec<String> {
    v.iter().map(|s| s.to_string()).collect()
}

#[test]
fn labels_lowercases_and_drops_root() {
    assert_eq!(labels(&n("www.Example.COM.")), ["www", "example", "com"]);
}

#[test]
fn ends_with_matches_suffix() {
    assert!(ends_with(&n("x.y.fastly.net."), &["fastly", "net"]));
    assert!(!ends_with(&n("x.fastlylb.net."), &["fastly", "net"]));
    assert!(!ends_with(&n("net."), &["fastly", "net"]));
}

#[test]
fn cidr_matching() {
    assert!(in_cidr(v4("151.101.1.140"), "151.101.0.0/16"));
    assert!(!in_cidr(v4("151.102.1.140"), "151.101.0.0/16"));
    assert!(in_cidr(v4("185.199.108.1"), "185.199.108.0/22"));
    assert!(in_any(v4("104.16.5.5"), &["162.159.128.0/17", "104.16.0.0/12"]));
    assert!(in_cidr(v4("9.9.9.9"), "0.0.0.0/0"));
    assert!(!in_any(v4("9.9.9.9"), &["9.9.9.8/32", "10.0.0.0/8"]));
}

#[test]
fn validate_order_rejects_shopify_after_cloudflare() {
    let ids = vec!["cloudflare".to_string(), "shopify".to_string()];
    assert!(validate_order(&ids).is_err());
}

#[test]
fn validate_order_accepts_specific_first() {
    let ids = vec![
        "shopify".to_string(),
        "webflow".to_string(),
        "cloudflare".to_string(),
        "nat64".to_string(),
    ];
    assert!(validate_order(&ids).is_ok());
}

#[test]
fn global_unicast_filter() {
    assert!(is_global_unicast_v6(v6("2606:4700::1")));
    assert!(is_global_unicast_v6(v6("64:ff9b::c000:221")));
    assert!(!is_global_unicast_v6(v6("::1")));
    assert!(!is_global_unicast_v6(v6("fe80::1")));
    assert!(!is_global_unicast_v6(v6("fc00::1")));
    assert!(!is_global_unicast_v6(v6("ff02::1")));
    assert!(!is_global_unicast_v6(v6("::")));
}

fn ctx_with_a(name: &str, ip: Ipv4Addr) -> SynthContext {
    SynthContext::new(n(name), vec![], vec![(ip, 300)], Default::default())
}

fn aaaa_addrs(records: &[Record]) -> Vec<Ipv6Addr> {
    records
        .iter()
        .filter_map(|r| match r.data {
            RData::Aaaa(a) => Some(a),
            _ => None,
        })
        .collect()
}

fn wk_prefix() -> Ipv6Addr {
    v6("64:ff9b::")
}

/// Runs a chain to its end, with the given replies to the lookups it asks for.
fn run(
    chain: &Chain,
    ctx: &SynthContext,
    found: impl Fn(&str) -> Vec<(Ipv6Addr, u32)>,
) -> Option<Synthesized> {
    let mut step = chain.synthesize(ctx);
    loop {
        match step {
            Step::Done(r) => return r,
            Step::Lookup { index, names } => {
                let all: Vec<(Ipv6Addr, u32)> =
                    names.iter().flat_map(|n| found(&n.text)).collect();
                step = chain.resume(ctx, index, &all);
            }
        }
    }
}

// An A in Shopify's range, so the shopify Provider matches on IP. Shopify's
// constant is 2620:127:f00f::; the NAT64 embedding of 23.227.38.10 is
// 64:ff9b::17e3:260a.
fn shopify_ctx() -> SynthContext {
    ctx_with_a("shop.example.com.", Ipv4Addr::new(23, 227, 38, 10))
}

#[test]
fn nat64_fallback_appended_after_provider() {
    let chain = Chain::build(&ids(&["shopify", "nat64"]), wk_prefix(), None, true).unwrap();
    let s = run(&chain, &shopify_ctx(), |_| vec![]).expect("shopify matches");
    // CDN-native first, NAT64 fallback appended after.
    assert_eq!(
        aaaa_addrs(&s.records),
        vec![v6("2620:127:f00f::"), v6("64:ff9b::17e3:260a")]
    );
    assert_eq!(s.id, "shopify");
}

#[test]
fn no_fallback_when_disabled() {
    let chain = Chain::build(&ids(&["shopify", "nat64"]), wk_prefix(), None, false).unwrap();
    let s = run(&chain, &shopify_ctx(), |_| vec![]).expect("shopify matches");
    assert_eq!(aaaa_addrs(&s.records), vec![v6("2620:127:f00f::")]);
}

#[test]
fn no_fallback_without_nat64_in_chain() {
    // Fallback requested but no translator (nat64 absent) — disabled, no panic.
    let chain = Chain::build(&ids(&["shopify"]), wk_prefix(), None, true).unwrap();
    let s = run(&chain, &shopify_ctx(), |_| vec![]).expect("shopify matches");
    assert_eq!(aaaa_addrs(&s.records), vec![v6("2620:127:f00f::")]);
}

#[test]
fn nat64_winner_not_doubled() {
    // No Provider matches; nat64 wins directly and must not be appended twice.
    let chain = Chain::build(&ids(&["shopify", "nat64"]), wk_prefix(), None, true).unwrap();
    let ctx = ctx_with_a("plain.example.com.", Ipv4Addr::new(93, 184, 216, 34));
    let s = run(&chain, &ctx, |_| vec![]).expect("nat64 matches");
    assert_eq!(aaaa_addrs(&s.records), vec![v6("64:ff9b::5db8:d822")]);
    assert_eq!(s.id, "nat64");
}

#[test]
fn records_carry_the_name_and_the_capped_ttl() {
    let chain = Chain::build(&ids(&["nat64"]), wk_prefix(), Some(60), true).unwrap();
    let ctx = ctx_with_a("plain.example.com.", v4("93.184.216.34"));
    let s = run(&chain, &ctx, |_| vec![]).unwrap();
    assert_eq!(s.records.len(), 1);
    assert_eq!(s.records[0].name.text, "plain.example.com.");
    assert_eq!(s.records[0].rtype, RecordType::Aaaa);
    assert_eq!(s.records[0].ttl, 60);
}

#[test]
fn a_reference_gives_its_least_ttl() {
    let chain = Chain::build(&ids(&["cloudfront"]), wk_prefix(), None, false).unwrap();
    let ctx = ctx_with_a("d1.cloudfront.net.", v4("1.2.3.4"));
    let s = run(&chain, &ctx, |name| {
        assert_eq!(name, "static.twitchcdn.net.");
        vec![(v6("2600:9000::1"), 50), (v6("fe80::1"), 10), (v6("2600:9000::2"), 90)]
    })
    .unwrap();
    assert_eq!(aaaa_addrs(&s.records), vec![v6("2600:9000::1"), v6("2600:9000::2")]);
    assert!(s.records.iter().all(|r| r.ttl == 10));
}

#[test]
fn a_provider_without_a_result_is_passed_over() {
    let chain = Chain::build(&ids(&["cloudfront", "nat64"]), wk_prefix(), None, true).unwrap();
    let ctx = ctx_with_a("d1.cloudfront.net.", v4("93.184.216.34"));
    let s = run(&chain, &ctx, |_| vec![]).unwrap();
    assert_eq!(s.id, "nat64");
    assert_eq!(aaaa_addrs(&s.records), vec![v6("64:ff9b::5db8:d822")]);
}

#[test]
fn nothing_is_synthesized_for_private_addresses() {
    let chain = Chain::build(&ids(&["nat64"]), wk_prefix(), None, true).unwrap();
    assert!(run(&chain, &ctx_with_a("x.example.com.", v4("10.0.0.1")), |_| vec![]).is_none());
}

#[test]
fn a_faulty_chain_is_refused() {
    match Chain::build(&ids(&["nat64", "nope"]), wk_prefix(), None, true) {
        Err(ChainError::Unknown(id)) => assert_eq!(id, "nope"),
        _ => panic!("expected an unknown synthesizer"),
    }
    let err = match Chain::build(&ids(&["cloudflare", "webflow"]), wk_prefix(), None, true) {
        Err(e) => e,
        Ok(_) => panic!("expected an order fault"),
    };
    assert!(matches!(err, ChainError::Order { .. }) || err.message().contains("webflow"));
    assert!(err.message().contains("cloudflare"));
}

#[test]
fn nat64_is_expected_last() {
    assert!(!nat64_is_not_last(&ids(&["shopify", "nat64"])));
    assert!(nat64_is_not_last(&ids(&["nat64", "shopify"])));
    assert!(!nat64_is_not_last(&ids(&["shopify"])));
}

#[test]
fn ttls_are_capped() {
    assert_eq!(capped_ttl(300, None), 300);
    assert_eq!(capped_ttl(300, Some(60)), 60);
    assert_eq!(capped_ttl(30, Some(60)), 30);
}

#[test]
fn a_reference_lookup_asks_for_aaaa_without_dnssec() {
    let m: Message = aaaa_query(&n("ref.example."));
    assert_eq!(m.queries.len(), 1);
    assert_eq!(m.queries[0].name.text, "ref.example.");
    assert_eq!(m.queries[0].qtype, RecordType::Aaaa);
    assert!(!m.checking_disabled);
    assert!(!m.edns.unwrap().dnssec_ok);
    assert_eq!(m.edns.unwrap().payload, 1232);
}

#[test]
fn a_reference_reply_yields_its_aaaa_records() {
    let rec = |data: RData, rtype: RecordType| Record {
        name: n("ref.example."),
        rtype,
        ttl: 20,
        data,
        wire: vec![],
    };
    let mut resp = Response {
        rcode: ResponseCode::NoError,
        authentic: false,
        answers: vec![
            rec(RData::Cname(n("x.example.")), RecordType::Cname),
            rec(RData::Aaaa(v6("2001:db8::1")), RecordType::Aaaa),
        ],
        authority: vec![],
        additionals: vec![],
    };
    assert_eq!(resolve_aaaa(&None), vec![]);
    let found = resolve_aaaa(&Some(Response {
        rcode: ResponseCode::NoError,
        authentic: false,
        answers: std::mem::take(&mut resp.answers),
        authority: vec![],
        additionals: vec![],
    }));
    assert_eq!(found, vec![(v6("2001:db8::1"), 20)]);
    resp.rcode = ResponseCode::ServFail;
    resp.answers = vec![rec(RData::Aaaa(v6("2001:db8::1")), RecordType::Aaaa)];
    assert_eq!(resolve_aaaa(&Some(resp)), vec![]);
}

#[test]
fn names_are_read_and_made_absolute() {
    assert_eq!(parse_name("www.Example.com").unwrap().text, "www.Example.com.");
    assert_eq!(parse_name("www.example.com..").unwrap().text, "www.example.com.");
    let long = "a".repeat(64);
    assert!(parse_name(&format!("{long}.example")).is_none());
    assert!(Name::read(&format!("{long}.example.")).is_err());
    assert_eq!(
        name_from_labels(&ids(&["a", "b", "c"])).unwrap().text,
        "a.b.c."
    );
}
