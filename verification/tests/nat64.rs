use dnsix::config::WELL_KNOWN_NAT64_PREFIX;
use dnsix::dns::Name;
use dnsix::net::{Ipv4Addr, Ipv6Addr};
use dnsix::synth::nat64::{eligible_addresses, embed, is_globally_routable, Nat64};
use dnsix::synth::{SynthContext, Synthesizer};

const WK: Ipv6Addr = Ipv6Addr { bits: WELL_KNOWN_NAT64_PREFIX };

fn v6(s: &str) -> Ipv6Addr {
    Ipv6Addr::parse(s).unwrap()
}

#[test]
fn embeds_into_well_known_prefix() {
    let got = embed(WK, Ipv4Addr::new(192, 0, 2, 33));
    assert_eq!(got, v6("64:ff9b::c000:221"));
}

#[test]
fn embeds_into_network_specific_prefix() {
    let prefix = v6("2001:db8:64::");
    let got = embed(prefix, Ipv4Addr::new(203, 0, 113, 5));
    assert_eq!(got, v6("2001:db8:64::cb00:7105"));
}

#[test]
fn global_addresses_are_routable() {
    for ip in ["8.8.8.8", "1.1.1.1", "93.184.216.34", "203.0.114.1"] {
        assert!(
            is_globally_routable(Ipv4Addr::parse(ip).unwrap()),
            "{ip} should be routable"
        );
    }
}

#[test]
fn non_global_addresses_are_filtered() {
    for ip in [
        "0.0.0.1",
        "10.0.0.1",
        "100.64.0.1",
        "127.0.0.1",
        "169.254.1.1",
        "172.16.0.1",
        "192.0.0.170",
        "192.0.2.1",
        "192.168.1.1",
        "198.18.0.1",
        "198.51.100.1",
        "203.0.113.1",
        "224.0.0.1",
        "240.0.0.1",
        "255.255.255.255",
    ] {
        assert!(
            !is_globally_routable(Ipv4Addr::parse(ip).unwrap()),
            "{ip} should be filtered"
        );
    }
}

#[test]
fn ipv4only_arpa_bypasses_filter() {
    let name = Name::from_ascii("ipv4only.arpa.").unwrap();
    let addrs = vec![Ipv4Addr::new(192, 0, 0, 170), Ipv4Addr::new(192, 0, 0, 171)];
    assert!(eligible_addresses(&Name::from_ascii("example.com.").unwrap(), &addrs).is_empty());
    assert_eq!(eligible_addresses(&name, &addrs), addrs);
}

#[test]
fn eligible_addresses_filters_mixed_set() {
    let name = Name::from_ascii("dual.example.com.").unwrap();
    let addrs = vec![
        Ipv4Addr::new(10, 0, 0, 1),      // filtered
        Ipv4Addr::new(93, 184, 216, 34), // kept
    ];
    assert_eq!(
        eligible_addresses(&name, &addrs),
        vec![Ipv4Addr::new(93, 184, 216, 34)]
    );
}

fn ctx(name: &str, addrs: &[Ipv4Addr]) -> SynthContext {
    SynthContext::new(
        Name::from_ascii(name).unwrap(),
        vec![],
        addrs.iter().map(|ip| (*ip, 300)).collect(),
        Default::default(),
    )
}

#[test]
fn detect_embeds_eligible_only() {
    let nat = Nat64::new(WK);
    let c = ctx(
        "dual.example.com.",
        &[Ipv4Addr::new(10, 0, 0, 1), Ipv4Addr::new(93, 184, 216, 34)],
    );
    let plan = nat.detect(&c).expect("nat64 always plans when A present");
    let out = plan.combine.apply(&[], &c.a_addrs());
    assert_eq!(out, vec![v6("64:ff9b::5db8:d822")]);
}

#[test]
fn detect_none_without_a_records() {
    let nat = Nat64::new(WK);
    assert!(nat.detect(&ctx("x.example.com.", &[])).is_none());
}

#[test]
fn the_well_known_name_is_known_in_any_case() {
    let addrs = vec![Ipv4Addr::new(192, 0, 0, 170)];
    let name = Name::from_ascii("IPv4Only.ARPA.").unwrap();
    assert_eq!(eligible_addresses(&name, &addrs), addrs);
}
