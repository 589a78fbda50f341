use dnsix::acl::{AclError, ClientAcl};
use dnsix::net::{IpAddr, Ipv6Addr};

fn v6(s: &str) -> IpAddr {
    IpAddr::V6(Ipv6Addr::parse(s).unwrap())
}

#[test]
fn empty_allowlist_allows_everyone() {
    let acl = ClientAcl::parse(&[]).unwrap();
    assert!(acl.is_empty());
    assert!(acl.allows(v6("2001:db8::1")));
    assert!(acl.allows(v6("::1")));
}

#[test]
fn matches_within_prefix_and_rejects_outside() {
    let acl = ClientAcl::parse(&["2001:db8::/32".to_string()]).unwrap();
    assert!(acl.allows(v6("2001:db8::1")));
    assert!(acl.allows(v6("2001:db8:ffff::abcd")));
    assert!(!acl.allows(v6("2001:db9::1")));
    assert!(!acl.allows(v6("fe80::1")));
}

#[test]
fn bare_address_is_a_host_route() {
    let acl = ClientAcl::parse(&["2001:db8::5".to_string()]).unwrap();
    assert!(acl.allows(v6("2001:db8::5")));
    assert!(!acl.allows(v6("2001:db8::6")));
}

#[test]
fn multiple_networks_union() {
    let acl = ClientAcl::parse(&[
        "2001:db8::/64".to_string(),
        "fd00::/8".to_string(),
        "::1/128".to_string(),
    ])
    .unwrap();
    assert!(acl.allows(v6("2001:db8::abcd")));
    assert!(acl.allows(v6("fd12::1")));
    assert!(acl.allows(v6("::1")));
    assert!(!acl.allows(v6("2001:dead::1")));
}

#[test]
fn ipv4_client_is_denied_when_allowlist_set() {
    let acl = ClientAcl::parse(&["2001:db8::/32".to_string()]).unwrap();
    assert!(!acl.allows(IpAddr::parse("192.0.2.1").unwrap()));
}

#[test]
fn ipv4_entry_is_rejected_with_targeted_error() {
    let err = ClientAcl::parse(&["192.0.2.0/24".to_string()]).unwrap_err();
    assert!(err.message().contains("IPv6-only"), "{}", err.message());
}

#[test]
fn garbage_and_oversize_prefix_are_rejected() {
    assert!(ClientAcl::parse(&["not-an-addr".to_string()]).is_err());
    assert!(ClientAcl::parse(&["2001:db8::/200".to_string()]).is_err());
    assert!(ClientAcl::parse(&["2001:db8::/xyz".to_string()]).is_err());
}

#[test]
fn zero_prefix_matches_all() {
    let acl = ClientAcl::parse(&["::/0".to_string()]).unwrap();
    assert!(acl.allows(v6("2001:db8::1")));
    assert!(acl.allows(v6("fe80::1")));
}

#[test]
fn each_fault_names_its_entry() {
    let fault = |e: &str| ClientAcl::parse(&["::1".to_string(), e.to_string()]).unwrap_err();
    assert_eq!(fault("::/x"), AclError::Prefix("::/x".to_string()));
    assert_eq!(
        fault("::/x").message(),
        "client_networks: invalid prefix length in \"::/x\""
    );
    assert_eq!(
        fault("::/129").message(),
        "client_networks: prefix /129 exceeds 128 in \"::/129\""
    );
    assert_eq!(
        fault("10.0.0.1").message(),
        "client_networks entry \"10.0.0.1\" is IPv4; the listener is IPv6-only, so only IPv6 networks can match clients"
    );
    assert_eq!(
        fault("a\"b\n").message(),
        "client_networks: \"a\\\"b\\n\" is not a valid IPv6 network"
    );
}

#[test]
fn the_first_faulty_entry_is_named() {
    let err = ClientAcl::parse(&["bad".to_string(), "::/x".to_string()]).unwrap_err();
    assert_eq!(err, AclError::Invalid("bad".to_string()));
}

#[test]
fn default_and_clone_keep_the_networks() {
    assert!(ClientAcl::default().is_empty());
    let acl = ClientAcl::parse(&["2001:db8::/32".to_string()]).unwrap();
    let copy = acl.clone();
    assert!(!copy.is_empty());
    assert!(copy.allows(v6("2001:db8::1")));
    assert!(!copy.allows(v6("2001:db9::1")));
}

#[test]
fn a_prefix_cuts_inside_a_group() {
    let acl = ClientAcl::parse(&["2001:db8:8000::1/33".to_string()]).unwrap();
    assert!(acl.allows(v6("2001:db8:8000::")));
    assert!(acl.allows(v6("2001:db8:ffff::1")));
    assert!(!acl.allows(v6("2001:db8:7fff::1")));
}
