use dnsix::config::{Config, ConfigError, Settings, Upstream, WELL_KNOWN_NAT64_PREFIX};
use dnsix::net::{IpAddr, Ipv6Addr, SocketAddr};

fn socket(s: &str) -> SocketAddr {
    let (host, port) = s.rsplit_once(':').unwrap();
    let host = host.trim_start_matches('[').trim_end_matches(']');
    SocketAddr::new(IpAddr::parse(host).unwrap(), port.parse().unwrap())
}

fn strings(v: &toml::Value) -> Vec<String> {
    v.as_array()
        .unwrap()
        .iter()
        .map(|s| s.as_str().unwrap().to_string())
        .collect()
}

fn upstream(v: &toml::Value) -> Upstream {
    match v.as_str() {
        Some(s) => Upstream::Plain(socket(s)),
        None => Upstream::Tls {
            addr: socket(v["addr"].as_str().unwrap()),
            dns_name: v["dns_name"].as_str().unwrap().to_string(),
        },
    }
}

fn from_toml(text: &str) -> Result<Config, ConfigError> {
    let t: toml::Table = text.parse().unwrap();
    let addr = |k: &str| t.get(k).map(|v| socket(v.as_str().unwrap()));
    let flag = |k: &str| t.get(k).map(|v| v.as_bool().unwrap());
    let size = |k: &str| t.get(k).map(|v| v.as_integer().unwrap() as usize);
    Config::from_settings(Settings {
        listen: addr("listen"),
        nat64_prefix: t
            .get("nat64_prefix")
            .map(|v| Ipv6Addr::parse(v.as_str().unwrap()).unwrap()),
        ttl_cap: t.get("ttl_cap").map(|v| v.as_integer().unwrap() as u32),
        upstreams: t["upstreams"].as_array().unwrap().iter().map(upstream).collect(),
        cache_size: size("cache_size"),
        serve_stale: flag("serve_stale"),
        synthesizers: t.get("synthesizers").map(strings),
        nat64_fallback: flag("nat64_fallback"),
        blocklists: t.get("blocklists").map(strings),
        metrics_listen: addr("metrics_listen"),
        ui_listen: addr("ui_listen"),
        query_log_size: size("query_log_size"),
        client_networks: t.get("client_networks").map(strings),
        log: t.get("log").map(|v| v.as_str().unwrap().to_string()),
    })
}

#[test]
fn minimal_config_uses_defaults() {
    let cfg = from_toml("upstreams = [\"192.0.2.1:53\"]").unwrap();
    assert_eq!(cfg.listen, socket("[::]:53"));
    assert_eq!(cfg.nat64_prefix.bits, WELL_KNOWN_NAT64_PREFIX);
    assert_eq!(cfg.ttl_cap, None);
    assert_eq!(cfg.upstreams.len(), 1);
    assert_eq!(cfg.cache_size, 4096);
    assert!(cfg.serve_stale);
    assert_eq!(cfg.synthesizers, vec!["nat64"]);
    assert!(cfg.client_networks.is_empty());
    assert_eq!(cfg.nat64_prefix.text(), "64:ff9b::");
}

#[test]
fn serve_stale_defaults_on_and_parses() {
    let cfg = from_toml("upstreams = [\"192.0.2.1:53\"]").unwrap();
    assert!(cfg.serve_stale);

    let cfg = from_toml("serve_stale = false\nupstreams = [\"192.0.2.1:53\"]").unwrap();
    assert!(!cfg.serve_stale);
}

#[test]
fn metrics_listen_defaults_off_and_parses() {
    let cfg = from_toml("upstreams = [\"192.0.2.1:53\"]").unwrap();
    assert_eq!(cfg.metrics_listen, None);

    let cfg =
        from_toml("metrics_listen = \"[::]:9153\"\nupstreams = [\"192.0.2.1:53\"]").unwrap();
    assert_eq!(cfg.metrics_listen, Some(socket("[::]:9153")));
}

#[test]
fn ui_listen_defaults_off_and_parses() {
    let cfg = from_toml("upstreams = [\"192.0.2.1:53\"]").unwrap();
    assert_eq!(cfg.ui_listen, None);
    assert_eq!(cfg.query_log_size, 1000);

    let cfg = from_toml(
        "ui_listen = \"[::]:8080\"\nquery_log_size = 5000\nupstreams = [\"192.0.2.1:53\"]",
    )
    .unwrap();
    assert_eq!(cfg.ui_listen, Some(socket("[::]:8080")));
    assert_eq!(cfg.query_log_size, 5000);
}

#[test]
fn log_defaults_off_and_parses() {
    let cfg = from_toml("upstreams = [\"192.0.2.1:53\"]").unwrap();
    assert_eq!(cfg.log, "off");

    let cfg = from_toml("log = \"dnsix=debug\"\nupstreams = [\"192.0.2.1:53\"]").unwrap();
    assert_eq!(cfg.log, "dnsix=debug");
}

#[test]
fn nat64_fallback_defaults_on_and_parses() {
    let cfg = from_toml("upstreams = [\"192.0.2.1:53\"]").unwrap();
    assert!(cfg.nat64_fallback);

    let cfg = from_toml("nat64_fallback = false\nupstreams = [\"192.0.2.1:53\"]").unwrap();
    assert!(!cfg.nat64_fallback);
}

#[test]
fn blocklists_default_empty_and_parse() {
    let cfg = from_toml("upstreams = [\"192.0.2.1:53\"]").unwrap();
    assert!(cfg.blocklists.is_empty());

    let cfg = from_toml(
        "blocklists = [\"https://example.com/hosts\", \"https://example.org/pro.txt\"]\n\
         upstreams = [\"192.0.2.1:53\"]",
    )
    .unwrap();
    assert_eq!(cfg.blocklists.len(), 2);
    assert_eq!(cfg.blocklists[0], "https://example.com/hosts");
}

#[test]
fn cache_can_be_disabled() {
    let cfg = from_toml("cache_size = 0\nupstreams = [\"192.0.2.1:53\"]").unwrap();
    assert_eq!(cfg.cache_size, 0);
}

#[test]
fn parses_plain_and_dot_upstreams() {
    let cfg = from_toml(
        "upstreams = [\
           \"[2001:4860:4860::8888]:53\", \
           { addr = \"[2606:4700:4700::1111]:853\", dns_name = \"cloudflare-dns.com\" }\
         ]",
    )
    .unwrap();
    assert_eq!(cfg.upstreams.len(), 2);
    match &cfg.upstreams[0] {
        Upstream::Plain(addr) => {
            assert_eq!(*addr, socket("[2001:4860:4860::8888]:53"))
        }
        other => panic!("expected plain upstream, got {other:?}"),
    }
    match &cfg.upstreams[1] {
        Upstream::Tls { addr, dns_name } => {
            assert_eq!(*addr, socket("[2606:4700:4700::1111]:853"));
            assert_eq!(dns_name, "cloudflare-dns.com");
        }
        other => panic!("expected DoT upstream, got {other:?}"),
    }
}

#[test]
fn rejects_ipv4_listen() {
    let err =
        from_toml("listen = \"0.0.0.0:53\"\nupstreams = [\"192.0.2.1:53\"]").unwrap_err();
    assert!(err.message().contains("IPv6 only"));
    assert_eq!(
        err.message(),
        "listen address 0.0.0.0:53 is not IPv6; the Forwarder serves clients over IPv6 only"
    );
}

#[test]
fn rejects_empty_upstreams() {
    let err = from_toml("upstreams = []").unwrap_err();
    assert!(err.message().contains("upstream"));
}

#[test]
fn rejects_non_96_prefix() {
    let err = from_toml("nat64_prefix = \"64:ff9b::1\"\nupstreams = [\"192.0.2.1:53\"]")
        .unwrap_err();
    assert!(err.message().contains("/96"));
    assert!(err.message().starts_with("nat64_prefix 64:ff9b::1 has non-zero low 32 bits"));
}

#[test]
fn rejects_non_global_prefix() {
    // A ULA /96 prefix is well-formed but its embedded addresses would be
    // filtered out at synthesis time, so it must be rejected at startup.
    let err = from_toml("nat64_prefix = \"fd00:64::\"\nupstreams = [\"192.0.2.1:53\"]")
        .unwrap_err();
    assert!(err.message().contains("globally-routable"));
}

#[test]
fn rejects_a_faulty_client_network() {
    let err =
        from_toml("client_networks = [\"::1\", \"10.0.0.0/8\"]\nupstreams = [\"192.0.2.1:53\"]")
            .unwrap_err();
    assert!(matches!(err, ConfigError::Clients(_)));
    assert!(err.message().contains("\"10.0.0.0/8\" is IPv4"));
}

#[test]
fn the_first_fault_is_reported() {
    let err = from_toml(
        "listen = \"1.2.3.4:53\"\nnat64_prefix = \"fd00::1\"\nclient_networks = [\"x\"]\nupstreams = []",
    )
    .unwrap_err();
    assert!(matches!(err, ConfigError::Listen(_)));
    let err = from_toml("nat64_prefix = \"fd00::1\"\nupstreams = [\"192.0.2.1:53\"]").unwrap_err();
    assert!(matches!(err, ConfigError::Prefix(_)));
}
