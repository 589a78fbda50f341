//! Configuration: its settings, their defaults, and what they must satisfy.

use vstd::prelude::*;

use crate::acl;
use crate::acl::{AclError, ClientAcl};
use crate::net;
use crate::net::{IpAddr, Ipv6Addr, SocketAddr};
use crate::synth;
use crate::text;

verus! {

/// The bits of the well-known NAT64 prefix (RFC 6052), `64:ff9b::`, and the
/// default.
pub const WELL_KNOWN_NAT64_PREFIX: u128 = 0x0064_ff9b_0000_0000_0000_0000_0000_0000;

/// A single upstream resolver.
#[derive(Debug)]
pub enum Upstream {
    /// Plain Do53 over UDP, falling back to TCP on a truncated answer.
    Plain(SocketAddr),
    /// DNS-over-TLS, with `dns_name` validated against the certificate.
    Tls { addr: SocketAddr, dns_name: String },
}

/// The settings as a configuration file gives them: what is absent takes its
/// default.
#[derive(Debug)]
pub struct Settings {
    pub listen: Option<SocketAddr>,
    pub nat64_prefix: Option<Ipv6Addr>,
    pub ttl_cap: Option<u32>,
    pub upstreams: Vec<Upstream>,
    pub cache_size: Option<usize>,
    pub serve_stale: Option<bool>,
    pub synthesizers: Option<Vec<String>>,
    pub nat64_fallback: Option<bool>,
    pub blocklists: Option<Vec<String>>,
    pub metrics_listen: Option<SocketAddr>,
    pub ui_listen: Option<SocketAddr>,
    pub query_log_size: Option<usize>,
    pub client_networks: Option<Vec<String>>,
    pub log: Option<String>,
}

/// A configuration.
#[derive(Debug)]
pub struct Config {
    /// The address to serve clients on. Must be IPv6.
    pub listen: SocketAddr,
    /// The NAT64 prefix, a `/96`.
    pub nat64_prefix: Ipv6Addr,
    /// A cap on the TTL of synthesized records, if any.
    pub ttl_cap: Option<u32>,
    /// The upstream resolvers, tried in order.
    pub upstreams: Vec<Upstream>,
    /// The most answers that are cached; 0 disables the cache.
    pub cache_size: usize,
    /// Whether expired answers back a failing or slow upstream.
    pub serve_stale: bool,
    /// The enabled synthesizers, in order of precedence.
    pub synthesizers: Vec<String>,
    /// Whether a provider's answer also carries the NAT64 addresses.
    pub nat64_fallback: bool,
    /// The URLs of the blocklists.
    pub blocklists: Vec<String>,
    /// The address of the metrics endpoint, if any.
    pub metrics_listen: Option<SocketAddr>,
    /// The address of the dashboard, if any.
    pub ui_listen: Option<SocketAddr>,
    /// The most queries that the dashboard's log keeps.
    pub query_log_size: usize,
    /// The client networks that may query; none admits every client.
    pub client_networks: Vec<String>,
    /// How much is logged.
    pub log: String,
}

/// What is wrong with a configuration.
#[derive(Debug)]
pub enum ConfigError {
    /// The listen address is not IPv6.
    Listen(SocketAddr),
    /// There is no upstream.
    Upstreams,
    /// The prefix is no `/96`.
    Prefix(Ipv6Addr),
    /// The prefix is not globally routable.
    NotGlobal(Ipv6Addr),
    /// A client network is none.
    Clients(AclError),
}

/// A configuration error in words.
pub open spec fn error_text(e: ConfigError) -> Seq<char> {
    match e {
        ConfigError::Listen(a) => "listen address "@ + net::socket_display(a)
            + " is not IPv6; the Forwarder serves clients over IPv6 only"@,
        ConfigError::Upstreams => "at least one upstream resolver must be configured"@,
        ConfigError::Prefix(p) => "nat64_prefix "@ + net::ipv6_display(p.bits)
            + " has non-zero low 32 bits; only /96 prefixes are supported"@,
        ConfigError::NotGlobal(p) => "nat64_prefix "@ + net::ipv6_display(p.bits)
            + " is not globally-routable IPv6; embedded addresses would be unservable (synthesis drops loopback/link-local/ULA/multicast)"@,
        ConfigError::Clients(e) => acl::error_text(e),
    }
}

impl ConfigError {
    /// The error in words.
    pub fn message(&self) -> (r: String)
        ensures
            r@ == error_text(*self),
    {
        let mut m: String = String::new();
        match self {
            ConfigError::Listen(a) => {
                m.append("listen address ");
                m.append(a.text().as_str());
                m.append(" is not IPv6; the Forwarder serves clients over IPv6 only");
            },
            ConfigError::Upstreams => {
                m.append("at least one upstream resolver must be configured");
            },
            ConfigError::Prefix(p) => {
                m.append("nat64_prefix ");
                m.append(p.text().as_str());
                m.append(" has non-zero low 32 bits; only /96 prefixes are supported");
            },
            ConfigError::NotGlobal(p) => {
                m.append("nat64_prefix ");
                m.append(p.text().as_str());
                m.append(
                    " is not globally-routable IPv6; embedded addresses would be unservable (synthesis drops loopback/link-local/ULA/multicast)",
                );
            },
            ConfigError::Clients(e) => {
                m.append(e.message().as_str());
            },
        }
        assert(m@ =~= error_text(*self));
        m
    }
}

/// The fault of the first of some client networks that is none.
pub open spec fn clients_fault(entries: Seq<String>, e: AclError) -> bool {
    exists|i: int|
        0 <= i < entries.len() && acl::entry_fault(#[trigger] entries[i]@, e) && forall|j: int|
            0 <= j < i ==> acl::entry(#[trigger] entries[j]@) is Net
}

/// Whether every client network is one.
pub open spec fn clients_hold(entries: Seq<String>) -> bool {
    forall|i: int| 0 <= i < entries.len() ==> acl::entry(#[trigger] entries[i]@) is Net
}

/// Whether a prefix is a `/96`: its low 32 bits are zero.
pub open spec fn is_96(p: Ipv6Addr) -> bool {
    p.bits % 0x1_0000_0000 == 0
}

/// Whether a configuration can be run with.
pub open spec fn is_valid(c: Config) -> bool {
    &&& c.listen.ip is V6
    &&& c.upstreams@.len() > 0
    &&& is_96(c.nat64_prefix)
    &&& synth::global_unicast(c.nat64_prefix.bits)
    &&& clients_hold(c.client_networks@)
}

/// Whether `e` is the first thing that is wrong with a configuration.
pub open spec fn is_fault(c: Config, e: ConfigError) -> bool {
    if !(c.listen.ip is V6) {
        e == ConfigError::Listen(c.listen)
    } else if c.upstreams@.len() == 0 {
        e == ConfigError::Upstreams
    } else if !is_96(c.nat64_prefix) {
        e == ConfigError::Prefix(c.nat64_prefix)
    } else if !synth::global_unicast(c.nat64_prefix.bits) {
        e == ConfigError::NotGlobal(c.nat64_prefix)
    } else {
        e matches ConfigError::Clients(a) && clients_fault(c.client_networks@, a)
    }
}

/// A setting that is absent takes its default.
pub open spec fn set_or<T>(setting: Option<T>, default: T) -> T {
    match setting {
        Some(v) => v,
        None => default,
    }
}

/// A list that is absent takes its default.
pub open spec fn list_or(setting: Option<Vec<String>>, default: Seq<Seq<char>>) -> Seq<Seq<char>> {
    match setting {
        Some(v) => text::texts(v@),
        None => default,
    }
}

/// Whether a configuration is what some settings and the defaults give.
pub open spec fn is_settled(s: Settings, c: Config) -> bool {
    &&& c.listen == set_or(
        s.listen,
        SocketAddr { ip: IpAddr::V6(Ipv6Addr { bits: 0 }), port: 53, scope: 0 },
    )
    &&& c.nat64_prefix == set_or(
        s.nat64_prefix,
        Ipv6Addr { bits: WELL_KNOWN_NAT64_PREFIX },
    )
    &&& c.ttl_cap == s.ttl_cap
    &&& c.upstreams == s.upstreams
    &&& c.cache_size == set_or(s.cache_size, 4096)
    &&& c.serve_stale == set_or(s.serve_stale, true)
    &&& text::texts(c.synthesizers@) == list_or(s.synthesizers, seq!["nat64"@])
    &&& c.nat64_fallback == set_or(s.nat64_fallback, true)
    &&& text::texts(c.blocklists@) == list_or(s.blocklists, Seq::empty())
    &&& c.metrics_listen == s.metrics_listen
    &&& c.ui_listen == s.ui_listen
    &&& c.query_log_size == set_or(s.query_log_size, 1000)
    &&& text::texts(c.client_networks@) == list_or(s.client_networks, Seq::empty())
    &&& c.log@ == (match s.log {
        Some(l) => l@,
        None => "off"@,
    })
}

fn or_empty(setting: Option<Vec<String>>) -> (r: Vec<String>)
    ensures
        text::texts(r@) == list_or(setting, Seq::empty()),
{
    match setting {
        Some(v) => v,
        None => {
            let v: Vec<String> = Vec::new();
            assert(text::texts(v@) =~= Seq::empty());
            v
        },
    }
}

fn default_synthesizers() -> (r: Vec<String>)
    ensures
        text::texts(r@) == seq!["nat64"@],
{
    let mut v: Vec<String> = Vec::new();
    v.push(text::copy("nat64"));
    assert(text::texts(v@) =~= seq!["nat64"@]);
    v
}

impl Config {
    /// The configuration that some settings give, the defaults filled in.
    pub fn settle(s: Settings) -> (r: Self)
        ensures
            is_settled(s, r),
    {
        Config {
            listen: match s.listen {
                Some(a) => a,
                None => SocketAddr::new(IpAddr::V6(Ipv6Addr { bits: 0 }), 53),
            },
            nat64_prefix: match s.nat64_prefix {
                Some(p) => p,
                None => Ipv6Addr { bits: WELL_KNOWN_NAT64_PREFIX },
            },
            ttl_cap: s.ttl_cap,
            upstreams: s.upstreams,
            cache_size: match s.cache_size {
                Some(n) => n,
                None => 4096,
            },
            serve_stale: match s.serve_stale {
                Some(b) => b,
                None => true,
            },
            synthesizers: match s.synthesizers {
                Some(v) => v,
                None => default_synthesizers(),
            },
            nat64_fallback: match s.nat64_fallback {
                Some(b) => b,
                None => true,
            },
            blocklists: or_empty(s.blocklists),
            metrics_listen: s.metrics_listen,
            ui_listen: s.ui_listen,
            query_log_size: match s.query_log_size {
                Some(n) => n,
                None => 1000,
            },
            client_networks: or_empty(s.client_networks),
            log: match s.log {
                Some(l) => l,
                None => text::copy("off"),
            },
        }
    }

    /// Fills in the defaults and checks what the rest relies on.
    pub fn from_settings(s: Settings) -> (r: Result<Self, ConfigError>)
        ensures
            match r {
                Ok(c) => is_settled(s, c) && is_valid(c),
                Err(e) => exists|c: Config| is_settled(s, c) && !is_valid(c) && is_fault(c, e),
            },
    {
        let c = Config::settle(s);
        match c.validate() {
            Ok(_) => Ok(c),
            Err(e) => Err(e),
        }
    }

    /// Checks what the rest relies on.
    pub fn validate(&self) -> (r: Result<(), ConfigError>)
        ensures
            match r {
                Ok(_) => is_valid(*self),
                Err(e) => !is_valid(*self) && is_fault(*self, e),
            },
    {
        if !self.listen.is_ipv6() {
            return Err(ConfigError::Listen(self.listen));
        }
        if self.upstreams.len() == 0 {
            return Err(ConfigError::Upstreams);
        }
        if self.nat64_prefix.bits % 0x1_0000_0000 != 0 {
            return Err(ConfigError::Prefix(self.nat64_prefix));
        }
        if !synth::is_global_unicast_v6(self.nat64_prefix) {
            return Err(ConfigError::NotGlobal(self.nat64_prefix));
        }
        match ClientAcl::parse(self.client_networks.as_slice()) {
            Ok(a) => {
                assert forall|i: int| 0 <= i < self.client_networks@.len() implies acl::entry(
                    #[trigger] self.client_networks@[i]@,
                ) is Net by {
                    assert(acl::entry(self.client_networks@[i]@) == acl::Entry::Net(a@[i]));
                }
                Ok(())
            },
            Err(e) => {
                assert(clients_fault(self.client_networks@, e));
                Err(ConfigError::Clients(e))
            },
        }
    }
}

/// A configuration that has only upstreams is valid: every default is.
pub proof fn the_defaults_are_valid(s: Settings, c: Config)
    requires
        s.upstreams@.len() > 0,
        s.listen is None,
        s.nat64_prefix is None,
        s.client_networks is None,
        is_settled(s, c),
    ensures
        is_valid(c),
{
    assert(text::texts(c.client_networks@).len() == c.client_networks@.len());
}

/// Every address that is embedded into the prefix of a valid configuration can be
/// served, and differs from the prefix in its low 32 bits only.
pub proof fn a_valid_prefix_is_servable(c: Config, ip: net::Ipv4Addr)
    requires
        is_valid(c),
    ensures
        synth::nat64::embedded(c.nat64_prefix, ip).bits == c.nat64_prefix.bits + ip.bits,
        synth::global_unicast(synth::nat64::embedded(c.nat64_prefix, ip).bits),
{
    synth::laws::a_valid_prefix_embeds_servable_addresses(c.nat64_prefix, ip);
}

} // verus!
