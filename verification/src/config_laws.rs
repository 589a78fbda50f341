//! Which settings are taken, which defaults fill in for them, and what is refused.

use vstd::prelude::*;

use crate::acl;
use crate::config;
use crate::config::{Config, ConfigError, Settings};
use crate::net::{IpAddr, Ipv6Addr};
use crate::synth;
use crate::text;

verus! {

/// A setting that is given is taken as it is.
pub proof fn what_is_given_is_taken(s: Settings, c: Config)
    requires
        config::is_settled(s, c),
    ensures
        s.listen is Some ==> c.listen == s.listen->0,
        s.nat64_prefix is Some ==> c.nat64_prefix == s.nat64_prefix->0,
        c.ttl_cap == s.ttl_cap,
        c.upstreams == s.upstreams,
        s.cache_size is Some ==> c.cache_size == s.cache_size->0,
        s.serve_stale is Some ==> c.serve_stale == s.serve_stale->0,
        s.synthesizers is Some ==> text::texts(c.synthesizers@) == text::texts(s.synthesizers->0@),
        s.nat64_fallback is Some ==> c.nat64_fallback == s.nat64_fallback->0,
        s.blocklists is Some ==> text::texts(c.blocklists@) == text::texts(s.blocklists->0@),
        c.metrics_listen == s.metrics_listen,
        c.ui_listen == s.ui_listen,
        s.query_log_size is Some ==> c.query_log_size == s.query_log_size->0,
        s.client_networks is Some ==> text::texts(c.client_networks@) == text::texts(
            s.client_networks->0@,
        ),
        s.log is Some ==> c.log@ == s.log->0@,
{
}

/// A setting that is not given has its default.
pub proof fn what_is_not_given_has_a_default(s: Settings, c: Config)
    requires
        config::is_settled(s, c),
    ensures
        s.listen is None ==> c.listen.ip == IpAddr::V6(Ipv6Addr { bits: 0 }) && c.listen.port == 53
            && c.listen.scope == 0,
        s.nat64_prefix is None ==> c.nat64_prefix.bits == 0x0064_ff9b_0000_0000_0000_0000_0000_0000,
        s.cache_size is None ==> c.cache_size == 4096,
        s.serve_stale is None ==> c.serve_stale,
        s.synthesizers is None ==> c.synthesizers@.len() == 1 && c.synthesizers@[0]@ == "nat64"@,
        s.nat64_fallback is None ==> c.nat64_fallback,
        s.blocklists is None ==> c.blocklists@.len() == 0,
        s.query_log_size is None ==> c.query_log_size == 1000,
        s.client_networks is None ==> c.client_networks@.len() == 0,
        s.log is None ==> c.log@ == "off"@,
{
    if s.synthesizers is None {
        assert(text::texts(c.synthesizers@).len() == 1);
        assert(text::texts(c.synthesizers@)[0] == "nat64"@);
    }
    if s.blocklists is None {
        assert(text::texts(c.blocklists@).len() == 0);
    }
    if s.client_networks is None {
        assert(text::texts(c.client_networks@).len() == 0);
    }
}

/// A configuration is valid just where it listens on an IPv6 address, has an upstream,
/// has a prefix of 96 bits, as a number, from which addresses can be served, and has no
/// client network that cannot be read.
pub proof fn what_is_valid(c: Config)
    ensures
        config::is_valid(c) <==> {
            &&& c.listen.ip is V6
            &&& c.upstreams@.len() >= 1
            &&& c.nat64_prefix.bits as nat % 4_294_967_296 == 0
            &&& synth::global_unicast(c.nat64_prefix.bits)
            &&& forall|i: int|
                0 <= i < c.client_networks@.len() ==> acl::entry(
                    (#[trigger] c.client_networks@[i])@,
                ) is Net
        },
{
}

/// The fault that is reported of a configuration is the first one, in the order of
/// listen address, upstreams, prefix and client networks.
pub proof fn the_first_fault_is_reported(c: Config, e: ConfigError)
    requires
        config::is_fault(c, e),
    ensures
        c.listen.ip is V4 ==> e == ConfigError::Listen(c.listen),
        c.listen.ip is V6 && c.upstreams@.len() == 0 ==> e is Upstreams,
        c.listen.ip is V6 && c.upstreams@.len() > 0 && c.nat64_prefix.bits as nat % 4_294_967_296
            != 0 ==> e == ConfigError::Prefix(c.nat64_prefix),
        c.listen.ip is V6 && c.upstreams@.len() > 0 && c.nat64_prefix.bits as nat % 4_294_967_296
            == 0 && !synth::global_unicast(c.nat64_prefix.bits) ==> e == ConfigError::NotGlobal(
            c.nat64_prefix,
        ),
        c.listen.ip is V6 && c.upstreams@.len() > 0 && c.nat64_prefix.bits as nat % 4_294_967_296
            == 0 && synth::global_unicast(c.nat64_prefix.bits) ==> e is Clients && exists|i: int|
            0 <= i < c.client_networks@.len() && acl::entry_fault(
                (#[trigger] c.client_networks@[i])@,
                e->Clients_0,
            ) && forall|j: int|
                0 <= j < i ==> acl::entry((#[trigger] c.client_networks@[j])@) is Net,
{
    if e is Clients {
        let v = c.client_networks@;
        let a = e->Clients_0;
        let i = choose|i: int|
            0 <= i < v.len() && acl::entry_fault(#[trigger] v[i]@, a) && forall|j: int|
                0 <= j < i ==> acl::entry(#[trigger] v[j]@) is Net;
        assert(acl::entry_fault(c.client_networks@[i]@, a));
    }
}

/// The fault of an entry of the client networks names the entry.
pub proof fn the_fault_of_an_entry_names_it(s: Seq<char>, e: acl::AclError)
    requires
        acl::entry_fault(s, e),
    ensures
        acl::entry(s) is BadPrefix ==> e is Prefix && e->Prefix_0@ == s,
        acl::entry(s) is Oversize ==> e is Oversize && e->Oversize_0 == acl::entry(s)->Oversize_0
            && e->Oversize_1@ == s,
        acl::entry(s) is Ipv4 ==> e is Ipv4 && e->Ipv4_0@ == s,
        acl::entry(s) is Invalid ==> e is Invalid && e->Invalid_0@ == s,
        !(acl::entry(s) is Net),
{
}

} // verus!
