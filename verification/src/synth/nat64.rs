//! The NAT64 synthesizer: embed an eligible IPv4 address into the NAT64 prefix
//! (RFC 6147, RFC 6052). It is the intended last entry of the chain, used when no
//! provider matches.

use vstd::prelude::*;

use crate::dns::Name;
use crate::net;
use crate::net::{Ipv4Addr, Ipv6Addr};
use crate::synth::{Combine, CombineModel, CtxModel, Plan, PlanModel, SynthContext, Synthesizer};
use crate::text;

verus! {

/// Whether a name is `ipv4only.arpa.`, in any case of its letters.
pub open spec fn arpa(name: Seq<char>) -> bool {
    text::lower(name) == text::lower("ipv4only.arpa."@)
}

/// `ipv4only.arpa.`: the RFC 7050 name that hosts query to discover the NAT64
/// prefix. Its addresses are not global, yet they are embedded, so that 464XLAT
/// clients can learn the prefix.
pub fn is_ipv4only_arpa(name: &Name) -> (r: bool)
    ensures
        r == arpa(name@),
{
    text::same_ignore_case(name.text.as_str(), "ipv4only.arpa.")
}

/// Whether an address is of a network that is reached from everywhere.
pub open spec fn routable(bits: u32) -> bool {
    let a = net::octet(bits as int, 0);
    let b = net::octet(bits as int, 1);
    let c = net::octet(bits as int, 2);
    !({
        ||| a == 0  // this network
        ||| a == 10  // private
        ||| a == 172 && 16 <= b < 32  // private
        ||| a == 192 && b == 168  // private
        ||| a == 100 && 64 <= b < 128  // carrier-grade NAT
        ||| a == 127  // loopback
        ||| a == 169 && b == 254  // link-local
        ||| a == 192 && b == 0 && c == 0  // protocol assignments
        ||| a == 192 && b == 0 && c == 2  // documentation
        ||| a == 198 && b == 51 && c == 100  // documentation
        ||| a == 203 && b == 0 && c == 113  // documentation
        ||| a == 198 && 18 <= b < 20  // benchmarking
        ||| 224 <= a  // multicast, reserved, broadcast
    })
}

/// Whether an IPv4 address may be embedded into the NAT64 prefix: addresses that
/// are not global must not be translated (RFC 6052, section 3.1).
pub fn is_globally_routable(ip: Ipv4Addr) -> (r: bool)
    ensures
        r == routable(ip.bits),
{
    let (a, b, c, _) = ip.octets();
    !(a == 0 || a == 10 || (a == 172 && 16 <= b && b < 32) || (a == 192 && b == 168) || (a == 100
        && 64 <= b && b < 128) || a == 127 || (a == 169 && b == 254) || (a == 192 && b == 0 && c
        == 0) || (a == 192 && b == 0 && c == 2) || (a == 198 && b == 51 && c == 100) || (a == 203
        && b == 0 && c == 113) || (a == 198 && 18 <= b && b < 20) || a >= 224)
}

/// The prefix with the address in its low 32 bits.
pub open spec fn embedded(prefix: Ipv6Addr, ip: Ipv4Addr) -> Ipv6Addr {
    Ipv6Addr {
        bits: (prefix.bits as int - prefix.bits as int % 0x1_0000_0000 + ip.bits as int) as u128,
    }
}

/// Embeds an IPv4 address into a NAT64 prefix of 96 bits.
pub fn embed(prefix: Ipv6Addr, ip: Ipv4Addr) -> (r: Ipv6Addr)
    ensures
        r == embedded(prefix, ip),
{
    Ipv6Addr { bits: prefix.bits - prefix.bits % 0x1_0000_0000 + (ip.bits as u128) }
}

/// The addresses of a list that are routable, in order.
pub open spec fn routable_only(v: Seq<Ipv4Addr>) -> Seq<Ipv4Addr>
    decreases v.len(),
{
    if v.len() == 0 {
        v
    } else if routable(v.last().bits) {
        routable_only(v.drop_last()).push(v.last())
    } else {
        routable_only(v.drop_last())
    }
}

/// The addresses of a name that may be embedded: the routable ones, and all of
/// those of `ipv4only.arpa.`.
pub open spec fn eligible(name: Seq<char>, v: Seq<Ipv4Addr>) -> Seq<Ipv4Addr> {
    if arpa(name) {
        v
    } else {
        routable_only(v)
    }
}

/// Decides which of a name's addresses are eligible for embedding.
pub fn eligible_addresses(name: &Name, a_records: &[Ipv4Addr]) -> (r: Vec<Ipv4Addr>)
    ensures
        r@ == eligible(name@, a_records@),
{
    let all = is_ipv4only_arpa(name);
    let mut out: Vec<Ipv4Addr> = Vec::new();
    let mut i: usize = 0;
    while i < a_records.len()
        invariant
            0 <= i <= a_records@.len(),
            all == arpa(name@),
            out@ == eligible(name@, a_records@.take(i as int)),
        decreases a_records@.len() - i,
    {
        let ghost q = a_records@.take(i + 1);
        assert(q.drop_last() =~= a_records@.take(i as int));
        assert(q.last() == a_records@[i as int]);
        assert(q =~= a_records@.take(i as int).push(a_records@[i as int]));
        if all || is_globally_routable(a_records[i]) {
            out.push(a_records[i]);
        }
        i = i + 1;
    }
    assert(a_records@.take(a_records@.len() as int) =~= a_records@);
    out
}

/// Some addresses, each embedded.
pub open spec fn embedded_each(prefix: Ipv6Addr, v: Seq<Ipv4Addr>) -> Seq<Ipv6Addr> {
    Seq::new(v.len(), |i: int| embedded(prefix, v[i]))
}

/// Embeds each of some addresses.
pub fn embed_each(prefix: Ipv6Addr, v: &Vec<Ipv4Addr>) -> (r: Vec<Ipv6Addr>)
    ensures
        r@ == embedded_each(prefix, v@),
{
    let mut out: Vec<Ipv6Addr> = Vec::new();
    let mut i: usize = 0;
    while i < v.len()
        invariant
            0 <= i <= v@.len(),
            out@ == embedded_each(prefix, v@).take(i as int),
        decreases v@.len() - i,
    {
        out.push(embed(prefix, v[i]));
        assert(embedded_each(prefix, v@).take(i + 1) =~= embedded_each(prefix, v@).take(
            i as int,
        ).push(embedded(prefix, v@[i as int])));
        i = i + 1;
    }
    assert(out@ =~= embedded_each(prefix, v@));
    out
}

/// The NAT64 prefix-embedding synthesizer.
#[derive(Debug, Clone, Copy)]
pub struct Nat64 {
    prefix: Ipv6Addr,
}

impl Nat64 {
    /// The prefix that addresses are embedded into.
    pub closed spec fn net(&self) -> Ipv6Addr {
        self.prefix
    }

    /// The synthesizer for a prefix.
    pub fn new(prefix: Ipv6Addr) -> (r: Self)
        ensures
            r.net() == prefix,
    {
        Nat64 { prefix }
    }
}

/// The NAT64 plan: nothing to look up, and the eligible addresses embedded; none
/// for a name without addresses.
pub open spec fn nat64_plan(prefix: Ipv6Addr, ctx: CtxModel) -> Option<PlanModel> {
    if ctx.a.len() == 0 {
        None
    } else {
        Some(
            PlanModel { resolve: Seq::empty(), combine: CombineModel::Nat64(prefix, ctx.name) },
        )
    }
}

impl Synthesizer for Nat64 {
    open spec fn valid(&self) -> bool {
        true
    }

    open spec fn ident(&self) -> Seq<char> {
        "nat64"@
    }

    open spec fn planned(&self, ctx: CtxModel) -> Option<PlanModel> {
        nat64_plan(self.net(), ctx)
    }

    fn id(&self) -> (r: &'static str) {
        "nat64"
    }

    fn detect(&self, ctx: &SynthContext) -> (r: Option<Plan>) {
        if ctx.a_records.len() == 0 {
            return None;
        }
        let p = Plan::pure(Combine::Nat64 { prefix: self.prefix, name: ctx.name.clone() });
        Some(p)
    }
}

/// The low 32 bits of an embedded address are the IPv4 address, and the rest is
/// the prefix.
pub proof fn embedding_keeps_both(prefix: Ipv6Addr, ip: Ipv4Addr)
    ensures
        embedded(prefix, ip).bits as int % 0x1_0000_0000 == ip.bits,
        embedded(prefix, ip).bits as int / 0x1_0000_0000 == prefix.bits as int / 0x1_0000_0000,
{
}

/// Two IPv4 addresses are embedded as one address only if they are the same.
pub proof fn embedding_is_injective(prefix: Ipv6Addr, a: Ipv4Addr, b: Ipv4Addr)
    requires
        embedded(prefix, a) == embedded(prefix, b),
    ensures
        a == b,
{
    embedding_keeps_both(prefix, a);
    embedding_keeps_both(prefix, b);
}

/// No address that is not routable is embedded, but those of `ipv4only.arpa.`.
pub proof fn only_routable_are_eligible(name: Seq<char>, v: Seq<Ipv4Addr>, ip: Ipv4Addr)
    requires
        !arpa(name),
    ensures
        eligible(name, v).contains(ip) <==> v.contains(ip) && routable(ip.bits),
    decreases v.len(),
{
    if v.len() > 0 {
        only_routable_are_eligible(name, v.drop_last(), ip);
        let d = v.drop_last();
        let e = routable_only(d);
        if v.contains(ip) && routable(ip.bits) {
            let i = v.index_of(ip);
            if i < d.len() {
                assert(d[i] == ip);
                let k = e.index_of(ip);
                assert(routable_only(v)[k] == ip);
            } else {
                assert(routable_only(v).last() == ip);
            }
        }
        if routable_only(v).contains(ip) {
            let k = routable_only(v).index_of(ip);
            if k < e.len() {
                assert(e[k] == ip);
                let i = d.index_of(ip);
                assert(v[i] == ip);
            } else {
                assert(v.last() == ip);
            }
        }
    }
}

} // verus!
