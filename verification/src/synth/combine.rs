//! From a plan's resolved addresses and a name's A addresses to the synthesized
//! IPv6 set.

use vstd::prelude::*;

use crate::net;
use crate::net::{Ipv4Addr, Ipv6Addr};
use crate::synth::cidr;
use crate::synth::nat64;
use crate::synth::tables;
use crate::synth::{Combine, CombineModel};
use crate::text;

verus! {

/// The number that the decimal digits of `n` write when they are read as
/// hexadecimal ones, where it fits 16 bits.
pub open spec fn digits_as_hex(n: nat) -> Option<nat> {
    text::parsed(text::decimal(n), 16, 0xffff)
}

fn read_digits_as_hex(n: u32) -> (r: Option<u16>)
    ensures
        match r {
            Some(h) => digits_as_hex(n as nat) == Some(h as nat),
            None => digits_as_hex(n as nat) is None,
        },
{
    let s = text::decimal_text(n as u64);
    let v = text::to_chars(s.as_str());
    match text::parse_number(v.as_slice(), 16, 0xffff) {
        Some(h) => Some(h as u16),
        None => None,
    }
}

/// The Fastly host id of an address: the last octet for GitHub Pages, otherwise
/// the low two bits of the third octet and the last octet.
pub open spec fn host_id(ip: Ipv4Addr, github: bool) -> nat {
    if github {
        net::octet(ip.bits as int, 3) as nat
    } else {
        ((net::octet(ip.bits as int, 2) % 4) * 256 + net::octet(ip.bits as int, 3)) as nat
    }
}

/// Fastly host id from the A address.
pub fn fastly_v6hex(ip: Ipv4Addr, github: bool) -> (r: u32)
    ensures
        r == host_id(ip, github),
        r < 1024,
{
    let (_, _, c, d) = ip.octets();
    if github {
        d as u32
    } else {
        ((c as u32) % 4) * 256 + (d as u32)
    }
}

/// A prefix with the decimal digits of a host id, read as hexadecimal ones, in
/// its low 16 bits; nothing where they do not fit.
pub open spec fn fused(prefix: Ipv6Addr, id: nat) -> Option<Ipv6Addr> {
    match digits_as_hex(id) {
        Some(h) => Some(
            Ipv6Addr {
                bits: (prefix.bits as int - prefix.bits as int % 0x10000 + h) as u128,
            },
        ),
        None => None,
    }
}

/// Puts the decimal digits of a host id, read as hexadecimal ones, into the low
/// 16 bits of a borrowed prefix.
pub fn fastly_fuse(prefix: Ipv6Addr, hostid: u32) -> (r: Option<Ipv6Addr>)
    ensures
        r == fused(prefix, hostid as nat),
{
    match read_digits_as_hex(hostid) {
        Some(h) => Some(
            Ipv6Addr { bits: prefix.bits - prefix.bits % 0x10000 + (h as u128) },
        ),
        None => None,
    }
}

/// The members of a list that a partial function maps, mapped, in order.
pub open spec fn mapped<A>(s: Seq<A>, f: spec_fn(A) -> Option<Ipv6Addr>) -> Seq<Ipv6Addr>
    decreases s.len(),
{
    if s.len() == 0 {
        Seq::empty()
    } else {
        match f(s.last()) {
            Some(a) => mapped(s.drop_last(), f).push(a),
            None => mapped(s.drop_last(), f),
        }
    }
}

/// The map of [`Combine::Fuse`].
pub open spec fn fuse_map(id: nat) -> spec_fn(Ipv6Addr) -> Option<Ipv6Addr> {
    |p: Ipv6Addr| fused(p, id)
}

/// The last octet of an address behind a Microsoft Edge prefix; SharePoint has
/// 8 for 9.
pub open spec fn msedge_addr(prefix: Ipv6Addr, spo: bool, ip: Ipv4Addr) -> Option<Ipv6Addr> {
    let o = net::octet(ip.bits as int, 3);
    let o = if spo && o == 9 {
        8
    } else {
        o
    };
    fused(prefix, o as nat)
}

/// The map of [`Combine::Msedge`].
pub open spec fn msedge_map(
    prefix: Ipv6Addr,
    spo: bool,
) -> spec_fn(Ipv4Addr) -> Option<Ipv6Addr> {
    |ip: Ipv4Addr| msedge_addr(prefix, spo, ip)
}

fn msedge_v4to6(prefix: Ipv6Addr, spo: bool, ip: Ipv4Addr) -> (r: Option<Ipv6Addr>)
    ensures
        r == msedge_addr(prefix, spo, ip),
{
    let (_, _, _, d) = ip.octets();
    let o: u8 = if spo && d == 9 {
        8
    } else {
        d
    };
    fastly_fuse(prefix, o as u32)
}

/// `2a04:fa87:fffd::`
pub const WPVIP_PREFIX: u128 = 0x2a04_fa87_fffd_0000_0000_0000_0000_0000;

/// A WordPress VIP address in the low 32 bits of `2a04:fa87:fffd::`.
pub open spec fn wpvip_addr(ip: Ipv4Addr) -> Option<Ipv6Addr> {
    if cidr::any_holds(tables::WPVIP_RANGES@, ip.bits) {
        Some(Ipv6Addr { bits: (WPVIP_PREFIX + ip.bits) as u128 })
    } else {
        None
    }
}

/// The map of [`Combine::Wpvip`].
pub open spec fn wpvip_map() -> spec_fn(Ipv4Addr) -> Option<Ipv6Addr> {
    |ip: Ipv4Addr| wpvip_addr(ip)
}

fn wpvip_v4to6(ip: Ipv4Addr) -> (r: Option<Ipv6Addr>)
    ensures
        r == wpvip_addr(ip),
{
    if cidr::in_table(ip, &tables::WPVIP_RANGES) {
        Some(Ipv6Addr { bits: WPVIP_PREFIX + (ip.bits as u128) })
    } else {
        None
    }
}

/// `2605:4c40::`
pub const CACHEFLY_PREFIX: u128 = 0x2605_4c40_0000_0000_0000_0000_0000_0000;

/// The decimal digits of the last two octets, read as hexadecimal ones, as the
/// last two groups of `2605:4c40::`.
pub open spec fn cachefly_addr(ip: Ipv4Addr) -> Option<Ipv6Addr> {
    match (
        digits_as_hex(net::octet(ip.bits as int, 2) as nat),
        digits_as_hex(net::octet(ip.bits as int, 3) as nat),
    ) {
        (Some(c), Some(d)) => Some(
            Ipv6Addr { bits: (CACHEFLY_PREFIX + c * 0x10000 + d) as u128 },
        ),
        _ => None,
    }
}

/// A CacheFly address embedded into `2605:4c40::`.
pub fn cachefly_v4to6(ip: Ipv4Addr) -> (r: Option<Ipv6Addr>)
    ensures
        r == cachefly_addr(ip),
{
    let (_, _, c, d) = ip.octets();
    match (read_digits_as_hex(c as u32), read_digits_as_hex(d as u32)) {
        (Some(c), Some(d)) => Some(
            Ipv6Addr { bits: CACHEFLY_PREFIX + (c as u128) * 0x10000 + (d as u128) },
        ),
        _ => None,
    }
}

/// The map of [`Combine::Cachefly`].
pub open spec fn cachefly_map() -> spec_fn(Ipv4Addr) -> Option<Ipv6Addr> {
    |ip: Ipv4Addr|
        if cidr::any_holds(tables::CACHEFLY_RANGES@, ip.bits) {
            cachefly_addr(ip)
        } else {
            None
        }
}

fn cachefly_in_range(ip: Ipv4Addr) -> (r: Option<Ipv6Addr>)
    ensures
        r == cachefly_map()(ip),
{
    if cidr::in_table(ip, &tables::CACHEFLY_RANGES) {
        cachefly_v4to6(ip)
    } else {
        None
    }
}

/// The addresses that a combinator gives.
pub open spec fn combined(
    c: CombineModel,
    resolved: Seq<Ipv6Addr>,
    v4: Seq<Ipv4Addr>,
) -> Seq<Ipv6Addr> {
    match c {
        CombineModel::Verbatim => resolved,
        CombineModel::BorrowOr(fallback) => if resolved.len() > 0 {
            resolved
        } else {
            match fallback {
                Some(a) => seq![a],
                None => Seq::empty(),
            }
        },
        CombineModel::Constant(a) => seq![a],
        CombineModel::Fuse(id) => mapped(resolved, fuse_map(id as nat)),
        CombineModel::Msedge(prefix, spo) => mapped(v4, msedge_map(prefix, spo)),
        CombineModel::Wpvip => mapped(v4, wpvip_map()),
        CombineModel::Cachefly => mapped(v4, cachefly_map()),
        CombineModel::Nat64(prefix, name) => nat64::embedded_each(
            prefix,
            nat64::eligible(name, v4),
        ),
    }
}

fn copy_addrs(v: &[Ipv6Addr]) -> (r: Vec<Ipv6Addr>)
    ensures
        r@ == v@,
{
    let mut out: Vec<Ipv6Addr> = Vec::new();
    let mut i: usize = 0;
    while i < v.len()
        invariant
            0 <= i <= v@.len(),
            out@ == v@.take(i as int),
        decreases v@.len() - i,
    {
        out.push(v[i]);
        assert(v@.take(i + 1) =~= v@.take(i as int).push(v@[i as int]));
        i = i + 1;
    }
    assert(out@ =~= v@);
    out
}

fn one_addr(a: Ipv6Addr) -> (r: Vec<Ipv6Addr>)
    ensures
        r@ == seq![a],
{
    let mut v: Vec<Ipv6Addr> = Vec::new();
    v.push(a);
    assert(v@ =~= seq![a]);
    v
}

/// The map that a combinator applies to each A address, where it is such a one.
pub open spec fn v4_map(c: CombineModel) -> Option<spec_fn(Ipv4Addr) -> Option<Ipv6Addr>> {
    match c {
        CombineModel::Msedge(prefix, spo) => Some(msedge_map(prefix, spo)),
        CombineModel::Wpvip => Some(wpvip_map()),
        CombineModel::Cachefly => Some(cachefly_map()),
        _ => None,
    }
}

impl Combine {
    fn map_one(&self, ip: Ipv4Addr) -> (r: Option<Ipv6Addr>)
        requires
            v4_map(self@) is Some,
        ensures
            r == (v4_map(self@)->0)(ip),
    {
        match self {
            Combine::Msedge(prefix, spo) => msedge_v4to6(*prefix, *spo, ip),
            Combine::Wpvip => wpvip_v4to6(ip),
            _ => cachefly_in_range(ip),
        }
    }

    fn map_each(&self, v4: &[Ipv4Addr]) -> (r: Vec<Ipv6Addr>)
        requires
            v4_map(self@) is Some,
        ensures
            r@ == mapped(v4@, v4_map(self@)->0),
    {
        let mut out: Vec<Ipv6Addr> = Vec::new();
        let mut i: usize = 0;
        while i < v4.len()
            invariant
                v4_map(self@) is Some,
                0 <= i <= v4@.len(),
                out@ == mapped(v4@.take(i as int), v4_map(self@)->0),
            decreases v4@.len() - i,
        {
            assert(v4@.take(i + 1).drop_last() =~= v4@.take(i as int));
            match self.map_one(v4[i]) {
                Some(a) => {
                    out.push(a);
                },
                None => {},
            }
            i = i + 1;
        }
        assert(v4@.take(v4@.len() as int) =~= v4@);
        out
    }

    /// The synthesized addresses.
    pub fn apply(&self, resolved: &[Ipv6Addr], v4: &[Ipv4Addr]) -> (r: Vec<Ipv6Addr>)
        ensures
            r@ == combined(self@, resolved@, v4@),
    {
        match self {
            Combine::Verbatim => copy_addrs(resolved),
            Combine::BorrowOr(fallback) => if resolved.len() > 0 {
                copy_addrs(resolved)
            } else {
                match fallback {
                    Some(a) => one_addr(*a),
                    None => Vec::new(),
                }
            },
            Combine::Constant(a) => one_addr(*a),
            Combine::Fuse(id) => {
                let mut out: Vec<Ipv6Addr> = Vec::new();
                let mut i: usize = 0;
                while i < resolved.len()
                    invariant
                        0 <= i <= resolved@.len(),
                        out@ == mapped(resolved@.take(i as int), fuse_map(*id as nat)),
                    decreases resolved@.len() - i,
                {
                    assert(resolved@.take(i + 1).drop_last() =~= resolved@.take(i as int));
                    match fastly_fuse(resolved[i], *id) {
                        Some(a) => {
                            out.push(a);
                        },
                        None => {},
                    }
                    i = i + 1;
                }
                assert(resolved@.take(resolved@.len() as int) =~= resolved@);
                out
            },
            Combine::Msedge(_, _) | Combine::Wpvip | Combine::Cachefly => self.map_each(v4),
            Combine::Nat64 { prefix, name } => {
                let e = nat64::eligible_addresses(name, v4);
                nat64::embed_each(*prefix, &e)
            },
        }
    }
}

} // verus!
