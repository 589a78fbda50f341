//! Matching IPv4 addresses against networks.

use vstd::prelude::*;

use crate::net;
use crate::net::Ipv4Addr;
use crate::synth::tables::Cidr;
use crate::text;

verus! {

/// How many addresses a network of the given prefix length holds; a length over
/// 32 counts as 32.
pub open spec fn net4_size(prefix: int) -> nat {
    if prefix >= 32 {
        1
    } else {
        vstd::arithmetic::power2::pow2((32 - prefix) as nat)
    }
}

/// Whether two addresses have the same first `prefix` bits.
pub open spec fn same_net4(a: u32, b: u32, prefix: int) -> bool {
    a as nat / net4_size(prefix) == b as nat / net4_size(prefix)
}

fn share_net4(a: u32, b: u32, prefix: u32) -> (r: bool)
    ensures
        r == same_net4(a, b, prefix as int),
{
    if prefix == 0 {
        proof {
            vstd::arithmetic::power2::lemma2_to64();
            vstd::arithmetic::div_mod::lemma_basic_div(a as int, net4_size(0) as int);
            vstd::arithmetic::div_mod::lemma_basic_div(b as int, net4_size(0) as int);
        }
        return true;
    }
    if prefix >= 32 {
        assert(a as nat / 1 == a && b as nat / 1 == b);
        return a == b;
    }
    let k: u32 = 32 - prefix;
    proof {
        vstd::bits::lemma_u32_shr_is_div(a, k);
        vstd::bits::lemma_u32_shr_is_div(b, k);
    }
    (a >> k) == (b >> k)
}

/// Whether an address falls in a network.
pub open spec fn cidr_holds(c: Cidr, ip: u32) -> bool {
    same_net4(
        ip,
        net::quad(c.0 as int, c.1 as int, c.2 as int, c.3 as int) as u32,
        c.4 as int,
    )
}

/// Whether an address falls in one of some networks.
pub open spec fn any_holds(table: Seq<Cidr>, ip: u32) -> bool {
    exists|i: int| 0 <= i < table.len() && cidr_holds(#[trigger] table[i], ip)
}

/// Whether an address falls in one of the networks of a table.
pub fn in_table(ip: Ipv4Addr, table: &[Cidr]) -> (r: bool)
    ensures
        r == any_holds(table@, ip.bits),
{
    let mut i: usize = 0;
    while i < table.len()
        invariant
            0 <= i <= table@.len(),
            forall|j: int| 0 <= j < i ==> !cidr_holds(#[trigger] table@[j], ip.bits),
        decreases table@.len() - i,
    {
        let c = table[i];
        let base = Ipv4Addr::new(c.0, c.1, c.2, c.3);
        if share_net4(ip.bits, base.bits, c.4 as u32) {
            assert(cidr_holds(table@[i as int], ip.bits));
            return true;
        }
        i = i + 1;
    }
    false
}

/// The base address and the prefix length of an address part and a prefix part.
pub open spec fn cidr_parts(addr: Seq<char>, prefix: Seq<char>) -> Option<(u32, u32)> {
    match (net::ipv4_text(addr), text::parsed(prefix, 10, u32::MAX as nat)) {
        (Some(b), Some(p)) => Some((b, p as u32)),
        _ => None,
    }
}

/// The base address and the prefix length that a text such as `151.101.0.0/16`
/// writes; an address alone has the length 32.
pub open spec fn cidr_text(s: Seq<char>) -> Option<(u32, u32)> {
    if s.contains('/') {
        let i = choose|i: int| text::first_at(s, '/', i);
        cidr_parts(s.take(i), s.skip(i + 1))
    } else {
        cidr_parts(s, "32"@)
    }
}

/// The base address that a text writes.
pub open spec fn cidr_base(s: Seq<char>) -> u32 {
    let c = cidr_text(s)->0;
    c.0
}

/// The prefix length that a text writes.
pub open spec fn cidr_len(s: Seq<char>) -> u32 {
    let c = cidr_text(s)->0;
    c.1
}

/// Whether a text writes a network.
pub open spec fn is_cidr(s: Seq<char>) -> bool {
    cidr_text(s) is Some && cidr_len(s) <= 32
}

/// Whether `ip` falls in the network that `cidr` writes.
pub fn in_cidr(ip: Ipv4Addr, cidr: &str) -> (r: bool)
    requires
        is_cidr(cidr@),
    ensures
        r == same_net4(ip.bits, cidr_base(cidr@), cidr_len(cidr@) as int),
{
    let v = text::to_chars(cidr);
    let n: usize = v.len();
    let mut addr = text::copy(cidr);
    let mut prefix = text::to_chars("32");
    match text::find(v.as_slice(), '/') {
        Some(i) => {
            proof {
                assert(v@[i as int] == '/');
                let j = choose|j: int| text::first_at(v@, '/', j);
                assert(text::first_at(v@, '/', i as int));
                assert(i == j);
            }
            let head = text::slice(v.as_slice(), 0, i);
            assert(head@ =~= v@.take(i as int));
            addr = text::from_chars(head.as_slice());
            prefix = text::slice(v.as_slice(), i + 1, n);
            assert(prefix@ =~= v@.skip(i + 1));
        },
        None => {},
    }
    assert(cidr_text(cidr@) == cidr_parts(addr@, prefix@));
    match (Ipv4Addr::parse(addr.as_str()), text::parse_number(prefix.as_slice(), 10, 0xffff_ffff)) {
        (Some(base), Some(p)) => share_net4(ip.bits, base.bits, p as u32),
        _ => {
            assert(false);
            false
        },
    }
}

/// Whether `ip` falls in any of the given networks.
pub fn in_any(ip: Ipv4Addr, cidrs: &[&str]) -> (r: bool)
    requires
        forall|i: int| 0 <= i < cidrs@.len() ==> is_cidr(#[trigger] cidrs@[i]@),
    ensures
        r == exists|i: int|
            0 <= i < cidrs@.len() && same_net4(
                ip.bits,
                cidr_base(#[trigger] cidrs@[i]@),
                cidr_len(cidrs@[i]@) as int,
            ),
{
    let mut i: usize = 0;
    while i < cidrs.len()
        invariant
            0 <= i <= cidrs@.len(),
            forall|j: int| 0 <= j < cidrs@.len() ==> is_cidr(#[trigger] cidrs@[j]@),
            forall|j: int|
                0 <= j < i ==> !same_net4(
                    ip.bits,
                    cidr_base(#[trigger] cidrs@[j]@),
                    cidr_len(cidrs@[j]@) as int,
                ),
        decreases cidrs@.len() - i,
    {
        assert(is_cidr(cidrs@[i as int]@));
        if in_cidr(ip, cidrs[i]) {
            return true;
        }
        i = i + 1;
    }
    false
}

} // verus!
