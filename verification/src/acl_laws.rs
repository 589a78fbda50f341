//! Client networks as ranges of addresses.

use vstd::prelude::*;

use crate::acl;
use crate::acl::{Entry, Net6};
use crate::net;
use crate::net::IpAddr;
use crate::text;
use crate::text_laws;

verus! {

proof fn blocks(n: nat, b: nat, k: nat)
    by (nonlinear_arith)
    requires
        k > 0,
        b % k == 0,
    ensures
        n / k == b / k <==> b <= n < b + k,
{
}

proof fn block_start(n: nat, k: nat)
    by (nonlinear_arith)
    requires
        k > 0,
    ensures
        (n / k) * k <= n < (n / k) * k + k,
        ((n / k) * k) % k == 0,
{
}

/// A network whose host bits are zero holds the addresses from its base on, as many
/// as two to the power of the bits that the prefix leaves.
pub proof fn a_network_is_a_range(n: Net6, bits: u128)
    requires
        n.wf(),
    ensures
        n.holds(bits) <==> n.base <= bits < n.base + vstd::arithmetic::power2::pow2(
            (128 - n.prefix) as nat,
        ),
{
    vstd::arithmetic::power2::lemma_pow2_pos((128 - n.prefix) as nat);
    blocks(bits as nat, n.base as nat, acl::net_size(n.prefix));
}

/// The network of an address begins at the last multiple of its size up to the
/// address.
pub proof fn a_network_begins_at_a_multiple(bits: u128, prefix: u32)
    requires
        prefix <= 128,
    ensures
        ({
            let k = vstd::arithmetic::power2::pow2((128 - prefix) as nat);
            let b = acl::network_of(bits, prefix) as nat;
            b <= bits < b + k && b % k == 0
        }),
{
    vstd::arithmetic::power2::lemma_pow2_pos((128 - prefix) as nat);
    block_start(bits as nat, acl::net_size(prefix));
}

/// A client is let in where no networks are given, or where its IPv6 address is in
/// the range of one of them.
pub proof fn clients_are_let_in_by_range(nets: Seq<Net6>, client: IpAddr)
    requires
        forall|i: int| 0 <= i < nets.len() ==> (#[trigger] nets[i]).wf(),
    ensures
        acl::admits(nets, client) <==> nets.len() == 0 || exists|i: int|
            0 <= i < nets.len() && client is V6 && (#[trigger] nets[i]).base <= client->V6_0.bits
                < nets[i].base + vstd::arithmetic::power2::pow2((128 - nets[i].prefix) as nat),
{
    if client is V6 {
        let bits = client->V6_0.bits;
        assert forall|i: int| 0 <= i < nets.len() implies ((#[trigger] nets[i]).holds(bits)
            <==> nets[i].base <= bits < nets[i].base + vstd::arithmetic::power2::pow2(
            (128 - nets[i].prefix) as nat,
        )) by {
            a_network_is_a_range(nets[i], bits);
        }
        if nets.len() > 0 && acl::admits(nets, client) {
            let i = choose|i: int| 0 <= i < nets.len() && (#[trigger] nets[i]).holds(bits);
            assert(nets[i].base <= bits);
        }
        if exists|i: int|
            0 <= i < nets.len() && client is V6 && (#[trigger] nets[i]).base <= client->V6_0.bits
                < nets[i].base + vstd::arithmetic::power2::pow2((128 - nets[i].prefix) as nat) {
            let i = choose|i: int|
                0 <= i < nets.len() && client is V6 && (#[trigger] nets[i]).base
                    <= client->V6_0.bits < nets[i].base + vstd::arithmetic::power2::pow2(
                    (128 - nets[i].prefix) as nat,
                );
            assert(nets[i].holds(bits));
        }
    }
}

proof fn the_slash_is_found(addr: Seq<char>, tail: Seq<char>)
    requires
        forall|i: int| 0 <= i < addr.len() ==> #[trigger] addr[i] != '/',
    ensures
        ({
            let s = addr.push('/') + tail;
            let i = choose|i: int| text::first_at(s, '/', i);
            &&& s.contains('/')
            &&& s.take(i) == addr
            &&& s.skip(i + 1) == tail
        }),
{
    let s = addr.push('/') + tail;
    let n = addr.len() as int;
    assert(s[n] == '/');
    assert(text::first_at(s, '/', n));
    let i = choose|i: int| text::first_at(s, '/', i);
    if i < n {
        assert(s[i] == addr[i]);
    }
    assert(i == n);
    assert(s.take(n) =~= addr);
    assert(s.skip(n + 1) =~= tail);
}

/// An entry is an address, a slash and a prefix length in decimal of at most 128; the
/// network holds the address. Without a slash it is a network of the one address.
pub proof fn an_entry_is_an_address_with_a_length(addr: Seq<char>, n: nat)
    requires
        forall|i: int| 0 <= i < addr.len() ==> #[trigger] addr[i] != '/',
    ensures
        ({
            let e = acl::entry(addr.push('/') + text::decimal(n));
            let a = net::ipv6_text(addr);
            &&& n <= 128 && a is Some ==> e is Net && e->Net_0.prefix == n && e->Net_0.wf()
                && e->Net_0.holds(a->0)
            &&& 128 < n <= 0xffff_ffff ==> e == Entry::Oversize(n as u32)
            &&& n > 0xffff_ffff ==> e is BadPrefix
            &&& n <= 128 && a is None && net::ipv4_text(addr) is Some ==> e is Ipv4
            &&& n <= 128 && a is None && net::ipv4_text(addr) is None ==> e is Invalid
        }),
        ({
            let e = acl::entry(addr);
            let a = net::ipv6_text(addr);
            &&& a is Some ==> e == Entry::Net(Net6 { base: a->0, prefix: 128 })
            &&& a is None && net::ipv4_text(addr) is Some ==> e is Ipv4
            &&& a is None && net::ipv4_text(addr) is None ==> e is Invalid
        }),
{
    let t = text::decimal(n);
    the_slash_is_found(addr, t);
    text::decimal_reads_back(n);
    text_laws::a_limit_bounds_what_is_read(t, 10, u32::MAX as nat, n);
    if net::ipv6_text(addr) is Some {
        let bits = net::ipv6_text(addr)->0;
        if n <= 128 {
            a_network_begins_at_a_multiple(bits, n as u32);
            a_network_is_a_range(
                Net6 { base: acl::network_of(bits, n as u32), prefix: n as u32 },
                bits,
            );
        }
        a_network_begins_at_a_multiple(bits, 128);
        vstd::arithmetic::power2::lemma2_to64();
    }
}

/// What follows the first slash has to be a decimal number.
pub proof fn an_entry_needs_a_number(addr: Seq<char>, tail: Seq<char>)
    requires
        forall|i: int| 0 <= i < addr.len() ==> #[trigger] addr[i] != '/',
        tail.len() == 0 || (tail[0] != '+' && text::number(tail, 10) is None),
    ensures
        acl::entry(addr.push('/') + tail) is BadPrefix,
{
    the_slash_is_found(addr, tail);
}

} // verus!
