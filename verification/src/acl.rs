//! Client access control: an optional allowlist of IPv6 networks permitted to
//! query the forwarder.
//!
//! An empty allowlist means "allow every client". With one or more networks
//! configured, a client whose address falls in none of them is refused before
//! any cache lookup or upstream query. The listener is IPv6-only, so the
//! allowlist carries IPv6 prefixes only; an IPv4 entry could never match and is
//! an error.

use vstd::prelude::*;

use crate::net;
use crate::net::{IpAddr, Ipv4Addr, Ipv6Addr};
use crate::text;

verus! {

/// One IPv6 network.
#[derive(Debug, Clone, Copy, PartialEq, Eq, Structural)]
pub struct Net6 {
    /// Network address with the host bits already masked off.
    pub base: u128,
    /// Prefix length in bits, `0..=128`.
    pub prefix: u32,
}

/// How many addresses a network of the given prefix length holds.
pub open spec fn net_size(prefix: u32) -> nat {
    vstd::arithmetic::power2::pow2((128 - prefix) as nat)
}

/// The address with the bits behind the prefix set to zero.
pub open spec fn network_of(bits: u128, prefix: u32) -> u128 {
    ((bits as nat / net_size(prefix)) * net_size(prefix)) as u128
}

impl Net6 {
    /// The host bits of the base are zero.
    pub open spec fn wf(self) -> bool {
        self.prefix <= 128 && self.base as nat % net_size(self.prefix) == 0
    }

    /// Whether the address has the network's first `prefix` bits.
    pub open spec fn holds(self, bits: u128) -> bool {
        bits as nat / net_size(self.prefix) == self.base as nat / net_size(self.prefix)
    }

    fn contains(&self, addr: Ipv6Addr) -> (r: bool)
        requires
            self.wf(),
        ensures
            r == self.holds(addr.bits),
    {
        proof {
            masking(addr.bits, self.prefix);
            let d = net_size(self.prefix) as int;
            vstd::arithmetic::power2::lemma_pow2_pos((128 - self.prefix) as nat);
            vstd::arithmetic::div_mod::lemma_fundamental_div_mod(self.base as int, d);
            vstd::arithmetic::mul::lemma_mul_is_commutative(d, self.base as int / d);
            let here = addr.bits as int / d;
            let there = self.base as int / d;
            assert((here * d == there * d) == (here == there)) by (nonlinear_arith)
                requires
                    d > 0,
            ;
        }
        (addr.bits & mask(self.prefix)) == self.base
    }
}

/// What the mask of a prefix length does to an address.
proof fn masking(bits: u128, prefix: u32)
    requires
        prefix <= 128,
    ensures
        bits & mask_bits(prefix) == network_of(bits, prefix),
        network_of(bits, prefix) as nat == (bits as nat / net_size(prefix)) * net_size(prefix),
        network_of(bits, prefix) as nat % net_size(prefix) == 0,
{
    let size = net_size(prefix);
    vstd::arithmetic::power2::lemma_pow2_pos((128 - prefix) as nat);
    vstd::arithmetic::div_mod::lemma_fundamental_div_mod(bits as int, size as int);
    vstd::arithmetic::mul::lemma_mul_is_commutative(size as int, bits as int / size as int);
    vstd::arithmetic::div_mod::lemma_mod_multiples_basic(bits as int / size as int, size as int);
    let n = bits as nat / size;
    assert(0 <= n * size <= bits);
    if prefix == 0 {
        assert(size > bits) by {
            vstd::arithmetic::power2::lemma_pow2_adds(64, 64);
            vstd::arithmetic::power2::lemma2_to64();
        }
        vstd::arithmetic::div_mod::lemma_basic_div(bits as int, size as int);
        assert(bits & 0u128 == 0u128) by (bit_vector);
        assert(n == 0);
        assert(0 * size == 0);
    } else {
        let k: u128 = (128 - prefix) as u128;
        let all: u128 = u128::MAX;
        assert(bits & (0xffff_ffff_ffff_ffff_ffff_ffff_ffff_ffffu128 << k) == (bits >> k) << k)
            by (bit_vector)
            requires
                k < 128,
        ;
        vstd::bits::lemma_u128_shr_is_div(bits, k);
        shift_left(bits >> k, k);
        assert(mask_bits(prefix) == 0xffff_ffff_ffff_ffff_ffff_ffff_ffff_ffffu128 << k);
        assert(((bits >> k) << k) == n * size);
    }
}

/// A shift to the left that loses no bit multiplies by a power of two.
proof fn shift_left(x: u128, k: u128)
    requires
        k < 128,
        x * vstd::arithmetic::power2::pow2(k as nat) <= u128::MAX,
    ensures
        x << k == x * vstd::arithmetic::power2::pow2(k as nat),
    decreases k,
{
    vstd::arithmetic::power2::lemma2_to64();
    if k == 0 {
        assert(x << 0u128 == x) by (bit_vector);
        assert(x * vstd::arithmetic::power2::pow2(0) == x);
    } else {
        let j: u128 = (k - 1) as u128;
        vstd::arithmetic::power2::lemma_pow2_unfold(k as nat);
        let p = vstd::arithmetic::power2::pow2(j as nat);
        assert(vstd::arithmetic::power2::pow2(k as nat) == 2 * p);
        assert(x * (2 * p) == 2 * (x * p)) by (nonlinear_arith);
        shift_left(x, j);
        let a: u128 = x << j;
        assert(x << k == (x << j) << 1u128) by (bit_vector)
            requires
                j < 127,
                k == j + 1,
        ;
        assert(a << 1u128 == 2 * a) by (bit_vector)
            requires
                a < 0x8000_0000_0000_0000_0000_0000_0000_0000u128,
        ;
        assert(a == x * p);
        assert(x * vstd::arithmetic::power2::pow2(k as nat) == x * (2 * p));
    }
}

/// The mask that keeps the first `prefix` bits of an address.
pub open spec fn mask_bits(prefix: u32) -> u128 {
    if prefix == 0 {
        0
    } else {
        0xffff_ffff_ffff_ffff_ffff_ffff_ffff_ffffu128 << ((128 - prefix) as u128)
    }
}

/// Why an allowlist entry is no network.
#[derive(Debug, PartialEq, Eq)]
pub enum AclError {
    /// What follows the slash is no number.
    Prefix(String),
    /// The prefix length is over 128.
    Oversize(u32, String),
    /// The address is an IPv4 one.
    Ipv4(String),
    /// There is no IPv6 address.
    Invalid(String),
}

/// What an allowlist entry writes: a network, or why it is none.
pub enum Entry {
    Net(Net6),
    BadPrefix,
    Oversize(u32),
    Ipv4,
    Invalid,
}

/// The network of an address part and a prefix length.
pub open spec fn entry_net(addr: Seq<char>, prefix: u32) -> Entry {
    if prefix > 128 {
        Entry::Oversize(prefix)
    } else {
        match net::ipv6_text(addr) {
            Some(bits) => Entry::Net(Net6 { base: network_of(bits, prefix), prefix }),
            None => if net::ipv4_text(addr) is Some {
                Entry::Ipv4
            } else {
                Entry::Invalid
            },
        }
    }
}

/// What an allowlist entry writes: an address, or an address, a slash and a
/// prefix length. An address alone is a network of one.
pub open spec fn entry(s: Seq<char>) -> Entry {
    if s.contains('/') {
        let i = choose|i: int| text::first_at(s, '/', i);
        match text::parsed(s.skip(i + 1), 10, u32::MAX as nat) {
            Some(n) => entry_net(s.take(i), n as u32),
            None => Entry::BadPrefix,
        }
    } else {
        entry_net(s, 128)
    }
}

/// `e` says why `s` is no network.
pub open spec fn entry_fault(s: Seq<char>, e: AclError) -> bool {
    match entry(s) {
        Entry::Net(_) => false,
        Entry::BadPrefix => e matches AclError::Prefix(t) && t@ == s,
        Entry::Oversize(p) => e matches AclError::Oversize(q, t) && q == p && t@ == s,
        Entry::Ipv4 => e matches AclError::Ipv4(t) && t@ == s,
        Entry::Invalid => e matches AclError::Invalid(t) && t@ == s,
    }
}

fn parse_net6(entry_text: &str) -> (r: Result<Net6, AclError>)
    ensures
        match r {
            Ok(n) => entry(entry_text@) == Entry::Net(n) && n.wf(),
            Err(e) => entry_fault(entry_text@, e),
        },
{
    let v = text::to_chars(entry_text);
    let n: usize = v.len();
    let mut prefix: u32 = 128;
    let mut end: usize = n;
    match text::find(v.as_slice(), '/') {
        Some(i) => {
            proof {
                assert(v@.contains('/')) by {
                    assert(v@[i as int] == '/');
                }
                let j = choose|j: int| text::first_at(v@, '/', j);
                assert(text::first_at(v@, '/', i as int));
                assert(i == j);
            }
            let p = text::slice(v.as_slice(), i + 1, n);
            assert(p@ =~= v@.skip(i + 1));
            match text::parse_number(p.as_slice(), 10, 0xffff_ffff) {
                Some(k) => {
                    prefix = k as u32;
                    end = i;
                },
                None => {
                    return Err(AclError::Prefix(text::copy(entry_text)));
                },
            }
        },
        None => {
            assert(v@.take(n as int) =~= v@);
        },
    }
    let part = text::slice(v.as_slice(), 0, end);
    assert(part@ =~= v@.take(end as int));
    assert(entry(entry_text@) == entry_net(part@, prefix));
    if prefix > 128 {
        return Err(AclError::Oversize(prefix, text::copy(entry_text)));
    }
    let addr = text::from_chars(part.as_slice());
    match Ipv6Addr::parse(addr.as_str()) {
        Some(a) => {
            proof {
                masking(a.bits, prefix);
            }
            Ok(Net6 { base: a.bits & mask(prefix), prefix })
        },
        None => if Ipv4Addr::parse(addr.as_str()).is_some() {
            Err(AclError::Ipv4(text::copy(entry_text)))
        } else {
            Err(AclError::Invalid(text::copy(entry_text)))
        },
    }
}

/// A parsed client allowlist. Empty = allow every client.
#[derive(Debug)]
pub struct ClientAcl {
    nets: Vec<Net6>,
}

impl View for ClientAcl {
    type V = Seq<Net6>;

    closed spec fn view(&self) -> Seq<Net6> {
        self.nets@
    }
}

/// Whether a list of networks admits a client.
pub open spec fn admits(nets: Seq<Net6>, client: IpAddr) -> bool {
    nets.len() == 0 || match client {
        IpAddr::V6(v6) => exists|i: int| 0 <= i < nets.len() && (#[trigger] nets[i]).holds(v6.bits),
        IpAddr::V4(_) => false,
    }
}

impl ClientAcl {
    /// The host bits of every network are zero.
    #[verifier::type_invariant]
    closed spec fn wf(self) -> bool {
        forall|i: int| 0 <= i < self@.len() ==> (#[trigger] self@[i]).wf()
    }

    /// Parses entries such as `"2001:db8::/32"`; a bare address is a network of
    /// one. An error names the first entry that is no IPv6 network.
    pub fn parse(entries: &[String]) -> (r: Result<Self, AclError>)
        ensures
            match r {
                Ok(acl) => {
                    &&& acl@.len() == entries@.len()
                    &&& forall|i: int|
                        0 <= i < entries@.len() ==> entry(entries@[i]@) == Entry::Net(
                            #[trigger] acl@[i],
                        )
                },
                Err(e) => exists|i: int|
                    0 <= i < entries@.len() && entry_fault(#[trigger] entries@[i]@, e) && forall|
                        j: int,
                    |
                        0 <= j < i ==> entry(#[trigger] entries@[j]@) is Net,
            },
    {
        let mut nets: Vec<Net6> = Vec::new();
        let mut i: usize = 0;
        while i < entries.len()
            invariant
                0 <= i <= entries@.len(),
                nets@.len() == i,
                forall|j: int|
                    0 <= j < i ==> (#[trigger] nets@[j]).wf() && entry(entries@[j]@) == Entry::Net(
                        nets@[j],
                    ),
            decreases entries@.len() - i,
        {
            match parse_net6(entries[i].as_str()) {
                Ok(n) => {
                    nets.push(n);
                },
                Err(e) => {
                    assert forall|j: int| 0 <= j < i implies entry(
                        #[trigger] entries@[j]@,
                    ) is Net by {
                        assert(entry(entries@[j]@) == Entry::Net(nets@[j]));
                    }
                    assert(entry_fault(entries@[i as int]@, e));
                    return Err(e);
                },
            }
            i = i + 1;
        }
        Ok(ClientAcl { nets })
    }

    /// Whether `client` may query: always when the allowlist is empty, otherwise
    /// only when the address falls in one of the networks.
    pub fn allows(&self, client: IpAddr) -> (r: bool)
        ensures
            r == admits(self@, client),
    {
        proof {
            use_type_invariant(self);
        }
        if self.nets.len() == 0 {
            return true;
        }
        match client {
            IpAddr::V6(v6) => {
                let mut i: usize = 0;
                while i < self.nets.len()
                    invariant
                        client == IpAddr::V6(v6),
                        self.wf(),
                        self@ == self.nets@,
                        0 <= i <= self.nets@.len(),
                        forall|j: int| 0 <= j < i ==> !(#[trigger] self@[j]).holds(v6.bits),
                    decreases self.nets@.len() - i,
                {
                    assert(self@[i as int].wf());
                    if self.nets[i].contains(v6) {
                        assert(self@[i as int].holds(v6.bits));
                        return true;
                    }
                    i = i + 1;
                }
                false
            },
            IpAddr::V4(_) => false,
        }
    }

    /// True when no networks are configured (allow every client).
    pub fn is_empty(&self) -> (r: bool)
        ensures
            r == (self@.len() == 0),
    {
        self.nets.len() == 0
    }
}

impl Clone for ClientAcl {
    fn clone(&self) -> (r: Self)
        ensures
            r@ == self@,
    {
        proof {
            use_type_invariant(self);
        }
        let mut nets: Vec<Net6> = Vec::new();
        let mut i: usize = 0;
        while i < self.nets.len()
            invariant
                0 <= i <= self.nets@.len(),
                nets@ == self.nets@.take(i as int),
            decreases self.nets@.len() - i,
        {
            nets.push(self.nets[i]);
            assert(self.nets@.take(i + 1) =~= self.nets@.take(i as int).push(
                self.nets@[i as int],
            ));
            i = i + 1;
        }
        assert(nets@ =~= self.nets@);
        assert forall|k: int| 0 <= k < nets@.len() implies (#[trigger] nets@[k]).wf() by {
            assert(self@[k].wf());
        }
        ClientAcl { nets }
    }
}

impl Default for ClientAcl {
    /// The empty allowlist.
    fn default() -> (r: Self)
        ensures
            r@.len() == 0,
    {
        ClientAcl { nets: Vec::new() }
    }
}

/// The words of an error.
pub open spec fn error_text(e: AclError) -> Seq<char> {
    match e {
        AclError::Prefix(s) => "client_networks: invalid prefix length in "@ + text::quoted(s@),
        AclError::Oversize(p, s) => "client_networks: prefix /"@ + text::decimal(p as nat)
            + " exceeds 128 in "@ + text::quoted(s@),
        AclError::Ipv4(s) => "client_networks entry "@ + text::quoted(s@)
            + " is IPv4; the listener is IPv6-only, so only IPv6 networks can match clients"@,
        AclError::Invalid(s) => "client_networks: "@ + text::quoted(s@)
            + " is not a valid IPv6 network"@,
    }
}

impl AclError {
    /// The error in words, naming the entry.
    pub fn message(&self) -> (r: String)
        ensures
            r@ == error_text(*self),
    {
        let mut m: String = String::new();
        match self {
            AclError::Prefix(s) => {
                m.append("client_networks: invalid prefix length in ");
                m.append(text::quote(s.as_str()).as_str());
            },
            AclError::Oversize(p, s) => {
                m.append("client_networks: prefix /");
                text::push_decimal(&mut m, *p as u64);
                m.append(" exceeds 128 in ");
                m.append(text::quote(s.as_str()).as_str());
            },
            AclError::Ipv4(s) => {
                m.append("client_networks entry ");
                m.append(text::quote(s.as_str()).as_str());
                m.append(
                    " is IPv4; the listener is IPv6-only, so only IPv6 networks can match clients",
                );
            },
            AclError::Invalid(s) => {
                m.append("client_networks: ");
                m.append(text::quote(s.as_str()).as_str());
                m.append(" is not a valid IPv6 network");
            },
        }
        assert(m@ =~= error_text(*self));
        m
    }
}

/// An empty allowlist admits every client.
pub proof fn empty_admits_everyone(client: IpAddr)
    ensures
        admits(Seq::<Net6>::empty(), client),
{
}

/// A prefix length of zero matches every address.
pub proof fn zero_prefix_holds_all(net: Net6, bits: u128)
    requires
        net.prefix == 0,
    ensures
        net.holds(bits),
{
    vstd::arithmetic::power2::lemma_pow2_adds(64, 64);
    vstd::arithmetic::power2::lemma2_to64();
    vstd::arithmetic::div_mod::lemma_basic_div(bits as int, net_size(0) as int);
    vstd::arithmetic::div_mod::lemma_basic_div(net.base as int, net_size(0) as int);
}

/// A prefix length of 128 matches the base address and no other.
pub proof fn host_route_holds_one(net: Net6, bits: u128)
    requires
        net.prefix == 128,
    ensures
        net.holds(bits) == (bits == net.base),
{
    vstd::arithmetic::power2::lemma2_to64();
    assert(net_size(128) == 1);
    assert(bits as nat / 1 == bits && net.base as nat / 1 == net.base);
}

/// A network holds the address that it was written with.
pub proof fn network_holds_its_address(bits: u128, prefix: u32)
    requires
        prefix <= 128,
    ensures
        (Net6 { base: network_of(bits, prefix), prefix }).holds(bits),
{
    masking(bits, prefix);
    let size = net_size(prefix) as int;
    vstd::arithmetic::power2::lemma_pow2_pos((128 - prefix) as nat);
    vstd::arithmetic::div_mod::lemma_div_multiples_vanish(bits as int / size, size);
    vstd::arithmetic::mul::lemma_mul_is_commutative(size, bits as int / size);
}

/// A list of networks admits what any part of it admits.
pub proof fn networks_form_a_union(a: Seq<Net6>, b: Seq<Net6>, client: IpAddr)
    requires
        a.len() > 0,
        b.len() > 0,
    ensures
        admits(a + b, client) == (admits(a, client) || admits(b, client)),
{
    match client {
        IpAddr::V6(v6) => {
            if admits(a + b, client) {
                let i = choose|i: int|
                    0 <= i < (a + b).len() && (#[trigger] (a + b)[i]).holds(v6.bits);
                if i < a.len() {
                    assert(a[i].holds(v6.bits));
                } else {
                    assert(b[i - a.len()].holds(v6.bits));
                }
            }
            if admits(a, client) {
                let i = choose|i: int| 0 <= i < a.len() && (#[trigger] a[i]).holds(v6.bits);
                assert((a + b)[i].holds(v6.bits));
            }
            if admits(b, client) {
                let i = choose|i: int| 0 <= i < b.len() && (#[trigger] b[i]).holds(v6.bits);
                assert((a + b)[i + a.len()].holds(v6.bits));
            }
        },
        IpAddr::V4(_) => {},
    }
}

/// The mask that keeps the first `prefix` bits. A length of zero keeps nothing.
fn mask(prefix: u32) -> (r: u128)
    requires
        prefix <= 128,
    ensures
        r == mask_bits(prefix),
{
    if prefix == 0 {
        0
    } else {
        let k: u128 = (128 - prefix) as u128;
        0xffff_ffff_ffff_ffff_ffff_ffff_ffff_ffffu128 << k
    }
}

} // verus!
