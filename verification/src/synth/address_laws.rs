//! Addresses by their numbers: which are embedded, which are served, which networks
//! they are of, and what they are fused into.

use vstd::prelude::*;

use crate::dns::{RData, Record, Response};
use crate::net;
use crate::net::{Ipv4Addr, Ipv6Addr};
use crate::synth;
use crate::synth::{cidr, combine, nat64, tables};
use crate::synth::tables::Cidr;
use crate::synth::{Addrs, CombineModel, CtxModel, PlanModel};
use crate::text;
use crate::text_laws;

verus! {

// ---------------------------------------------------------------------------
// NAT64
// ---------------------------------------------------------------------------

/// Whether a number lies between two others, both included.
pub open spec fn between(first: u32, n: u32, last: u32) -> bool {
    first <= n && n <= last
}

/// Whether an address is of a network that is not reached from everywhere, by the
/// first and the last address of each.
pub open spec fn special(n: u32) -> bool {
    ||| between(0x00000000, n, 0x00ffffff)  // 0.0.0.0/8
    ||| between(0x0a000000, n, 0x0affffff)  // 10.0.0.0/8
    ||| between(0xac100000, n, 0xac1fffff)  // 172.16.0.0/12
    ||| between(0xc0a80000, n, 0xc0a8ffff)  // 192.168.0.0/16
    ||| between(0x64400000, n, 0x647fffff)  // 100.64.0.0/10
    ||| between(0x7f000000, n, 0x7fffffff)  // 127.0.0.0/8
    ||| between(0xa9fe0000, n, 0xa9feffff)  // 169.254.0.0/16
    ||| between(0xc0000000, n, 0xc00000ff)  // 192.0.0.0/24
    ||| between(0xc0000200, n, 0xc00002ff)  // 192.0.2.0/24
    ||| between(0xc6336400, n, 0xc63364ff)  // 198.51.100.0/24
    ||| between(0xcb007100, n, 0xcb0071ff)  // 203.0.113.0/24
    ||| between(0xc6120000, n, 0xc613ffff)  // 198.18.0.0/15
    ||| between(0xe0000000, n, 0xffffffff)  // 224.0.0.0/3
}

/// An address is embedded exactly where it is of none of the special networks.
pub proof fn routable_by_the_numbers(n: u32)
    ensures
        nat64::routable(n) <==> !special(n),
{
}

/// The eligible addresses of two lists in a row are those of each.
pub proof fn eligible_addresses_add_up(name: Seq<char>, v: Seq<Ipv4Addr>, w: Seq<Ipv4Addr>)
    ensures
        nat64::eligible(name, v + w) == nat64::eligible(name, v) + nat64::eligible(name, w),
    decreases w.len(),
{
    if !nat64::arpa(name) {
        if w.len() == 0 {
            assert(v + w =~= v);
            assert(nat64::routable_only(v) + nat64::routable_only(w) =~= nat64::routable_only(v));
        } else {
            eligible_addresses_add_up(name, v, w.drop_last());
            assert((v + w).drop_last() =~= v + w.drop_last());
            assert(nat64::routable_only(v + w) =~= nat64::routable_only(v) + nat64::routable_only(
                w,
            ));
        }
    }
}

/// One address is eligible where it is of no special network, or where the name is
/// `ipv4only.arpa.` in whatever case; and never otherwise.
pub proof fn one_address_is_eligible_by_its_number(name: Seq<char>, ip: Ipv4Addr)
    ensures
        !special(ip.bits) || text::lower(name) == "ipv4only.arpa."@ ==> nat64::eligible(
            name,
            seq![ip],
        ) == seq![ip],
        special(ip.bits) && text::lower(name) != "ipv4only.arpa."@ ==> nat64::eligible(
            name,
            seq![ip],
        ).len() == 0,
{
    reveal_strlit("ipv4only.arpa.");
    assert(text::lower("ipv4only.arpa."@) =~= "ipv4only.arpa."@);
    reveal_with_fuel(nat64::routable_only, 2);
    routable_by_the_numbers(ip.bits);
    assert(seq![ip].drop_last() =~= Seq::<Ipv4Addr>::empty());
    assert(Seq::<Ipv4Addr>::empty().push(ip) =~= seq![ip]);
}

/// In a prefix of 96 bits, whose last 32 bits are zero, an embedded address is the
/// sum of the two numbers.
pub proof fn embedding_adds_the_numbers(prefix: Ipv6Addr, ip: Ipv4Addr)
    requires
        prefix.bits as int % 4_294_967_296 == 0,
    ensures
        nat64::embedded(prefix, ip).bits == prefix.bits + ip.bits,
{
}

/// What NAT64 makes of the addresses of an ordinary name, where none is special and
/// the prefix is one of 96 bits: each of them, in order, added to the prefix.
pub proof fn nat64_embeds_every_ordinary_address(
    prefix: Ipv6Addr,
    name: Seq<char>,
    resolved: Seq<Ipv6Addr>,
    v: Seq<Ipv4Addr>,
)
    requires
        prefix.bits as int % 4_294_967_296 == 0,
        forall|i: int| 0 <= i < v.len() ==> !special((#[trigger] v[i]).bits),
    ensures
        combine::combined(CombineModel::Nat64(prefix, name), resolved, v).len() == v.len(),
        forall|i: int|
            0 <= i < v.len() ==> (#[trigger] combine::combined(
                CombineModel::Nat64(prefix, name),
                resolved,
                v,
            )[i]).bits == prefix.bits + v[i].bits,
{
    all_ordinary_are_kept(v);
    assert(nat64::eligible(name, v) == v);
    assert forall|i: int| 0 <= i < v.len() implies (#[trigger] combine::combined(
        CombineModel::Nat64(prefix, name),
        resolved,
        v,
    )[i]).bits == prefix.bits + v[i].bits by {
        embedding_adds_the_numbers(prefix, v[i]);
    }
}

proof fn all_ordinary_are_kept(v: Seq<Ipv4Addr>)
    requires
        forall|i: int| 0 <= i < v.len() ==> !special((#[trigger] v[i]).bits),
    ensures
        nat64::routable_only(v) == v,
    decreases v.len(),
{
    if v.len() > 0 {
        let d = v.drop_last();
        assert forall|i: int| 0 <= i < d.len() implies !special((#[trigger] d[i]).bits) by {
            assert(d[i] == v[i]);
        }
        all_ordinary_are_kept(d);
        assert(!special(v[v.len() - 1].bits));
        routable_by_the_numbers(v.last().bits);
        assert(d.push(v.last()) =~= v);
    }
}

/// A name with an A record has a NAT64 plan, which looks nothing up; one without has
/// none.
pub proof fn nat64_plans_for_every_name_with_addresses(prefix: Ipv6Addr, ctx: CtxModel)
    ensures
        ctx.a.len() > 0 ==> (synth::synth_plan("nat64"@, prefix, ctx) matches Some(p)
            && p.resolve.len() == 0 && p.combine == CombineModel::Nat64(prefix, ctx.name)),
        ctx.a.len() == 0 ==> synth::synth_plan("nat64"@, prefix, ctx) is None,
{
}

// ---------------------------------------------------------------------------
// What is served
// ---------------------------------------------------------------------------

/// Whether an IPv6 address may be served, by its number: not unspecified, not the
/// loopback, not of `fc00::/7`, `fe80::/10` or `ff00::/8`.
pub open spec fn servable(n: u128) -> bool {
    &&& n > 1
    &&& !(0xfc00_0000_0000_0000_0000_0000_0000_0000 <= n
        && n <= 0xfdff_ffff_ffff_ffff_ffff_ffff_ffff_ffff)
    &&& !(0xfe80_0000_0000_0000_0000_0000_0000_0000 <= n
        && n <= 0xfebf_ffff_ffff_ffff_ffff_ffff_ffff_ffff)
    &&& n < 0xff00_0000_0000_0000_0000_0000_0000_0000
}

/// An address is served exactly where its number says so.
pub proof fn servable_by_the_numbers(n: u128)
    ensures
        synth::global_unicast(n) <==> servable(n),
{
}

/// The servable addresses of two lists in a row are those of each; one alone is kept
/// where it is servable.
pub proof fn servable_addresses_add_up(v: Seq<Ipv6Addr>, w: Seq<Ipv6Addr>, a: Ipv6Addr)
    ensures
        synth::global_only(v + w) == synth::global_only(v) + synth::global_only(w),
        servable(a.bits) ==> synth::global_only(seq![a]) == seq![a],
        !servable(a.bits) ==> synth::global_only(seq![a]).len() == 0,
    decreases w.len(),
{
    servable_by_the_numbers(a.bits);
    reveal_with_fuel(synth::global_only, 2);
    assert(seq![a].drop_last() =~= Seq::<Ipv6Addr>::empty());
    assert(Seq::<Ipv6Addr>::empty().push(a) =~= seq![a]);
    if w.len() == 0 {
        assert(v + w =~= v);
        assert(synth::global_only(v) + synth::global_only(w) =~= synth::global_only(v));
    } else {
        servable_addresses_add_up(v, w.drop_last(), a);
        assert((v + w).drop_last() =~= v + w.drop_last());
        assert(synth::global_only(v + w) =~= synth::global_only(v) + synth::global_only(w));
    }
}

proof fn least_ttl_is_least<A>(v: Seq<(A, u32)>) -> (i: int)
    requires
        v.len() > 0,
    ensures
        0 <= i < v.len(),
        synth::least_ttl(v) == Some(v[i].1),
        forall|j: int| 0 <= j < v.len() ==> synth::least_ttl(v)->0 <= (#[trigger] v[j]).1,
    decreases v.len(),
{
    let d = v.drop_last();
    if d.len() == 0 {
        assert(synth::least_ttl(d) is None);
        v.len() - 1
    } else {
        let k = least_ttl_is_least(d);
        assert forall|j: int| 0 <= j < v.len() implies synth::least_ttl(v)->0 <= (
        #[trigger] v[j]).1 by {
            if j < d.len() {
                assert(d[j] == v[j]);
            }
        }
        if synth::least_ttl(v) == Some(v.last().1) {
            v.len() - 1
        } else {
            k
        }
    }
}

/// Whether `t` is the least TTL of some addresses with TTLs.
pub open spec fn is_least<A>(v: Seq<(A, u32)>, t: u32) -> bool {
    &&& exists|i: int| 0 <= i < v.len() && (#[trigger] v[i]).1 == t
    &&& forall|j: int| 0 <= j < v.len() ==> t <= (#[trigger] v[j]).1
}

/// Synthesized records carry the least TTL of what was looked up, or where nothing
/// was, of the A records, or without these five minutes; and never more than the cap.
pub proof fn a_synthesized_ttl_is_the_least(
    p: PlanModel,
    ctx: CtxModel,
    found: Addrs,
    cap: Option<u32>,
    i: int,
)
    requires
        0 <= i < synth::plan_yields(p, ctx, found, cap).len(),
    ensures
        ({
            let t = synth::plan_yields(p, ctx, found, cap)[i].1;
            let b = synth::base_ttl(ctx, found);
            &&& found.len() > 0 ==> is_least(found, b)
            &&& found.len() == 0 && ctx.a.len() > 0 ==> is_least(ctx.a, b)
            &&& found.len() == 0 && ctx.a.len() == 0 ==> b == 300
            &&& cap is None ==> t == b
            &&& cap matches Some(c) ==> t <= c && t <= b && (t == c || t == b)
        }),
{
    if found.len() > 0 {
        let k = least_ttl_is_least(found);
        assert(found[k].1 == synth::base_ttl(ctx, found));
    } else if ctx.a.len() > 0 {
        let k = least_ttl_is_least(ctx.a);
        assert(ctx.a[k].1 == synth::base_ttl(ctx, found));
    }
}

/// What a plan yields are the servable ones of its combined addresses, in order.
pub proof fn a_plan_yields_what_is_servable(
    p: PlanModel,
    ctx: CtxModel,
    found: Addrs,
    cap: Option<u32>,
)
    ensures
        ({
            let resolved = found.map_values(|x: (Ipv6Addr, u32)| x.0);
            let v4 = ctx.a.map_values(|x: (Ipv4Addr, u32)| x.0);
            let y = synth::plan_yields(p, ctx, found, cap);
            y.map_values(|x: (Ipv6Addr, u32)| x.0) == synth::global_only(
                combine::combined(p.combine, resolved, v4),
            )
        }),
{
    let resolved = found.map_values(|x: (Ipv6Addr, u32)| x.0);
    let v4 = ctx.a.map_values(|x: (Ipv4Addr, u32)| x.0);
    assert(resolved =~= Seq::new(found.len(), |i: int| found[i].0));
    assert(v4 =~= ctx.addrs());
    assert(synth::plan_yields(p, ctx, found, cap).map_values(|x: (Ipv6Addr, u32)| x.0)
        =~= synth::global_only(combine::combined(p.combine, resolved, v4)));
}

/// The AAAA records of two lists in a row are those of each; one record alone counts
/// with its address and its TTL where it is one.
pub proof fn aaaa_records_add_up(v: Seq<Record>, w: Seq<Record>, r: Record)
    ensures
        synth::aaaa_of(v + w) == synth::aaaa_of(v) + synth::aaaa_of(w),
        r.data matches RData::Aaaa(a) ==> synth::aaaa_of(seq![r]) == seq![(a, r.ttl)],
        !(r.data is Aaaa) ==> synth::aaaa_of(seq![r]).len() == 0,
    decreases w.len(),
{
    reveal_with_fuel(synth::aaaa_of, 2);
    assert(seq![r].drop_last() =~= Seq::<Record>::empty());
    match r.data {
        RData::Aaaa(a) => {
            assert(Seq::<(Ipv6Addr, u32)>::empty().push((a, r.ttl)) =~= seq![(a, r.ttl)]);
        },
        _ => {},
    }
    if w.len() == 0 {
        assert(v + w =~= v);
        assert(synth::aaaa_of(v) + synth::aaaa_of(w) =~= synth::aaaa_of(v));
    } else {
        aaaa_records_add_up(v, w.drop_last(), r);
        assert((v + w).drop_last() =~= v + w.drop_last());
        assert(synth::aaaa_of(v + w) =~= synth::aaaa_of(v) + synth::aaaa_of(w));
    }
}

/// A lookup yields the AAAA records of a reply without error, and nothing of any
/// other.
pub proof fn a_lookup_yields_answers_without_error(reply: Option<Response>)
    ensures
        reply is Some && reply->0.rcode is NoError ==> synth::reply_yields(reply)
            == synth::aaaa_of(reply->0.answers@),
        reply is None || !(reply->0.rcode is NoError) ==> synth::reply_yields(reply).len() == 0,
{
}

// ---------------------------------------------------------------------------
// Fusing
// ---------------------------------------------------------------------------

/// The decimal digits of a number below ten thousand, each read as a hexadecimal
/// one.
pub proof fn digits_are_read_as_hexadecimal_ones(a: nat, b: nat, c: nat, d: nat)
    requires
        a < 10,
        b < 10,
        c < 10,
        d < 10,
    ensures
        combine::digits_as_hex(1000 * a + 100 * b + 10 * c + d) == Some(
            4096 * a + 256 * b + 16 * c + d,
        ),
{
    let n1 = a;
    let n2 = 10 * a + b;
    let n3 = 10 * n2 + c;
    let n4 = 10 * n3 + d;
    hex_of_one(a);
    hex_of_one(b);
    hex_of_one(c);
    hex_of_one(d);
    hex_of_more(n1, a, b);
    hex_of_more(n2, 16 * a + b, c);
    hex_of_more(n3, 256 * a + 16 * b + c, d);
    text::decimal_reads_back(n4);
    text_laws::a_limit_bounds_what_is_read(
        text::decimal(n4),
        16,
        0xffff,
        4096 * a + 256 * b + 16 * c + d,
    );
}

proof fn hex_of_one(d: nat)
    requires
        d < 10,
    ensures
        text::number(text::decimal(d), 16) == Some(d),
{
    text_laws::decimal_by_places(0, d);
    let c = text::decimal(d)[0];
    text_laws::a_digit_is_appended(Seq::empty(), c, 16);
    text_laws::digits_by_code(c);
    assert(Seq::<char>::empty().push(c) =~= text::decimal(d));
}

proof fn hex_of_more(n: nat, h: nat, d: nat)
    requires
        d < 10,
        text::number(text::decimal(n), 16) == Some(h),
        n == 0 ==> h == 0,
    ensures
        text::number(text::decimal(10 * n + d), 16) == Some(16 * h + d),
{
    text_laws::decimal_by_places(n, d);
    if n == 0 {
        hex_of_one(d);
    } else {
        let c = text::decimal(d)[0];
        text_laws::a_digit_is_appended(text::decimal(n), c, 16);
        text_laws::digits_by_code(c);
        assert(text::decimal(n).push(c) =~= text::decimal(n) + text::decimal(d));
    }
}

/// A host id is fused into the last 16 bits of a prefix, digit by digit; the other
/// bits stay as they are.
pub proof fn fusing_replaces_the_last_segment(prefix: Ipv6Addr, a: nat, b: nat, c: nat, d: nat)
    requires
        a < 10,
        b < 10,
        c < 10,
        d < 10,
    ensures
        combine::fused(prefix, 1000 * a + 100 * b + 10 * c + d) matches Some(r) && {
            &&& r.bits as int % 65_536 == 4096 * a + 256 * b + 16 * c + d
            &&& r.bits as int / 65_536 == prefix.bits as int / 65_536
        },
{
    digits_are_read_as_hexadecimal_ones(a, b, c, d);
}

/// The host id of an address is the last ten bits of it, or for GitHub Pages the
/// last eight.
pub proof fn a_host_id_is_the_last_bits(ip: Ipv4Addr)
    ensures
        combine::host_id(ip, false) == ip.bits as nat % 1024,
        combine::host_id(ip, true) == ip.bits as nat % 256,
{
}

/// The number of an octet's three digits read as hexadecimal ones.
pub open spec fn octet_hex(n: nat) -> nat {
    256 * (n / 100) + 16 * ((n / 10) % 10) + n % 10
}

proof fn an_octet_read_as_hex(n: nat)
    requires
        n <= 255,
    ensures
        combine::digits_as_hex(n) == Some(octet_hex(n)),
{
    digits_are_read_as_hexadecimal_ones(0, n / 100, (n / 10) % 10, n % 10);
}

/// Behind a Microsoft Edge prefix stand the digits of the last octet; for SharePoint
/// an 8 in place of a 9.
pub proof fn an_edge_address_ends_with_the_last_octet(prefix: Ipv6Addr, spo: bool, ip: Ipv4Addr)
    ensures
        combine::msedge_addr(prefix, spo, ip) matches Some(r) && {
            let o = ip.bits as nat % 256;
            &&& r.bits as int / 65_536 == prefix.bits as int / 65_536
            &&& r.bits as int % 65_536 == octet_hex(
                if spo && o == 9 {
                    8
                } else {
                    o
                },
            )
        },
{
    an_octet_read_as_hex(ip.bits as nat % 256);
    an_octet_read_as_hex(8);
}

/// A WordPress VIP address, one of 192.0.66.0/24, is embedded behind
/// `2a04:fa87:fffd::`; no other address is.
pub proof fn a_wpvip_address_is_embedded(ip: Ipv4Addr)
    ensures
        between(0xc000_4200, ip.bits, 0xc000_42ff) ==> (combine::wpvip_addr(ip) matches Some(r)
            && r.bits == 0x2a04_fa87_fffd_0000_0000_0000_0000_0000u128 + ip.bits),
        !between(0xc000_4200, ip.bits, 0xc000_42ff) ==> combine::wpvip_addr(ip) is None,
{
    wpvip_ranges_by_the_numbers(ip.bits);
}

/// A CacheFly address becomes `2605:4c40::` with the digits of its third and of its
/// fourth octet in the last two segments.
pub proof fn a_cachefly_address_is_embedded(ip: Ipv4Addr)
    ensures
        combine::cachefly_addr(ip) matches Some(r) && r.bits
            == 0x2605_4c40_0000_0000_0000_0000_0000_0000u128 + octet_hex(
            (ip.bits as nat / 256) % 256,
        ) * 65_536 + octet_hex(ip.bits as nat % 256),
{
    an_octet_read_as_hex((ip.bits as nat / 256) % 256);
    an_octet_read_as_hex(ip.bits as nat % 256);
}

/// What a partial function makes of two lists in a row is what it makes of each.
pub proof fn mapped_lists_add_up<A>(v: Seq<A>, w: Seq<A>, x: A, f: spec_fn(A) -> Option<Ipv6Addr>)
    ensures
        combine::mapped(v + w, f) == combine::mapped(v, f) + combine::mapped(w, f),
        f(x) matches Some(a) ==> combine::mapped(seq![x], f) == seq![a],
        f(x) is None ==> combine::mapped(seq![x], f).len() == 0,
    decreases w.len(),
{
    reveal_with_fuel(combine::mapped, 2);
    assert(seq![x].drop_last() =~= Seq::<A>::empty());
    if f(x) is Some {
        assert(Seq::<Ipv6Addr>::empty().push(f(x)->0) =~= seq![f(x)->0]);
    }
    if w.len() == 0 {
        assert(v + w =~= v);
        assert(combine::mapped(v, f) + combine::mapped(w, f) =~= combine::mapped(v, f));
    } else {
        mapped_lists_add_up(v, w.drop_last(), x, f);
        assert((v + w).drop_last() =~= v + w.drop_last());
        assert(combine::mapped(v + w, f) =~= combine::mapped(v, f) + combine::mapped(w, f));
    }
}

/// What is made of looked-up addresses: all of them, or a fallback where there are
/// none, or one constant whatever came.
pub proof fn combining_what_was_looked_up(
    resolved: Seq<Ipv6Addr>,
    v4: Seq<Ipv4Addr>,
    fallback: Option<Ipv6Addr>,
    a: Ipv6Addr,
)
    ensures
        combine::combined(CombineModel::Verbatim, resolved, v4) == resolved,
        combine::combined(CombineModel::Constant(a), resolved, v4) == seq![a],
        resolved.len() > 0 ==> combine::combined(CombineModel::BorrowOr(fallback), resolved, v4)
            == resolved,
        resolved.len() == 0 && fallback is Some ==> combine::combined(
            CombineModel::BorrowOr(fallback),
            resolved,
            v4,
        ) == seq![fallback->0],
        resolved.len() == 0 && fallback is None ==> combine::combined(
            CombineModel::BorrowOr(fallback),
            resolved,
            v4,
        ).len() == 0,
{
}

/// What is made of one address, looked up or an A record, by each way of fusing.
pub proof fn combining_one_address(
    p: Ipv6Addr,
    id: u32,
    prefix: Ipv6Addr,
    spo: bool,
    ip: Ipv4Addr,
    resolved: Seq<Ipv6Addr>,
    v4: Seq<Ipv4Addr>,
)
    ensures
        combine::fused(p, id as nat) matches Some(r) ==> combine::combined(
            CombineModel::Fuse(id),
            seq![p],
            v4,
        ) == seq![r],
        combine::combined(CombineModel::Msedge(prefix, spo), resolved, seq![ip]) == seq![
            combine::msedge_addr(prefix, spo, ip)->0,
        ],
        between(0xc000_4200, ip.bits, 0xc000_42ff) ==> combine::combined(
            CombineModel::Wpvip,
            resolved,
            seq![ip],
        ) == seq![combine::wpvip_addr(ip)->0],
        between(0xcdea_af00, ip.bits, 0xcdea_afff) ==> combine::combined(
            CombineModel::Cachefly,
            resolved,
            seq![ip],
        ) == seq![combine::cachefly_addr(ip)->0],
        !between(0xcdea_af00, ip.bits, 0xcdea_afff) ==> combine::combined(
            CombineModel::Cachefly,
            resolved,
            seq![ip],
        ).len() == 0,
{
    mapped_lists_add_up(Seq::empty(), Seq::empty(), p, combine::fuse_map(id as nat));
    mapped_lists_add_up(Seq::empty(), Seq::empty(), ip, combine::msedge_map(prefix, spo));
    mapped_lists_add_up(Seq::empty(), Seq::empty(), ip, combine::wpvip_map());
    mapped_lists_add_up(Seq::empty(), Seq::empty(), ip, combine::cachefly_map());
    an_edge_address_ends_with_the_last_octet(prefix, spo, ip);
    a_wpvip_address_is_embedded(ip);
    a_cachefly_address_is_embedded(ip);
    cachefly_ranges_by_the_numbers(ip.bits);
}

// ---------------------------------------------------------------------------
// Networks
// ---------------------------------------------------------------------------

/// The first address of a network.
pub open spec fn base_of(c: Cidr) -> nat {
    c.0 as nat * 16_777_216 + c.1 as nat * 65_536 + c.2 as nat * 256 + c.3 as nat
}

/// A network holds the addresses from its first one on, as many as its prefix
/// leaves free.
pub proof fn a_network_is_a_range(c: Cidr, ip: u32)
    requires
        c.4 <= 32,
        base_of(c) % vstd::arithmetic::power2::pow2((32 - c.4) as nat) == 0,
    ensures
        cidr::cidr_holds(c, ip) <==> base_of(c) <= ip < base_of(c)
            + vstd::arithmetic::power2::pow2((32 - c.4) as nat),
{
    let k = (32 - c.4) as nat;
    let size = vstd::arithmetic::power2::pow2(k);
    vstd::arithmetic::power2::lemma_pow2_pos(k);
    vstd::arithmetic::power2::lemma2_to64();
    let b = base_of(c);
    assert(b == net::quad(c.0 as int, c.1 as int, c.2 as int, c.3 as int));
    assert(cidr::net4_size(c.4 as int) == size);
    range_by_division(ip as nat, b, size);
}

proof fn range_by_division(n: nat, b: nat, size: nat)
    requires
        size > 0,
        b % size == 0,
    ensures
        n / size == b / size <==> b <= n < b + size,
{
    vstd::arithmetic::div_mod::lemma_fundamental_div_mod(n as int, size as int);
    vstd::arithmetic::div_mod::lemma_fundamental_div_mod(b as int, size as int);
    if b <= n < b + size {
        vstd::arithmetic::div_mod::lemma_fundamental_div_mod_converse(
            n as int,
            size as int,
            b as int / size as int,
            n - b,
        );
    }
}

/// An address is of some networks where it is of one of them: of two lists in a row,
/// of either.
pub proof fn networks_add_up(a: Seq<Cidr>, b: Seq<Cidr>, ip: u32)
    ensures
        cidr::any_holds(a + b, ip) <==> cidr::any_holds(a, ip) || cidr::any_holds(b, ip),
{
    if cidr::any_holds(a, ip) {
        let i = choose|i: int| 0 <= i < a.len() && cidr::cidr_holds(#[trigger] a[i], ip);
        assert((a + b)[i] == a[i]);
    }
    if cidr::any_holds(b, ip) {
        let i = choose|i: int| 0 <= i < b.len() && cidr::cidr_holds(#[trigger] b[i], ip);
        assert((a + b)[a.len() + i] == b[i]);
    }
    if cidr::any_holds(a + b, ip) {
        let i = choose|i: int| 0 <= i < (a + b).len() && cidr::cidr_holds(#[trigger] (a + b)[i], ip);
        if i < a.len() {
            assert(a[i] == (a + b)[i]);
        } else {
            assert(b[i - a.len()] == (a + b)[i]);
        }
    }
}

/// The networks of Cloudflare by their first and last addresses.
pub open spec fn cloudflare_ranges_numbers(ip: u32) -> bool {
    ||| between(0x68100000, ip, 0x681fffff)
    ||| between(0xa29f8000, ip, 0xa29fffff)
    ||| between(0xd8c63500, ip, 0xd8c635ff)
    ||| between(0xd8c63600, ip, 0xd8c636ff)
    ||| between(0x8dc1d500, ip, 0x8dc1d5ff)
    ||| between(0x5ef78e00, ip, 0x5ef78eff)
    ||| between(0x67850100, ip, 0x678501ff)
}

/// An address is of Cloudflare exactly where its number says so.
pub proof fn cloudflare_ranges_by_the_numbers(ip: u32)
    ensures
        cidr::any_holds(tables::CLOUDFLARE_RANGES@, ip) <==> cloudflare_ranges_numbers(ip),
{
    vstd::arithmetic::power2::lemma2_to64();
    let t = tables::CLOUDFLARE_RANGES@;
    assert(base_of(t[0]) == 0x68100000 && (32 - t[0].4) as nat == 20);
    assert(1745879040nat % 1048576 == 0);
    a_network_is_a_range(t[0], ip);
    assert(base_of(t[1]) == 0xa29f8000 && (32 - t[1].4) as nat == 15);
    assert(2728361984nat % 32768 == 0);
    a_network_is_a_range(t[1], ip);
    assert(base_of(t[2]) == 0xd8c63500 && (32 - t[2].4) as nat == 8);
    assert(3636868352nat % 256 == 0);
    a_network_is_a_range(t[2], ip);
    assert(base_of(t[3]) == 0xd8c63600 && (32 - t[3].4) as nat == 8);
    assert(3636868608nat % 256 == 0);
    a_network_is_a_range(t[3], ip);
    assert(base_of(t[4]) == 0x8dc1d500 && (32 - t[4].4) as nat == 8);
    assert(2378290432nat % 256 == 0);
    a_network_is_a_range(t[4], ip);
    assert(base_of(t[5]) == 0x5ef78e00 && (32 - t[5].4) as nat == 8);
    assert(1593282048nat % 256 == 0);
    a_network_is_a_range(t[5], ip);
    assert(base_of(t[6]) == 0x67850100 && (32 - t[6].4) as nat == 8);
    assert(1736769792nat % 256 == 0);
    a_network_is_a_range(t[6], ip);
}

/// The networks of Shopify by their first and last addresses.
pub open spec fn shopify_ranges_numbers(ip: u32) -> bool {
    ||| between(0x17e32500, ip, 0x17e325ff)
    ||| between(0x17e32600, ip, 0x17e327ff)
    ||| between(0x17e33c00, ip, 0x17e33cff)
    ||| between(0xb992ac00, ip, 0xb992adff)
}

/// An address is of Shopify exactly where its number says so.
pub proof fn shopify_ranges_by_the_numbers(ip: u32)
    ensures
        cidr::any_holds(tables::SHOPIFY_RANGES@, ip) <==> shopify_ranges_numbers(ip),
{
    vstd::arithmetic::power2::lemma2_to64();
    let t = tables::SHOPIFY_RANGES@;
    assert(base_of(t[0]) == 0x17e32500 && (32 - t[0].4) as nat == 8);
    assert(400762112nat % 256 == 0);
    a_network_is_a_range(t[0], ip);
    assert(base_of(t[1]) == 0x17e32600 && (32 - t[1].4) as nat == 9);
    assert(400762368nat % 512 == 0);
    a_network_is_a_range(t[1], ip);
    assert(base_of(t[2]) == 0x17e33c00 && (32 - t[2].4) as nat == 8);
    assert(400768000nat % 256 == 0);
    a_network_is_a_range(t[2], ip);
    assert(base_of(t[3]) == 0xb992ac00 && (32 - t[3].4) as nat == 9);
    assert(3113397248nat % 512 == 0);
    a_network_is_a_range(t[3], ip);
}

/// The networks of Webflow by their first and last addresses.
pub open spec fn webflow_ranges_numbers(ip: u32) -> bool {
    ||| between(0xc6cad300, ip, 0xc6cad3ff)
    ||| between(0x4b02464b, ip, 0x4b02464b)
    ||| between(0x6353be66, ip, 0x6353be66)
}

/// An address is of Webflow exactly where its number says so.
pub proof fn webflow_ranges_by_the_numbers(ip: u32)
    ensures
        cidr::any_holds(tables::WEBFLOW_RANGES@, ip) <==> webflow_ranges_numbers(ip),
{
    vstd::arithmetic::power2::lemma2_to64();
    let t = tables::WEBFLOW_RANGES@;
    assert(base_of(t[0]) == 0xc6cad300 && (32 - t[0].4) as nat == 8);
    assert(3335181056nat % 256 == 0);
    a_network_is_a_range(t[0], ip);
    assert(base_of(t[1]) == 0x4b02464b && (32 - t[1].4) as nat == 0);
    assert(1258440267nat % 1 == 0);
    a_network_is_a_range(t[1], ip);
    assert(base_of(t[2]) == 0x6353be66 && (32 - t[2].4) as nat == 0);
    assert(1666432614nat % 1 == 0);
    a_network_is_a_range(t[2], ip);
}

/// The networks of Weebly by their first and last addresses.
pub open spec fn weebly_ranges_numbers(ip: u32) -> bool {
    ||| between(0xc722e400, ip, 0xc722e7ff)
}

/// An address is of Weebly exactly where its number says so.
pub proof fn weebly_ranges_by_the_numbers(ip: u32)
    ensures
        cidr::any_holds(tables::WEEBLY_RANGES@, ip) <==> weebly_ranges_numbers(ip),
{
    vstd::arithmetic::power2::lemma2_to64();
    let t = tables::WEEBLY_RANGES@;
    assert(base_of(t[0]) == 0xc722e400 && (32 - t[0].4) as nat == 10);
    assert(3340952576nat % 1024 == 0);
    a_network_is_a_range(t[0], ip);
}

/// The networks of Sucuri by their first and last addresses.
pub open spec fn sucuri_ranges_numbers(ip: u32) -> bool {
    ||| between(0xc07cf900, ip, 0xc07cf9ff)
}

/// An address is of Sucuri exactly where its number says so.
pub proof fn sucuri_ranges_by_the_numbers(ip: u32)
    ensures
        cidr::any_holds(tables::SUCURI_RANGES@, ip) <==> sucuri_ranges_numbers(ip),
{
    vstd::arithmetic::power2::lemma2_to64();
    let t = tables::SUCURI_RANGES@;
    assert(base_of(t[0]) == 0xc07cf900 && (32 - t[0].4) as nat == 8);
    assert(3229415680nat % 256 == 0);
    a_network_is_a_range(t[0], ip);
}

/// The networks of Netlify by their first and last addresses.
pub open spec fn netlify_ranges_numbers(ip: u32) -> bool {
    ||| between(0x4b023c05, ip, 0x4b023c05)
    ||| between(0x6353e73d, ip, 0x6353e73d)
}

/// An address is of Netlify exactly where its number says so.
pub proof fn netlify_ranges_by_the_numbers(ip: u32)
    ensures
        cidr::any_holds(tables::NETLIFY_RANGES@, ip) <==> netlify_ranges_numbers(ip),
{
    vstd::arithmetic::power2::lemma2_to64();
    let t = tables::NETLIFY_RANGES@;
    assert(base_of(t[0]) == 0x4b023c05 && (32 - t[0].4) as nat == 0);
    assert(1258437637nat % 1 == 0);
    a_network_is_a_range(t[0], ip);
    assert(base_of(t[1]) == 0x6353e73d && (32 - t[1].4) as nat == 0);
    assert(1666443069nat % 1 == 0);
    a_network_is_a_range(t[1], ip);
}

/// The networks of Bearblog by their first and last addresses.
pub open spec fn bearblog_ranges_numbers(ip: u32) -> bool {
    ||| between(0x9fdfccb0, ip, 0x9fdfccb0)
}

/// An address is of Bearblog exactly where its number says so.
pub proof fn bearblog_ranges_by_the_numbers(ip: u32)
    ensures
        cidr::any_holds(tables::BEARBLOG_RANGES@, ip) <==> bearblog_ranges_numbers(ip),
{
    vstd::arithmetic::power2::lemma2_to64();
    let t = tables::BEARBLOG_RANGES@;
    assert(base_of(t[0]) == 0x9fdfccb0 && (32 - t[0].4) as nat == 0);
    assert(2682244272nat % 1 == 0);
    a_network_is_a_range(t[0], ip);
}

/// The networks of Fastly by their first and last addresses.
pub open spec fn fastly_ranges_numbers(ip: u32) -> bool {
    ||| between(0x97650000, ip, 0x9765ffff)
    ||| between(0xc7e80000, ip, 0xc7e8ffff)
    ||| between(0x924b0000, ip, 0x924b7fff)
}

/// An address is of Fastly exactly where its number says so.
pub proof fn fastly_ranges_by_the_numbers(ip: u32)
    ensures
        cidr::any_holds(tables::FASTLY_RANGES@, ip) <==> fastly_ranges_numbers(ip),
{
    vstd::arithmetic::power2::lemma2_to64();
    let t = tables::FASTLY_RANGES@;
    assert(base_of(t[0]) == 0x97650000 && (32 - t[0].4) as nat == 16);
    assert(2539978752nat % 65536 == 0);
    a_network_is_a_range(t[0], ip);
    assert(base_of(t[1]) == 0xc7e80000 && (32 - t[1].4) as nat == 16);
    assert(3353870336nat % 65536 == 0);
    a_network_is_a_range(t[1], ip);
    assert(base_of(t[2]) == 0x924b0000 && (32 - t[2].4) as nat == 15);
    assert(2454388736nat % 32768 == 0);
    a_network_is_a_range(t[2], ip);
}

/// The networks of Github Pages by their first and last addresses.
pub open spec fn github_pages_ranges_numbers(ip: u32) -> bool {
    ||| between(0xb9c76c00, ip, 0xb9c76fff)
}

/// An address is of Github Pages exactly where its number says so.
pub proof fn github_pages_ranges_by_the_numbers(ip: u32)
    ensures
        cidr::any_holds(tables::GITHUB_PAGES_RANGES@, ip) <==> github_pages_ranges_numbers(ip),
{
    vstd::arithmetic::power2::lemma2_to64();
    let t = tables::GITHUB_PAGES_RANGES@;
    assert(base_of(t[0]) == 0xb9c76c00 && (32 - t[0].4) as nat == 10);
    assert(3116854272nat % 1024 == 0);
    a_network_is_a_range(t[0], ip);
}

/// The networks of Wpvip by their first and last addresses.
pub open spec fn wpvip_ranges_numbers(ip: u32) -> bool {
    ||| between(0xc0004200, ip, 0xc00042ff)
}

/// An address is of Wpvip exactly where its number says so.
pub proof fn wpvip_ranges_by_the_numbers(ip: u32)
    ensures
        cidr::any_holds(tables::WPVIP_RANGES@, ip) <==> wpvip_ranges_numbers(ip),
{
    vstd::arithmetic::power2::lemma2_to64();
    let t = tables::WPVIP_RANGES@;
    assert(base_of(t[0]) == 0xc0004200 && (32 - t[0].4) as nat == 8);
    assert(3221242368nat % 256 == 0);
    a_network_is_a_range(t[0], ip);
}

/// The networks of Cachefly by their first and last addresses.
pub open spec fn cachefly_ranges_numbers(ip: u32) -> bool {
    ||| between(0xcdeaaf00, ip, 0xcdeaafff)
}

/// An address is of Cachefly exactly where its number says so.
pub proof fn cachefly_ranges_by_the_numbers(ip: u32)
    ensures
        cidr::any_holds(tables::CACHEFLY_RANGES@, ip) <==> cachefly_ranges_numbers(ip),
{
    vstd::arithmetic::power2::lemma2_to64();
    let t = tables::CACHEFLY_RANGES@;
    assert(base_of(t[0]) == 0xcdeaaf00 && (32 - t[0].4) as nat == 8);
    assert(3454709504nat % 256 == 0);
    a_network_is_a_range(t[0], ip);
}

/// The networks of Cloudfront by their first and last addresses.
pub open spec fn cloudfront_ranges_numbers(ip: u32) -> bool {
    ||| between(0x78341660, ip, 0x7834167f)
    ||| between(0xcdfbf900, ip, 0xcdfbf9ff)
    ||| between(0xb4a33980, ip, 0xb4a339bf)
    ||| between(0xccf6a800, ip, 0xccf6abff)
    ||| between(0x6f0dab80, ip, 0x6f0dabbf)
    ||| between(0x12a00000, ip, 0x12a1ffff)
    ||| between(0xcdfbfc00, ip, 0xcdfbfdff)
    ||| between(0x36c00000, ip, 0x36c0ffff)
    ||| between(0xccf6ad00, ip, 0xccf6adff)
    ||| between(0x36e6c800, ip, 0x36e6cfff)
    ||| between(0x78fdf0c0, ip, 0x78fdf0ff)
    ||| between(0x7481e280, ip, 0x7481e2bf)
    ||| between(0x82b00000, ip, 0x82b07fff)
    ||| between(0x6c9c0000, ip, 0x6c9fffff)
    ||| between(0x63560000, ip, 0x6356ffff)
    ||| between(0x0d200000, ip, 0x0d21ffff)
    ||| between(0x78fdf580, ip, 0x78fdf5bf)
    ||| between(0x0de00000, ip, 0x0de3ffff)
    ||| between(0x46840000, ip, 0x46843fff)
    ||| between(0x0f9e0000, ip, 0x0f9effff)
    ||| between(0x6f0dabc0, ip, 0x6f0dabff)
    ||| between(0x0df90000, ip, 0x0df9ffff)
    ||| between(0x12ee0000, ip, 0x12efffff)
    ||| between(0x12f40000, ip, 0x12f5ffff)
    ||| between(0xcdfbd000, ip, 0xcdfbdfff)
    ||| between(0x41098000, ip, 0x4109bfff)
    ||| between(0x82b08000, ip, 0x82b0bfff)
    ||| between(0x3afe8a00, ip, 0x3afe8a7f)
    ||| between(0xcdfbc900, ip, 0xcdfbc9ff)
    ||| between(0xcdfbce00, ip, 0xcdfbcfff)
    ||| between(0x36e6d000, ip, 0x36e6dfff)
    ||| between(0x03a00000, ip, 0x03a3ffff)
    ||| between(0x7481e200, ip, 0x7481e27f)
    ||| between(0x34de8000, ip, 0x34deffff)
    ||| between(0x12a40000, ip, 0x12a5ffff)
    ||| between(0x6f0db920, ip, 0x6f0db93f)
    ||| between(0x40fc8000, ip, 0x40fcbfff)
    ||| between(0xcdfbfe00, ip, 0xcdfbfeff)
    ||| between(0x36e6e000, ip, 0x36e6ffff)
    ||| between(0x47980000, ip, 0x47987fff)
    ||| between(0xd8892000, ip, 0xd8893fff)
    ||| between(0xccf6ac00, ip, 0xccf6acff)
    ||| between(0xcdfbca00, ip, 0xcdfbcbff)
    ||| between(0x12ac0000, ip, 0x12adffff)
    ||| between(0x78342780, ip, 0x7834279f)
    ||| between(0x76c16140, ip, 0x76c1617f)
    ||| between(0x03a44000, ip, 0x03a47fff)
    ||| between(0x129a0000, ip, 0x129bffff)
    ||| between(0x36f08000, ip, 0x36f0bfff)
    ||| between(0xcdfbfa00, ip, 0xcdfbfbff)
    ||| between(0xb4a33900, ip, 0xb4a3397f)
    ||| between(0x342e0000, ip, 0x342e3fff)
    ||| between(0x34528000, ip, 0x34529fff)
    ||| between(0x36e60000, ip, 0x36e67fff)
    ||| between(0x36e68000, ip, 0x36e6bfff)
    ||| between(0x36ef8000, ip, 0x36efbfff)
    ||| between(0x82b0e000, ip, 0x82b0efff)
    ||| between(0x2467e880, ip, 0x2467e8bf)
    ||| between(0x34540000, ip, 0x3455ffff)
    ||| between(0x8fcc0000, ip, 0x8fccffff)
    ||| between(0x90dc0000, ip, 0x90dcffff)
    ||| between(0x783499c0, ip, 0x783499ff)
    ||| between(0x7793b600, ip, 0x7793b67f)
    ||| between(0x78e8ec00, ip, 0x78e8ec7f)
    ||| between(0x6f0db940, ip, 0x6f0db95f)
    ||| between(0x03a40000, ip, 0x03a43fff)
    ||| between(0x36b60000, ip, 0x36b6ffff)
    ||| between(0x3afe8a80, ip, 0x3afe8abf)
    ||| between(0x78fdf5c0, ip, 0x78fdf5df)
    ||| between(0x36efc000, ip, 0x36efdfff)
    ||| between(0x12440000, ip, 0x1244ffff)
    ||| between(0x12400000, ip, 0x1243ffff)
    ||| between(0x78340c40, ip, 0x78340c7f)
    ||| between(0x63540000, ip, 0x6354ffff)
    ||| between(0xcdfbcc00, ip, 0xcdfbcdff)
    ||| between(0x82b0c000, ip, 0x82b0dfff)
    ||| between(0x347c8000, ip, 0x347cffff)
    ||| between(0xcdfbc800, ip, 0xcdfbc8ff)
    ||| between(0xccf6a400, ip, 0xccf6a7ff)
    ||| between(0x0d230000, ip, 0x0d23ffff)
    ||| between(0xccf6ae00, ip, 0xccf6afff)
    ||| between(0x03a48000, ip, 0x03a4ffff)
    ||| between(0x03ac0000, ip, 0x03ac3fff)
    ||| between(0x2467e800, ip, 0x2467e87f)
    ||| between(0x7793b680, ip, 0x7793b6bf)
    ||| between(0x76c16180, ip, 0x76c161ff)
    ||| between(0x78e8ec80, ip, 0x78e8ecbf)
    ||| between(0xccf6b000, ip, 0xccf6bfff)
    ||| between(0x41080000, ip, 0x4108ffff)
    ||| between(0x41090000, ip, 0x41097fff)
    ||| between(0x6c8a0000, ip, 0x6c8bffff)
    ||| between(0x78fdf1a0, ip, 0x78fdf1bf)
    ||| between(0x40fc4000, ip, 0x40fc7fff)
    ||| between(0x0d71c440, ip, 0x0d71c47f)
    ||| between(0x0d71cb00, ip, 0x0d71cbff)
    ||| between(0x34c77fc0, ip, 0x34c77fff)
    ||| between(0x0d7cc700, ip, 0x0d7cc7ff)
    ||| between(0x03238280, ip, 0x032382ff)
    ||| between(0x344ef780, ip, 0x344ef7bf)
    ||| between(0x0de9b1c0, ip, 0x0de9b1ff)
    ||| between(0x0fcf0d80, ip, 0x0fcf0dff)
    ||| between(0x0fcfd580, ip, 0x0fcfd5ff)
    ||| between(0x3442c280, ip, 0x3442c2bf)
    ||| between(0x0de44500, ip, 0x0de445ff)
    ||| between(0x34dcbf00, ip, 0x34dcbf3f)
    ||| between(0x0dd24380, ip, 0x0dd243bf)
    ||| between(0x0d363f80, ip, 0x0d363fbf)
    ||| between(0x2bda3880, ip, 0x2bda38bf)
    ||| between(0x2bda38c0, ip, 0x2bda38ff)
    ||| between(0x2bda3840, ip, 0x2bda387f)
    ||| between(0x2bda4700, ip, 0x2bda473f)
    ||| between(0x634fa900, ip, 0x634fa9ff)
    ||| between(0x12c08e00, ip, 0x12c08fff)
    ||| between(0x239e8800, ip, 0x239e88ff)
    ||| between(0x3439fe00, ip, 0x3439feff)
    ||| between(0x0d302000, ip, 0x0d3020ff)
    ||| between(0x12c8d400, ip, 0x12c8d5ff)
    ||| between(0x34d4f800, ip, 0x34d4f83f)
    ||| between(0x030a1180, ip, 0x030a11ff)
    ||| between(0x030b3500, ip, 0x030b35ff)
    ||| between(0x34387f00, ip, 0x34387f7f)
    ||| between(0x0fbcb800, ip, 0x0fbcb8ff)
    ||| between(0x342f8b00, ip, 0x342f8bff)
    ||| between(0x031d2880, ip, 0x031d28bf)
    ||| between(0x031d28c0, ip, 0x031d28ff)
    ||| between(0x031d2840, ip, 0x031d287f)
    ||| between(0x031d3900, ip, 0x031d393f)
    ||| between(0x12e5dcc0, ip, 0x12e5dcff)
    ||| between(0x36e9ff80, ip, 0x36e9ffbf)
    ||| between(0x03e70200, ip, 0x03e7027f)
    ||| between(0x03eae8e0, ip, 0x03eae8ff)
    ||| between(0x03eca9c0, ip, 0x03eca9ff)
    ||| between(0x03ec3000, ip, 0x03ec31ff)
    ||| between(0x22c3fc00, ip, 0x22c3fcff)
    ||| between(0x22e20e00, ip, 0x22e20eff)
    ||| between(0x0d3bfa00, ip, 0x0d3bfa3f)
    ||| between(0x12d8aa80, ip, 0x12d8aaff)
    ||| between(0x03805d00, ip, 0x03805dff)
    ||| between(0x0386d700, ip, 0x0386d7ff)
    ||| between(0x340f7f80, ip, 0x340f7fbf)
    ||| between(0x03659e00, ip, 0x03659fff)
    ||| between(0x3434bf80, ip, 0x3434bfbf)
    ||| between(0x22d83300, ip, 0x22d8337f)
    ||| between(0x22df0ce0, ip, 0x22df0cff)
    ||| between(0x22df50c0, ip, 0x22df50ff)
    ||| between(0x23a23fc0, ip, 0x23a23fff)
    ||| between(0x23a7bf80, ip, 0x23a7bfbf)
    ||| between(0x2ce3b200, ip, 0x2ce3b2ff)
    ||| between(0x2cea6c80, ip, 0x2cea6cff)
    ||| between(0x2cea5afc, ip, 0x2cea5aff)
}

proof fn cloudfront_ranges_part_0(ip: u32)
    ensures
        (exists|i: int| 0 <= i < 30 && cidr::cidr_holds(#[trigger] tables::CLOUDFRONT_RANGES@[i], ip)) <==> {
            ||| between(0x78341660, ip, 0x7834167f)
            ||| between(0xcdfbf900, ip, 0xcdfbf9ff)
            ||| between(0xb4a33980, ip, 0xb4a339bf)
            ||| between(0xccf6a800, ip, 0xccf6abff)
            ||| between(0x6f0dab80, ip, 0x6f0dabbf)
            ||| between(0x12a00000, ip, 0x12a1ffff)
            ||| between(0xcdfbfc00, ip, 0xcdfbfdff)
            ||| between(0x36c00000, ip, 0x36c0ffff)
            ||| between(0xccf6ad00, ip, 0xccf6adff)
            ||| between(0x36e6c800, ip, 0x36e6cfff)
            ||| between(0x78fdf0c0, ip, 0x78fdf0ff)
            ||| between(0x7481e280, ip, 0x7481e2bf)
            ||| between(0x82b00000, ip, 0x82b07fff)
            ||| between(0x6c9c0000, ip, 0x6c9fffff)
            ||| between(0x63560000, ip, 0x6356ffff)
            ||| between(0x0d200000, ip, 0x0d21ffff)
            ||| between(0x78fdf580, ip, 0x78fdf5bf)
            ||| between(0x0de00000, ip, 0x0de3ffff)
            ||| between(0x46840000, ip, 0x46843fff)
            ||| between(0x0f9e0000, ip, 0x0f9effff)
            ||| between(0x6f0dabc0, ip, 0x6f0dabff)
            ||| between(0x0df90000, ip, 0x0df9ffff)
            ||| between(0x12ee0000, ip, 0x12efffff)
            ||| between(0x12f40000, ip, 0x12f5ffff)
            ||| between(0xcdfbd000, ip, 0xcdfbdfff)
            ||| between(0x41098000, ip, 0x4109bfff)
            ||| between(0x82b08000, ip, 0x82b0bfff)
            ||| between(0x3afe8a00, ip, 0x3afe8a7f)
            ||| between(0xcdfbc900, ip, 0xcdfbc9ff)
            ||| between(0xcdfbce00, ip, 0xcdfbcfff)
        },
{
    vstd::arithmetic::power2::lemma2_to64();
    let t = tables::CLOUDFRONT_RANGES@;
    assert(base_of(t[0]) == 0x78341660 && (32 - t[0].4) as nat == 5);
    assert(2016679520nat % 32 == 0);
    a_network_is_a_range(t[0], ip);
    assert(base_of(t[1]) == 0xcdfbf900 && (32 - t[1].4) as nat == 8);
    assert(3455842560nat % 256 == 0);
    a_network_is_a_range(t[1], ip);
    assert(base_of(t[2]) == 0xb4a33980 && (32 - t[2].4) as nat == 6);
    assert(3030595968nat % 64 == 0);
    a_network_is_a_range(t[2], ip);
    assert(base_of(t[3]) == 0xccf6a800 && (32 - t[3].4) as nat == 10);
    assert(3438716928nat % 1024 == 0);
    a_network_is_a_range(t[3], ip);
    assert(base_of(t[4]) == 0x6f0dab80 && (32 - t[4].4) as nat == 6);
    assert(1863166848nat % 64 == 0);
    a_network_is_a_range(t[4], ip);
    assert(base_of(t[5]) == 0x12a00000 && (32 - t[5].4) as nat == 17);
    assert(312475648nat % 131072 == 0);
    a_network_is_a_range(t[5], ip);
    assert(base_of(t[6]) == 0xcdfbfc00 && (32 - t[6].4) as nat == 9);
    assert(3455843328nat % 512 == 0);
    a_network_is_a_range(t[6], ip);
    assert(base_of(t[7]) == 0x36c00000 && (32 - t[7].4) as nat == 16);
    assert(918552576nat % 65536 == 0);
    a_network_is_a_range(t[7], ip);
    assert(base_of(t[8]) == 0xccf6ad00 && (32 - t[8].4) as nat == 8);
    assert(3438718208nat % 256 == 0);
    a_network_is_a_range(t[8], ip);
    assert(base_of(t[9]) == 0x36e6c800 && (32 - t[9].4) as nat == 11);
    assert(921094144nat % 2048 == 0);
    a_network_is_a_range(t[9], ip);
    assert(base_of(t[10]) == 0x78fdf0c0 && (32 - t[10].4) as nat == 6);
    assert(2029908160nat % 64 == 0);
    a_network_is_a_range(t[10], ip);
    assert(base_of(t[11]) == 0x7481e280 && (32 - t[11].4) as nat == 6);
    assert(1954669184nat % 64 == 0);
    a_network_is_a_range(t[11], ip);
    assert(base_of(t[12]) == 0x82b00000 && (32 - t[12].4) as nat == 15);
    assert(2192572416nat % 32768 == 0);
    a_network_is_a_range(t[12], ip);
    assert(base_of(t[13]) == 0x6c9c0000 && (32 - t[13].4) as nat == 18);
    assert(1822162944nat % 262144 == 0);
    a_network_is_a_range(t[13], ip);
    assert(base_of(t[14]) == 0x63560000 && (32 - t[14].4) as nat == 16);
    assert(1666580480nat % 65536 == 0);
    a_network_is_a_range(t[14], ip);
    assert(base_of(t[15]) == 0x0d200000 && (32 - t[15].4) as nat == 17);
    assert(220200960nat % 131072 == 0);
    a_network_is_a_range(t[15], ip);
    assert(base_of(t[16]) == 0x78fdf580 && (32 - t[16].4) as nat == 6);
    assert(2029909376nat % 64 == 0);
    a_network_is_a_range(t[16], ip);
    assert(base_of(t[17]) == 0x0de00000 && (32 - t[17].4) as nat == 18);
    assert(232783872nat % 262144 == 0);
    a_network_is_a_range(t[17], ip);
    assert(base_of(t[18]) == 0x46840000 && (32 - t[18].4) as nat == 14);
    assert(1183055872nat % 16384 == 0);
    a_network_is_a_range(t[18], ip);
    assert(base_of(t[19]) == 0x0f9e0000 && (32 - t[19].4) as nat == 16);
    assert(262012928nat % 65536 == 0);
    a_network_is_a_range(t[19], ip);
    assert(base_of(t[20]) == 0x6f0dabc0 && (32 - t[20].4) as nat == 6);
    assert(1863166912nat % 64 == 0);
    a_network_is_a_range(t[20], ip);
    assert(base_of(t[21]) == 0x0df90000 && (32 - t[21].4) as nat == 16);
    assert(234422272nat % 65536 == 0);
    a_network_is_a_range(t[21], ip);
    assert(base_of(t[22]) == 0x12ee0000 && (32 - t[22].4) as nat == 17);
    assert(317587456nat % 131072 == 0);
    a_network_is_a_range(t[22], ip);
    assert(base_of(t[23]) == 0x12f40000 && (32 - t[23].4) as nat == 17);
    assert(317980672nat % 131072 == 0);
    a_network_is_a_range(t[23], ip);
    assert(base_of(t[24]) == 0xcdfbd000 && (32 - t[24].4) as nat == 12);
    assert(3455832064nat % 4096 == 0);
    a_network_is_a_range(t[24], ip);
    assert(base_of(t[25]) == 0x41098000 && (32 - t[25].4) as nat == 14);
    assert(1091141632nat % 16384 == 0);
    a_network_is_a_range(t[25], ip);
    assert(base_of(t[26]) == 0x82b08000 && (32 - t[26].4) as nat == 14);
    assert(2192605184nat % 16384 == 0);
    a_network_is_a_range(t[26], ip);
    assert(base_of(t[27]) == 0x3afe8a00 && (32 - t[27].4) as nat == 7);
    assert(989760000nat % 128 == 0);
    a_network_is_a_range(t[27], ip);
    assert(base_of(t[28]) == 0xcdfbc900 && (32 - t[28].4) as nat == 8);
    assert(3455830272nat % 256 == 0);
    a_network_is_a_range(t[28], ip);
    assert(base_of(t[29]) == 0xcdfbce00 && (32 - t[29].4) as nat == 9);
    assert(3455831552nat % 512 == 0);
    a_network_is_a_range(t[29], ip);
}

proof fn cloudfront_ranges_part_1(ip: u32)
    ensures
        (exists|i: int| 30 <= i < 60 && cidr::cidr_holds(#[trigger] tables::CLOUDFRONT_RANGES@[i], ip)) <==> {
            ||| between(0x36e6d000, ip, 0x36e6dfff)
            ||| between(0x03a00000, ip, 0x03a3ffff)
            ||| between(0x7481e200, ip, 0x7481e27f)
            ||| between(0x34de8000, ip, 0x34deffff)
            ||| between(0x12a40000, ip, 0x12a5ffff)
            ||| between(0x6f0db920, ip, 0x6f0db93f)
            ||| between(0x40fc8000, ip, 0x40fcbfff)
            ||| between(0xcdfbfe00, ip, 0xcdfbfeff)
            ||| between(0x36e6e000, ip, 0x36e6ffff)
            ||| between(0x47980000, ip, 0x47987fff)
            ||| between(0xd8892000, ip, 0xd8893fff)
            ||| between(0xccf6ac00, ip, 0xccf6acff)
            ||| between(0xcdfbca00, ip, 0xcdfbcbff)
            ||| between(0x12ac0000, ip, 0x12adffff)
            ||| between(0x78342780, ip, 0x7834279f)
            ||| between(0x76c16140, ip, 0x76c1617f)
            ||| between(0x03a44000, ip, 0x03a47fff)
            ||| between(0x129a0000, ip, 0x129bffff)
            ||| between(0x36f08000, ip, 0x36f0bfff)
            ||| between(0xcdfbfa00, ip, 0xcdfbfbff)
            ||| between(0xb4a33900, ip, 0xb4a3397f)
            ||| between(0x342e0000, ip, 0x342e3fff)
            ||| between(0x34528000, ip, 0x34529fff)
            ||| between(0x36e60000, ip, 0x36e67fff)
            ||| between(0x36e68000, ip, 0x36e6bfff)
            ||| between(0x36ef8000, ip, 0x36efbfff)
            ||| between(0x82b0e000, ip, 0x82b0efff)
            ||| between(0x2467e880, ip, 0x2467e8bf)
            ||| between(0x34540000, ip, 0x3455ffff)
            ||| between(0x8fcc0000, ip, 0x8fccffff)
        },
{
    vstd::arithmetic::power2::lemma2_to64();
    let t = tables::CLOUDFRONT_RANGES@;
    assert(base_of(t[30]) == 0x36e6d000 && (32 - t[30].4) as nat == 12);
    assert(921096192nat % 4096 == 0);
    a_network_is_a_range(t[30], ip);
    assert(base_of(t[31]) == 0x03a00000 && (32 - t[31].4) as nat == 18);
    assert(60817408nat % 262144 == 0);
    a_network_is_a_range(t[31], ip);
    assert(base_of(t[32]) == 0x7481e200 && (32 - t[32].4) as nat == 7);
    assert(1954669056nat % 128 == 0);
    a_network_is_a_range(t[32], ip);
    assert(base_of(t[33]) == 0x34de8000 && (32 - t[33].4) as nat == 15);
    assert(886996992nat % 32768 == 0);
    a_network_is_a_range(t[33], ip);
    assert(base_of(t[34]) == 0x12a40000 && (32 - t[34].4) as nat == 17);
    assert(312737792nat % 131072 == 0);
    a_network_is_a_range(t[34], ip);
    assert(base_of(t[35]) == 0x6f0db920 && (32 - t[35].4) as nat == 5);
    assert(1863170336nat % 32 == 0);
    a_network_is_a_range(t[35], ip);
    assert(base_of(t[36]) == 0x40fc8000 && (32 - t[36].4) as nat == 14);
    assert(1090289664nat % 16384 == 0);
    a_network_is_a_range(t[36], ip);
    assert(base_of(t[37]) == 0xcdfbfe00 && (32 - t[37].4) as nat == 8);
    assert(3455843840nat % 256 == 0);
    a_network_is_a_range(t[37], ip);
    assert(base_of(t[38]) == 0x36e6e000 && (32 - t[38].4) as nat == 13);
    assert(921100288nat % 8192 == 0);
    a_network_is_a_range(t[38], ip);
    assert(base_of(t[39]) == 0x47980000 && (32 - t[39].4) as nat == 15);
    assert(1201143808nat % 32768 == 0);
    a_network_is_a_range(t[39], ip);
    assert(base_of(t[40]) == 0xd8892000 && (32 - t[40].4) as nat == 13);
    assert(3632865280nat % 8192 == 0);
    a_network_is_a_range(t[40], ip);
    assert(base_of(t[41]) == 0xccf6ac00 && (32 - t[41].4) as nat == 8);
    assert(3438717952nat % 256 == 0);
    a_network_is_a_range(t[41], ip);
    assert(base_of(t[42]) == 0xcdfbca00 && (32 - t[42].4) as nat == 9);
    assert(3455830528nat % 512 == 0);
    a_network_is_a_range(t[42], ip);
    assert(base_of(t[43]) == 0x12ac0000 && (32 - t[43].4) as nat == 17);
    assert(313262080nat % 131072 == 0);
    a_network_is_a_range(t[43], ip);
    assert(base_of(t[44]) == 0x78342780 && (32 - t[44].4) as nat == 5);
    assert(2016683904nat % 32 == 0);
    a_network_is_a_range(t[44], ip);
    assert(base_of(t[45]) == 0x76c16140 && (32 - t[45].4) as nat == 6);
    assert(1992384832nat % 64 == 0);
    a_network_is_a_range(t[45], ip);
    assert(base_of(t[46]) == 0x03a44000 && (32 - t[46].4) as nat == 14);
    assert(61095936nat % 16384 == 0);
    a_network_is_a_range(t[46], ip);
    assert(base_of(t[47]) == 0x129a0000 && (32 - t[47].4) as nat == 17);
    assert(312082432nat % 131072 == 0);
    a_network_is_a_range(t[47], ip);
    assert(base_of(t[48]) == 0x36f08000 && (32 - t[48].4) as nat == 14);
    assert(921731072nat % 16384 == 0);
    a_network_is_a_range(t[48], ip);
    assert(base_of(t[49]) == 0xcdfbfa00 && (32 - t[49].4) as nat == 9);
    assert(3455842816nat % 512 == 0);
    a_network_is_a_range(t[49], ip);
    assert(base_of(t[50]) == 0xb4a33900 && (32 - t[50].4) as nat == 7);
    assert(3030595840nat % 128 == 0);
    a_network_is_a_range(t[50], ip);
    assert(base_of(t[51]) == 0x342e0000 && (32 - t[51].4) as nat == 14);
    assert(875429888nat % 16384 == 0);
    a_network_is_a_range(t[51], ip);
    assert(base_of(t[52]) == 0x34528000 && (32 - t[52].4) as nat == 13);
    assert(877821952nat % 8192 == 0);
    a_network_is_a_range(t[52], ip);
    assert(base_of(t[53]) == 0x36e60000 && (32 - t[53].4) as nat == 15);
    assert(921042944nat % 32768 == 0);
    a_network_is_a_range(t[53], ip);
    assert(base_of(t[54]) == 0x36e68000 && (32 - t[54].4) as nat == 14);
    assert(921075712nat % 16384 == 0);
    a_network_is_a_range(t[54], ip);
    assert(base_of(t[55]) == 0x36ef8000 && (32 - t[55].4) as nat == 14);
    assert(921665536nat % 16384 == 0);
    a_network_is_a_range(t[55], ip);
    assert(base_of(t[56]) == 0x82b0e000 && (32 - t[56].4) as nat == 12);
    assert(2192629760nat % 4096 == 0);
    a_network_is_a_range(t[56], ip);
    assert(base_of(t[57]) == 0x2467e880 && (32 - t[57].4) as nat == 6);
    assert(610789504nat % 64 == 0);
    a_network_is_a_range(t[57], ip);
    assert(base_of(t[58]) == 0x34540000 && (32 - t[58].4) as nat == 17);
    assert(877920256nat % 131072 == 0);
    a_network_is_a_range(t[58], ip);
    assert(base_of(t[59]) == 0x8fcc0000 && (32 - t[59].4) as nat == 16);
    assert(2412511232nat % 65536 == 0);
    a_network_is_a_range(t[59], ip);
}

proof fn cloudfront_ranges_part_2(ip: u32)
    ensures
        (exists|i: int| 60 <= i < 90 && cidr::cidr_holds(#[trigger] tables::CLOUDFRONT_RANGES@[i], ip)) <==> {
            ||| between(0x90dc0000, ip, 0x90dcffff)
            ||| between(0x783499c0, ip, 0x783499ff)
            ||| between(0x7793b600, ip, 0x7793b67f)
            ||| between(0x78e8ec00, ip, 0x78e8ec7f)
            ||| between(0x6f0db940, ip, 0x6f0db95f)
            ||| between(0x03a40000, ip, 0x03a43fff)
            ||| between(0x36b60000, ip, 0x36b6ffff)
            ||| between(0x3afe8a80, ip, 0x3afe8abf)
            ||| between(0x78fdf5c0, ip, 0x78fdf5df)
            ||| between(0x36efc000, ip, 0x36efdfff)
            ||| between(0x12440000, ip, 0x1244ffff)
            ||| between(0x12400000, ip, 0x1243ffff)
            ||| between(0x78340c40, ip, 0x78340c7f)
            ||| between(0x63540000, ip, 0x6354ffff)
            ||| between(0xcdfbcc00, ip, 0xcdfbcdff)
            ||| between(0x82b0c000, ip, 0x82b0dfff)
            ||| between(0x347c8000, ip, 0x347cffff)
            ||| between(0xcdfbc800, ip, 0xcdfbc8ff)
            ||| between(0xccf6a400, ip, 0xccf6a7ff)
            ||| between(0x0d230000, ip, 0x0d23ffff)
            ||| between(0xccf6ae00, ip, 0xccf6afff)
            ||| between(0x03a48000, ip, 0x03a4ffff)
            ||| between(0x03ac0000, ip, 0x03ac3fff)
            ||| between(0x2467e800, ip, 0x2467e87f)
            ||| between(0x7793b680, ip, 0x7793b6bf)
            ||| between(0x76c16180, ip, 0x76c161ff)
            ||| between(0x78e8ec80, ip, 0x78e8ecbf)
            ||| between(0xccf6b000, ip, 0xccf6bfff)
            ||| between(0x41080000, ip, 0x4108ffff)
            ||| between(0x41090000, ip, 0x41097fff)
        },
{
    vstd::arithmetic::power2::lemma2_to64();
    let t = tables::CLOUDFRONT_RANGES@;
    assert(base_of(t[60]) == 0x90dc0000 && (32 - t[60].4) as nat == 16);
    assert(2430337024nat % 65536 == 0);
    a_network_is_a_range(t[60], ip);
    assert(base_of(t[61]) == 0x783499c0 && (32 - t[61].4) as nat == 6);
    assert(2016713152nat % 64 == 0);
    a_network_is_a_range(t[61], ip);
    assert(base_of(t[62]) == 0x7793b600 && (32 - t[62].4) as nat == 7);
    assert(2006169088nat % 128 == 0);
    a_network_is_a_range(t[62], ip);
    assert(base_of(t[63]) == 0x78e8ec00 && (32 - t[63].4) as nat == 7);
    assert(2028530688nat % 128 == 0);
    a_network_is_a_range(t[63], ip);
    assert(base_of(t[64]) == 0x6f0db940 && (32 - t[64].4) as nat == 5);
    assert(1863170368nat % 32 == 0);
    a_network_is_a_range(t[64], ip);
    assert(base_of(t[65]) == 0x03a40000 && (32 - t[65].4) as nat == 14);
    assert(61079552nat % 16384 == 0);
    a_network_is_a_range(t[65], ip);
    assert(base_of(t[66]) == 0x36b60000 && (32 - t[66].4) as nat == 16);
    assert(917897216nat % 65536 == 0);
    a_network_is_a_range(t[66], ip);
    assert(base_of(t[67]) == 0x3afe8a80 && (32 - t[67].4) as nat == 6);
    assert(989760128nat % 64 == 0);
    a_network_is_a_range(t[67], ip);
    assert(base_of(t[68]) == 0x78fdf5c0 && (32 - t[68].4) as nat == 5);
    assert(2029909440nat % 32 == 0);
    a_network_is_a_range(t[68], ip);
    assert(base_of(t[69]) == 0x36efc000 && (32 - t[69].4) as nat == 13);
    assert(921681920nat % 8192 == 0);
    a_network_is_a_range(t[69], ip);
    assert(base_of(t[70]) == 0x12440000 && (32 - t[70].4) as nat == 16);
    assert(306446336nat % 65536 == 0);
    a_network_is_a_range(t[70], ip);
    assert(base_of(t[71]) == 0x12400000 && (32 - t[71].4) as nat == 18);
    assert(306184192nat % 262144 == 0);
    a_network_is_a_range(t[71], ip);
    assert(base_of(t[72]) == 0x78340c40 && (32 - t[72].4) as nat == 6);
    assert(2016676928nat % 64 == 0);
    a_network_is_a_range(t[72], ip);
    assert(base_of(t[73]) == 0x63540000 && (32 - t[73].4) as nat == 16);
    assert(1666449408nat % 65536 == 0);
    a_network_is_a_range(t[73], ip);
    assert(base_of(t[74]) == 0xcdfbcc00 && (32 - t[74].4) as nat == 9);
    assert(3455831040nat % 512 == 0);
    a_network_is_a_range(t[74], ip);
    assert(base_of(t[75]) == 0x82b0c000 && (32 - t[75].4) as nat == 13);
    assert(2192621568nat % 8192 == 0);
    a_network_is_a_range(t[75], ip);
    assert(base_of(t[76]) == 0x347c8000 && (32 - t[76].4) as nat == 15);
    assert(880574464nat % 32768 == 0);
    a_network_is_a_range(t[76], ip);
    assert(base_of(t[77]) == 0xcdfbc800 && (32 - t[77].4) as nat == 8);
    assert(3455830016nat % 256 == 0);
    a_network_is_a_range(t[77], ip);
    assert(base_of(t[78]) == 0xccf6a400 && (32 - t[78].4) as nat == 10);
    assert(3438715904nat % 1024 == 0);
    a_network_is_a_range(t[78], ip);
    assert(base_of(t[79]) == 0x0d230000 && (32 - t[79].4) as nat == 16);
    assert(220397568nat % 65536 == 0);
    a_network_is_a_range(t[79], ip);
    assert(base_of(t[80]) == 0xccf6ae00 && (32 - t[80].4) as nat == 9);
    assert(3438718464nat % 512 == 0);
    a_network_is_a_range(t[80], ip);
    assert(base_of(t[81]) == 0x03a48000 && (32 - t[81].4) as nat == 15);
    assert(61112320nat % 32768 == 0);
    a_network_is_a_range(t[81], ip);
    assert(base_of(t[82]) == 0x03ac0000 && (32 - t[82].4) as nat == 14);
    assert(61603840nat % 16384 == 0);
    a_network_is_a_range(t[82], ip);
    assert(base_of(t[83]) == 0x2467e800 && (32 - t[83].4) as nat == 7);
    assert(610789376nat % 128 == 0);
    a_network_is_a_range(t[83], ip);
    assert(base_of(t[84]) == 0x7793b680 && (32 - t[84].4) as nat == 6);
    assert(2006169216nat % 64 == 0);
    a_network_is_a_range(t[84], ip);
    assert(base_of(t[85]) == 0x76c16180 && (32 - t[85].4) as nat == 7);
    assert(1992384896nat % 128 == 0);
    a_network_is_a_range(t[85], ip);
    assert(base_of(t[86]) == 0x78e8ec80 && (32 - t[86].4) as nat == 6);
    assert(2028530816nat % 64 == 0);
    a_network_is_a_range(t[86], ip);
    assert(base_of(t[87]) == 0xccf6b000 && (32 - t[87].4) as nat == 12);
    assert(3438718976nat % 4096 == 0);
    a_network_is_a_range(t[87], ip);
    assert(base_of(t[88]) == 0x41080000 && (32 - t[88].4) as nat == 16);
    assert(1091043328nat % 65536 == 0);
    a_network_is_a_range(t[88], ip);
    assert(base_of(t[89]) == 0x41090000 && (32 - t[89].4) as nat == 15);
    assert(1091108864nat % 32768 == 0);
    a_network_is_a_range(t[89], ip);
}

proof fn cloudfront_ranges_part_3(ip: u32)
    ensures
        (exists|i: int| 90 <= i < 120 && cidr::cidr_holds(#[trigger] tables::CLOUDFRONT_RANGES@[i], ip)) <==> {
            ||| between(0x6c8a0000, ip, 0x6c8bffff)
            ||| between(0x78fdf1a0, ip, 0x78fdf1bf)
            ||| between(0x40fc4000, ip, 0x40fc7fff)
            ||| between(0x0d71c440, ip, 0x0d71c47f)
            ||| between(0x0d71cb00, ip, 0x0d71cbff)
            ||| between(0x34c77fc0, ip, 0x34c77fff)
            ||| between(0x0d7cc700, ip, 0x0d7cc7ff)
            ||| between(0x03238280, ip, 0x032382ff)
            ||| between(0x344ef780, ip, 0x344ef7bf)
            ||| between(0x0de9b1c0, ip, 0x0de9b1ff)
            ||| between(0x0fcf0d80, ip, 0x0fcf0dff)
            ||| between(0x0fcfd580, ip, 0x0fcfd5ff)
            ||| between(0x3442c280, ip, 0x3442c2bf)
            ||| between(0x0de44500, ip, 0x0de445ff)
            ||| between(0x34dcbf00, ip, 0x34dcbf3f)
            ||| between(0x0dd24380, ip, 0x0dd243bf)
            ||| between(0x0d363f80, ip, 0x0d363fbf)
            ||| between(0x2bda3880, ip, 0x2bda38bf)
            ||| between(0x2bda38c0, ip, 0x2bda38ff)
            ||| between(0x2bda3840, ip, 0x2bda387f)
            ||| between(0x2bda4700, ip, 0x2bda473f)
            ||| between(0x634fa900, ip, 0x634fa9ff)
            ||| between(0x12c08e00, ip, 0x12c08fff)
            ||| between(0x239e8800, ip, 0x239e88ff)
            ||| between(0x3439fe00, ip, 0x3439feff)
            ||| between(0x0d302000, ip, 0x0d3020ff)
            ||| between(0x12c8d400, ip, 0x12c8d5ff)
            ||| between(0x34d4f800, ip, 0x34d4f83f)
            ||| between(0x030a1180, ip, 0x030a11ff)
            ||| between(0x030b3500, ip, 0x030b35ff)
        },
{
    vstd::arithmetic::power2::lemma2_to64();
    let t = tables::CLOUDFRONT_RANGES@;
    assert(base_of(t[90]) == 0x6c8a0000 && (32 - t[90].4) as nat == 17);
    assert(1820983296nat % 131072 == 0);
    a_network_is_a_range(t[90], ip);
    assert(base_of(t[91]) == 0x78fdf1a0 && (32 - t[91].4) as nat == 5);
    assert(2029908384nat % 32 == 0);
    a_network_is_a_range(t[91], ip);
    assert(base_of(t[92]) == 0x40fc4000 && (32 - t[92].4) as nat == 14);
    assert(1090273280nat % 16384 == 0);
    a_network_is_a_range(t[92], ip);
    assert(base_of(t[93]) == 0x0d71c440 && (32 - t[93].4) as nat == 6);
    assert(225559616nat % 64 == 0);
    a_network_is_a_range(t[93], ip);
    assert(base_of(t[94]) == 0x0d71cb00 && (32 - t[94].4) as nat == 8);
    assert(225561344nat % 256 == 0);
    a_network_is_a_range(t[94], ip);
    assert(base_of(t[95]) == 0x34c77fc0 && (32 - t[95].4) as nat == 6);
    assert(885489600nat % 64 == 0);
    a_network_is_a_range(t[95], ip);
    assert(base_of(t[96]) == 0x0d7cc700 && (32 - t[96].4) as nat == 8);
    assert(226281216nat % 256 == 0);
    a_network_is_a_range(t[96], ip);
    assert(base_of(t[97]) == 0x03238280 && (32 - t[97].4) as nat == 7);
    assert(52658816nat % 128 == 0);
    a_network_is_a_range(t[97], ip);
    assert(base_of(t[98]) == 0x344ef780 && (32 - t[98].4) as nat == 6);
    assert(877590400nat % 64 == 0);
    a_network_is_a_range(t[98], ip);
    assert(base_of(t[99]) == 0x0de9b1c0 && (32 - t[99].4) as nat == 6);
    assert(233419200nat % 64 == 0);
    a_network_is_a_range(t[99], ip);
    assert(base_of(t[100]) == 0x0fcf0d80 && (32 - t[100].4) as nat == 7);
    assert(265227648nat % 128 == 0);
    a_network_is_a_range(t[100], ip);
    assert(base_of(t[101]) == 0x0fcfd580 && (32 - t[101].4) as nat == 7);
    assert(265278848nat % 128 == 0);
    a_network_is_a_range(t[101], ip);
    assert(base_of(t[102]) == 0x3442c280 && (32 - t[102].4) as nat == 6);
    assert(876790400nat % 64 == 0);
    a_network_is_a_range(t[102], ip);
    assert(base_of(t[103]) == 0x0de44500 && (32 - t[103].4) as nat == 8);
    assert(233063680nat % 256 == 0);
    a_network_is_a_range(t[103], ip);
    assert(base_of(t[104]) == 0x34dcbf00 && (32 - t[104].4) as nat == 6);
    assert(886882048nat % 64 == 0);
    a_network_is_a_range(t[104], ip);
    assert(base_of(t[105]) == 0x0dd24380 && (32 - t[105].4) as nat == 6);
    assert(231883648nat % 64 == 0);
    a_network_is_a_range(t[105], ip);
    assert(base_of(t[106]) == 0x0d363f80 && (32 - t[106].4) as nat == 6);
    assert(221659008nat % 64 == 0);
    a_network_is_a_range(t[106], ip);
    assert(base_of(t[107]) == 0x2bda3880 && (32 - t[107].4) as nat == 6);
    assert(735721600nat % 64 == 0);
    a_network_is_a_range(t[107], ip);
    assert(base_of(t[108]) == 0x2bda38c0 && (32 - t[108].4) as nat == 6);
    assert(735721664nat % 64 == 0);
    a_network_is_a_range(t[108], ip);
    assert(base_of(t[109]) == 0x2bda3840 && (32 - t[109].4) as nat == 6);
    assert(735721536nat % 64 == 0);
    a_network_is_a_range(t[109], ip);
    assert(base_of(t[110]) == 0x2bda4700 && (32 - t[110].4) as nat == 6);
    assert(735725312nat % 64 == 0);
    a_network_is_a_range(t[110], ip);
    assert(base_of(t[111]) == 0x634fa900 && (32 - t[111].4) as nat == 8);
    assert(1666164992nat % 256 == 0);
    a_network_is_a_range(t[111], ip);
    assert(base_of(t[112]) == 0x12c08e00 && (32 - t[112].4) as nat == 9);
    assert(314609152nat % 512 == 0);
    a_network_is_a_range(t[112], ip);
    assert(base_of(t[113]) == 0x239e8800 && (32 - t[113].4) as nat == 8);
    assert(597592064nat % 256 == 0);
    a_network_is_a_range(t[113], ip);
    assert(base_of(t[114]) == 0x3439fe00 && (32 - t[114].4) as nat == 8);
    assert(876215808nat % 256 == 0);
    a_network_is_a_range(t[114], ip);
    assert(base_of(t[115]) == 0x0d302000 && (32 - t[115].4) as nat == 8);
    assert(221257728nat % 256 == 0);
    a_network_is_a_range(t[115], ip);
    assert(base_of(t[116]) == 0x12c8d400 && (32 - t[116].4) as nat == 9);
    assert(315151360nat % 512 == 0);
    a_network_is_a_range(t[116], ip);
    assert(base_of(t[117]) == 0x34d4f800 && (32 - t[117].4) as nat == 6);
    assert(886372352nat % 64 == 0);
    a_network_is_a_range(t[117], ip);
    assert(base_of(t[118]) == 0x030a1180 && (32 - t[118].4) as nat == 7);
    assert(50991488nat % 128 == 0);
    a_network_is_a_range(t[118], ip);
    assert(base_of(t[119]) == 0x030b3500 && (32 - t[119].4) as nat == 8);
    assert(51066112nat % 256 == 0);
    a_network_is_a_range(t[119], ip);
}

proof fn cloudfront_ranges_part_4(ip: u32)
    ensures
        (exists|i: int| 120 <= i < 150 && cidr::cidr_holds(#[trigger] tables::CLOUDFRONT_RANGES@[i], ip)) <==> {
            ||| between(0x34387f00, ip, 0x34387f7f)
            ||| between(0x0fbcb800, ip, 0x0fbcb8ff)
            ||| between(0x342f8b00, ip, 0x342f8bff)
            ||| between(0x031d2880, ip, 0x031d28bf)
            ||| between(0x031d28c0, ip, 0x031d28ff)
            ||| between(0x031d2840, ip, 0x031d287f)
            ||| between(0x031d3900, ip, 0x031d393f)
            ||| between(0x12e5dcc0, ip, 0x12e5dcff)
            ||| between(0x36e9ff80, ip, 0x36e9ffbf)
            ||| between(0x03e70200, ip, 0x03e7027f)
            ||| between(0x03eae8e0, ip, 0x03eae8ff)
            ||| between(0x03eca9c0, ip, 0x03eca9ff)
            ||| between(0x03ec3000, ip, 0x03ec31ff)
            ||| between(0x22c3fc00, ip, 0x22c3fcff)
            ||| between(0x22e20e00, ip, 0x22e20eff)
            ||| between(0x0d3bfa00, ip, 0x0d3bfa3f)
            ||| between(0x12d8aa80, ip, 0x12d8aaff)
            ||| between(0x03805d00, ip, 0x03805dff)
            ||| between(0x0386d700, ip, 0x0386d7ff)
            ||| between(0x340f7f80, ip, 0x340f7fbf)
            ||| between(0x03659e00, ip, 0x03659fff)
            ||| between(0x3434bf80, ip, 0x3434bfbf)
            ||| between(0x22d83300, ip, 0x22d8337f)
            ||| between(0x22df0ce0, ip, 0x22df0cff)
            ||| between(0x22df50c0, ip, 0x22df50ff)
            ||| between(0x23a23fc0, ip, 0x23a23fff)
            ||| between(0x23a7bf80, ip, 0x23a7bfbf)
            ||| between(0x2ce3b200, ip, 0x2ce3b2ff)
            ||| between(0x2cea6c80, ip, 0x2cea6cff)
            ||| between(0x2cea5afc, ip, 0x2cea5aff)
        },
{
    vstd::arithmetic::power2::lemma2_to64();
    let t = tables::CLOUDFRONT_RANGES@;
    assert(base_of(t[120]) == 0x34387f00 && (32 - t[120].4) as nat == 7);
    assert(876117760nat % 128 == 0);
    a_network_is_a_range(t[120], ip);
    assert(base_of(t[121]) == 0x0fbcb800 && (32 - t[121].4) as nat == 8);
    assert(264026112nat % 256 == 0);
    a_network_is_a_range(t[121], ip);
    assert(base_of(t[122]) == 0x342f8b00 && (32 - t[122].4) as nat == 8);
    assert(875531008nat % 256 == 0);
    a_network_is_a_range(t[122], ip);
    assert(base_of(t[123]) == 0x031d2880 && (32 - t[123].4) as nat == 6);
    assert(52242560nat % 64 == 0);
    a_network_is_a_range(t[123], ip);
    assert(base_of(t[124]) == 0x031d28c0 && (32 - t[124].4) as nat == 6);
    assert(52242624nat % 64 == 0);
    a_network_is_a_range(t[124], ip);
    assert(base_of(t[125]) == 0x031d2840 && (32 - t[125].4) as nat == 6);
    assert(52242496nat % 64 == 0);
    a_network_is_a_range(t[125], ip);
    assert(base_of(t[126]) == 0x031d3900 && (32 - t[126].4) as nat == 6);
    assert(52246784nat % 64 == 0);
    a_network_is_a_range(t[126], ip);
    assert(base_of(t[127]) == 0x12e5dcc0 && (32 - t[127].4) as nat == 6);
    assert(317054144nat % 64 == 0);
    a_network_is_a_range(t[127], ip);
    assert(base_of(t[128]) == 0x36e9ff80 && (32 - t[128].4) as nat == 6);
    assert(921304960nat % 64 == 0);
    a_network_is_a_range(t[128], ip);
    assert(base_of(t[129]) == 0x03e70200 && (32 - t[129].4) as nat == 7);
    assert(65470976nat % 128 == 0);
    a_network_is_a_range(t[129], ip);
    assert(base_of(t[130]) == 0x03eae8e0 && (32 - t[130].4) as nat == 5);
    assert(65726688nat % 32 == 0);
    a_network_is_a_range(t[130], ip);
    assert(base_of(t[131]) == 0x03eca9c0 && (32 - t[131].4) as nat == 6);
    assert(65841600nat % 64 == 0);
    a_network_is_a_range(t[131], ip);
    assert(base_of(t[132]) == 0x03ec3000 && (32 - t[132].4) as nat == 9);
    assert(65810432nat % 512 == 0);
    a_network_is_a_range(t[132], ip);
    assert(base_of(t[133]) == 0x22c3fc00 && (32 - t[133].4) as nat == 8);
    assert(583269376nat % 256 == 0);
    a_network_is_a_range(t[133], ip);
    assert(base_of(t[134]) == 0x22e20e00 && (32 - t[134].4) as nat == 8);
    assert(585240064nat % 256 == 0);
    a_network_is_a_range(t[134], ip);
    assert(base_of(t[135]) == 0x0d3bfa00 && (32 - t[135].4) as nat == 6);
    assert(222034432nat % 64 == 0);
    a_network_is_a_range(t[135], ip);
    assert(base_of(t[136]) == 0x12d8aa80 && (32 - t[136].4) as nat == 7);
    assert(316189312nat % 128 == 0);
    a_network_is_a_range(t[136], ip);
    assert(base_of(t[137]) == 0x03805d00 && (32 - t[137].4) as nat == 8);
    assert(58744064nat % 256 == 0);
    a_network_is_a_range(t[137], ip);
    assert(base_of(t[138]) == 0x0386d700 && (32 - t[138].4) as nat == 8);
    assert(59168512nat % 256 == 0);
    a_network_is_a_range(t[138], ip);
    assert(base_of(t[139]) == 0x340f7f80 && (32 - t[139].4) as nat == 6);
    assert(873430912nat % 64 == 0);
    a_network_is_a_range(t[139], ip);
    assert(base_of(t[140]) == 0x03659e00 && (32 - t[140].4) as nat == 9);
    assert(56991232nat % 512 == 0);
    a_network_is_a_range(t[140], ip);
    assert(base_of(t[141]) == 0x3434bf80 && (32 - t[141].4) as nat == 6);
    assert(875872128nat % 64 == 0);
    a_network_is_a_range(t[141], ip);
    assert(base_of(t[142]) == 0x22d83300 && (32 - t[142].4) as nat == 7);
    assert(584594176nat % 128 == 0);
    a_network_is_a_range(t[142], ip);
    assert(base_of(t[143]) == 0x22df0ce0 && (32 - t[143].4) as nat == 5);
    assert(585043168nat % 32 == 0);
    a_network_is_a_range(t[143], ip);
    assert(base_of(t[144]) == 0x22df50c0 && (32 - t[144].4) as nat == 6);
    assert(585060544nat % 64 == 0);
    a_network_is_a_range(t[144], ip);
    assert(base_of(t[145]) == 0x23a23fc0 && (32 - t[145].4) as nat == 6);
    assert(597835712nat % 64 == 0);
    a_network_is_a_range(t[145], ip);
    assert(base_of(t[146]) == 0x23a7bf80 && (32 - t[146].4) as nat == 6);
    assert(598196096nat % 64 == 0);
    a_network_is_a_range(t[146], ip);
    assert(base_of(t[147]) == 0x2ce3b200 && (32 - t[147].4) as nat == 8);
    assert(753119744nat % 256 == 0);
    a_network_is_a_range(t[147], ip);
    assert(base_of(t[148]) == 0x2cea6c80 && (32 - t[148].4) as nat == 7);
    assert(753560704nat % 128 == 0);
    a_network_is_a_range(t[148], ip);
    assert(base_of(t[149]) == 0x2cea5afc && (32 - t[149].4) as nat == 2);
    assert(753556220nat % 4 == 0);
    a_network_is_a_range(t[149], ip);
}

/// An address is of Cloudfront exactly where its number says so.
pub proof fn cloudfront_ranges_by_the_numbers(ip: u32)
    ensures
        cidr::any_holds(tables::CLOUDFRONT_RANGES@, ip) <==> cloudfront_ranges_numbers(ip),
{
    cloudfront_ranges_part_0(ip);
    cloudfront_ranges_part_1(ip);
    cloudfront_ranges_part_2(ip);
    cloudfront_ranges_part_3(ip);
    cloudfront_ranges_part_4(ip);
    let t = tables::CLOUDFRONT_RANGES@;
    assert(t.len() == 150);
    if cidr::any_holds(t, ip) {
        let i = choose|i: int| 0 <= i < t.len() && cidr::cidr_holds(#[trigger] t[i], ip);
        if i < 30 {
            assert(0 <= i < 30 && cidr::cidr_holds(tables::CLOUDFRONT_RANGES@[i], ip));
        } else if i < 60 {
            assert(30 <= i < 60 && cidr::cidr_holds(tables::CLOUDFRONT_RANGES@[i], ip));
        } else if i < 90 {
            assert(60 <= i < 90 && cidr::cidr_holds(tables::CLOUDFRONT_RANGES@[i], ip));
        } else if i < 120 {
            assert(90 <= i < 120 && cidr::cidr_holds(tables::CLOUDFRONT_RANGES@[i], ip));
        } else if i < 150 {
            assert(120 <= i < 150 && cidr::cidr_holds(tables::CLOUDFRONT_RANGES@[i], ip));
        }
    }
}

} // verus!
