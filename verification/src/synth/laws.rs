//! What holds of every run of the chain.

use vstd::prelude::*;

use crate::net::{Ipv4Addr, Ipv6Addr};
use crate::synth;
use crate::synth::nat64;
use crate::synth::tables;
use crate::synth::{Addrs, ChainModel, CtxModel, PlanModel, StepModel};

verus! {

/// What lookups yield for some names, one after the other.
pub open spec fn found_for(names: Seq<Seq<char>>, f: spec_fn(Seq<char>) -> Addrs) -> Addrs
    decreases names.len(),
{
    if names.len() == 0 {
        Seq::empty()
    } else {
        found_for(names.drop_last(), f) + f(names.last())
    }
}

/// What comes of the synthesizer at place `i` when lookups yield `f`.
pub open spec fn win_with(
    c: ChainModel,
    i: int,
    ctx: CtxModel,
    f: spec_fn(Seq<char>) -> Addrs,
) -> Option<(Seq<char>, Addrs)> {
    match synth::synth_plan(c.ids[i], c.prefix, ctx) {
        Some(p) => synth::win(c, i, ctx, found_for(p.resolve, f)),
        None => None,
    }
}

/// What comes of the chain from place `i` on when lookups yield `f`: what the
/// first synthesizer with a usable result gives.
pub open spec fn outcome(
    c: ChainModel,
    i: int,
    ctx: CtxModel,
    f: spec_fn(Seq<char>) -> Addrs,
) -> Option<(Seq<char>, Addrs)>
    decreases c.ids.len() - i,
{
    if i >= c.ids.len() {
        None
    } else if win_with(c, i, ctx, f) is Some {
        win_with(c, i, ctx, f)
    } else {
        outcome(c, i + 1, ctx, f)
    }
}

/// A run begins at the first synthesizer with a plan, and the ones before it
/// change nothing.
pub proof fn a_run_begins_at_the_first_plan(
    c: ChainModel,
    i: int,
    ctx: CtxModel,
    f: spec_fn(Seq<char>) -> Addrs,
)
    ensures
        match synth::step_from(c, i, ctx) {
            StepModel::Lookup(j, names) => {
                &&& i <= j < c.ids.len()
                &&& forall|k: int|
                    i <= k < j ==> synth::synth_plan(#[trigger] c.ids[k], c.prefix, ctx) is None
                &&& (synth::synth_plan(c.ids[j], c.prefix, ctx) matches Some(p) && p.resolve
                    == names)
                &&& outcome(c, i, ctx, f) == outcome(c, j, ctx, f)
            },
            StepModel::Done(r) => r is None && outcome(c, i, ctx, f) is None,
        },
    decreases c.ids.len() - i,
{
    if i < c.ids.len() {
        match synth::synth_plan(c.ids[i], c.prefix, ctx) {
            Some(p) => {},
            None => {
                a_run_begins_at_the_first_plan(c, i + 1, ctx, f);
            },
        }
    }
}

/// Every step of a run keeps the outcome, and a run that ends, ends with it:
/// looking up what each step asks for leads to what the first synthesizer with a
/// usable result gives.
pub proof fn a_run_ends_with_the_outcome(
    c: ChainModel,
    j: int,
    ctx: CtxModel,
    f: spec_fn(Seq<char>) -> Addrs,
)
    requires
        0 <= j < c.ids.len(),
        synth::synth_plan(c.ids[j], c.prefix, ctx) is Some,
    ensures
        match synth::step_after(
            c,
            j,
            ctx,
            found_for(synth::synth_plan(c.ids[j], c.prefix, ctx)->0.resolve, f),
        ) {
            StepModel::Lookup(k, _) => k > j && outcome(c, j, ctx, f) == outcome(c, k, ctx, f),
            StepModel::Done(r) => r == outcome(c, j, ctx, f),
        },
{
    a_run_begins_at_the_first_plan(c, j + 1, ctx, f);
}

/// The first synthesizer with a usable result wins, and the chain gives nothing
/// only if none has one.
pub proof fn the_first_usable_wins(
    c: ChainModel,
    i: int,
    ctx: CtxModel,
    f: spec_fn(Seq<char>) -> Addrs,
)
    requires
        0 <= i <= c.ids.len(),
    ensures
        match outcome(c, i, ctx, f) {
            Some(w) => exists|k: int|
                i <= k < c.ids.len() && #[trigger] win_with(c, k, ctx, f) == Some(w) && w.0
                    == c.ids[k] && forall|j: int|
                    i <= j < k ==> #[trigger] win_with(c, j, ctx, f) is None,
            None => forall|j: int|
                i <= j < c.ids.len() ==> #[trigger] win_with(c, j, ctx, f) is None,
        },
    decreases c.ids.len() - i,
{
    if i < c.ids.len() {
        if win_with(c, i, ctx, f) is Some {
            let w = win_with(c, i, ctx, f)->0;
            assert(win_with(c, i, ctx, f) == Some(w) && w.0 == c.ids[i]);
        } else {
            the_first_usable_wins(c, i + 1, ctx, f);
            if outcome(c, i + 1, ctx, f) is Some {
                let w = outcome(c, i + 1, ctx, f)->0;
                let k = choose|k: int|
                    i + 1 <= k < c.ids.len() && #[trigger] win_with(c, k, ctx, f) == Some(w) && w.0
                        == c.ids[k] && forall|j: int|
                        i + 1 <= j < k ==> #[trigger] win_with(c, j, ctx, f) is None;
                assert(win_with(c, k, ctx, f) == Some(w));
            }
        }
    }
}

/// The addresses of a win.
pub open spec fn won_addrs(w: Option<(Seq<char>, Addrs)>) -> Addrs {
    match w {
        Some((_, a)) => a,
        None => Seq::empty(),
    }
}

/// With the fallback on, the records of a winning provider come first and those
/// of NAT64 follow.
pub proof fn the_fallback_follows_a_provider(
    c: ChainModel,
    i: int,
    ctx: CtxModel,
    found: Addrs,
)
    requires
        0 <= i < c.ids.len(),
        c.fallback,
        c.ids[i] != "nat64"@,
        synth::win(c, i, ctx, found) is Some,
        ctx.a.len() > 0,
    ensures
        won_addrs(synth::win(c, i, ctx, found)) == synth::plan_yields(
            synth::synth_plan(c.ids[i], c.prefix, ctx)->0,
            ctx,
            found,
            c.cap,
        ) + synth::plan_yields(
            nat64::nat64_plan(c.prefix, ctx)->0,
            ctx,
            Seq::empty(),
            c.cap,
        ),
{
}

/// Where NAT64 itself wins, or the fallback is off, nothing is appended.
pub proof fn nothing_else_is_appended(c: ChainModel, i: int, ctx: CtxModel, found: Addrs)
    requires
        0 <= i < c.ids.len(),
        c.ids[i] == "nat64"@ || !c.fallback,
        synth::win(c, i, ctx, found) is Some,
    ensures
        won_addrs(synth::win(c, i, ctx, found)) == synth::plan_yields(
            synth::synth_plan(c.ids[i], c.prefix, ctx)->0,
            ctx,
            found,
            c.cap,
        ),
{
    let got = synth::plan_yields(
        synth::synth_plan(c.ids[i], c.prefix, ctx)->0,
        ctx,
        found,
        c.cap,
    );
    assert(got + Seq::<(Ipv6Addr, u32)>::empty() =~= got);
}

proof fn global_only_is_global(v: Seq<Ipv6Addr>, i: int)
    requires
        0 <= i < synth::global_only(v).len(),
    ensures
        synth::global_unicast(synth::global_only(v)[i].bits),
        v.contains(synth::global_only(v)[i]),
    decreases v.len(),
{
    if v.len() > 0 {
        let d = v.drop_last();
        let g = synth::global_only(d);
        if i < g.len() {
            global_only_is_global(d, i);
            let k = d.index_of(g[i]);
            assert(v[k] == g[i]);
            assert(synth::global_only(v)[i] == g[i]);
        } else {
            assert(synth::global_only(v)[i] == v.last());
        }
    }
}

/// Every address that a plan yields is a global unicast one, and no TTL is above
/// the cap.
pub proof fn what_is_served_is_sane(
    p: PlanModel,
    ctx: CtxModel,
    found: Addrs,
    cap: Option<u32>,
    i: int,
)
    requires
        0 <= i < synth::plan_yields(p, ctx, found, cap).len(),
    ensures
        synth::global_unicast(synth::plan_yields(p, ctx, found, cap)[i].0.bits),
        cap matches Some(c) ==> synth::plan_yields(p, ctx, found, cap)[i].1 <= c,
{
    let resolved = Seq::new(found.len(), |i: int| found[i].0);
    global_only_is_global(
        synth::combine::combined(p.combine, resolved, ctx.addrs()),
        i,
    );
}

/// Every address embedded into a global unicast prefix of 96 bits is a global
/// unicast one, so that none is dropped.
pub proof fn a_valid_prefix_embeds_servable_addresses(prefix: Ipv6Addr, ip: Ipv4Addr)
    requires
        synth::global_unicast(prefix.bits),
        prefix.bits as int % 0x1_0000_0000 == 0,
    ensures
        synth::global_unicast(nat64::embedded(prefix, ip).bits),
{
    let b = prefix.bits as int;
    let e = b + ip.bits;
    assert(b >= 0x1_0000_0000);
    let k = b / 0x1_0000_0000;
    assert(e / 0x1_0000_0000 == k);
    assert(b / 0x10000000000000000000000000000 == k / 0x100000000000000000000);
    assert(e / 0x10000000000000000000000000000 == k / 0x100000000000000000000);
}

/// NAT64 gives one record for each eligible address, in order, when the prefix is
/// valid.
pub proof fn nat64_serves_every_eligible_address(
    prefix: Ipv6Addr,
    ctx: CtxModel,
    cap: Option<u32>,
)
    requires
        synth::global_unicast(prefix.bits),
        prefix.bits as int % 0x1_0000_0000 == 0,
        ctx.a.len() > 0,
    ensures
        ({
            let e = nat64::eligible(ctx.name, ctx.addrs());
            let y = synth::plan_yields(
                nat64::nat64_plan(prefix, ctx)->0,
                ctx,
                Seq::empty(),
                cap,
            );
            &&& y.len() == e.len()
            &&& forall|i: int|
                0 <= i < e.len() ==> (#[trigger] y[i]).0 == nat64::embedded(prefix, e[i])
        }),
{
    let e = nat64::eligible(ctx.name, ctx.addrs());
    let v = nat64::embedded_each(prefix, e);
    assert forall|i: int| 0 <= i < v.len() implies synth::global_unicast(
        (#[trigger] v[i]).bits,
    ) by {
        a_valid_prefix_embeds_servable_addresses(prefix, e[i]);
    }
    all_global_stays(v);
}

proof fn all_global_stays(v: Seq<Ipv6Addr>)
    requires
        forall|i: int| 0 <= i < v.len() ==> synth::global_unicast((#[trigger] v[i]).bits),
    ensures
        synth::global_only(v) == v,
    decreases v.len(),
{
    if v.len() > 0 {
        let d = v.drop_last();
        assert forall|i: int| 0 <= i < d.len() implies synth::global_unicast(
            (#[trigger] d[i]).bits,
        ) by {
            assert(d[i] == v[i]);
        }
        all_global_stays(d);
        assert(d.push(v.last()) =~= v);
        assert(synth::global_unicast(v[v.len() - 1].bits));
    }
}

/// With NAT64 among the synthesizers and a valid prefix, a name with an eligible A
/// record is always answered, whatever the providers do.
pub proof fn an_ipv4_only_name_is_served(
    c: ChainModel,
    ctx: CtxModel,
    f: spec_fn(Seq<char>) -> Addrs,
)
    requires
        c.ids.contains("nat64"@),
        synth::global_unicast(c.prefix.bits),
        c.prefix.bits as int % 0x1_0000_0000 == 0,
        nat64::eligible(ctx.name, ctx.addrs()).len() > 0,
    ensures
        outcome(c, 0, ctx, f) is Some,
        won_addrs(outcome(c, 0, ctx, f)).len() > 0,
{
    let k = c.ids.index_of("nat64"@);
    if ctx.a.len() == 0 {
        assert(ctx.addrs() =~= Seq::empty());
    }
    nat64_serves_every_eligible_address(c.prefix, ctx, c.cap);
    assert(synth::synth_plan(c.ids[k], c.prefix, ctx) == nat64::nat64_plan(c.prefix, ctx));
    let p = nat64::nat64_plan(c.prefix, ctx)->0;
    assert(p.resolve =~= Seq::empty());
    assert(found_for(p.resolve, f) =~= Seq::empty());
    assert(win_with(c, k, ctx, f) is Some);
    the_first_usable_wins(c, 0, ctx, f);
}

/// The known ids are those of the synthesizers, all of them.
pub proof fn every_synthesizer_is_known(id: Seq<char>)
    ensures
        tables::listed(synth::KNOWN_IDS@, id) <==> synth::is_synth(id),
{
    let t = synth::KNOWN_IDS@;
    assert(t[0]@ == "nat64"@);
    assert(t[1]@ == "fastly"@);
    assert(t[2]@ == "akamai"@);
    assert(t[3]@ == "cloudfront"@);
    assert(t[4]@ == "cloudflare"@);
    assert(t[5]@ == "shopify"@);
    assert(t[6]@ == "webflow"@);
    assert(t[7]@ == "s3"@);
    assert(t[8]@ == "oss"@);
    assert(t[9]@ == "alicdn"@);
    assert(t[10]@ == "oracleobjectstorage"@);
    assert(t[11]@ == "msedge"@);
    assert(t[12]@ == "bunnycdn"@);
    assert(t[13]@ == "blazingcdn"@);
    assert(t[14]@ == "gcorecdn"@);
    assert(t[15]@ == "cachefly"@);
    assert(t[16]@ == "cdn77"@);
    assert(t[17]@ == "awsglb"@);
    assert(t[18]@ == "weebly"@);
    assert(t[19]@ == "sucuri"@);
    assert(t[20]@ == "netlify"@);
    assert(t[21]@ == "bearblog"@);
    assert(t[22]@ == "azurewebsites"@);
    assert(t[23]@ == "wpvip"@);
    assert(t[24]@ == "edgecast"@);
    assert(t[25]@ == "limelight"@);
    assert(t.len() == 26);
    if tables::listed(t, id) {
        let i = choose|i: int| 0 <= i < t.len() && (#[trigger] t[i])@ == id;
        assert(synth::is_synth(t[i]@));
    }
}

} // verus!
