//! Which names each provider recognises, and what it plans for them.

use vstd::prelude::*;

use crate::dns;
use crate::net::{Ipv4Addr, Ipv6Addr};
use crate::synth::{address_laws, cdn, cidr, labels, rewrite, tables};
use crate::synth::rewrite::Rewrite;
use crate::synth::tables::Cidr;
use crate::synth::{CombineModel, CtxModel, PlanModel};
use crate::text;
use crate::text::Sep;
use crate::text_laws;

verus! {

// ---------------------------------------------------------------------------
// Signals
// ---------------------------------------------------------------------------

/// Whether the queried name, or a CNAME target, is at or under a zone.
pub open spec fn one_under(ctx: CtxModel, zone: Seq<Seq<char>>) -> bool {
    labels::ends(labels::name_labels(ctx.name), zone) || exists|i: int|
        0 <= i < ctx.cnames.len() && labels::ends(
            labels::name_labels(#[trigger] ctx.cnames[i]),
            zone,
        )
}

/// Whether the mailbox of the zone's SOA record is the given one, in whatever case.
pub open spec fn mailbox_is(ctx: CtxModel, mailbox: Seq<char>) -> bool {
    ctx.admin matches Some(m) && text::lower(m) == mailbox
}

proof fn hosts_are_names(ctx: CtxModel, suffixes: Seq<Seq<Seq<char>>>)
    ensures
        cdn::host_matching(ctx, suffixes) <==> exists|j: int|
            0 <= j < suffixes.len() && one_under(ctx, #[trigger] suffixes[j]),
{
    let h = ctx.hosts();
    if cdn::host_matching(ctx, suffixes) {
        let i = choose|i: int| 0 <= i < h.len() && cdn::has_suffix(#[trigger] h[i], suffixes);
        let j = choose|j: int|
            0 <= j < suffixes.len() && labels::ends(
                labels::name_labels(h[i]),
                #[trigger] suffixes[j],
            );
        if i < ctx.cnames.len() {
            assert(h[i] == ctx.cnames[i]);
        }
        assert(one_under(ctx, suffixes[j]));
    }
    if exists|j: int| 0 <= j < suffixes.len() && one_under(ctx, #[trigger] suffixes[j]) {
        let j = choose|j: int| 0 <= j < suffixes.len() && one_under(ctx, #[trigger] suffixes[j]);
        if labels::ends(labels::name_labels(ctx.name), suffixes[j]) {
            assert(h[ctx.cnames.len() as int] == ctx.name);
            assert(cdn::has_suffix(h[ctx.cnames.len() as int], suffixes));
        } else {
            let i = choose|i: int|
                0 <= i < ctx.cnames.len() && labels::ends(
                    labels::name_labels(#[trigger] ctx.cnames[i]),
                    suffixes[j],
                );
            assert(h[i] == ctx.cnames[i]);
            assert(cdn::has_suffix(h[i], suffixes));
        }
    }
}

proof fn no_networks_match_nothing(ctx: CtxModel)
    ensures
        !cdn::ip_matching(ctx, Seq::<Cidr>::empty()),
{
}

/// A plan that looks one name up.
pub open spec fn looks_up(p: Option<PlanModel>, name: Seq<char>, c: CombineModel) -> bool {
    p matches Some(q) && q.resolve == seq![name] && q.combine == c
}

/// A plan that looks nothing up.
pub open spec fn looks_nothing_up(p: Option<PlanModel>, c: CombineModel) -> bool {
    p matches Some(q) && q.resolve.len() == 0 && q.combine == c
}

/// The names that are matched are the CNAME targets in order, then the queried one.
pub proof fn hosts_in_order(ctx: CtxModel)
    ensures
        ctx.hosts().len() == ctx.cnames.len() + 1,
        forall|i: int| 0 <= i < ctx.cnames.len() ==> ctx.hosts()[i] == #[trigger] ctx.cnames[i],
        ctx.hosts()[ctx.cnames.len() as int] == ctx.name,
        ctx.addrs().len() == ctx.a.len(),
        forall|i: int| 0 <= i < ctx.a.len() ==> ctx.addrs()[i] == (#[trigger] ctx.a[i]).0,
{
}

/// Whether an A record is of cloudflare.
pub open spec fn one_of_cloudflare(ctx: CtxModel) -> bool {
    exists|i: int| 0 <= i < ctx.a.len() && address_laws::cloudflare_ranges_numbers((#[trigger] ctx.a[i]).0.bits)
}

/// What `cloudflare` plans, and for which names.
pub proof fn what_cloudflare_plans(ctx: CtxModel)
    ensures
        ({
            let p = cdn::plan_of("cloudflare"@, ctx);
            let seen = one_under(ctx, seq!["cdn"@, "cloudflare"@, "net"@]) || one_of_cloudflare(ctx);
            &&& seen ==> looks_up(p, "www.cloudflare.com."@, CombineModel::BorrowOr(Some(Ipv6Addr { bits: 0x2606_4700_0000_0000_0000_0000_6810_0bad })))
            &&& !seen ==> p is None
        }),
{
    reveal_strlit("cloudflare");
    reveal_strlit("www.cloudflare.com.");
    reveal_strlit("www.cloudflare.com");
    assert(labels::absolute("www.cloudflare.com"@) =~= "www.cloudflare.com."@);
    let z = seq![seq!["cdn"@, "cloudflare"@, "net"@]];
    hosts_are_names(ctx, z);
    if one_under(ctx, z[0]) {
        assert(cdn::host_matching(ctx, z));
    }
    let t = tables::CLOUDFLARE_RANGES@;
    assert forall|i: int| 0 <= i < ctx.a.len() implies (cidr::any_holds(
        t,
        (#[trigger] ctx.a[i]).0.bits,
    ) <==> address_laws::cloudflare_ranges_numbers(ctx.a[i].0.bits)) by {
        address_laws::cloudflare_ranges_by_the_numbers(ctx.a[i].0.bits);
    }
    assert(cdn::ip_matching(ctx, t) <==> one_of_cloudflare(ctx));
}

/// Whether an A record is of shopify.
pub open spec fn one_of_shopify(ctx: CtxModel) -> bool {
    exists|i: int| 0 <= i < ctx.a.len() && address_laws::shopify_ranges_numbers((#[trigger] ctx.a[i]).0.bits)
}

/// What `shopify` plans, and for which names.
pub proof fn what_shopify_plans(ctx: CtxModel)
    ensures
        ({
            let p = cdn::plan_of("shopify"@, ctx);
            let seen = one_under(ctx, seq!["shopify"@, "com"@]) || one_under(ctx, seq!["myshopify"@, "com"@]) || one_of_shopify(ctx);
            &&& seen ==> looks_nothing_up(p, CombineModel::Constant(Ipv6Addr { bits: 0x2620_0127_f00f_0000_0000_0000_0000_0000 }))
            &&& !seen ==> p is None
        }),
{
    reveal_strlit("cloudflare");
    reveal_strlit("shopify");
    assert("shopify"@.len() != "cloudflare"@.len());
    let z = seq![seq!["shopify"@, "com"@], seq!["myshopify"@, "com"@]];
    hosts_are_names(ctx, z);
    if one_under(ctx, z[0]) {
        assert(cdn::host_matching(ctx, z));
    }
    if one_under(ctx, z[1]) {
        assert(cdn::host_matching(ctx, z));
    }
    let t = tables::SHOPIFY_RANGES@;
    assert forall|i: int| 0 <= i < ctx.a.len() implies (cidr::any_holds(
        t,
        (#[trigger] ctx.a[i]).0.bits,
    ) <==> address_laws::shopify_ranges_numbers(ctx.a[i].0.bits)) by {
        address_laws::shopify_ranges_by_the_numbers(ctx.a[i].0.bits);
    }
    assert(cdn::ip_matching(ctx, t) <==> one_of_shopify(ctx));
}

/// Whether an A record is of webflow.
pub open spec fn one_of_webflow(ctx: CtxModel) -> bool {
    exists|i: int| 0 <= i < ctx.a.len() && address_laws::webflow_ranges_numbers((#[trigger] ctx.a[i]).0.bits)
}

/// What `webflow` plans, and for which names.
pub proof fn what_webflow_plans(ctx: CtxModel)
    ensures
        ({
            let p = cdn::plan_of("webflow"@, ctx);
            let seen = one_under(ctx, seq!["webflow"@, "com"@]) || one_of_webflow(ctx);
            &&& seen ==> looks_nothing_up(p, CombineModel::Constant(Ipv6Addr { bits: 0x2620_00cb_2000_0000_0000_0000_0000_0001 }))
            &&& !seen ==> p is None
        }),
{
    reveal_strlit("cloudflare");
    reveal_strlit("shopify");
    reveal_strlit("webflow");
    assert("webflow"@.len() != "cloudflare"@.len());
    assert("webflow"@[0] != "shopify"@[0]);
    let z = seq![seq!["webflow"@, "com"@]];
    hosts_are_names(ctx, z);
    if one_under(ctx, z[0]) {
        assert(cdn::host_matching(ctx, z));
    }
    let t = tables::WEBFLOW_RANGES@;
    assert forall|i: int| 0 <= i < ctx.a.len() implies (cidr::any_holds(
        t,
        (#[trigger] ctx.a[i]).0.bits,
    ) <==> address_laws::webflow_ranges_numbers(ctx.a[i].0.bits)) by {
        address_laws::webflow_ranges_by_the_numbers(ctx.a[i].0.bits);
    }
    assert(cdn::ip_matching(ctx, t) <==> one_of_webflow(ctx));
}

/// Whether an A record is of weebly.
pub open spec fn one_of_weebly(ctx: CtxModel) -> bool {
    exists|i: int| 0 <= i < ctx.a.len() && address_laws::weebly_ranges_numbers((#[trigger] ctx.a[i]).0.bits)
}

/// What `weebly` plans, and for which names.
pub proof fn what_weebly_plans(ctx: CtxModel)
    ensures
        ({
            let p = cdn::plan_of("weebly"@, ctx);
            let seen = one_under(ctx, seq!["weebly"@, "com"@]) || one_of_weebly(ctx);
            &&& seen ==> looks_nothing_up(p, CombineModel::Constant(Ipv6Addr { bits: 0x2620_011c_0001_00e4_0000_0000_0000_0036 }))
            &&& !seen ==> p is None
        }),
{
    reveal_strlit("cloudflare");
    reveal_strlit("shopify");
    reveal_strlit("webflow");
    reveal_strlit("weebly");
    assert("weebly"@.len() != "cloudflare"@.len());
    assert("weebly"@.len() != "shopify"@.len());
    assert("weebly"@.len() != "webflow"@.len());
    let z = seq![seq!["weebly"@, "com"@]];
    hosts_are_names(ctx, z);
    if one_under(ctx, z[0]) {
        assert(cdn::host_matching(ctx, z));
    }
    let t = tables::WEEBLY_RANGES@;
    assert forall|i: int| 0 <= i < ctx.a.len() implies (cidr::any_holds(
        t,
        (#[trigger] ctx.a[i]).0.bits,
    ) <==> address_laws::weebly_ranges_numbers(ctx.a[i].0.bits)) by {
        address_laws::weebly_ranges_by_the_numbers(ctx.a[i].0.bits);
    }
    assert(cdn::ip_matching(ctx, t) <==> one_of_weebly(ctx));
}

/// Whether an A record is of cloudfront.
pub open spec fn one_of_cloudfront(ctx: CtxModel) -> bool {
    exists|i: int| 0 <= i < ctx.a.len() && address_laws::cloudfront_ranges_numbers((#[trigger] ctx.a[i]).0.bits)
}

/// What `cloudfront` plans, and for which names.
pub proof fn what_cloudfront_plans(ctx: CtxModel)
    ensures
        ({
            let p = cdn::plan_of("cloudfront"@, ctx);
            let seen = one_under(ctx, seq!["cloudfront"@, "net"@]) || one_of_cloudfront(ctx);
            &&& seen ==> looks_up(p, "static.twitchcdn.net."@, CombineModel::BorrowOr(None))
            &&& !seen ==> p is None
        }),
{
    reveal_strlit("cloudflare");
    reveal_strlit("shopify");
    reveal_strlit("webflow");
    reveal_strlit("weebly");
    reveal_strlit("cloudfront");
    assert("cloudfront"@[6] != "cloudflare"@[6]);
    assert("cloudfront"@.len() != "shopify"@.len());
    assert("cloudfront"@.len() != "webflow"@.len());
    assert("cloudfront"@.len() != "weebly"@.len());
    reveal_strlit("static.twitchcdn.net.");
    reveal_strlit("static.twitchcdn.net");
    assert(labels::absolute("static.twitchcdn.net"@) =~= "static.twitchcdn.net."@);
    let z = seq![seq!["cloudfront"@, "net"@]];
    hosts_are_names(ctx, z);
    if one_under(ctx, z[0]) {
        assert(cdn::host_matching(ctx, z));
    }
    let t = tables::CLOUDFRONT_RANGES@;
    assert forall|i: int| 0 <= i < ctx.a.len() implies (cidr::any_holds(
        t,
        (#[trigger] ctx.a[i]).0.bits,
    ) <==> address_laws::cloudfront_ranges_numbers(ctx.a[i].0.bits)) by {
        address_laws::cloudfront_ranges_by_the_numbers(ctx.a[i].0.bits);
    }
    assert(cdn::ip_matching(ctx, t) <==> one_of_cloudfront(ctx));
}

/// What `bunnycdn` plans, and for which names.
pub proof fn what_bunnycdn_plans(ctx: CtxModel)
    ensures
        ({
            let p = cdn::plan_of("bunnycdn"@, ctx);
            let seen = one_under(ctx, seq!["b-cdn"@, "net"@]);
            &&& seen ==> looks_up(p, "bunnyfonts.b-cdn.net."@, CombineModel::BorrowOr(Some(Ipv6Addr { bits: 0x2400_52e0_1e01_0000_0000_0000_0883_0001 })))
            &&& !seen ==> p is None
        }),
{
    reveal_strlit("cloudflare");
    reveal_strlit("shopify");
    reveal_strlit("webflow");
    reveal_strlit("weebly");
    reveal_strlit("cloudfront");
    reveal_strlit("bunnycdn");
    assert("bunnycdn"@.len() != "cloudflare"@.len());
    assert("bunnycdn"@.len() != "shopify"@.len());
    assert("bunnycdn"@.len() != "webflow"@.len());
    assert("bunnycdn"@.len() != "weebly"@.len());
    assert("bunnycdn"@.len() != "cloudfront"@.len());
    reveal_strlit("bunnyfonts.b-cdn.net.");
    reveal_strlit("bunnyfonts.b-cdn.net");
    assert(labels::absolute("bunnyfonts.b-cdn.net"@) =~= "bunnyfonts.b-cdn.net."@);
    let z = seq![seq!["b-cdn"@, "net"@]];
    hosts_are_names(ctx, z);
    if one_under(ctx, z[0]) {
        assert(cdn::host_matching(ctx, z));
    }
    no_networks_match_nothing(ctx);
}

/// What `blazingcdn` plans, and for which names.
pub proof fn what_blazingcdn_plans(ctx: CtxModel)
    ensures
        ({
            let p = cdn::plan_of("blazingcdn"@, ctx);
            let seen = one_under(ctx, seq!["blazingcdn"@, "net"@]);
            &&& seen ==> looks_up(p, "cdn59455242.blazingcdn.net."@, CombineModel::BorrowOr(Some(Ipv6Addr { bits: 0x2a02_0b48_9000_0000_0000_0000_0000_0001 })))
            &&& !seen ==> p is None
        }),
{
    reveal_strlit("cloudflare");
    reveal_strlit("shopify");
    reveal_strlit("webflow");
    reveal_strlit("weebly");
    reveal_strlit("cloudfront");
    reveal_strlit("bunnycdn");
    reveal_strlit("blazingcdn");
    assert("blazingcdn"@[0] != "cloudflare"@[0]);
    assert("blazingcdn"@.len() != "shopify"@.len());
    assert("blazingcdn"@.len() != "webflow"@.len());
    assert("blazingcdn"@.len() != "weebly"@.len());
    assert("blazingcdn"@[0] != "cloudfront"@[0]);
    assert("blazingcdn"@.len() != "bunnycdn"@.len());
    reveal_strlit("cdn59455242.blazingcdn.net.");
    reveal_strlit("cdn59455242.blazingcdn.net");
    assert(labels::absolute("cdn59455242.blazingcdn.net"@) =~= "cdn59455242.blazingcdn.net."@);
    let z = seq![seq!["blazingcdn"@, "net"@]];
    hosts_are_names(ctx, z);
    if one_under(ctx, z[0]) {
        assert(cdn::host_matching(ctx, z));
    }
    no_networks_match_nothing(ctx);
}

/// What `gcorecdn` plans, and for which names.
pub proof fn what_gcorecdn_plans(ctx: CtxModel)
    ensures
        ({
            let p = cdn::plan_of("gcorecdn"@, ctx);
            let seen = one_under(ctx, seq!["gcdn"@, "co"@]);
            &&& seen ==> looks_up(p, "d.gcdn.co."@, CombineModel::BorrowOr(None))
            &&& !seen ==> p is None
        }),
{
    reveal_strlit("cloudflare");
    reveal_strlit("shopify");
    reveal_strlit("webflow");
    reveal_strlit("weebly");
    reveal_strlit("cloudfront");
    reveal_strlit("bunnycdn");
    reveal_strlit("blazingcdn");
    reveal_strlit("gcorecdn");
    assert("gcorecdn"@.len() != "cloudflare"@.len());
    assert("gcorecdn"@.len() != "shopify"@.len());
    assert("gcorecdn"@.len() != "webflow"@.len());
    assert("gcorecdn"@.len() != "weebly"@.len());
    assert("gcorecdn"@.len() != "cloudfront"@.len());
    assert("gcorecdn"@[0] != "bunnycdn"@[0]);
    assert("gcorecdn"@.len() != "blazingcdn"@.len());
    reveal_strlit("d.gcdn.co.");
    reveal_strlit("d.gcdn.co");
    assert(labels::absolute("d.gcdn.co"@) =~= "d.gcdn.co."@);
    let z = seq![seq!["gcdn"@, "co"@]];
    hosts_are_names(ctx, z);
    if one_under(ctx, z[0]) {
        assert(cdn::host_matching(ctx, z));
    }
    no_networks_match_nothing(ctx);
}

/// What `cdn77` plans, and for which names.
pub proof fn what_cdn77_plans(ctx: CtxModel)
    ensures
        ({
            let p = cdn::plan_of("cdn77"@, ctx);
            let seen = one_under(ctx, seq!["cdn77"@, "org"@]) || mailbox_is(ctx, "admin.cdn77.com."@);
            &&& seen ==> looks_up(p, "www.cdn77.com."@, CombineModel::BorrowOr(None))
            &&& !seen ==> p is None
        }),
{
    reveal_strlit("cloudflare");
    reveal_strlit("shopify");
    reveal_strlit("webflow");
    reveal_strlit("weebly");
    reveal_strlit("cloudfront");
    reveal_strlit("bunnycdn");
    reveal_strlit("blazingcdn");
    reveal_strlit("gcorecdn");
    reveal_strlit("cdn77");
    assert("cdn77"@.len() != "cloudflare"@.len());
    assert("cdn77"@.len() != "shopify"@.len());
    assert("cdn77"@.len() != "webflow"@.len());
    assert("cdn77"@.len() != "weebly"@.len());
    assert("cdn77"@.len() != "cloudfront"@.len());
    assert("cdn77"@.len() != "bunnycdn"@.len());
    assert("cdn77"@.len() != "blazingcdn"@.len());
    assert("cdn77"@.len() != "gcorecdn"@.len());
    reveal_strlit("www.cdn77.com.");
    reveal_strlit("www.cdn77.com");
    assert(labels::absolute("www.cdn77.com"@) =~= "www.cdn77.com."@);
    reveal_strlit("admin.cdn77.com");
    reveal_strlit("admin.cdn77.com.");
    assert(labels::absolute("admin.cdn77.com"@) =~= "admin.cdn77.com."@);
    assert(text::lower("admin.cdn77.com."@) =~= "admin.cdn77.com."@);
    let z = seq![seq!["cdn77"@, "org"@]];
    hosts_are_names(ctx, z);
    if one_under(ctx, z[0]) {
        assert(cdn::host_matching(ctx, z));
    }
    no_networks_match_nothing(ctx);
}

/// Whether an A record is of sucuri.
pub open spec fn one_of_sucuri(ctx: CtxModel) -> bool {
    exists|i: int| 0 <= i < ctx.a.len() && address_laws::sucuri_ranges_numbers((#[trigger] ctx.a[i]).0.bits)
}

/// What `sucuri` plans, and for which names.
pub proof fn what_sucuri_plans(ctx: CtxModel)
    ensures
        ({
            let p = cdn::plan_of("sucuri"@, ctx);
            let seen = one_of_sucuri(ctx);
            &&& seen ==> looks_up(p, "sucuri.net."@, CombineModel::BorrowOr(None))
            &&& !seen ==> p is None
        }),
{
    reveal_strlit("cloudflare");
    reveal_strlit("shopify");
    reveal_strlit("webflow");
    reveal_strlit("weebly");
    reveal_strlit("cloudfront");
    reveal_strlit("bunnycdn");
    reveal_strlit("blazingcdn");
    reveal_strlit("gcorecdn");
    reveal_strlit("cdn77");
    reveal_strlit("sucuri");
    assert("sucuri"@.len() != "cloudflare"@.len());
    assert("sucuri"@.len() != "shopify"@.len());
    assert("sucuri"@.len() != "webflow"@.len());
    assert("sucuri"@[0] != "weebly"@[0]);
    assert("sucuri"@.len() != "cloudfront"@.len());
    assert("sucuri"@.len() != "bunnycdn"@.len());
    assert("sucuri"@.len() != "blazingcdn"@.len());
    assert("sucuri"@.len() != "gcorecdn"@.len());
    assert("sucuri"@.len() != "cdn77"@.len());
    reveal_strlit("sucuri.net.");
    reveal_strlit("sucuri.net");
    assert(labels::absolute("sucuri.net"@) =~= "sucuri.net."@);
    let z = Seq::<Seq<Seq<char>>>::empty();
    hosts_are_names(ctx, z);
    let t = tables::SUCURI_RANGES@;
    assert forall|i: int| 0 <= i < ctx.a.len() implies (cidr::any_holds(
        t,
        (#[trigger] ctx.a[i]).0.bits,
    ) <==> address_laws::sucuri_ranges_numbers(ctx.a[i].0.bits)) by {
        address_laws::sucuri_ranges_by_the_numbers(ctx.a[i].0.bits);
    }
    assert(cdn::ip_matching(ctx, t) <==> one_of_sucuri(ctx));
}

/// Whether an A record is of netlify.
pub open spec fn one_of_netlify(ctx: CtxModel) -> bool {
    exists|i: int| 0 <= i < ctx.a.len() && address_laws::netlify_ranges_numbers((#[trigger] ctx.a[i]).0.bits)
}

/// What `netlify` plans, and for which names.
pub proof fn what_netlify_plans(ctx: CtxModel)
    ensures
        ({
            let p = cdn::plan_of("netlify"@, ctx);
            let seen = one_under(ctx, seq!["netlify"@, "com"@]) || one_of_netlify(ctx);
            &&& seen ==> looks_up(p, "www.netlify.com."@, CombineModel::BorrowOr(None))
            &&& !seen ==> p is None
        }),
{
    reveal_strlit("cloudflare");
    reveal_strlit("shopify");
    reveal_strlit("webflow");
    reveal_strlit("weebly");
    reveal_strlit("cloudfront");
    reveal_strlit("bunnycdn");
    reveal_strlit("blazingcdn");
    reveal_strlit("gcorecdn");
    reveal_strlit("cdn77");
    reveal_strlit("sucuri");
    reveal_strlit("netlify");
    assert("netlify"@.len() != "cloudflare"@.len());
    assert("netlify"@[0] != "shopify"@[0]);
    assert("netlify"@[0] != "webflow"@[0]);
    assert("netlify"@.len() != "weebly"@.len());
    assert("netlify"@.len() != "cloudfront"@.len());
    assert("netlify"@.len() != "bunnycdn"@.len());
    assert("netlify"@.len() != "blazingcdn"@.len());
    assert("netlify"@.len() != "gcorecdn"@.len());
    assert("netlify"@.len() != "cdn77"@.len());
    assert("netlify"@.len() != "sucuri"@.len());
    reveal_strlit("www.netlify.com.");
    reveal_strlit("www.netlify.com");
    assert(labels::absolute("www.netlify.com"@) =~= "www.netlify.com."@);
    let z = seq![seq!["netlify"@, "com"@]];
    hosts_are_names(ctx, z);
    if one_under(ctx, z[0]) {
        assert(cdn::host_matching(ctx, z));
    }
    let t = tables::NETLIFY_RANGES@;
    assert forall|i: int| 0 <= i < ctx.a.len() implies (cidr::any_holds(
        t,
        (#[trigger] ctx.a[i]).0.bits,
    ) <==> address_laws::netlify_ranges_numbers(ctx.a[i].0.bits)) by {
        address_laws::netlify_ranges_by_the_numbers(ctx.a[i].0.bits);
    }
    assert(cdn::ip_matching(ctx, t) <==> one_of_netlify(ctx));
}

/// Whether an A record is of bearblog.
pub open spec fn one_of_bearblog(ctx: CtxModel) -> bool {
    exists|i: int| 0 <= i < ctx.a.len() && address_laws::bearblog_ranges_numbers((#[trigger] ctx.a[i]).0.bits)
}

/// What `bearblog` plans, and for which names.
pub proof fn what_bearblog_plans(ctx: CtxModel)
    ensures
        ({
            let p = cdn::plan_of("bearblog"@, ctx);
            let seen = one_of_bearblog(ctx);
            &&& seen ==> looks_up(p, "domain-proxy.bearblog.dev."@, CombineModel::BorrowOr(None))
            &&& !seen ==> p is None
        }),
{
    reveal_strlit("cloudflare");
    reveal_strlit("shopify");
    reveal_strlit("webflow");
    reveal_strlit("weebly");
    reveal_strlit("cloudfront");
    reveal_strlit("bunnycdn");
    reveal_strlit("blazingcdn");
    reveal_strlit("gcorecdn");
    reveal_strlit("cdn77");
    reveal_strlit("sucuri");
    reveal_strlit("netlify");
    reveal_strlit("bearblog");
    assert("bearblog"@.len() != "cloudflare"@.len());
    assert("bearblog"@.len() != "shopify"@.len());
    assert("bearblog"@.len() != "webflow"@.len());
    assert("bearblog"@.len() != "weebly"@.len());
    assert("bearblog"@.len() != "cloudfront"@.len());
    assert("bearblog"@[1] != "bunnycdn"@[1]);
    assert("bearblog"@.len() != "blazingcdn"@.len());
    assert("bearblog"@[0] != "gcorecdn"@[0]);
    assert("bearblog"@.len() != "cdn77"@.len());
    assert("bearblog"@.len() != "sucuri"@.len());
    assert("bearblog"@.len() != "netlify"@.len());
    reveal_strlit("domain-proxy.bearblog.dev.");
    reveal_strlit("domain-proxy.bearblog.dev");
    assert(labels::absolute("domain-proxy.bearblog.dev"@) =~= "domain-proxy.bearblog.dev."@);
    let z = Seq::<Seq<Seq<char>>>::empty();
    hosts_are_names(ctx, z);
    let t = tables::BEARBLOG_RANGES@;
    assert forall|i: int| 0 <= i < ctx.a.len() implies (cidr::any_holds(
        t,
        (#[trigger] ctx.a[i]).0.bits,
    ) <==> address_laws::bearblog_ranges_numbers(ctx.a[i].0.bits)) by {
        address_laws::bearblog_ranges_by_the_numbers(ctx.a[i].0.bits);
    }
    assert(cdn::ip_matching(ctx, t) <==> one_of_bearblog(ctx));
}

/// What `alicdn` plans, and for which names.
pub proof fn what_alicdn_plans(ctx: CtxModel)
    ensures
        ({
            let p = cdn::plan_of("alicdn"@, ctx);
            let seen = one_under(ctx, seq!["alicdn"@, "com"@]);
            &&& seen ==> looks_up(p, "t.alicdn.com."@, CombineModel::BorrowOr(None))
            &&& !seen ==> p is None
        }),
{
    reveal_strlit("cloudflare");
    reveal_strlit("shopify");
    reveal_strlit("webflow");
    reveal_strlit("weebly");
    reveal_strlit("cloudfront");
    reveal_strlit("bunnycdn");
    reveal_strlit("blazingcdn");
    reveal_strlit("gcorecdn");
    reveal_strlit("cdn77");
    reveal_strlit("sucuri");
    reveal_strlit("netlify");
    reveal_strlit("bearblog");
    reveal_strlit("alicdn");
    assert("alicdn"@.len() != "cloudflare"@.len());
    assert("alicdn"@.len() != "shopify"@.len());
    assert("alicdn"@.len() != "webflow"@.len());
    assert("alicdn"@[0] != "weebly"@[0]);
    assert("alicdn"@.len() != "cloudfront"@.len());
    assert("alicdn"@.len() != "bunnycdn"@.len());
    assert("alicdn"@.len() != "blazingcdn"@.len());
    assert("alicdn"@.len() != "gcorecdn"@.len());
    assert("alicdn"@.len() != "cdn77"@.len());
    assert("alicdn"@[0] != "sucuri"@[0]);
    assert("alicdn"@.len() != "netlify"@.len());
    assert("alicdn"@.len() != "bearblog"@.len());
    reveal_strlit("t.alicdn.com.");
    reveal_strlit("t.alicdn.com");
    assert(labels::absolute("t.alicdn.com"@) =~= "t.alicdn.com."@);
    let z = seq![seq!["alicdn"@, "com"@]];
    hosts_are_names(ctx, z);
    if one_under(ctx, z[0]) {
        assert(cdn::host_matching(ctx, z));
    }
    no_networks_match_nothing(ctx);
}

// ---------------------------------------------------------------------------
// Rewrites
// ---------------------------------------------------------------------------

proof fn the_first_target(
    hosts: Seq<Seq<char>>,
    f: spec_fn(Seq<char>) -> Option<Seq<char>>,
    k: int,
)
    requires
        0 <= k < hosts.len(),
        f(hosts[k]) is Some,
        forall|j: int| 0 <= j < k ==> f(#[trigger] hosts[j]) is None,
    ensures
        cdn::first_target(hosts, f) == f(hosts[k]),
    decreases hosts.len(),
{
    let d = hosts.drop_last();
    if k < d.len() {
        assert(d[k] == hosts[k]);
        assert forall|j: int| 0 <= j < k implies f(#[trigger] d[j]) is None by {
            assert(d[j] == hosts[j]);
        }
        the_first_target(d, f, k);
    } else {
        no_target(d, f);
    }
}

proof fn no_target(hosts: Seq<Seq<char>>, f: spec_fn(Seq<char>) -> Option<Seq<char>>)
    requires
        forall|j: int| 0 <= j < hosts.len() ==> f(#[trigger] hosts[j]) is None,
    ensures
        cdn::first_target(hosts, f) is None,
    decreases hosts.len(),
{
    if hosts.len() > 0 {
        let d = hosts.drop_last();
        assert forall|j: int| 0 <= j < d.len() implies f(#[trigger] d[j]) is None by {
            assert(d[j] == hosts[j]);
        }
        no_target(d, f);
        assert(f(hosts[hosts.len() - 1]) is None);
    }
}

/// The rewrite of each provider that rewrites hostnames.
pub open spec fn rewrite_of(id: Seq<char>) -> Option<Rewrite> {
    if id == "akamai"@ {
        Some(Rewrite::Akamai)
    } else if id == "s3"@ {
        Some(Rewrite::S3)
    } else if id == "oss"@ {
        Some(Rewrite::Oss)
    } else if id == "oracleobjectstorage"@ {
        Some(Rewrite::Oracle)
    } else if id == "awsglb"@ {
        Some(Rewrite::Awsglb)
    } else if id == "edgecast"@ {
        Some(Rewrite::Edgecast)
    } else if id == "limelight"@ {
        Some(Rewrite::Limelight)
    } else if id == "azurewebsites"@ {
        Some(Rewrite::Azure)
    } else {
        None
    }
}

proof fn plans_of_rewrites(id: Seq<char>, ctx: CtxModel)
    requires
        rewrite_of(id) is Some,
    ensures
        cdn::plan_of(id, ctx) == cdn::rewrite_plan(rewrite_of(id)->0, ctx),
{
    reveal_strlit("cloudflare");
    reveal_strlit("shopify");
    reveal_strlit("webflow");
    reveal_strlit("weebly");
    reveal_strlit("cloudfront");
    reveal_strlit("bunnycdn");
    reveal_strlit("blazingcdn");
    reveal_strlit("gcorecdn");
    reveal_strlit("cdn77");
    reveal_strlit("sucuri");
    reveal_strlit("netlify");
    reveal_strlit("bearblog");
    reveal_strlit("alicdn");
    reveal_strlit("akamai");
    reveal_strlit("s3");
    reveal_strlit("oss");
    reveal_strlit("oracleobjectstorage");
    reveal_strlit("awsglb");
    reveal_strlit("edgecast");
    reveal_strlit("limelight");
    reveal_strlit("azurewebsites");
    assert("akamai"@.len() != "cloudflare"@.len());
    assert("akamai"@.len() != "shopify"@.len());
    assert("akamai"@.len() != "webflow"@.len());
    assert("akamai"@[0] != "weebly"@[0]);
    assert("akamai"@.len() != "cloudfront"@.len());
    assert("akamai"@.len() != "bunnycdn"@.len());
    assert("akamai"@.len() != "blazingcdn"@.len());
    assert("akamai"@.len() != "gcorecdn"@.len());
    assert("akamai"@.len() != "cdn77"@.len());
    assert("akamai"@[0] != "sucuri"@[0]);
    assert("akamai"@.len() != "netlify"@.len());
    assert("akamai"@.len() != "bearblog"@.len());
    assert("akamai"@[1] != "alicdn"@[1]);
    assert("s3"@.len() != "cloudflare"@.len());
    assert("s3"@.len() != "shopify"@.len());
    assert("s3"@.len() != "webflow"@.len());
    assert("s3"@.len() != "weebly"@.len());
    assert("s3"@.len() != "cloudfront"@.len());
    assert("s3"@.len() != "bunnycdn"@.len());
    assert("s3"@.len() != "blazingcdn"@.len());
    assert("s3"@.len() != "gcorecdn"@.len());
    assert("s3"@.len() != "cdn77"@.len());
    assert("s3"@.len() != "sucuri"@.len());
    assert("s3"@.len() != "netlify"@.len());
    assert("s3"@.len() != "bearblog"@.len());
    assert("s3"@.len() != "alicdn"@.len());
    assert("oss"@.len() != "cloudflare"@.len());
    assert("oss"@.len() != "shopify"@.len());
    assert("oss"@.len() != "webflow"@.len());
    assert("oss"@.len() != "weebly"@.len());
    assert("oss"@.len() != "cloudfront"@.len());
    assert("oss"@.len() != "bunnycdn"@.len());
    assert("oss"@.len() != "blazingcdn"@.len());
    assert("oss"@.len() != "gcorecdn"@.len());
    assert("oss"@.len() != "cdn77"@.len());
    assert("oss"@.len() != "sucuri"@.len());
    assert("oss"@.len() != "netlify"@.len());
    assert("oss"@.len() != "bearblog"@.len());
    assert("oss"@.len() != "alicdn"@.len());
    assert("oracleobjectstorage"@.len() != "cloudflare"@.len());
    assert("oracleobjectstorage"@.len() != "shopify"@.len());
    assert("oracleobjectstorage"@.len() != "webflow"@.len());
    assert("oracleobjectstorage"@.len() != "weebly"@.len());
    assert("oracleobjectstorage"@.len() != "cloudfront"@.len());
    assert("oracleobjectstorage"@.len() != "bunnycdn"@.len());
    assert("oracleobjectstorage"@.len() != "blazingcdn"@.len());
    assert("oracleobjectstorage"@.len() != "gcorecdn"@.len());
    assert("oracleobjectstorage"@.len() != "cdn77"@.len());
    assert("oracleobjectstorage"@.len() != "sucuri"@.len());
    assert("oracleobjectstorage"@.len() != "netlify"@.len());
    assert("oracleobjectstorage"@.len() != "bearblog"@.len());
    assert("oracleobjectstorage"@.len() != "alicdn"@.len());
    assert("awsglb"@.len() != "cloudflare"@.len());
    assert("awsglb"@.len() != "shopify"@.len());
    assert("awsglb"@.len() != "webflow"@.len());
    assert("awsglb"@[0] != "weebly"@[0]);
    assert("awsglb"@.len() != "cloudfront"@.len());
    assert("awsglb"@.len() != "bunnycdn"@.len());
    assert("awsglb"@.len() != "blazingcdn"@.len());
    assert("awsglb"@.len() != "gcorecdn"@.len());
    assert("awsglb"@.len() != "cdn77"@.len());
    assert("awsglb"@[0] != "sucuri"@[0]);
    assert("awsglb"@.len() != "netlify"@.len());
    assert("awsglb"@.len() != "bearblog"@.len());
    assert("awsglb"@[1] != "alicdn"@[1]);
    assert("edgecast"@.len() != "cloudflare"@.len());
    assert("edgecast"@.len() != "shopify"@.len());
    assert("edgecast"@.len() != "webflow"@.len());
    assert("edgecast"@.len() != "weebly"@.len());
    assert("edgecast"@.len() != "cloudfront"@.len());
    assert("edgecast"@[0] != "bunnycdn"@[0]);
    assert("edgecast"@.len() != "blazingcdn"@.len());
    assert("edgecast"@[0] != "gcorecdn"@[0]);
    assert("edgecast"@.len() != "cdn77"@.len());
    assert("edgecast"@.len() != "sucuri"@.len());
    assert("edgecast"@.len() != "netlify"@.len());
    assert("edgecast"@[0] != "bearblog"@[0]);
    assert("edgecast"@.len() != "alicdn"@.len());
    assert("limelight"@.len() != "cloudflare"@.len());
    assert("limelight"@.len() != "shopify"@.len());
    assert("limelight"@.len() != "webflow"@.len());
    assert("limelight"@.len() != "weebly"@.len());
    assert("limelight"@.len() != "cloudfront"@.len());
    assert("limelight"@.len() != "bunnycdn"@.len());
    assert("limelight"@.len() != "blazingcdn"@.len());
    assert("limelight"@.len() != "gcorecdn"@.len());
    assert("limelight"@.len() != "cdn77"@.len());
    assert("limelight"@.len() != "sucuri"@.len());
    assert("limelight"@.len() != "netlify"@.len());
    assert("limelight"@.len() != "bearblog"@.len());
    assert("limelight"@.len() != "alicdn"@.len());
    assert("azurewebsites"@.len() != "cloudflare"@.len());
    assert("azurewebsites"@.len() != "shopify"@.len());
    assert("azurewebsites"@.len() != "webflow"@.len());
    assert("azurewebsites"@.len() != "weebly"@.len());
    assert("azurewebsites"@.len() != "cloudfront"@.len());
    assert("azurewebsites"@.len() != "bunnycdn"@.len());
    assert("azurewebsites"@.len() != "blazingcdn"@.len());
    assert("azurewebsites"@.len() != "gcorecdn"@.len());
    assert("azurewebsites"@.len() != "cdn77"@.len());
    assert("azurewebsites"@.len() != "sucuri"@.len());
    assert("azurewebsites"@.len() != "netlify"@.len());
    assert("azurewebsites"@.len() != "bearblog"@.len());
    assert("azurewebsites"@.len() != "alicdn"@.len());
    assert("s3"@.len() != "akamai"@.len());
    assert("oss"@.len() != "akamai"@.len());
    assert("oss"@.len() != "s3"@.len());
    assert("oracleobjectstorage"@.len() != "akamai"@.len());
    assert("oracleobjectstorage"@.len() != "s3"@.len());
    assert("oracleobjectstorage"@.len() != "oss"@.len());
    assert("awsglb"@[1] != "akamai"@[1]);
    assert("awsglb"@.len() != "s3"@.len());
    assert("awsglb"@.len() != "oss"@.len());
    assert("awsglb"@.len() != "oracleobjectstorage"@.len());
    assert("edgecast"@.len() != "akamai"@.len());
    assert("edgecast"@.len() != "s3"@.len());
    assert("edgecast"@.len() != "oss"@.len());
    assert("edgecast"@.len() != "oracleobjectstorage"@.len());
    assert("edgecast"@.len() != "awsglb"@.len());
    assert("limelight"@.len() != "akamai"@.len());
    assert("limelight"@.len() != "s3"@.len());
    assert("limelight"@.len() != "oss"@.len());
    assert("limelight"@.len() != "oracleobjectstorage"@.len());
    assert("limelight"@.len() != "awsglb"@.len());
    assert("limelight"@.len() != "edgecast"@.len());
    assert("azurewebsites"@.len() != "akamai"@.len());
    assert("azurewebsites"@.len() != "s3"@.len());
    assert("azurewebsites"@.len() != "oss"@.len());
    assert("azurewebsites"@.len() != "oracleobjectstorage"@.len());
    assert("azurewebsites"@.len() != "awsglb"@.len());
    assert("azurewebsites"@.len() != "edgecast"@.len());
    assert("azurewebsites"@.len() != "limelight"@.len());
}

/// A provider that rewrites hostnames looks up what its rewrite gives for the first
/// of the CNAME targets and the queried name, in this order, for which it gives
/// anything, and takes what comes; where it gives nothing for any, there is no plan.
pub proof fn a_rewrite_takes_the_first_name_it_can(id: Seq<char>, ctx: CtxModel, k: int)
    requires
        rewrite_of(id) is Some,
        0 <= k <= ctx.cnames.len(),
        forall|j: int|
            0 <= j < k ==> rewrite::target(rewrite_of(id)->0, #[trigger] ctx.hosts()[j]) is None,
    ensures
        rewrite::target(rewrite_of(id)->0, ctx.hosts()[k]) matches Some(n) ==> looks_up(
            cdn::plan_of(id, ctx),
            n,
            CombineModel::Verbatim,
        ),
        k == ctx.cnames.len() && rewrite::target(rewrite_of(id)->0, ctx.hosts()[k]) is None
            ==> cdn::plan_of(id, ctx) is None,
{
    plans_of_rewrites(id, ctx);
    let r = rewrite_of(id)->0;
    let f = cdn::rewrite_map(r);
    let h = ctx.hosts();
    assert forall|j: int| 0 <= j < k implies f(#[trigger] h[j]) is None by {}
    if f(h[k]) is Some {
        the_first_target(h, f, k);
    } else if k == ctx.cnames.len() {
        assert forall|j: int| 0 <= j < h.len() implies f(#[trigger] h[j]) is None by {}
        no_target(h, f);
    }
}

// ---------------------------------------------------------------------------
// Fastly, Microsoft Edge, WordPress VIP, CacheFly
// ---------------------------------------------------------------------------

/// Whether an address is one of Fastly.
pub open spec fn fastly_ip(ip: Ipv4Addr) -> bool {
    address_laws::fastly_ranges_numbers(ip.bits)
}

/// Whether an address is one of GitHub Pages.
pub open spec fn github_ip(ip: Ipv4Addr) -> bool {
    address_laws::github_pages_ranges_numbers(ip.bits)
}

proof fn first_in_is_first(v: Seq<Ipv4Addr>, ranges: Seq<Cidr>)
    ensures
        match cdn::first_in(v, ranges) {
            Some(ip) => exists|k: int|
                0 <= k < v.len() && #[trigger] v[k] == ip && cidr::any_holds(ranges, ip.bits)
                    && forall|j: int| 0 <= j < k ==> !cidr::any_holds(ranges, (#[trigger] v[j]).bits),
            None => forall|j: int| 0 <= j < v.len() ==> !cidr::any_holds(ranges, (#[trigger] v[j]).bits),
        },
    decreases v.len(),
{
    if v.len() > 0 {
        let d = v.drop_last();
        first_in_is_first(d, ranges);
        if cdn::first_in(d, ranges) is Some {
            let ip = cdn::first_in(d, ranges)->0;
            let k = choose|k: int|
                0 <= k < d.len() && #[trigger] d[k] == ip && cidr::any_holds(ranges, ip.bits)
                    && forall|j: int| 0 <= j < k ==> !cidr::any_holds(ranges, (#[trigger] d[j]).bits);
            assert(v[k] == ip);
            assert forall|j: int| 0 <= j < k implies !cidr::any_holds(
                ranges,
                (#[trigger] v[j]).bits,
            ) by {
                assert(d[j] == v[j]);
            }
        } else {
            assert forall|j: int| 0 <= j < d.len() implies !cidr::any_holds(
                ranges,
                (#[trigger] v[j]).bits,
            ) by {
                assert(d[j] == v[j]);
            }
            if cidr::any_holds(ranges, v.last().bits) {
                assert(v[v.len() - 1] == v.last());
            }
        }
    }
}

/// What `fastly` plans for a name with a Fastly address: its reference name, whose
/// addresses are fused with the last ten bits of the first such address.
pub proof fn what_fastly_plans_by_address(ctx: CtxModel, k: int)
    requires
        0 <= k < ctx.a.len(),
        fastly_ip(ctx.a[k].0),
        forall|j: int| 0 <= j < k ==> !fastly_ip((#[trigger] ctx.a[j]).0),
    ensures
        looks_up(
            cdn::fastly_plan(ctx),
            "dualstack.g.shared.global.fastly.net."@,
            CombineModel::Fuse((ctx.a[k].0.bits % 1024) as u32),
        ),
{
    let v = ctx.addrs();
    let t = tables::FASTLY_RANGES@;
    first_in_is_first(v, t);
    assert forall|j: int| 0 <= j < v.len() implies (cidr::any_holds(t, (#[trigger] v[j]).bits)
        <==> fastly_ip(ctx.a[j].0)) by {
        address_laws::fastly_ranges_by_the_numbers(v[j].bits);
    }
    assert(cidr::any_holds(t, v[k].bits));
    let ip = cdn::first_in(v, t)->0;
    let i = choose|i: int|
        0 <= i < v.len() && #[trigger] v[i] == ip && cidr::any_holds(t, ip.bits) && forall|j: int|
            0 <= j < i ==> !cidr::any_holds(t, (#[trigger] v[j]).bits);
    if i < k {
        assert(!fastly_ip(ctx.a[i].0));
    }
    if k < i {
        assert(!cidr::any_holds(t, v[k].bits));
    }
    address_laws::a_host_id_is_the_last_bits(ip);
    reveal_strlit("dualstack.g.shared.global.fastly.net");
    reveal_strlit("dualstack.g.shared.global.fastly.net.");
    assert(labels::absolute("dualstack.g.shared.global.fastly.net"@)
        =~= "dualstack.g.shared.global.fastly.net."@);
}

/// What `fastly` plans for a name without a Fastly address and without Fastly's
/// mailbox: that of GitHub Pages where it has one of their addresses, and otherwise
/// the first of its names under `fastly.net` or `fastlylb.net` with `dualstack` in
/// front.
pub proof fn what_fastly_plans_otherwise(ctx: CtxModel)
    requires
        forall|j: int| 0 <= j < ctx.a.len() ==> !fastly_ip((#[trigger] ctx.a[j]).0),
        !mailbox_is(ctx, "hostmaster.fastly.com."@),
    ensures
        forall|k: int|
            #![trigger ctx.a[k]]
            0 <= k < ctx.a.len() && github_ip(ctx.a[k].0) && (forall|j: int|
                0 <= j < k ==> !github_ip((#[trigger] ctx.a[j]).0)) ==> looks_up(
                cdn::fastly_plan(ctx),
                "dualstack.github.io."@,
                CombineModel::Fuse((ctx.a[k].0.bits % 256) as u32),
            ),
        (forall|j: int| 0 <= j < ctx.a.len() ==> !github_ip((#[trigger] ctx.a[j]).0))
            ==> cdn::fastly_plan(ctx) == cdn::target_plan(
            cdn::first_target(ctx.hosts(), cdn::fastly_map()),
        ),
{
    let v = ctx.addrs();
    let t = tables::FASTLY_RANGES@;
    let g = tables::GITHUB_PAGES_RANGES@;
    first_in_is_first(v, t);
    first_in_is_first(v, g);
    assert forall|j: int| 0 <= j < v.len() implies (cidr::any_holds(t, (#[trigger] v[j]).bits)
        <==> fastly_ip(ctx.a[j].0)) by {
        address_laws::fastly_ranges_by_the_numbers(v[j].bits);
    }
    assert forall|j: int| 0 <= j < v.len() implies (cidr::any_holds(g, (#[trigger] v[j]).bits)
        <==> github_ip(ctx.a[j].0)) by {
        address_laws::github_pages_ranges_by_the_numbers(v[j].bits);
    }
    if cdn::first_in(v, t) is Some {
        let ip = cdn::first_in(v, t)->0;
        let i = choose|i: int|
            0 <= i < v.len() && #[trigger] v[i] == ip && cidr::any_holds(t, ip.bits) && forall|j: int|
                0 <= j < i ==> !cidr::any_holds(t, (#[trigger] v[j]).bits);
        assert(!fastly_ip(ctx.a[i].0));
    }
    reveal_strlit("hostmaster.fastly.com");
    reveal_strlit("hostmaster.fastly.com.");
    assert(labels::absolute("hostmaster.fastly.com"@) =~= "hostmaster.fastly.com."@);
    assert(text::lower("hostmaster.fastly.com."@) =~= "hostmaster.fastly.com."@);
    assert(cdn::fastly_chosen(ctx) is None);
    reveal_strlit("dualstack.github.io");
    reveal_strlit("dualstack.github.io.");
    assert(labels::absolute("dualstack.github.io"@) =~= "dualstack.github.io."@);
    assert forall|k: int|
        #![trigger ctx.a[k]]
        0 <= k < ctx.a.len() && github_ip(ctx.a[k].0) && (forall|j: int|
            0 <= j < k ==> !github_ip((#[trigger] ctx.a[j]).0)) implies looks_up(
        cdn::fastly_plan(ctx),
        "dualstack.github.io."@,
        CombineModel::Fuse((ctx.a[k].0.bits % 256) as u32),
    ) by {
        assert(cidr::any_holds(g, v[k].bits));
        let ip = cdn::first_in(v, g)->0;
        let i = choose|i: int|
            0 <= i < v.len() && #[trigger] v[i] == ip && cidr::any_holds(g, ip.bits) && forall|j: int|
                0 <= j < i ==> !cidr::any_holds(g, (#[trigger] v[j]).bits);
        if i < k {
            assert(!github_ip(ctx.a[i].0));
        }
        if k < i {
            assert(!cidr::any_holds(g, v[k].bits));
        }
        address_laws::a_host_id_is_the_last_bits(ip);
    }
    if forall|j: int| 0 <= j < ctx.a.len() ==> !github_ip((#[trigger] ctx.a[j]).0) {
        if cdn::first_in(v, g) is Some {
            let ip = cdn::first_in(v, g)->0;
            let i = choose|i: int|
                0 <= i < v.len() && #[trigger] v[i] == ip && cidr::any_holds(g, ip.bits)
                    && forall|j: int| 0 <= j < i ==> !cidr::any_holds(g, (#[trigger] v[j]).bits);
            assert(!github_ip(ctx.a[i].0));
        }
    }
}

/// A Fastly hostname, at or under `fastly.net` or `fastlylb.net`, gets `dualstack` in
/// front of all its labels; no other name is looked up.
pub proof fn a_fastly_hostname_gets_dualstack(h: Seq<char>)
    ensures
        labels::ends(labels::name_labels(h), seq!["fastly"@, "net"@]) || labels::ends(
            labels::name_labels(h),
            seq!["fastlylb"@, "net"@],
        ) ==> cdn::fastly_target(h) == dns::ascii_name(
            labels::joined(seq!["dualstack"@] + labels::name_labels(h)),
        ),
        !labels::ends(labels::name_labels(h), seq!["fastly"@, "net"@]) && !labels::ends(
            labels::name_labels(h),
            seq!["fastlylb"@, "net"@],
        ) ==> cdn::fastly_target(h) is None,
{
    let z = seq![seq!["fastly"@, "net"@], seq!["fastlylb"@, "net"@]];
    if labels::ends(labels::name_labels(h), z[0]) {
        assert(cdn::has_suffix(h, z));
    }
    if labels::ends(labels::name_labels(h), z[1]) {
        assert(cdn::has_suffix(h, z));
    }
}

/// What `fastly` plans for a name with Fastly's mailbox and addresses of others: the
/// first address gives the host id.
pub proof fn what_fastly_plans_by_mailbox(ctx: CtxModel)
    requires
        forall|j: int| 0 <= j < ctx.a.len() ==> !fastly_ip((#[trigger] ctx.a[j]).0),
        mailbox_is(ctx, "hostmaster.fastly.com."@),
        ctx.a.len() > 0,
    ensures
        looks_up(
            cdn::fastly_plan(ctx),
            "dualstack.g.shared.global.fastly.net."@,
            CombineModel::Fuse((ctx.a[0].0.bits % 1024) as u32),
        ),
{
    let v = ctx.addrs();
    let t = tables::FASTLY_RANGES@;
    first_in_is_first(v, t);
    assert forall|j: int| 0 <= j < v.len() implies (cidr::any_holds(t, (#[trigger] v[j]).bits)
        <==> fastly_ip(ctx.a[j].0)) by {
        address_laws::fastly_ranges_by_the_numbers(v[j].bits);
    }
    if cdn::first_in(v, t) is Some {
        let ip = cdn::first_in(v, t)->0;
        let i = choose|i: int|
            0 <= i < v.len() && #[trigger] v[i] == ip && cidr::any_holds(t, ip.bits) && forall|j: int|
                0 <= j < i ==> !cidr::any_holds(t, (#[trigger] v[j]).bits);
        assert(!fastly_ip(ctx.a[i].0));
    }
    reveal_strlit("hostmaster.fastly.com");
    reveal_strlit("hostmaster.fastly.com.");
    assert(labels::absolute("hostmaster.fastly.com"@) =~= "hostmaster.fastly.com."@);
    assert(text::lower("hostmaster.fastly.com."@) =~= "hostmaster.fastly.com."@);
    assert(cdn::fastly_chosen(ctx) == Some(v[0]));
    address_laws::a_host_id_is_the_last_bits(v[0]);
    reveal_strlit("dualstack.g.shared.global.fastly.net");
    reveal_strlit("dualstack.g.shared.global.fastly.net.");
    assert(labels::absolute("dualstack.g.shared.global.fastly.net"@)
        =~= "dualstack.g.shared.global.fastly.net."@);
}

/// The prefix of each edge letter of Microsoft.
pub open spec fn edge_prefix(letter: Seq<char>) -> Option<u128> {
    if letter == "a"@ {
        Some(0x2620_01ec_0c11_0000_0000_0000_0000_0000)
    } else if letter == "b"@ {
        Some(0x2620_01ec_0a92_0000_0000_0000_0000_0000)
    } else if letter == "c"@ {
        Some(0x2a01_0111_2003_0000_0000_0000_0000_0000)
    } else if letter == "l"@ {
        Some(0x2620_01ec_0021_0000_0000_0000_0000_0000)
    } else if letter == "s"@ {
        Some(0x2620_01ec_0006_0000_0000_0000_0000_0000)
    } else if letter == "k"@ {
        Some(0x2620_01ec_000c_0000_0000_0000_0000_0000)
    } else if letter == "t"@ {
        Some(0x2620_01ec_0bdf_0000_0000_0000_0000_0000)
    } else if letter == "spo"@ {
        Some(0x2620_01ec_08f8_0000_0000_0000_0000_0000)
    } else {
        None
    }
}

/// What `msedge` plans: for a zone with `msedge.net` in its name, the prefix of the
/// letter in front of the first hyphen of the edge host, which is the last CNAME
/// target, or the queried name without one; and nothing otherwise.
pub proof fn what_msedge_plans(ctx: CtxModel, letter: Seq<char>, rest: Seq<char>)
    requires
        forall|i: int| 0 <= i < letter.len() ==> #[trigger] letter[i] != '-',
        ({
            let host = if ctx.cnames.len() > 0 {
                ctx.cnames[ctx.cnames.len() - 1]
            } else {
                ctx.name
            };
            let l = labels::name_labels(host);
            l.len() > 0 && (l[0] == letter || l[0] == letter.push('-') + rest)
        }),
    ensures
        ({
            let zone = ctx.zone matches Some(z) && text::occurs(text::lower(z), "msedge.net"@);
            let p = cdn::msedge_plan(ctx);
            &&& zone && edge_prefix(letter) is Some ==> looks_nothing_up(
                p,
                CombineModel::Msedge(
                    Ipv6Addr { bits: edge_prefix(letter)->0 },
                    letter == "spo"@,
                ),
            )
            &&& !zone || edge_prefix(letter) is None ==> p is None
        }),
{
    let sep = Sep::Char('-');
    text_laws::split_of_a_piece(letter, sep);
    text_laws::split_cuts_at_a_separator(letter, '-', rest, sep);
    text_laws::split_is_not_empty(rest, sep);
    let l = labels::name_labels(cdn::edge_host(ctx));
    assert(text::split(l[0], sep)[0] == letter);
    reveal_strlit("a");
    reveal_strlit("b");
    reveal_strlit("c");
    reveal_strlit("l");
    reveal_strlit("s");
    reveal_strlit("k");
    reveal_strlit("t");
    reveal_strlit("spo");
    assert("a"@.len() == 1 && "b"@.len() == 1 && "c"@.len() == 1 && "l"@.len() == 1 && "s"@.len()
        == 1 && "k"@.len() == 1 && "t"@.len() == 1 && "spo"@.len() == 3);
}

/// What `wpvip` and `cachefly` plan by address.
pub proof fn what_address_providers_plan(ctx: CtxModel)
    ensures
        ({
            let vip = exists|i: int|
                0 <= i < ctx.a.len() && address_laws::between(
                    0xc000_4200,
                    (#[trigger] ctx.a[i]).0.bits,
                    0xc000_42ff,
                );
            let fly = exists|i: int|
                0 <= i < ctx.a.len() && address_laws::between(
                    0xcdea_af00,
                    (#[trigger] ctx.a[i]).0.bits,
                    0xcdea_afff,
                );
            let n = cdn::first_target(ctx.hosts(), cdn::cachefly_target_map());
            &&& vip ==> looks_nothing_up(cdn::wpvip_plan(ctx), CombineModel::Wpvip)
            &&& !vip ==> cdn::wpvip_plan(ctx) is None
            &&& n is Some ==> looks_up(cdn::cachefly_plan(ctx), n->0, CombineModel::Verbatim)
            &&& n is None && fly ==> looks_nothing_up(
                cdn::cachefly_plan(ctx),
                CombineModel::Cachefly,
            )
            &&& n is None && !fly ==> cdn::cachefly_plan(ctx) is None
        }),
{
    let t = tables::WPVIP_RANGES@;
    let u = tables::CACHEFLY_RANGES@;
    assert forall|i: int| 0 <= i < ctx.a.len() implies (cidr::any_holds(
        t,
        (#[trigger] ctx.a[i]).0.bits,
    ) <==> address_laws::between(0xc000_4200, ctx.a[i].0.bits, 0xc000_42ff)) && (cidr::any_holds(
        u,
        ctx.a[i].0.bits,
    ) <==> address_laws::between(0xcdea_af00, ctx.a[i].0.bits, 0xcdea_afff)) by {
        address_laws::wpvip_ranges_by_the_numbers(ctx.a[i].0.bits);
        address_laws::cachefly_ranges_by_the_numbers(ctx.a[i].0.bits);
    }
}

/// What `fastly` plans for a name without an address of Fastly or GitHub Pages, and
/// without Fastly's mailbox beside an address: the variant of the first of its CNAME
/// targets and itself that is a Fastly hostname.
pub proof fn what_fastly_plans_by_name(ctx: CtxModel, k: int)
    requires
        forall|j: int| 0 <= j < ctx.a.len() ==> !fastly_ip((#[trigger] ctx.a[j]).0),
        forall|j: int| 0 <= j < ctx.a.len() ==> !github_ip((#[trigger] ctx.a[j]).0),
        !mailbox_is(ctx, "hostmaster.fastly.com."@) || ctx.a.len() == 0,
        0 <= k <= ctx.cnames.len(),
        forall|j: int| 0 <= j < k ==> cdn::fastly_target(#[trigger] ctx.hosts()[j]) is None,
    ensures
        cdn::fastly_target(ctx.hosts()[k]) matches Some(n) ==> looks_up(
            cdn::fastly_plan(ctx),
            n,
            CombineModel::Verbatim,
        ),
        k == ctx.cnames.len() && cdn::fastly_target(ctx.hosts()[k]) is None
            ==> cdn::fastly_plan(ctx) is None,
{
    if ctx.a.len() == 0 {
        let v = ctx.addrs();
        first_in_is_first(v, tables::FASTLY_RANGES@);
        first_in_is_first(v, tables::GITHUB_PAGES_RANGES@);
        assert(cdn::fastly_chosen(ctx) is None);
    } else {
        what_fastly_plans_otherwise(ctx);
    }
    let f = cdn::fastly_map();
    let h = ctx.hosts();
    assert forall|j: int| 0 <= j < k implies f(#[trigger] h[j]) is None by {}
    if f(h[k]) is Some {
        the_first_target(h, f, k);
    } else if k == ctx.cnames.len() {
        assert forall|j: int| 0 <= j < h.len() implies f(#[trigger] h[j]) is None by {}
        no_target(h, f);
    }
}

/// The variant of a CacheFly hostname.
pub open spec fn cachefly_variant(h: Seq<char>) -> Option<Seq<char>> {
    match rewrite::cachefly_form(labels::name_labels(h)) {
        Some(t) => dns::ascii_name(labels::absolute(t)),
        None => None,
    }
}

/// What `cachefly` plans: the variant of the first of the CNAME targets and the name
/// itself that has one, and otherwise what its address says.
pub proof fn what_cachefly_plans_by_name(ctx: CtxModel, k: int)
    requires
        0 <= k <= ctx.cnames.len(),
        forall|j: int| 0 <= j < k ==> cachefly_variant(#[trigger] ctx.hosts()[j]) is None,
    ensures
        cachefly_variant(ctx.hosts()[k]) matches Some(n) ==> looks_up(
            cdn::cachefly_plan(ctx),
            n,
            CombineModel::Verbatim,
        ),
        k == ctx.cnames.len() && cachefly_variant(ctx.hosts()[k]) is None ==> {
            let fly = exists|i: int|
                0 <= i < ctx.a.len() && address_laws::between(
                    0xcdea_af00,
                    (#[trigger] ctx.a[i]).0.bits,
                    0xcdea_afff,
                );
            &&& fly ==> looks_nothing_up(cdn::cachefly_plan(ctx), CombineModel::Cachefly)
            &&& !fly ==> cdn::cachefly_plan(ctx) is None
        },
{
    what_address_providers_plan(ctx);
    let f = cdn::cachefly_target_map();
    let h = ctx.hosts();
    assert forall|j: int| 0 <= j < k implies f(#[trigger] h[j]) is None by {
        assert(cachefly_variant(h[j]) is None);
    }
    if f(h[k]) is Some {
        the_first_target(h, f, k);
    } else if k == ctx.cnames.len() {
        assert forall|j: int| 0 <= j < h.len() implies f(#[trigger] h[j]) is None by {}
        no_target(h, f);
    }
}

/// The providers with plans of their own have them under their ids.
pub proof fn ids_of_the_other_providers(ctx: CtxModel)
    ensures
        cdn::plan_of("fastly"@, ctx) == cdn::fastly_plan(ctx),
        cdn::plan_of("msedge"@, ctx) == cdn::msedge_plan(ctx),
        cdn::plan_of("wpvip"@, ctx) == cdn::wpvip_plan(ctx),
        cdn::plan_of("cachefly"@, ctx) == cdn::cachefly_plan(ctx),
{
    reveal_strlit("cloudflare");
    reveal_strlit("shopify");
    reveal_strlit("webflow");
    reveal_strlit("weebly");
    reveal_strlit("cloudfront");
    reveal_strlit("bunnycdn");
    reveal_strlit("blazingcdn");
    reveal_strlit("gcorecdn");
    reveal_strlit("cdn77");
    reveal_strlit("sucuri");
    reveal_strlit("netlify");
    reveal_strlit("bearblog");
    reveal_strlit("alicdn");
    reveal_strlit("akamai");
    reveal_strlit("s3");
    reveal_strlit("oss");
    reveal_strlit("oracleobjectstorage");
    reveal_strlit("awsglb");
    reveal_strlit("edgecast");
    reveal_strlit("limelight");
    reveal_strlit("azurewebsites");
    reveal_strlit("fastly");
    reveal_strlit("msedge");
    reveal_strlit("wpvip");
    reveal_strlit("cachefly");
    assert("fastly"@.len() != "cloudflare"@.len());
    assert("fastly"@.len() != "shopify"@.len());
    assert("fastly"@.len() != "webflow"@.len());
    assert("fastly"@[0] != "weebly"@[0]);
    assert("fastly"@.len() != "cloudfront"@.len());
    assert("fastly"@.len() != "bunnycdn"@.len());
    assert("fastly"@.len() != "blazingcdn"@.len());
    assert("fastly"@.len() != "gcorecdn"@.len());
    assert("fastly"@.len() != "cdn77"@.len());
    assert("fastly"@[0] != "sucuri"@[0]);
    assert("fastly"@.len() != "netlify"@.len());
    assert("fastly"@.len() != "bearblog"@.len());
    assert("fastly"@[0] != "alicdn"@[0]);
    assert("fastly"@[0] != "akamai"@[0]);
    assert("fastly"@.len() != "s3"@.len());
    assert("fastly"@.len() != "oss"@.len());
    assert("fastly"@.len() != "oracleobjectstorage"@.len());
    assert("fastly"@[0] != "awsglb"@[0]);
    assert("fastly"@.len() != "edgecast"@.len());
    assert("fastly"@.len() != "limelight"@.len());
    assert("fastly"@.len() != "azurewebsites"@.len());
    assert("msedge"@.len() != "cloudflare"@.len());
    assert("msedge"@.len() != "shopify"@.len());
    assert("msedge"@.len() != "webflow"@.len());
    assert("msedge"@[0] != "weebly"@[0]);
    assert("msedge"@.len() != "cloudfront"@.len());
    assert("msedge"@.len() != "bunnycdn"@.len());
    assert("msedge"@.len() != "blazingcdn"@.len());
    assert("msedge"@.len() != "gcorecdn"@.len());
    assert("msedge"@.len() != "cdn77"@.len());
    assert("msedge"@[0] != "sucuri"@[0]);
    assert("msedge"@.len() != "netlify"@.len());
    assert("msedge"@.len() != "bearblog"@.len());
    assert("msedge"@[0] != "alicdn"@[0]);
    assert("msedge"@[0] != "akamai"@[0]);
    assert("msedge"@.len() != "s3"@.len());
    assert("msedge"@.len() != "oss"@.len());
    assert("msedge"@.len() != "oracleobjectstorage"@.len());
    assert("msedge"@[0] != "awsglb"@[0]);
    assert("msedge"@.len() != "edgecast"@.len());
    assert("msedge"@.len() != "limelight"@.len());
    assert("msedge"@.len() != "azurewebsites"@.len());
    assert("msedge"@[0] != "fastly"@[0]);
    assert("wpvip"@.len() != "cloudflare"@.len());
    assert("wpvip"@.len() != "shopify"@.len());
    assert("wpvip"@.len() != "webflow"@.len());
    assert("wpvip"@.len() != "weebly"@.len());
    assert("wpvip"@.len() != "cloudfront"@.len());
    assert("wpvip"@.len() != "bunnycdn"@.len());
    assert("wpvip"@.len() != "blazingcdn"@.len());
    assert("wpvip"@.len() != "gcorecdn"@.len());
    assert("wpvip"@[0] != "cdn77"@[0]);
    assert("wpvip"@.len() != "sucuri"@.len());
    assert("wpvip"@.len() != "netlify"@.len());
    assert("wpvip"@.len() != "bearblog"@.len());
    assert("wpvip"@.len() != "alicdn"@.len());
    assert("wpvip"@.len() != "akamai"@.len());
    assert("wpvip"@.len() != "s3"@.len());
    assert("wpvip"@.len() != "oss"@.len());
    assert("wpvip"@.len() != "oracleobjectstorage"@.len());
    assert("wpvip"@.len() != "awsglb"@.len());
    assert("wpvip"@.len() != "edgecast"@.len());
    assert("wpvip"@.len() != "limelight"@.len());
    assert("wpvip"@.len() != "azurewebsites"@.len());
    assert("wpvip"@.len() != "fastly"@.len());
    assert("wpvip"@.len() != "msedge"@.len());
    assert("cachefly"@.len() != "cloudflare"@.len());
    assert("cachefly"@.len() != "shopify"@.len());
    assert("cachefly"@.len() != "webflow"@.len());
    assert("cachefly"@.len() != "weebly"@.len());
    assert("cachefly"@.len() != "cloudfront"@.len());
    assert("cachefly"@[0] != "bunnycdn"@[0]);
    assert("cachefly"@.len() != "blazingcdn"@.len());
    assert("cachefly"@[0] != "gcorecdn"@[0]);
    assert("cachefly"@.len() != "cdn77"@.len());
    assert("cachefly"@.len() != "sucuri"@.len());
    assert("cachefly"@.len() != "netlify"@.len());
    assert("cachefly"@[0] != "bearblog"@[0]);
    assert("cachefly"@.len() != "alicdn"@.len());
    assert("cachefly"@.len() != "akamai"@.len());
    assert("cachefly"@.len() != "s3"@.len());
    assert("cachefly"@.len() != "oss"@.len());
    assert("cachefly"@.len() != "oracleobjectstorage"@.len());
    assert("cachefly"@.len() != "awsglb"@.len());
    assert("cachefly"@[0] != "edgecast"@[0]);
    assert("cachefly"@.len() != "limelight"@.len());
    assert("cachefly"@.len() != "azurewebsites"@.len());
    assert("cachefly"@.len() != "fastly"@.len());
    assert("cachefly"@.len() != "msedge"@.len());
    assert("cachefly"@.len() != "wpvip"@.len());
}

} // verus!
