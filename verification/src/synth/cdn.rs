//! CDN providers: synthesizers that recognise a name as hosted on a CDN that
//! already serves over native IPv6, and yield that CDN's real IPv6.
//!
//! Detection uses three signals (hostname or CNAME-target suffix, A-record
//! range, DNS authority) and four derivation methods (a constant, the live IPv6
//! of a reference domain, a dual-stack hostname to resolve, or a transform of the
//! A address). Where a CDN has a constant beside a live reference, the constant
//! is only the fallback.

use vstd::prelude::*;

use crate::dns;
use crate::dns::Name;
use crate::net::{Ipv4Addr, Ipv6Addr};
use crate::synth::cidr;
use crate::synth::combine;
use crate::synth::labels;
use crate::synth::rewrite;
use crate::synth::rewrite::Rewrite;
use crate::synth::tables;
use crate::synth::tables::Cidr;
use crate::synth::{
    Combine, CombineModel, CtxModel, Plan, PlanModel, Rule, SynthContext, Synthesizer,
};
use crate::text;

verus! {

// ---------------------------------------------------------------------------
// Signals
// ---------------------------------------------------------------------------

/// The texts of a list of suffixes.
pub open spec fn suffix_texts(v: Seq<&[&str]>) -> Seq<Seq<Seq<char>>> {
    Seq::new(v.len(), |i: int| labels::strs(v[i]@))
}

/// Whether a hostname ends with one of some suffixes.
pub open spec fn has_suffix(host: Seq<char>, suffixes: Seq<Seq<Seq<char>>>) -> bool {
    exists|j: int|
        0 <= j < suffixes.len() && labels::ends(labels::name_labels(host), #[trigger] suffixes[j])
}

/// Whether one of the hostnames ends with one of some suffixes.
pub open spec fn host_matching(ctx: CtxModel, suffixes: Seq<Seq<Seq<char>>>) -> bool {
    exists|i: int| 0 <= i < ctx.hosts().len() && has_suffix(#[trigger] ctx.hosts()[i], suffixes)
}

fn host_has_suffix(host: &Name, suffixes: &[&[&str]]) -> (r: bool)
    ensures
        r == has_suffix(host@, suffix_texts(suffixes@)),
{
    let l = labels::labels(host);
    let mut j: usize = 0;
    while j < suffixes.len()
        invariant
            text::texts(l@) == labels::name_labels(host@),
            0 <= j <= suffixes@.len(),
            forall|k: int|
                0 <= k < j ==> !labels::ends(
                    labels::name_labels(host@),
                    #[trigger] suffix_texts(suffixes@)[k],
                ),
        decreases suffixes@.len() - j,
    {
        if labels::labels_end_with(l.as_slice(), suffixes[j]) {
            assert(suffix_texts(suffixes@)[j as int] == labels::strs(suffixes@[j as int]@));
            return true;
        }
        assert(suffix_texts(suffixes@)[j as int] == labels::strs(suffixes@[j as int]@));
        j = j + 1;
    }
    false
}

fn host_matches(ctx: &SynthContext, suffixes: &[&[&str]]) -> (r: bool)
    ensures
        r == host_matching(ctx@, suffix_texts(suffixes@)),
{
    let hosts = ctx.hostnames();
    let mut i: usize = 0;
    while i < hosts.len()
        invariant
            0 <= i <= hosts@.len(),
            hosts@.len() == ctx@.hosts().len(),
            forall|k: int|
                0 <= k < hosts@.len() ==> (#[trigger] hosts@[k])@ == ctx@.hosts()[k],
            forall|k: int|
                0 <= k < i ==> !has_suffix(#[trigger] ctx@.hosts()[k], suffix_texts(suffixes@)),
        decreases hosts@.len() - i,
    {
        assert(hosts@[i as int]@ == ctx@.hosts()[i as int]);
        if host_has_suffix(hosts[i], suffixes) {
            return true;
        }
        i = i + 1;
    }
    false
}

/// Whether one of the A addresses falls in one of some networks.
pub open spec fn ip_matching(ctx: CtxModel, ranges: Seq<Cidr>) -> bool {
    exists|i: int| 0 <= i < ctx.a.len() && cidr::any_holds(ranges, (#[trigger] ctx.a[i]).0.bits)
}

fn ip_matches(ctx: &SynthContext, ranges: &[Cidr]) -> (r: bool)
    ensures
        r == ip_matching(ctx@, ranges@),
{
    let mut i: usize = 0;
    while i < ctx.a_records.len()
        invariant
            0 <= i <= ctx.a_records@.len(),
            forall|k: int|
                0 <= k < i ==> !cidr::any_holds(ranges@, (#[trigger] ctx@.a[k]).0.bits),
        decreases ctx.a_records@.len() - i,
    {
        assert(ctx@.a[i as int] == ctx.a_records@[i as int]);
        if cidr::in_table(ctx.a_records[i].0, ranges) {
            return true;
        }
        i = i + 1;
    }
    false
}

/// Whether the SOA admin mailbox is `admin`, in any case of its letters.
pub open spec fn admin_is(ctx: CtxModel, admin: Seq<char>) -> bool {
    ctx.admin is Some && text::lower(ctx.admin->0) == text::lower(labels::absolute(admin))
}

fn soa_admin_is(ctx: &SynthContext, admin: &str) -> (r: bool)
    ensures
        r == admin_is(ctx@, admin@),
{
    let v = text::to_chars(admin);
    let t = text::trim_end_chars(v.as_slice(), text::Sep::Char('.'));
    let mut want = text::from_chars(t.as_slice());
    want.push('.');
    match &ctx.authority.soa_admin {
        Some(n) => text::same_ignore_case(n.text.as_str(), want.as_str()),
        None => false,
    }
}

/// The first A address in one of some networks.
pub open spec fn first_in(v: Seq<Ipv4Addr>, ranges: Seq<Cidr>) -> Option<Ipv4Addr>
    decreases v.len(),
{
    if v.len() == 0 {
        None
    } else if first_in(v.drop_last(), ranges) is Some {
        first_in(v.drop_last(), ranges)
    } else if cidr::any_holds(ranges, v.last().bits) {
        Some(v.last())
    } else {
        None
    }
}

fn find_in(v: &Vec<Ipv4Addr>, ranges: &[Cidr]) -> (r: Option<Ipv4Addr>)
    ensures
        r == first_in(v@, ranges@),
{
    let mut found: Option<Ipv4Addr> = None;
    let mut i: usize = 0;
    while i < v.len()
        invariant
            0 <= i <= v@.len(),
            found == first_in(v@.take(i as int), ranges@),
        decreases v@.len() - i,
    {
        assert(v@.take(i + 1).drop_last() =~= v@.take(i as int));
        if found.is_none() && cidr::in_table(v[i], ranges) {
            found = Some(v[i]);
        }
        i = i + 1;
    }
    assert(v@.take(v@.len() as int) =~= v@);
    found
}

// ---------------------------------------------------------------------------
// Reference domains
// ---------------------------------------------------------------------------

/// A reference domain whose labels are plain, so that it makes a name.
pub open spec fn plain_reference(s: Seq<char>) -> bool {
    dns::plain_name(labels::absolute(s))
}

/// The absolute name of a reference domain.
fn fqdn(s: &str) -> (r: Name)
    requires
        plain_reference(s@),
    ensures
        r@ == labels::absolute(s@),
{
    match labels::parse_name(s) {
        Some(n) => n,
        None => {
            assert(false);
            Name::of_text(String::new())
        },
    }
}

proof fn plain_www_cloudflare_com()
    ensures
        plain_reference("www.cloudflare.com"@),
{
    reveal_strlit("www.cloudflare.com");
    reveal_strlit("www");
    reveal_strlit("cloudflare");
    reveal_strlit("com");
    reveal_with_fuel(text::join, 4);
    let l = seq!["www"@, "cloudflare"@, "com"@];
    assert(l.drop_last() =~= seq!["www"@, "cloudflare"@]);
    assert(seq!["www"@, "cloudflare"@].drop_last() =~= seq!["www"@]);
    assert("www.cloudflare.com"@ =~= text::join(l, '.'));
    assert(dns::plain_label("www"@));
    assert(dns::plain_label("cloudflare"@));
    assert(dns::plain_label("com"@));
    labels::plain_labels_make_a_name("www.cloudflare.com"@, l);
}

proof fn plain_static_twitchcdn_net()
    ensures
        plain_reference("static.twitchcdn.net"@),
{
    reveal_strlit("static.twitchcdn.net");
    reveal_strlit("static");
    reveal_strlit("twitchcdn");
    reveal_strlit("net");
    reveal_with_fuel(text::join, 4);
    let l = seq!["static"@, "twitchcdn"@, "net"@];
    assert(l.drop_last() =~= seq!["static"@, "twitchcdn"@]);
    assert(seq!["static"@, "twitchcdn"@].drop_last() =~= seq!["static"@]);
    assert("static.twitchcdn.net"@ =~= text::join(l, '.'));
    assert(dns::plain_label("static"@));
    assert(dns::plain_label("twitchcdn"@));
    assert(dns::plain_label("net"@));
    labels::plain_labels_make_a_name("static.twitchcdn.net"@, l);
}

proof fn plain_bunnyfonts_b_cdn_net()
    ensures
        plain_reference("bunnyfonts.b-cdn.net"@),
{
    reveal_strlit("bunnyfonts.b-cdn.net");
    reveal_strlit("bunnyfonts");
    reveal_strlit("b-cdn");
    reveal_strlit("net");
    reveal_with_fuel(text::join, 4);
    let l = seq!["bunnyfonts"@, "b-cdn"@, "net"@];
    assert(l.drop_last() =~= seq!["bunnyfonts"@, "b-cdn"@]);
    assert(seq!["bunnyfonts"@, "b-cdn"@].drop_last() =~= seq!["bunnyfonts"@]);
    assert("bunnyfonts.b-cdn.net"@ =~= text::join(l, '.'));
    assert(dns::plain_label("bunnyfonts"@));
    assert(dns::plain_label("b-cdn"@));
    assert(dns::plain_label("net"@));
    labels::plain_labels_make_a_name("bunnyfonts.b-cdn.net"@, l);
}

proof fn plain_cdn59455242_blazingcdn_net()
    ensures
        plain_reference("cdn59455242.blazingcdn.net"@),
{
    reveal_strlit("cdn59455242.blazingcdn.net");
    reveal_strlit("cdn59455242");
    reveal_strlit("blazingcdn");
    reveal_strlit("net");
    reveal_with_fuel(text::join, 4);
    let l = seq!["cdn59455242"@, "blazingcdn"@, "net"@];
    assert(l.drop_last() =~= seq!["cdn59455242"@, "blazingcdn"@]);
    assert(seq!["cdn59455242"@, "blazingcdn"@].drop_last() =~= seq!["cdn59455242"@]);
    assert("cdn59455242.blazingcdn.net"@ =~= text::join(l, '.'));
    assert(dns::plain_label("cdn59455242"@));
    assert(dns::plain_label("blazingcdn"@));
    assert(dns::plain_label("net"@));
    labels::plain_labels_make_a_name("cdn59455242.blazingcdn.net"@, l);
}

proof fn plain_d_gcdn_co()
    ensures
        plain_reference("d.gcdn.co"@),
{
    reveal_strlit("d.gcdn.co");
    reveal_strlit("d");
    reveal_strlit("gcdn");
    reveal_strlit("co");
    reveal_with_fuel(text::join, 4);
    let l = seq!["d"@, "gcdn"@, "co"@];
    assert(l.drop_last() =~= seq!["d"@, "gcdn"@]);
    assert(seq!["d"@, "gcdn"@].drop_last() =~= seq!["d"@]);
    assert("d.gcdn.co"@ =~= text::join(l, '.'));
    assert(dns::plain_label("d"@));
    assert(dns::plain_label("gcdn"@));
    assert(dns::plain_label("co"@));
    labels::plain_labels_make_a_name("d.gcdn.co"@, l);
}

proof fn plain_www_cdn77_com()
    ensures
        plain_reference("www.cdn77.com"@),
{
    reveal_strlit("www.cdn77.com");
    reveal_strlit("www");
    reveal_strlit("cdn77");
    reveal_strlit("com");
    reveal_with_fuel(text::join, 4);
    let l = seq!["www"@, "cdn77"@, "com"@];
    assert(l.drop_last() =~= seq!["www"@, "cdn77"@]);
    assert(seq!["www"@, "cdn77"@].drop_last() =~= seq!["www"@]);
    assert("www.cdn77.com"@ =~= text::join(l, '.'));
    assert(dns::plain_label("www"@));
    assert(dns::plain_label("cdn77"@));
    assert(dns::plain_label("com"@));
    labels::plain_labels_make_a_name("www.cdn77.com"@, l);
}

proof fn plain_sucuri_net()
    ensures
        plain_reference("sucuri.net"@),
{
    reveal_strlit("sucuri.net");
    reveal_strlit("sucuri");
    reveal_strlit("net");
    reveal_with_fuel(text::join, 3);
    let l = seq!["sucuri"@, "net"@];
    assert(l.drop_last() =~= seq!["sucuri"@]);
    assert("sucuri.net"@ =~= text::join(l, '.'));
    assert(dns::plain_label("sucuri"@));
    assert(dns::plain_label("net"@));
    labels::plain_labels_make_a_name("sucuri.net"@, l);
}

proof fn plain_www_netlify_com()
    ensures
        plain_reference("www.netlify.com"@),
{
    reveal_strlit("www.netlify.com");
    reveal_strlit("www");
    reveal_strlit("netlify");
    reveal_strlit("com");
    reveal_with_fuel(text::join, 4);
    let l = seq!["www"@, "netlify"@, "com"@];
    assert(l.drop_last() =~= seq!["www"@, "netlify"@]);
    assert(seq!["www"@, "netlify"@].drop_last() =~= seq!["www"@]);
    assert("www.netlify.com"@ =~= text::join(l, '.'));
    assert(dns::plain_label("www"@));
    assert(dns::plain_label("netlify"@));
    assert(dns::plain_label("com"@));
    labels::plain_labels_make_a_name("www.netlify.com"@, l);
}

proof fn plain_domain_proxy_bearblog_dev()
    ensures
        plain_reference("domain-proxy.bearblog.dev"@),
{
    reveal_strlit("domain-proxy.bearblog.dev");
    reveal_strlit("domain-proxy");
    reveal_strlit("bearblog");
    reveal_strlit("dev");
    reveal_with_fuel(text::join, 4);
    let l = seq!["domain-proxy"@, "bearblog"@, "dev"@];
    assert(l.drop_last() =~= seq!["domain-proxy"@, "bearblog"@]);
    assert(seq!["domain-proxy"@, "bearblog"@].drop_last() =~= seq!["domain-proxy"@]);
    assert("domain-proxy.bearblog.dev"@ =~= text::join(l, '.'));
    assert(dns::plain_label("domain-proxy"@));
    assert(dns::plain_label("bearblog"@));
    assert(dns::plain_label("dev"@));
    labels::plain_labels_make_a_name("domain-proxy.bearblog.dev"@, l);
}

proof fn plain_t_alicdn_com()
    ensures
        plain_reference("t.alicdn.com"@),
{
    reveal_strlit("t.alicdn.com");
    reveal_strlit("t");
    reveal_strlit("alicdn");
    reveal_strlit("com");
    reveal_with_fuel(text::join, 4);
    let l = seq!["t"@, "alicdn"@, "com"@];
    assert(l.drop_last() =~= seq!["t"@, "alicdn"@]);
    assert(seq!["t"@, "alicdn"@].drop_last() =~= seq!["t"@]);
    assert("t.alicdn.com"@ =~= text::join(l, '.'));
    assert(dns::plain_label("t"@));
    assert(dns::plain_label("alicdn"@));
    assert(dns::plain_label("com"@));
    labels::plain_labels_make_a_name("t.alicdn.com"@, l);
}

proof fn plain_dualstack_g_shared_global_fastly_net()
    ensures
        plain_reference("dualstack.g.shared.global.fastly.net"@),
{
    reveal_strlit("dualstack.g.shared.global.fastly.net");
    reveal_strlit("dualstack");
    reveal_strlit("g");
    reveal_strlit("shared");
    reveal_strlit("global");
    reveal_strlit("fastly");
    reveal_strlit("net");
    reveal_with_fuel(text::join, 7);
    let l = seq!["dualstack"@, "g"@, "shared"@, "global"@, "fastly"@, "net"@];
    assert(l.drop_last() =~= seq!["dualstack"@, "g"@, "shared"@, "global"@, "fastly"@]);
    assert(seq!["dualstack"@, "g"@, "shared"@, "global"@, "fastly"@].drop_last() =~= seq!["dualstack"@, "g"@, "shared"@, "global"@]);
    assert(seq!["dualstack"@, "g"@, "shared"@, "global"@].drop_last() =~= seq!["dualstack"@, "g"@, "shared"@]);
    assert(seq!["dualstack"@, "g"@, "shared"@].drop_last() =~= seq!["dualstack"@, "g"@]);
    assert(seq!["dualstack"@, "g"@].drop_last() =~= seq!["dualstack"@]);
    assert("dualstack.g.shared.global.fastly.net"@ =~= text::join(l, '.'));
    assert(dns::plain_label("dualstack"@));
    assert(dns::plain_label("g"@));
    assert(dns::plain_label("shared"@));
    assert(dns::plain_label("global"@));
    assert(dns::plain_label("fastly"@));
    assert(dns::plain_label("net"@));
    labels::plain_labels_make_a_name("dualstack.g.shared.global.fastly.net"@, l);
}

proof fn plain_dualstack_github_io()
    ensures
        plain_reference("dualstack.github.io"@),
{
    reveal_strlit("dualstack.github.io");
    reveal_strlit("dualstack");
    reveal_strlit("github");
    reveal_strlit("io");
    reveal_with_fuel(text::join, 4);
    let l = seq!["dualstack"@, "github"@, "io"@];
    assert(l.drop_last() =~= seq!["dualstack"@, "github"@]);
    assert(seq!["dualstack"@, "github"@].drop_last() =~= seq!["dualstack"@]);
    assert("dualstack.github.io"@ =~= text::join(l, '.'));
    assert(dns::plain_label("dualstack"@));
    assert(dns::plain_label("github"@));
    assert(dns::plain_label("io"@));
    labels::plain_labels_make_a_name("dualstack.github.io"@, l);
}

// ---------------------------------------------------------------------------
// Generic provider shapes
// ---------------------------------------------------------------------------

/// A plan that resolves one name.
pub open spec fn lookup(name: Seq<char>, combine: CombineModel) -> PlanModel {
    PlanModel { resolve: seq![name], combine }
}

/// A plan that resolves nothing.
pub open spec fn pure(combine: CombineModel) -> PlanModel {
    PlanModel { resolve: Seq::empty(), combine }
}

/// The plan of a provider with a constant address, behind an optional live
/// reference domain.
pub open spec fn const_plan(
    ctx: CtxModel,
    suffixes: Seq<Seq<Seq<char>>>,
    ranges: Seq<Cidr>,
    addr: Ipv6Addr,
    reference: Option<Seq<char>>,
) -> Option<PlanModel> {
    if host_matching(ctx, suffixes) || ip_matching(ctx, ranges) {
        match reference {
            Some(s) => Some(lookup(labels::absolute(s), CombineModel::BorrowOr(Some(addr)))),
            None => Some(pure(CombineModel::Constant(addr))),
        }
    } else {
        None
    }
}

/// The text of an optional string slice.
pub open spec fn opt_str(s: Option<&str>) -> Option<Seq<char>> {
    match s {
        Some(t) => Some(t@),
        None => None,
    }
}

/// A provider that yields a constant IPv6, optionally backed by a live reference
/// domain (resolved first; the constant is the fallback).
pub struct MatchConst {
    pub id: &'static str,
    pub suffixes: &'static [&'static [&'static str]],
    pub ranges: &'static [Cidr],
    pub addr: Ipv6Addr,
    pub reference: Option<&'static str>,
}

impl Synthesizer for MatchConst {
    open spec fn valid(&self) -> bool {
        self.reference is Some ==> plain_reference(self.reference->0@)
    }

    open spec fn ident(&self) -> Seq<char> {
        self.id@
    }

    open spec fn planned(&self, ctx: CtxModel) -> Option<PlanModel> {
        const_plan(
            ctx,
            suffix_texts(self.suffixes@),
            self.ranges@,
            self.addr,
            opt_str(self.reference),
        )
    }

    fn id(&self) -> (r: &'static str) {
        self.id
    }

    fn detect(&self, ctx: &SynthContext) -> (r: Option<Plan>) {
        if !(host_matches(ctx, self.suffixes) || ip_matches(ctx, self.ranges)) {
            return None;
        }
        match self.reference {
            Some(s) => Some(Plan::one(fqdn(s), Combine::BorrowOr(Some(self.addr)))),
            None => Some(Plan::pure(Combine::Constant(self.addr))),
        }
    }
}

/// The plan of a provider that borrows a reference domain's addresses.
pub open spec fn borrow_plan(
    ctx: CtxModel,
    suffixes: Seq<Seq<Seq<char>>>,
    ranges: Seq<Cidr>,
    admin: Option<Seq<char>>,
    reference: Seq<char>,
    fallback: Option<Ipv6Addr>,
) -> Option<PlanModel> {
    if (admin is Some && admin_is(ctx, admin->0)) || host_matching(ctx, suffixes) || ip_matching(
        ctx,
        ranges,
    ) {
        Some(lookup(labels::absolute(reference), CombineModel::BorrowOr(fallback)))
    } else {
        None
    }
}

/// A provider that borrows a reference domain's live IPv6, with an optional
/// constant fallback.
pub struct MatchBorrow {
    pub id: &'static str,
    pub suffixes: &'static [&'static [&'static str]],
    pub ranges: &'static [Cidr],
    pub soa_admin: Option<&'static str>,
    pub reference: &'static str,
    pub fallback: Option<Ipv6Addr>,
}

impl Synthesizer for MatchBorrow {
    open spec fn valid(&self) -> bool {
        plain_reference(self.reference@)
    }

    open spec fn ident(&self) -> Seq<char> {
        self.id@
    }

    open spec fn planned(&self, ctx: CtxModel) -> Option<PlanModel> {
        borrow_plan(
            ctx,
            suffix_texts(self.suffixes@),
            self.ranges@,
            opt_str(self.soa_admin),
            self.reference@,
            self.fallback,
        )
    }

    fn id(&self) -> (r: &'static str) {
        self.id
    }

    fn detect(&self, ctx: &SynthContext) -> (r: Option<Plan>) {
        let soa: bool = match self.soa_admin {
            Some(a) => soa_admin_is(ctx, a),
            None => false,
        };
        if !(soa || host_matches(ctx, self.suffixes) || ip_matches(ctx, self.ranges)) {
            return None;
        }
        Some(Plan::one(fqdn(self.reference), Combine::BorrowOr(self.fallback)))
    }
}

/// The first of some hostnames, from the front, for which `f` gives a name.
pub open spec fn first_target(
    hosts: Seq<Seq<char>>,
    f: spec_fn(Seq<char>) -> Option<Seq<char>>,
) -> Option<Seq<char>>
    decreases hosts.len(),
{
    if hosts.len() == 0 {
        None
    } else if first_target(hosts.drop_last(), f) is Some {
        first_target(hosts.drop_last(), f)
    } else {
        f(hosts.last())
    }
}

/// What a rewrite gives for a hostname.
pub open spec fn rewrite_map(k: Rewrite) -> spec_fn(Seq<char>) -> Option<Seq<char>> {
    |h: Seq<char>| rewrite::target(k, h)
}

/// The plan for an optional dual-stack hostname: resolve it and take what comes.
pub open spec fn target_plan(t: Option<Seq<char>>) -> Option<PlanModel> {
    match t {
        Some(n) => Some(lookup(n, CombineModel::Verbatim)),
        None => None,
    }
}

/// The plan of a provider that rewrites hostnames.
pub open spec fn rewrite_plan(k: Rewrite, ctx: CtxModel) -> Option<PlanModel> {
    target_plan(first_target(ctx.hosts(), rewrite_map(k)))
}

/// A provider that rewrites a matched hostname into a dual-stack hostname and
/// borrows that name's live IPv6.
pub struct MatchRewrite {
    pub id: &'static str,
    pub rewrite: Rewrite,
}

impl Synthesizer for MatchRewrite {
    open spec fn valid(&self) -> bool {
        true
    }

    open spec fn ident(&self) -> Seq<char> {
        self.id@
    }

    open spec fn planned(&self, ctx: CtxModel) -> Option<PlanModel> {
        rewrite_plan(self.rewrite, ctx)
    }

    fn id(&self) -> (r: &'static str) {
        self.id
    }

    fn detect(&self, ctx: &SynthContext) -> (r: Option<Plan>) {
        let hosts = ctx.hostnames();
        let ghost f = rewrite_map(self.rewrite);
        let mut i: usize = 0;
        while i < hosts.len()
            invariant
                0 <= i <= hosts@.len(),
                f == rewrite_map(self.rewrite),
                hosts@.len() == ctx@.hosts().len(),
                forall|k: int|
                    0 <= k < hosts@.len() ==> (#[trigger] hosts@[k])@ == ctx@.hosts()[k],
                first_target(ctx@.hosts().take(i as int), f) is None,
            decreases hosts@.len() - i,
        {
            let h = hosts[i];
            assert(h@ == ctx@.hosts()[i as int]);
            assert(ctx@.hosts().take(i + 1).drop_last() =~= ctx@.hosts().take(i as int));
            match self.rewrite.apply(h) {
                Some(t) => {
                    proof {
                        first_target_stays(ctx@.hosts(), f, i + 1);
                    }
                    return Some(Plan::one(t, Combine::Verbatim));
                },
                None => {},
            }
            i = i + 1;
        }
        assert(ctx@.hosts().take(hosts@.len() as int) =~= ctx@.hosts());
        None
    }
}

proof fn first_target_stays(
    hosts: Seq<Seq<char>>,
    f: spec_fn(Seq<char>) -> Option<Seq<char>>,
    i: int,
)
    requires
        0 <= i <= hosts.len(),
        first_target(hosts.take(i), f) is Some,
    ensures
        first_target(hosts, f) == first_target(hosts.take(i), f),
    decreases hosts.len(),
{
    if i == hosts.len() {
        assert(hosts.take(i) =~= hosts);
    } else {
        assert(hosts.drop_last().take(i) =~= hosts.take(i));
        first_target_stays(hosts.drop_last(), f, i);
    }
}

// ---------------------------------------------------------------------------
// Custom providers
// ---------------------------------------------------------------------------

/// Fastly: a hostname becomes `dualstack.<host>`, which is resolved; on the range
/// and authority path a reference domain's prefixes are borrowed, each fused with
/// a host id derived from the A address.
pub struct Fastly;

/// The dual-stack hostname of a Fastly hostname.
pub open spec fn fastly_target(h: Seq<char>) -> Option<Seq<char>> {
    if has_suffix(h, seq![seq!["fastly"@, "net"@], seq!["fastlylb"@, "net"@]]) {
        dns::ascii_name(labels::joined(seq!["dualstack"@] + labels::name_labels(h)))
    } else {
        None
    }
}

/// [`fastly_target`] as a map.
pub open spec fn fastly_map() -> spec_fn(Seq<char>) -> Option<Seq<char>> {
    |h: Seq<char>| fastly_target(h)
}

/// The address that a Fastly host id is derived from: the first one in Fastly's
/// ranges, else the first one, where the ranges or the authority match.
pub open spec fn fastly_chosen(ctx: CtxModel) -> Option<Ipv4Addr> {
    let v = ctx.addrs();
    let hit = first_in(v, tables::FASTLY_RANGES@);
    if hit is Some {
        hit
    } else if admin_is(ctx, "hostmaster.fastly.com"@) && v.len() > 0 {
        Some(v[0])
    } else {
        None
    }
}

/// The plan of Fastly.
pub open spec fn fastly_plan(ctx: CtxModel) -> Option<PlanModel> {
    match (fastly_chosen(ctx), first_in(ctx.addrs(), tables::GITHUB_PAGES_RANGES@)) {
        (Some(ip), _) => Some(
            lookup(
                labels::absolute("dualstack.g.shared.global.fastly.net"@),
                CombineModel::Fuse(combine::host_id(ip, false) as u32),
            ),
        ),
        (None, Some(ip)) => Some(
            lookup(
                labels::absolute("dualstack.github.io"@),
                CombineModel::Fuse(combine::host_id(ip, true) as u32),
            ),
        ),
        (None, None) => target_plan(first_target(ctx.hosts(), fastly_map())),
    }
}

fn fastly_hostname(h: &Name) -> (r: Option<Name>)
    ensures
        match r {
            Some(n) => fastly_target(h@) == Some(n@),
            None => fastly_target(h@) is None,
        },
{
    let suffixes: &[&[&str]] = &[&["fastly", "net"], &["fastlylb", "net"]];
    assert(suffix_texts(suffixes@) =~~= seq![seq!["fastly"@, "net"@], seq!["fastlylb"@, "net"@]]);
    if !host_has_suffix(h, suffixes) {
        return None;
    }
    let mut l = labels::labels(h);
    let ghost before = text::texts(l@);
    l.insert(0, text::copy("dualstack"));
    assert(text::texts(l@) =~= seq!["dualstack"@] + before);
    labels::name_from_labels(&l)
}

impl Synthesizer for Fastly {
    open spec fn valid(&self) -> bool {
        true
    }

    open spec fn ident(&self) -> Seq<char> {
        "fastly"@
    }

    open spec fn planned(&self, ctx: CtxModel) -> Option<PlanModel> {
        fastly_plan(ctx)
    }

    fn id(&self) -> (r: &'static str) {
        "fastly"
    }

    fn detect(&self, ctx: &SynthContext) -> (r: Option<Plan>) {
        let v4 = ctx.a_addrs();
        let mut chosen = find_in(&v4, &tables::FASTLY_RANGES);
        if chosen.is_none() && v4.len() > 0 && soa_admin_is(ctx, "hostmaster.fastly.com") {
            chosen = Some(v4[0]);
        }
        match chosen {
            Some(ip) => {
                proof {
                    plain_dualstack_g_shared_global_fastly_net();
                }
                let hostid = combine::fastly_v6hex(ip, false);
                return Some(
                    Plan::one(fqdn("dualstack.g.shared.global.fastly.net"), Combine::Fuse(hostid)),
                );
            },
            None => {},
        }
        match find_in(&v4, &tables::GITHUB_PAGES_RANGES) {
            Some(ip) => {
                proof {
                    plain_dualstack_github_io();
                }
                let hostid = combine::fastly_v6hex(ip, true);
                return Some(Plan::one(fqdn("dualstack.github.io"), Combine::Fuse(hostid)));
            },
            None => {},
        }
        let hosts = ctx.hostnames();
        let ghost f = fastly_map();
        let mut i: usize = 0;
        while i < hosts.len()
            invariant
                0 <= i <= hosts@.len(),
                f == fastly_map(),
                fastly_plan(ctx@) == target_plan(first_target(ctx@.hosts(), fastly_map())),
                hosts@.len() == ctx@.hosts().len(),
                forall|k: int|
                    0 <= k < hosts@.len() ==> (#[trigger] hosts@[k])@ == ctx@.hosts()[k],
                first_target(ctx@.hosts().take(i as int), f) is None,
            decreases hosts@.len() - i,
        {
            let h = hosts[i];
            assert(h@ == ctx@.hosts()[i as int]);
            assert(ctx@.hosts().take(i + 1).drop_last() =~= ctx@.hosts().take(i as int));
            match fastly_hostname(h) {
                Some(t) => {
                    proof {
                        first_target_stays(ctx@.hosts(), f, i + 1);
                    }
                    return Some(Plan::one(t, Combine::Verbatim));
                },
                None => {},
            }
            i = i + 1;
        }
        assert(ctx@.hosts().take(hosts@.len() as int) =~= ctx@.hosts());
        None
    }
}

/// Microsoft Edge: matched by an SOA zone under `msedge.net`; the prefix is
/// chosen by the leading letters of the edge hostname, with the A address's last
/// octet appended.
pub struct Msedge;

/// The prefix of an edge letter, and whether it is SharePoint's.
pub open spec fn msedge_letter(s: Seq<char>) -> Option<(Ipv6Addr, bool)> {
    if s == "a"@ {
        Some((Ipv6Addr { bits: MSEDGE_A }, false))
    } else if s == "b"@ {
        Some((Ipv6Addr { bits: MSEDGE_B }, false))
    } else if s == "c"@ {
        Some((Ipv6Addr { bits: MSEDGE_C }, false))
    } else if s == "l"@ {
        Some((Ipv6Addr { bits: MSEDGE_L }, false))
    } else if s == "s"@ {
        Some((Ipv6Addr { bits: MSEDGE_S }, false))
    } else if s == "k"@ {
        Some((Ipv6Addr { bits: MSEDGE_K }, false))
    } else if s == "t"@ {
        Some((Ipv6Addr { bits: MSEDGE_T }, false))
    } else if s == "spo"@ {
        Some((Ipv6Addr { bits: MSEDGE_SPO }, true))
    } else {
        None
    }
}

/// `2620:1ec:c11::`
pub const MSEDGE_A: u128 = 0x2620_01ec_0c11_0000_0000_0000_0000_0000;

/// `2620:1ec:a92::`
pub const MSEDGE_B: u128 = 0x2620_01ec_0a92_0000_0000_0000_0000_0000;

/// `2a01:111:2003::`
pub const MSEDGE_C: u128 = 0x2a01_0111_2003_0000_0000_0000_0000_0000;

/// `2620:1ec:21::`
pub const MSEDGE_L: u128 = 0x2620_01ec_0021_0000_0000_0000_0000_0000;

/// `2620:1ec:6::`
pub const MSEDGE_S: u128 = 0x2620_01ec_0006_0000_0000_0000_0000_0000;

/// `2620:1ec:c::`
pub const MSEDGE_K: u128 = 0x2620_01ec_000c_0000_0000_0000_0000_0000;

/// `2620:1ec:bdf::`
pub const MSEDGE_T: u128 = 0x2620_01ec_0bdf_0000_0000_0000_0000_0000;

/// `2620:1ec:8f8::`
pub const MSEDGE_SPO: u128 = 0x2620_01ec_08f8_0000_0000_0000_0000_0000;

fn msedge_prefix(letter: &str) -> (r: Option<(Ipv6Addr, bool)>)
    ensures
        r == msedge_letter(letter@),
{
    if text::same(letter, "a") {
        Some((Ipv6Addr { bits: MSEDGE_A }, false))
    } else if text::same(letter, "b") {
        Some((Ipv6Addr { bits: MSEDGE_B }, false))
    } else if text::same(letter, "c") {
        Some((Ipv6Addr { bits: MSEDGE_C }, false))
    } else if text::same(letter, "l") {
        Some((Ipv6Addr { bits: MSEDGE_L }, false))
    } else if text::same(letter, "s") {
        Some((Ipv6Addr { bits: MSEDGE_S }, false))
    } else if text::same(letter, "k") {
        Some((Ipv6Addr { bits: MSEDGE_K }, false))
    } else if text::same(letter, "t") {
        Some((Ipv6Addr { bits: MSEDGE_T }, false))
    } else if text::same(letter, "spo") {
        Some((Ipv6Addr { bits: MSEDGE_SPO }, true))
    } else {
        None
    }
}

/// The edge hostname: the last CNAME target, else the queried name.
pub open spec fn edge_host(ctx: CtxModel) -> Seq<char> {
    if ctx.cnames.len() > 0 {
        ctx.cnames.last()
    } else {
        ctx.name
    }
}

/// The plan of Microsoft Edge.
pub open spec fn msedge_plan(ctx: CtxModel) -> Option<PlanModel> {
    let l = labels::name_labels(edge_host(ctx));
    if ctx.zone is Some && text::occurs(text::lower(ctx.zone->0), "msedge.net"@) && l.len() > 0 {
        match msedge_letter(text::split(l[0], text::Sep::Char('-'))[0]) {
            Some((prefix, spo)) => Some(pure(CombineModel::Msedge(prefix, spo))),
            None => None,
        }
    } else {
        None
    }
}

impl Synthesizer for Msedge {
    open spec fn valid(&self) -> bool {
        true
    }

    open spec fn ident(&self) -> Seq<char> {
        "msedge"@
    }

    open spec fn planned(&self, ctx: CtxModel) -> Option<PlanModel> {
        msedge_plan(ctx)
    }

    fn id(&self) -> (r: &'static str) {
        "msedge"
    }

    fn detect(&self, ctx: &SynthContext) -> (r: Option<Plan>) {
        match &ctx.authority.soa_zone {
            Some(zone) => {
                let v = text::to_chars(zone.text.as_str());
                let z = text::lower_chars(v.as_slice());
                if !text::contains(z.as_slice(), "msedge.net") {
                    return None;
                }
            },
            None => {
                return None;
            },
        }
        let n: usize = ctx.cname_targets.len();
        let host: &Name = if n > 0 {
            &ctx.cname_targets[n - 1]
        } else {
            &ctx.name
        };
        assert(host@ == edge_host(ctx@));
        let l = labels::labels(host);
        assert(text::texts(l@).len() == l@.len());
        if l.len() == 0 {
            return None;
        }
        assert(text::texts(l@)[0] == l@[0]@);
        let parts = labels::hyphen_parts(l[0].as_str());
        assert(text::texts(parts@)[0] == parts@[0]@);
        match msedge_prefix(parts[0].as_str()) {
            Some((prefix, spo)) => Some(Plan::pure(Combine::Msedge(prefix, spo))),
            None => None,
        }
    }
}

/// WordPress VIP: the A address embedded into `2a04:fa87:fffd::/48`.
pub struct Wpvip;

/// The plan of WordPress VIP.
pub open spec fn wpvip_plan(ctx: CtxModel) -> Option<PlanModel> {
    if ip_matching(ctx, tables::WPVIP_RANGES@) {
        Some(pure(CombineModel::Wpvip))
    } else {
        None
    }
}

impl Synthesizer for Wpvip {
    open spec fn valid(&self) -> bool {
        true
    }

    open spec fn ident(&self) -> Seq<char> {
        "wpvip"@
    }

    open spec fn planned(&self, ctx: CtxModel) -> Option<PlanModel> {
        wpvip_plan(ctx)
    }

    fn id(&self) -> (r: &'static str) {
        "wpvip"
    }

    fn detect(&self, ctx: &SynthContext) -> (r: Option<Plan>) {
        if ip_matches(ctx, &tables::WPVIP_RANGES) {
            Some(Plan::pure(Combine::Wpvip))
        } else {
            None
        }
    }
}

/// CacheFly: a hostname becomes its `-dstack` variant, which is resolved; on the
/// range path the A address is embedded into `2605:4c40::/32`.
pub struct Cachefly;

/// The dual-stack hostname of a CacheFly hostname.
pub open spec fn cachefly_target_map() -> spec_fn(Seq<char>) -> Option<Seq<char>> {
    |h: Seq<char>| rewrite::renamed(rewrite::cachefly_form(labels::name_labels(h)))
}

/// The plan of CacheFly.
pub open spec fn cachefly_plan(ctx: CtxModel) -> Option<PlanModel> {
    match first_target(ctx.hosts(), cachefly_target_map()) {
        Some(n) => Some(lookup(n, CombineModel::Verbatim)),
        None => if ip_matching(ctx, tables::CACHEFLY_RANGES@) {
            Some(pure(CombineModel::Cachefly))
        } else {
            None
        },
    }
}

impl Synthesizer for Cachefly {
    open spec fn valid(&self) -> bool {
        true
    }

    open spec fn ident(&self) -> Seq<char> {
        "cachefly"@
    }

    open spec fn planned(&self, ctx: CtxModel) -> Option<PlanModel> {
        cachefly_plan(ctx)
    }

    fn id(&self) -> (r: &'static str) {
        "cachefly"
    }

    fn detect(&self, ctx: &SynthContext) -> (r: Option<Plan>) {
        let hosts = ctx.hostnames();
        let ghost f = cachefly_target_map();
        let mut i: usize = 0;
        while i < hosts.len()
            invariant
                0 <= i <= hosts@.len(),
                f == cachefly_target_map(),
                hosts@.len() == ctx@.hosts().len(),
                forall|k: int|
                    0 <= k < hosts@.len() ==> (#[trigger] hosts@[k])@ == ctx@.hosts()[k],
                first_target(ctx@.hosts().take(i as int), f) is None,
            decreases hosts@.len() - i,
        {
            let h = hosts[i];
            assert(h@ == ctx@.hosts()[i as int]);
            assert(ctx@.hosts().take(i + 1).drop_last() =~= ctx@.hosts().take(i as int));
            match rewrite::cachefly_rewrite(h) {
                Some(t) => {
                    proof {
                        first_target_stays(ctx@.hosts(), f, i + 1);
                    }
                    return Some(Plan::one(t, Combine::Verbatim));
                },
                None => {},
            }
            i = i + 1;
        }
        assert(ctx@.hosts().take(hosts@.len() as int) =~= ctx@.hosts());
        if ip_matches(ctx, &tables::CACHEFLY_RANGES) {
            return Some(Plan::pure(Combine::Cachefly));
        }
        None
    }
}

// ---------------------------------------------------------------------------
// The registry
// ---------------------------------------------------------------------------

/// `2606:4700::6810:bad`
pub const CLOUDFLARE_ADDR: u128 = 0x2606_4700_0000_0000_0000_0000_6810_0bad;

/// `2620:127:f00f::`
pub const SHOPIFY_ADDR: u128 = 0x2620_0127_f00f_0000_0000_0000_0000_0000;

/// `2620:cb:2000::1`
pub const WEBFLOW_ADDR: u128 = 0x2620_00cb_2000_0000_0000_0000_0000_0001;

/// `2620:11c:1:e4::36`
pub const WEEBLY_ADDR: u128 = 0x2620_011c_0001_00e4_0000_0000_0000_0036;

/// `2400:52e0:1e01::883:1`
pub const BUNNYCDN_ADDR: u128 = 0x2400_52e0_1e01_0000_0000_0000_0883_0001;

/// `2a02:b48:9000::1`
pub const BLAZINGCDN_ADDR: u128 = 0x2a02_0b48_9000_0000_0000_0000_0000_0001;

/// Whether an id is that of a CDN provider.
pub open spec fn is_provider(id: Seq<char>) -> bool {
    ||| id == "cloudflare"@
    ||| id == "shopify"@
    ||| id == "webflow"@
    ||| id == "weebly"@
    ||| id == "cloudfront"@
    ||| id == "bunnycdn"@
    ||| id == "blazingcdn"@
    ||| id == "gcorecdn"@
    ||| id == "cdn77"@
    ||| id == "sucuri"@
    ||| id == "netlify"@
    ||| id == "bearblog"@
    ||| id == "alicdn"@
    ||| id == "akamai"@
    ||| id == "s3"@
    ||| id == "oss"@
    ||| id == "oracleobjectstorage"@
    ||| id == "awsglb"@
    ||| id == "edgecast"@
    ||| id == "limelight"@
    ||| id == "azurewebsites"@
    ||| id == "fastly"@
    ||| id == "msedge"@
    ||| id == "wpvip"@
    ||| id == "cachefly"@
}

/// The plan of the provider with the given id.
pub open spec fn plan_of(id: Seq<char>, ctx: CtxModel) -> Option<PlanModel> {
    if id == "cloudflare"@ {
        const_plan(
            ctx,
            seq![seq!["cdn"@, "cloudflare"@, "net"@]],
            tables::CLOUDFLARE_RANGES@,
            Ipv6Addr { bits: CLOUDFLARE_ADDR },
            Some("www.cloudflare.com"@),
        )
    } else if id == "shopify"@ {
        const_plan(
            ctx,
            seq![seq!["shopify"@, "com"@], seq!["myshopify"@, "com"@]],
            tables::SHOPIFY_RANGES@,
            Ipv6Addr { bits: SHOPIFY_ADDR },
            None,
        )
    } else if id == "webflow"@ {
        const_plan(
            ctx,
            seq![seq!["webflow"@, "com"@]],
            tables::WEBFLOW_RANGES@,
            Ipv6Addr { bits: WEBFLOW_ADDR },
            None,
        )
    } else if id == "weebly"@ {
        const_plan(
            ctx,
            seq![seq!["weebly"@, "com"@]],
            tables::WEEBLY_RANGES@,
            Ipv6Addr { bits: WEEBLY_ADDR },
            None,
        )
    } else if id == "cloudfront"@ {
        borrow_plan(
            ctx,
            seq![seq!["cloudfront"@, "net"@]],
            tables::CLOUDFRONT_RANGES@,
            None,
            "static.twitchcdn.net"@,
            None,
        )
    } else if id == "bunnycdn"@ {
        borrow_plan(
            ctx,
            seq![seq!["b-cdn"@, "net"@]],
            Seq::empty(),
            None,
            "bunnyfonts.b-cdn.net"@,
            Some(Ipv6Addr { bits: BUNNYCDN_ADDR }),
        )
    } else if id == "blazingcdn"@ {
        borrow_plan(
            ctx,
            seq![seq!["blazingcdn"@, "net"@]],
            Seq::empty(),
            None,
            "cdn59455242.blazingcdn.net"@,
            Some(Ipv6Addr { bits: BLAZINGCDN_ADDR }),
        )
    } else if id == "gcorecdn"@ {
        borrow_plan(
            ctx,
            seq![seq!["gcdn"@, "co"@]],
            Seq::empty(),
            None,
            "d.gcdn.co"@,
            None,
        )
    } else if id == "cdn77"@ {
        borrow_plan(
            ctx,
            seq![seq!["cdn77"@, "org"@]],
            Seq::empty(),
            Some("admin.cdn77.com"@),
            "www.cdn77.com"@,
            None,
        )
    } else if id == "sucuri"@ {
        borrow_plan(
            ctx,
            Seq::empty(),
            tables::SUCURI_RANGES@,
            None,
            "sucuri.net"@,
            None,
        )
    } else if id == "netlify"@ {
        borrow_plan(
            ctx,
            seq![seq!["netlify"@, "com"@]],
            tables::NETLIFY_RANGES@,
            None,
            "www.netlify.com"@,
            None,
        )
    } else if id == "bearblog"@ {
        borrow_plan(
            ctx,
            Seq::empty(),
            tables::BEARBLOG_RANGES@,
            None,
            "domain-proxy.bearblog.dev"@,
            None,
        )
    } else if id == "alicdn"@ {
        borrow_plan(
            ctx,
            seq![seq!["alicdn"@, "com"@]],
            Seq::empty(),
            None,
            "t.alicdn.com"@,
            None,
        )
    } else if id == "akamai"@ {
        rewrite_plan(Rewrite::Akamai, ctx)
    } else if id == "s3"@ {
        rewrite_plan(Rewrite::S3, ctx)
    } else if id == "oss"@ {
        rewrite_plan(Rewrite::Oss, ctx)
    } else if id == "oracleobjectstorage"@ {
        rewrite_plan(Rewrite::Oracle, ctx)
    } else if id == "awsglb"@ {
        rewrite_plan(Rewrite::Awsglb, ctx)
    } else if id == "edgecast"@ {
        rewrite_plan(Rewrite::Edgecast, ctx)
    } else if id == "limelight"@ {
        rewrite_plan(Rewrite::Limelight, ctx)
    } else if id == "azurewebsites"@ {
        rewrite_plan(Rewrite::Azure, ctx)
    } else if id == "fastly"@ {
        fastly_plan(ctx)
    } else if id == "msedge"@ {
        msedge_plan(ctx)
    } else if id == "wpvip"@ {
        wpvip_plan(ctx)
    } else if id == "cachefly"@ {
        cachefly_plan(ctx)
    } else {
        None
    }
}

/// What a made provider is: sound, under its id, with the plans of that id.
pub open spec fn provides(r: Option<Rule>, id: Seq<char>) -> bool {
    match r {
        Some(s) => {
            &&& is_provider(id)
            &&& s.rule.valid()
            &&& s.rule.ident() == id
            &&& forall|ctx: CtxModel| #[trigger] s.rule.planned(ctx) == plan_of(id, ctx)
        },
        None => !is_provider(id),
    }
}

/// Constructs a CDN provider by id; nothing for an unknown id.
pub fn make(id: &str) -> (r: Option<Rule>)
    ensures
        provides(r, id@),
{
    if text::same(id, "cloudflare") {
        let p = MatchConst {
            id: "cloudflare",
            suffixes: &[&["cdn", "cloudflare", "net"]],
            ranges: &tables::CLOUDFLARE_RANGES,
            addr: Ipv6Addr { bits: CLOUDFLARE_ADDR },
            reference: Some("www.cloudflare.com"),
        };
        proof {
            plain_www_cloudflare_com();
            assert(suffix_texts(p.suffixes@) =~~= seq![seq!["cdn"@, "cloudflare"@, "net"@]]);
        }
        return Some(Rule { rule: Box::new(p) });
    }
    if text::same(id, "shopify") {
        let p = MatchConst {
            id: "shopify",
            suffixes: &[&["shopify", "com"], &["myshopify", "com"]],
            ranges: &tables::SHOPIFY_RANGES,
            addr: Ipv6Addr { bits: SHOPIFY_ADDR },
            reference: None,
        };
        proof {
            assert(suffix_texts(p.suffixes@) =~~= seq![seq!["shopify"@, "com"@], seq!["myshopify"@, "com"@]]);
        }
        return Some(Rule { rule: Box::new(p) });
    }
    if text::same(id, "webflow") {
        let p = MatchConst {
            id: "webflow",
            suffixes: &[&["webflow", "com"]],
            ranges: &tables::WEBFLOW_RANGES,
            addr: Ipv6Addr { bits: WEBFLOW_ADDR },
            reference: None,
        };
        proof {
            assert(suffix_texts(p.suffixes@) =~~= seq![seq!["webflow"@, "com"@]]);
        }
        return Some(Rule { rule: Box::new(p) });
    }
    if text::same(id, "weebly") {
        let p = MatchConst {
            id: "weebly",
            suffixes: &[&["weebly", "com"]],
            ranges: &tables::WEEBLY_RANGES,
            addr: Ipv6Addr { bits: WEEBLY_ADDR },
            reference: None,
        };
        proof {
            assert(suffix_texts(p.suffixes@) =~~= seq![seq!["weebly"@, "com"@]]);
        }
        return Some(Rule { rule: Box::new(p) });
    }
    if text::same(id, "cloudfront") {
        let p = MatchBorrow {
            id: "cloudfront",
            suffixes: &[&["cloudfront", "net"]],
            ranges: &tables::CLOUDFRONT_RANGES,
            soa_admin: None,
            reference: "static.twitchcdn.net",
            fallback: None,
        };
        proof {
            plain_static_twitchcdn_net();
            assert(suffix_texts(p.suffixes@) =~~= seq![seq!["cloudfront"@, "net"@]]);
        }
        return Some(Rule { rule: Box::new(p) });
    }
    if text::same(id, "bunnycdn") {
        let p = MatchBorrow {
            id: "bunnycdn",
            suffixes: &[&["b-cdn", "net"]],
            ranges: &[],
            soa_admin: None,
            reference: "bunnyfonts.b-cdn.net",
            fallback: Some(Ipv6Addr { bits: BUNNYCDN_ADDR }),
        };
        proof {
            plain_bunnyfonts_b_cdn_net();
            assert(suffix_texts(p.suffixes@) =~~= seq![seq!["b-cdn"@, "net"@]]);
            assert(p.ranges@ =~= Seq::<Cidr>::empty());
        }
        return Some(Rule { rule: Box::new(p) });
    }
    if text::same(id, "blazingcdn") {
        let p = MatchBorrow {
            id: "blazingcdn",
            suffixes: &[&["blazingcdn", "net"]],
            ranges: &[],
            soa_admin: None,
            reference: "cdn59455242.blazingcdn.net",
            fallback: Some(Ipv6Addr { bits: BLAZINGCDN_ADDR }),
        };
        proof {
            plain_cdn59455242_blazingcdn_net();
            assert(suffix_texts(p.suffixes@) =~~= seq![seq!["blazingcdn"@, "net"@]]);
            assert(p.ranges@ =~= Seq::<Cidr>::empty());
        }
        return Some(Rule { rule: Box::new(p) });
    }
    if text::same(id, "gcorecdn") {
        let p = MatchBorrow {
            id: "gcorecdn",
            suffixes: &[&["gcdn", "co"]],
            ranges: &[],
            soa_admin: None,
            reference: "d.gcdn.co",
            fallback: None,
        };
        proof {
            plain_d_gcdn_co();
            assert(suffix_texts(p.suffixes@) =~~= seq![seq!["gcdn"@, "co"@]]);
            assert(p.ranges@ =~= Seq::<Cidr>::empty());
        }
        return Some(Rule { rule: Box::new(p) });
    }
    if text::same(id, "cdn77") {
        let p = MatchBorrow {
            id: "cdn77",
            suffixes: &[&["cdn77", "org"]],
            ranges: &[],
            soa_admin: Some("admin.cdn77.com"),
            reference: "www.cdn77.com",
            fallback: None,
        };
        proof {
            plain_www_cdn77_com();
            assert(suffix_texts(p.suffixes@) =~~= seq![seq!["cdn77"@, "org"@]]);
            assert(p.ranges@ =~= Seq::<Cidr>::empty());
        }
        return Some(Rule { rule: Box::new(p) });
    }
    if text::same(id, "sucuri") {
        let p = MatchBorrow {
            id: "sucuri",
            suffixes: &[],
            ranges: &tables::SUCURI_RANGES,
            soa_admin: None,
            reference: "sucuri.net",
            fallback: None,
        };
        proof {
            plain_sucuri_net();
            assert(suffix_texts(p.suffixes@) =~~= Seq::<Seq<Seq<char>>>::empty());
        }
        return Some(Rule { rule: Box::new(p) });
    }
    if text::same(id, "netlify") {
        let p = MatchBorrow {
            id: "netlify",
            suffixes: &[&["netlify", "com"]],
            ranges: &tables::NETLIFY_RANGES,
            soa_admin: None,
            reference: "www.netlify.com",
            fallback: None,
        };
        proof {
            plain_www_netlify_com();
            assert(suffix_texts(p.suffixes@) =~~= seq![seq!["netlify"@, "com"@]]);
        }
        return Some(Rule { rule: Box::new(p) });
    }
    if text::same(id, "bearblog") {
        let p = MatchBorrow {
            id: "bearblog",
            suffixes: &[],
            ranges: &tables::BEARBLOG_RANGES,
            soa_admin: None,
            reference: "domain-proxy.bearblog.dev",
            fallback: None,
        };
        proof {
            plain_domain_proxy_bearblog_dev();
            assert(suffix_texts(p.suffixes@) =~~= Seq::<Seq<Seq<char>>>::empty());
        }
        return Some(Rule { rule: Box::new(p) });
    }
    if text::same(id, "alicdn") {
        let p = MatchBorrow {
            id: "alicdn",
            suffixes: &[&["alicdn", "com"]],
            ranges: &[],
            soa_admin: None,
            reference: "t.alicdn.com",
            fallback: None,
        };
        proof {
            plain_t_alicdn_com();
            assert(suffix_texts(p.suffixes@) =~~= seq![seq!["alicdn"@, "com"@]]);
            assert(p.ranges@ =~= Seq::<Cidr>::empty());
        }
        return Some(Rule { rule: Box::new(p) });
    }
    if text::same(id, "akamai") {
        return Some(
            Rule { rule: Box::new(MatchRewrite { id: "akamai", rewrite: Rewrite::Akamai }) },
        );
    }
    if text::same(id, "s3") {
        return Some(
            Rule { rule: Box::new(MatchRewrite { id: "s3", rewrite: Rewrite::S3 }) },
        );
    }
    if text::same(id, "oss") {
        return Some(
            Rule { rule: Box::new(MatchRewrite { id: "oss", rewrite: Rewrite::Oss }) },
        );
    }
    if text::same(id, "oracleobjectstorage") {
        return Some(
            Rule { rule: Box::new(MatchRewrite { id: "oracleobjectstorage", rewrite: Rewrite::Oracle }) },
        );
    }
    if text::same(id, "awsglb") {
        return Some(
            Rule { rule: Box::new(MatchRewrite { id: "awsglb", rewrite: Rewrite::Awsglb }) },
        );
    }
    if text::same(id, "edgecast") {
        return Some(
            Rule { rule: Box::new(MatchRewrite { id: "edgecast", rewrite: Rewrite::Edgecast }) },
        );
    }
    if text::same(id, "limelight") {
        return Some(
            Rule { rule: Box::new(MatchRewrite { id: "limelight", rewrite: Rewrite::Limelight }) },
        );
    }
    if text::same(id, "azurewebsites") {
        return Some(
            Rule { rule: Box::new(MatchRewrite { id: "azurewebsites", rewrite: Rewrite::Azure }) },
        );
    }
    if text::same(id, "fastly") {
        return Some(Rule { rule: Box::new(Fastly) });
    }
    if text::same(id, "msedge") {
        return Some(Rule { rule: Box::new(Msedge) });
    }
    if text::same(id, "wpvip") {
        return Some(Rule { rule: Box::new(Wpvip) });
    }
    if text::same(id, "cachefly") {
        return Some(Rule { rule: Box::new(Cachefly) });
    }
    None
}

} // verus!
