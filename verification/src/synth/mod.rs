//! AAAA synthesis: the pluggable synthesizer chain.
//!
//! A [`Synthesizer`] is a pure rule that, given a name and its upstream context,
//! may produce AAAA records for a name without any. It performs no lookups: it
//! returns a [`Plan`] of what to resolve and how to combine the result, and the
//! [`Chain`] says what to look up next and what comes of it.

use vstd::prelude::*;

use crate::dns;
use crate::dns::{Edns, Message, Name, Query, RData, Record, RecordType, Response, ResponseCode};
use crate::net;
use crate::net::{Ipv4Addr, Ipv6Addr};
use crate::synth::nat64::Nat64;
use crate::text;

pub mod address_laws;
pub mod cdn;
pub mod chain_laws;
pub mod cidr;
pub mod combine;
pub mod endpoint_laws;
pub mod labels;
pub mod laws;
pub mod nat64;
pub mod provider_laws;
pub mod rewrite;
pub mod rewrite_laws;
pub mod tables;

verus! {

// ---------------------------------------------------------------------------
// Contexts
// ---------------------------------------------------------------------------

/// Authority-section signals lifted from the AAAA response.
#[derive(Debug)]
pub struct Authority {
    /// The SOA RNAME (admin mailbox), such as `hostmaster.fastly.com.`.
    pub soa_admin: Option<Name>,
    /// The owner name of the SOA record (the zone apex).
    pub soa_zone: Option<Name>,
}

impl Default for Authority {
    /// No signals.
    fn default() -> (r: Self)
        ensures
            r.soa_admin is None,
            r.soa_zone is None,
    {
        Authority { soa_admin: None, soa_zone: None }
    }
}

/// Everything a synthesizer may inspect.
#[derive(Debug)]
pub struct SynthContext {
    /// The queried name.
    pub name: Name,
    /// CNAME targets seen in the AAAA answer chain, in order.
    pub cname_targets: Vec<Name>,
    /// The name's A records (address and TTL).
    pub a_records: Vec<(Ipv4Addr, u32)>,
    /// Authority-section signals from the AAAA response.
    pub authority: Authority,
}

/// What a synthesizer may inspect, as mathematical values.
pub struct CtxModel {
    pub name: Seq<char>,
    pub cnames: Seq<Seq<char>>,
    pub a: Seq<(Ipv4Addr, u32)>,
    pub admin: Option<Seq<char>>,
    pub zone: Option<Seq<char>>,
}

/// The text of an optional name.
pub open spec fn opt_text(n: Option<Name>) -> Option<Seq<char>> {
    match n {
        Some(n) => Some(n@),
        None => None,
    }
}

impl View for SynthContext {
    type V = CtxModel;

    open spec fn view(&self) -> CtxModel {
        CtxModel {
            name: self.name@,
            cnames: crate::dns::name_texts(self.cname_targets@),
            a: self.a_records@,
            admin: opt_text(self.authority.soa_admin),
            zone: opt_text(self.authority.soa_zone),
        }
    }
}

impl CtxModel {
    /// The hostnames that a provider matches against: the CNAME targets, then
    /// the queried name.
    pub open spec fn hosts(self) -> Seq<Seq<char>> {
        self.cnames.push(self.name)
    }

    /// The A addresses.
    pub open spec fn addrs(self) -> Seq<Ipv4Addr> {
        Seq::new(self.a.len(), |i: int| self.a[i].0)
    }
}

impl SynthContext {
    /// Builds a context.
    pub fn new(
        name: Name,
        cname_targets: Vec<Name>,
        a_records: Vec<(Ipv4Addr, u32)>,
        authority: Authority,
    ) -> (r: Self)
        ensures
            r.name == name,
            r.cname_targets == cname_targets,
            r.a_records == a_records,
            r.authority == authority,
    {
        SynthContext { name, cname_targets, a_records, authority }
    }

    /// The hostnames that a provider may match against, CNAME targets first (the
    /// CDN hostname is usually the chain's end), then the queried name.
    pub fn hostnames(&self) -> (r: Vec<&Name>)
        ensures
            r@.len() == self@.hosts().len(),
            forall|i: int| 0 <= i < r@.len() ==> (#[trigger] r@[i])@ == self@.hosts()[i],
    {
        let mut v: Vec<&Name> = Vec::new();
        let mut i: usize = 0;
        while i < self.cname_targets.len()
            invariant
                0 <= i <= self.cname_targets@.len(),
                v@.len() == i,
                forall|j: int| 0 <= j < i ==> (#[trigger] v@[j])@ == self.cname_targets@[j]@,
            decreases self.cname_targets@.len() - i,
        {
            v.push(&self.cname_targets[i]);
            i = i + 1;
        }
        v.push(&self.name);
        v
    }

    /// Just the A addresses, without their TTLs.
    pub fn a_addrs(&self) -> (r: Vec<Ipv4Addr>)
        ensures
            r@ == self@.addrs(),
    {
        let mut v: Vec<Ipv4Addr> = Vec::new();
        let mut i: usize = 0;
        while i < self.a_records.len()
            invariant
                0 <= i <= self.a_records@.len(),
                v@ == self@.addrs().take(i as int),
            decreases self.a_records@.len() - i,
        {
            v.push(self.a_records[i].0);
            assert(self@.addrs().take(i + 1) =~= self@.addrs().take(i as int).push(
                self.a_records@[i as int].0,
            ));
            i = i + 1;
        }
        assert(v@ =~= self@.addrs());
        v
    }
}

// ---------------------------------------------------------------------------
// Plans
// ---------------------------------------------------------------------------

/// A pure combinator: from the addresses resolved for the plan and the name's A
/// addresses to the synthesized IPv6 set.
#[derive(Debug)]
pub enum Combine {
    /// The resolved addresses.
    Verbatim,
    /// The resolved addresses, or the fallback where there are none.
    BorrowOr(Option<Ipv6Addr>),
    /// One constant address.
    Constant(Ipv6Addr),
    /// Each resolved address with a Fastly host id in its low 16 bits.
    Fuse(u32),
    /// The last octet of each A address, behind a Microsoft Edge prefix.
    Msedge(Ipv6Addr, bool),
    /// Each WordPress VIP address embedded.
    Wpvip,
    /// Each CacheFly address embedded.
    Cachefly,
    /// The eligible addresses of a name, embedded into a NAT64 prefix.
    Nat64 { prefix: Ipv6Addr, name: Name },
}

/// A combinator as a mathematical value.
pub enum CombineModel {
    Verbatim,
    BorrowOr(Option<Ipv6Addr>),
    Constant(Ipv6Addr),
    Fuse(u32),
    Msedge(Ipv6Addr, bool),
    Wpvip,
    Cachefly,
    Nat64(Ipv6Addr, Seq<char>),
}

impl View for Combine {
    type V = CombineModel;

    open spec fn view(&self) -> CombineModel {
        match self {
            Combine::Verbatim => CombineModel::Verbatim,
            Combine::BorrowOr(f) => CombineModel::BorrowOr(*f),
            Combine::Constant(a) => CombineModel::Constant(*a),
            Combine::Fuse(h) => CombineModel::Fuse(*h),
            Combine::Msedge(p, spo) => CombineModel::Msedge(*p, *spo),
            Combine::Wpvip => CombineModel::Wpvip,
            Combine::Cachefly => CombineModel::Cachefly,
            Combine::Nat64 { prefix, name } => CombineModel::Nat64(*prefix, name@),
        }
    }
}

/// What a synthesizer returns when it matches: names to resolve and how to turn
/// the result into addresses.
#[derive(Debug)]
pub struct Plan {
    /// Names whose AAAA records are needed before combining.
    pub resolve: Vec<Name>,
    /// From (resolved, original A) to synthesized addresses.
    pub combine: Combine,
}

/// A plan as a mathematical value.
pub struct PlanModel {
    pub resolve: Seq<Seq<char>>,
    pub combine: CombineModel,
}

impl View for Plan {
    type V = PlanModel;

    open spec fn view(&self) -> PlanModel {
        PlanModel {
            resolve: crate::dns::name_texts(self.resolve@),
            combine: self.combine@,
        }
    }
}

impl Plan {
    /// A plan that resolves nothing.
    pub fn pure(combine: Combine) -> (r: Self)
        ensures
            r@ == (PlanModel { resolve: Seq::empty(), combine: combine@ }),
    {
        let p = Plan { resolve: Vec::new(), combine };
        assert(p@.resolve =~= Seq::empty());
        p
    }

    /// A plan that resolves one name.
    pub fn one(name: Name, combine: Combine) -> (r: Self)
        ensures
            r@ == (PlanModel { resolve: seq![name@], combine: combine@ }),
    {
        let mut resolve: Vec<Name> = Vec::new();
        resolve.push(name);
        let p = Plan { resolve, combine };
        assert(p@.resolve =~= seq![name@]);
        p
    }
}

/// A pure rule that may synthesize AAAA for a name without any.
pub trait Synthesizer: Send + Sync {
    /// Whether the rule's own data is sound.
    spec fn valid(&self) -> bool;

    /// The identifier.
    spec fn ident(&self) -> Seq<char>;

    /// The plan for a context.
    spec fn planned(&self, ctx: CtxModel) -> Option<PlanModel>;

    /// Stable identifier used in config and precedence rules.
    fn id(&self) -> (r: &'static str)
        ensures
            r@ == self.ident(),
    ;

    /// Inspects the context; returns a plan if this synthesizer applies.
    fn detect(&self, ctx: &SynthContext) -> (r: Option<Plan>)
        requires
            self.valid(),
        ensures
            match r {
                Some(p) => self.planned(ctx@) == Some(p@),
                None => self.planned(ctx@) is None,
            },
    ;
}

/// A synthesizer of any kind.
pub struct Rule {
    pub rule: Box<dyn Synthesizer>,
}

// ---------------------------------------------------------------------------
// Addresses and TTLs
// ---------------------------------------------------------------------------

/// TTL of a synthesized record when no source TTL is available.
pub const DEFAULT_SYNTH_TTL: u32 = 300;

/// EDNS payload size of the chain's own reference lookups.
pub const EDNS_PAYLOAD: u16 = 1232;

/// A TTL, at most the cap where there is one.
pub open spec fn capped(ttl: u32, cap: Option<u32>) -> u32 {
    match cap {
        Some(c) => if c < ttl {
            c
        } else {
            ttl
        },
        None => ttl,
    }
}

/// Caps a TTL if a cap is configured.
pub fn capped_ttl(ttl: u32, cap: Option<u32>) -> (r: u32)
    ensures
        r == capped(ttl, cap),
{
    match cap {
        Some(c) => if c < ttl {
            c
        } else {
            ttl
        },
        None => ttl,
    }
}

/// Whether an address is a global unicast one: not unspecified, loopback,
/// multicast, link-local (`fe80::/10`) or unique local (`fc00::/7`).
pub open spec fn global_unicast(bits: u128) -> bool {
    let first = net::segment(bits as int, 0);
    &&& bits != 0
    &&& bits != 1
    &&& !(0xff00 <= first)
    &&& !(0xfe80 <= first < 0xfec0)
    &&& !(0xfc00 <= first < 0xfe00)
}

/// Whether a synthesized address is a sane global unicast IPv6 to serve.
pub fn is_global_unicast_v6(ip: Ipv6Addr) -> (r: bool)
    ensures
        r == global_unicast(ip.bits),
{
    let first: u128 = ip.bits / 0x10000000000000000000000000000;
    !(ip.bits == 0 || ip.bits == 1 || first >= 0xff00 || (0xfe80 <= first && first < 0xfec0) || (
    0xfc00 <= first && first < 0xfe00))
}

/// The global unicast addresses of a list, in order.
pub open spec fn global_only(v: Seq<Ipv6Addr>) -> Seq<Ipv6Addr>
    decreases v.len(),
{
    if v.len() == 0 {
        v
    } else if global_unicast(v.last().bits) {
        global_only(v.drop_last()).push(v.last())
    } else {
        global_only(v.drop_last())
    }
}

/// The smaller of an optional TTL and a TTL.
pub open spec fn ttl_min(a: Option<u32>, b: u32) -> u32 {
    match a {
        Some(x) => if x < b {
            x
        } else {
            b
        },
        None => b,
    }
}

/// The least TTL of a list of addresses with TTLs.
pub open spec fn least_ttl<A>(v: Seq<(A, u32)>) -> Option<u32>
    decreases v.len(),
{
    if v.len() == 0 {
        None
    } else {
        Some(ttl_min(least_ttl(v.drop_last()), v.last().1))
    }
}

/// The TTL that synthesized records start from: the least one of the resolved
/// addresses, else the least one of the A records, else the default.
pub open spec fn base_ttl(ctx: CtxModel, found: Seq<(Ipv6Addr, u32)>) -> u32 {
    match least_ttl(found) {
        Some(t) => t,
        None => match least_ttl(ctx.a) {
            Some(t) => t,
            None => DEFAULT_SYNTH_TTL,
        },
    }
}

fn find_least_ttl<A>(v: &[(A, u32)]) -> (r: Option<u32>)
    ensures
        r == least_ttl(v@),
{
    let mut best: Option<u32> = None;
    let mut i: usize = 0;
    while i < v.len()
        invariant
            0 <= i <= v@.len(),
            best == least_ttl(v@.take(i as int)),
        decreases v@.len() - i,
    {
        assert(v@.take(i + 1).drop_last() =~= v@.take(i as int));
        let t: u32 = v[i].1;
        best = match best {
            Some(b) => if b < t {
                Some(b)
            } else {
                Some(t)
            },
            None => Some(t),
        };
        i = i + 1;
    }
    assert(v@.take(v@.len() as int) =~= v@);
    best
}

// ---------------------------------------------------------------------------
// Lookups
// ---------------------------------------------------------------------------

/// The AAAA records of a list, as addresses with TTLs, in order.
pub open spec fn aaaa_of(v: Seq<Record>) -> Seq<(Ipv6Addr, u32)>
    decreases v.len(),
{
    if v.len() == 0 {
        Seq::empty()
    } else {
        match v.last().data {
            RData::Aaaa(a) => aaaa_of(v.drop_last()).push((a, v.last().ttl)),
            _ => aaaa_of(v.drop_last()),
        }
    }
}

/// The AAAA addresses of a response, with their TTLs.
pub fn extract_aaaa(resp: &Response) -> (r: Vec<(Ipv6Addr, u32)>)
    ensures
        r@ == aaaa_of(resp.answers@),
{
    let mut out: Vec<(Ipv6Addr, u32)> = Vec::new();
    let mut i: usize = 0;
    while i < resp.answers.len()
        invariant
            0 <= i <= resp.answers@.len(),
            out@ == aaaa_of(resp.answers@.take(i as int)),
        decreases resp.answers@.len() - i,
    {
        assert(resp.answers@.take(i + 1).drop_last() =~= resp.answers@.take(i as int));
        match &resp.answers[i].data {
            RData::Aaaa(a) => {
                out.push((*a, resp.answers[i].ttl));
            },
            _ => {},
        }
        i = i + 1;
    }
    assert(resp.answers@.take(resp.answers@.len() as int) =~= resp.answers@);
    out
}

/// What a reply to a reference lookup yields: the AAAA records of an answer
/// without error, nothing otherwise.
pub open spec fn reply_yields(reply: Option<Response>) -> Seq<(Ipv6Addr, u32)> {
    match reply {
        Some(resp) => if resp.rcode == ResponseCode::NoError {
            aaaa_of(resp.answers@)
        } else {
            Seq::empty()
        },
        None => Seq::empty(),
    }
}

/// The query for a name's AAAA records. The DO bit is clear, so that the
/// response cache applies.
pub fn aaaa_query(name: &Name) -> (r: Message)
    ensures
        r.queries@ == seq![
            (Query { name: *name, qtype: RecordType::Aaaa, qclass: dns::CLASS_IN }),
        ],
        !r.checking_disabled,
        r.edns == Some(Edns { payload: EDNS_PAYLOAD, dnssec_ok: false }),
{
    let q = Query { name: name.clone(), qtype: RecordType::Aaaa, qclass: dns::CLASS_IN };
    Message::one(q, false, Some(Edns { payload: EDNS_PAYLOAD, dnssec_ok: false }))
}

/// The addresses that a reply to [`aaaa_query`] yields.
pub fn resolve_aaaa(reply: &Option<Response>) -> (r: Vec<(Ipv6Addr, u32)>)
    ensures
        r@ == reply_yields(*reply),
{
    match reply {
        Some(resp) => match resp.rcode {
            ResponseCode::NoError => extract_aaaa(resp),
            _ => Vec::new(),
        },
        None => Vec::new(),
    }
}

// ---------------------------------------------------------------------------
// Registry and precedence
// ---------------------------------------------------------------------------

/// Every synthesizer id that may appear in a configuration, for error messages and
/// for the metrics.
pub const KNOWN_IDS: [&'static str; 26] = [
    "nat64",
    "fastly",
    "akamai",
    "cloudfront",
    "cloudflare",
    "shopify",
    "webflow",
    "s3",
    "oss",
    "alicdn",
    "oracleobjectstorage",
    "msedge",
    "bunnycdn",
    "blazingcdn",
    "gcorecdn",
    "cachefly",
    "cdn77",
    "awsglb",
    "weebly",
    "sucuri",
    "netlify",
    "bearblog",
    "azurewebsites",
    "wpvip",
    "edgecast",
    "limelight",
];

/// Whether an id is that of a synthesizer.
pub open spec fn is_synth(id: Seq<char>) -> bool {
    id == "nat64"@ || cdn::is_provider(id)
}

/// The plan of the synthesizer with the given id.
pub open spec fn synth_plan(id: Seq<char>, prefix: Ipv6Addr, ctx: CtxModel) -> Option<PlanModel> {
    if id == "nat64"@ {
        nat64::nat64_plan(prefix, ctx)
    } else {
        cdn::plan_of(id, ctx)
    }
}

/// What a synthesizer with the given id is.
pub open spec fn is_synthesizer(
    s: Rule,
    id: Seq<char>,
    prefix: Ipv6Addr,
) -> bool {
    &&& s.rule.valid()
    &&& s.rule.ident() == id
    &&& is_synth(id)
    &&& forall|ctx: CtxModel| #[trigger] s.rule.planned(ctx) == synth_plan(id, prefix, ctx)
}

/// Constructs a synthesizer by id; nothing for an unknown id.
fn make_synthesizer(id: &str, nat64_prefix: Ipv6Addr) -> (r: Option<Rule>)
    ensures
        match r {
            Some(s) => is_synthesizer(s, id@, nat64_prefix),
            None => !is_synth(id@),
        },
{
    if text::same(id, "nat64") {
        let n = Nat64::new(nat64_prefix);
        return Some(Rule { rule: Box::new(n) });
    }
    cdn::make(id)
}

/// Two ids in the order of their first places, where both occur.
pub open spec fn precedes(ids: Seq<Seq<char>>, a: Seq<char>, b: Seq<char>) -> bool {
    let i = labels::index_of(ids, a);
    let j = labels::index_of(ids, b);
    i >= 0 && j >= 0 ==> i <= j
}

/// Why a list of ids makes no chain.
#[derive(Debug)]
pub enum ChainError {
    /// The first id must precede the second.
    Order(&'static str, &'static str),
    /// There is no such synthesizer.
    Unknown(String),
}

/// The hard precedence constraints hold: a specific provider runs before the
/// generic one that would shadow it.
pub open spec fn order_holds(ids: Seq<Seq<char>>) -> bool {
    precedes(ids, "shopify"@, "cloudflare"@) && precedes(ids, "webflow"@, "cloudflare"@)
}

/// The constraint that a list of ids breaks first.
pub open spec fn breaks(ids: Seq<Seq<char>>, e: ChainError) -> bool {
    e matches ChainError::Order(a, b) && b@ == "cloudflare"@ && if !precedes(
        ids,
        "shopify"@,
        "cloudflare"@,
    ) {
        a@ == "shopify"@
    } else {
        !precedes(ids, "webflow"@, "cloudflare"@) && a@ == "webflow"@
    }
}

fn in_order(ids: &Vec<String>, a: &str, b: &str) -> (r: bool)
    ensures
        r == precedes(text::texts(ids@), a@, b@),
{
    match (labels::position(ids, a), labels::position(ids, b)) {
        (Some(i), Some(j)) => i <= j,
        _ => true,
    }
}

/// Validates the configured order: specific before generic.
pub fn validate_order(ids: &Vec<String>) -> (r: Result<(), ChainError>)
    ensures
        match r {
            Ok(_) => order_holds(text::texts(ids@)),
            Err(e) => breaks(text::texts(ids@), e),
        },
{
    if !in_order(ids, "shopify", "cloudflare") {
        return Err(ChainError::Order("shopify", "cloudflare"));
    }
    if !in_order(ids, "webflow", "cloudflare") {
        return Err(ChainError::Order("webflow", "cloudflare"));
    }
    Ok(())
}

/// Whether `nat64` is in the chain but not last, where anything after it can only
/// run when NAT64 produced nothing.
pub fn nat64_is_not_last(ids: &Vec<String>) -> (r: bool)
    ensures
        r == (labels::index_of(text::texts(ids@), "nat64"@) >= 0 && labels::index_of(
            text::texts(ids@),
            "nat64"@,
        ) != ids@.len() - 1),
{
    match labels::position(ids, "nat64") {
        Some(p) => {
            proof {
                labels::index_of_is_first(text::texts(ids@), "nat64"@);
            }
            p != ids.len() - 1
        },
        None => false,
    }
}

/// Texts with a comma and a space between each two.
pub open spec fn comma_list(p: Seq<&str>) -> Seq<char>
    decreases p.len(),
{
    if p.len() == 0 {
        Seq::empty()
    } else if p.len() == 1 {
        p[0]@
    } else {
        comma_list(p.drop_last()) + ", "@ + p.last()@
    }
}

fn push_comma_list(s: &mut String, p: &[&str])
    ensures
        final(s)@ == old(s)@ + comma_list(p@),
{
    let mut i: usize = 0;
    assert(s@ =~= old(s)@ + comma_list(p@.take(0)));
    while i < p.len()
        invariant
            0 <= i <= p@.len(),
            s@ == old(s)@ + comma_list(p@.take(i as int)),
        decreases p@.len() - i,
    {
        let ghost q = p@.take(i + 1);
        assert(q.drop_last() =~= p@.take(i as int));
        if i > 0 {
            s.append(", ");
        } else {
            assert(comma_list(p@.take(0)) =~= Seq::<char>::empty());
        }
        s.append(p[i]);
        assert(s@ =~= old(s)@ + comma_list(q));
        i = i + 1;
    }
    assert(p@.take(p@.len() as int) =~= p@);
}

/// The words of an error.
pub open spec fn error_text(e: ChainError) -> Seq<char> {
    match e {
        ChainError::Order(a, b) => "synthesizer order: "@ + text::quoted(a@) + " must precede "@
            + text::quoted(b@)
            + " (a specific provider cannot follow the generic one that shadows it)"@,
        ChainError::Unknown(id) => "unknown synthesizer "@ + text::quoted(id@) + "; known ids: "@
            + comma_list(KNOWN_IDS@),
    }
}

impl ChainError {
    /// The error in words.
    pub fn message(&self) -> (r: String)
        ensures
            r@ == error_text(*self),
    {
        let mut m: String = String::new();
        match self {
            ChainError::Order(a, b) => {
                m.append("synthesizer order: ");
                m.append(text::quote(a).as_str());
                m.append(" must precede ");
                m.append(text::quote(b).as_str());
                m.append(" (a specific provider cannot follow the generic one that shadows it)");
            },
            ChainError::Unknown(id) => {
                m.append("unknown synthesizer ");
                m.append(text::quote(id.as_str()).as_str());
                m.append("; known ids: ");
                push_comma_list(&mut m, &KNOWN_IDS);
            },
        }
        assert(m@ =~= error_text(*self));
        m
    }
}

// ---------------------------------------------------------------------------
// The chain
// ---------------------------------------------------------------------------

/// The ordered synthesizer chain.
pub struct Chain {
    synths: Vec<Rule>,
    prefix: Ipv6Addr,
    ttl_cap: Option<u32>,
    /// Present when the fallback is enabled *and* `nat64` is in the chain, that
    /// is, a translator exists.
    nat64_fallback: Option<Nat64>,
}

/// A chain as mathematical values.
pub struct ChainModel {
    pub ids: Seq<Seq<char>>,
    pub prefix: Ipv6Addr,
    pub cap: Option<u32>,
    pub fallback: bool,
}

impl View for Chain {
    type V = ChainModel;

    closed spec fn view(&self) -> ChainModel {
        ChainModel {
            ids: Seq::new(self.synths@.len(), |i: int| self.synths@[i].rule.ident()),
            prefix: self.prefix,
            cap: self.ttl_cap,
            fallback: self.nat64_fallback is Some,
        }
    }
}

/// Addresses with TTLs: what records are made of.
pub type Addrs = Seq<(Ipv6Addr, u32)>;

/// The addresses that a plan gives once its names are resolved, with their TTL;
/// none where nothing usable came out.
pub open spec fn plan_yields(p: PlanModel, ctx: CtxModel, found: Addrs, cap: Option<u32>) -> Addrs {
    let resolved = Seq::new(found.len(), |i: int| found[i].0);
    let out = global_only(combine::combined(p.combine, resolved, ctx.addrs()));
    let ttl = capped(base_ttl(ctx, found), cap);
    Seq::new(out.len(), |i: int| (out[i], ttl))
}

/// The addresses that are appended when a synthesizer wins: those of NAT64 when
/// a provider won and the fallback is on.
pub open spec fn appended(c: ChainModel, id: Seq<char>, ctx: CtxModel) -> Addrs {
    if id != "nat64"@ && c.fallback {
        match nat64::nat64_plan(c.prefix, ctx) {
            Some(p) => plan_yields(p, ctx, Seq::empty(), c.cap),
            None => Seq::empty(),
        }
    } else {
        Seq::empty()
    }
}

/// What comes of the synthesizer at place `i` once its names are resolved: its
/// id and the addresses, or nothing.
pub open spec fn win(c: ChainModel, i: int, ctx: CtxModel, found: Addrs) -> Option<
    (Seq<char>, Addrs),
> {
    match synth_plan(c.ids[i], c.prefix, ctx) {
        Some(p) => {
            let got = plan_yields(p, ctx, found, c.cap);
            if got.len() > 0 {
                Some((c.ids[i], got + appended(c, c.ids[i], ctx)))
            } else {
                None
            }
        },
        None => None,
    }
}

/// Where a run of the chain stands: names to resolve for the synthesizer at a
/// place, or the end.
pub enum StepModel {
    Lookup(int, Seq<Seq<char>>),
    Done(Option<(Seq<char>, Addrs)>),
}

/// The step from place `i` on: the first synthesizer with a plan.
pub open spec fn step_from(c: ChainModel, i: int, ctx: CtxModel) -> StepModel
    decreases c.ids.len() - i,
{
    if i >= c.ids.len() {
        StepModel::Done(None)
    } else {
        match synth_plan(c.ids[i], c.prefix, ctx) {
            Some(p) => StepModel::Lookup(i, p.resolve),
            None => step_from(c, i + 1, ctx),
        }
    }
}

/// The step after the lookups for the synthesizer at place `i`.
pub open spec fn step_after(c: ChainModel, i: int, ctx: CtxModel, found: Addrs) -> StepModel {
    if i >= c.ids.len() {
        StepModel::Done(None)
    } else {
        match win(c, i, ctx, found) {
            Some(w) => StepModel::Done(Some(w)),
            None => step_from(c, i + 1, ctx),
        }
    }
}

/// A synthesized answer and the id of the synthesizer that produced it.
#[derive(Debug)]
pub struct Synthesized {
    pub records: Vec<Record>,
    pub id: &'static str,
}

/// What to do next in a run of the chain.
#[derive(Debug)]
pub enum Step {
    /// Resolve the AAAA records of `names` and hand what is found to
    /// [`Chain::resume`], with `index`.
    Lookup { index: usize, names: Vec<Name> },
    /// The chain has run: its answer, if any synthesizer produced records.
    Done(Option<Synthesized>),
}

/// The AAAA records of a name for some addresses.
pub open spec fn are_records(v: Seq<Record>, name: Seq<char>, addrs: Addrs) -> bool {
    &&& v.len() == addrs.len()
    &&& forall|i: int|
        0 <= i < v.len() ==> {
            &&& (#[trigger] v[i]).name@ == name
            &&& v[i].rtype == RecordType::Aaaa
            &&& v[i].ttl == addrs[i].1
            &&& v[i].data == RData::Aaaa(addrs[i].0)
            &&& v[i].wire@.len() == 0
        }
}

/// A step and its mathematical value.
pub open spec fn is_step(s: Step, m: StepModel, name: Seq<char>) -> bool {
    match (s, m) {
        (Step::Lookup { index, names }, StepModel::Lookup(i, p)) => index == i && dns::name_texts(
            names@,
        ) == p,
        (Step::Done(Some(a)), StepModel::Done(Some(w))) => a.id@ == w.0 && are_records(
            a.records@,
            name,
            w.1,
        ),
        (Step::Done(None), StepModel::Done(None)) => true,
        _ => false,
    }
}

impl Chain {
    /// Every member is the synthesizer of its id.
    #[verifier::type_invariant]
    closed spec fn wf(self) -> bool {
        &&& forall|i: int|
            0 <= i < self.synths@.len() ==> #[trigger] is_synthesizer(
                self.synths@[i],
                self.synths@[i].rule.ident(),
                self.prefix,
            )
        &&& self.nat64_fallback is Some ==> self.nat64_fallback->0.net() == self.prefix
    }

    /// Builds a chain from the configured synthesizer ids (order = precedence).
    /// Every id must be known and the hard precedence constraints must hold.
    pub fn build(
        ids: &Vec<String>,
        nat64_prefix: Ipv6Addr,
        ttl_cap: Option<u32>,
        nat64_fallback: bool,
    ) -> (r: Result<Self, ChainError>)
        ensures
            match r {
                Ok(c) => {
                    &&& order_holds(text::texts(ids@))
                    &&& forall|i: int| 0 <= i < ids@.len() ==> is_synth(#[trigger] ids@[i]@)
                    &&& c@.ids == text::texts(ids@)
                    &&& c@.prefix == nat64_prefix
                    &&& c@.cap == ttl_cap
                    &&& c@.fallback == (nat64_fallback && text::texts(ids@).contains("nat64"@))
                },
                Err(e) => if order_holds(text::texts(ids@)) {
                    exists|i: int|
                        0 <= i < ids@.len() && !is_synth(#[trigger] ids@[i]@) && (
                        e matches ChainError::Unknown(t) && t@ == ids@[i]@) && forall|j: int|
                            0 <= j < i ==> is_synth(#[trigger] ids@[j]@)
                } else {
                    breaks(text::texts(ids@), e)
                },
            },
    {
        match validate_order(ids) {
            Ok(_) => {},
            Err(e) => {
                return Err(e);
            },
        }
        let mut synths: Vec<Rule> = Vec::new();
        let mut i: usize = 0;
        while i < ids.len()
            invariant
                order_holds(text::texts(ids@)),
                0 <= i <= ids@.len(),
                synths@.len() == i,
                forall|j: int|
                    0 <= j < i ==> #[trigger] is_synthesizer(
                        synths@[j],
                        ids@[j]@,
                        nat64_prefix,
                    ),
            decreases ids@.len() - i,
        {
            match make_synthesizer(ids[i].as_str(), nat64_prefix) {
                Some(s) => {
                    synths.push(s);
                },
                None => {
                    assert forall|j: int| 0 <= j < i implies is_synth(#[trigger] ids@[j]@) by {
                        assert(is_synthesizer(synths@[j], ids@[j]@, nat64_prefix));
                    }
                    assert(!is_synth(ids@[i as int]@));
                    return Err(ChainError::Unknown(ids[i].clone()));
                },
            }
            i = i + 1;
        }
        let in_chain: bool = labels::position(ids, "nat64").is_some();
        proof {
            let t = text::texts(ids@);
            labels::index_of_is_first(t, "nat64"@);
            if t.contains("nat64"@) {
                let k = t.index_of("nat64"@);
                assert(t[k] == "nat64"@);
            }
        }
        let fallback: Option<Nat64> = if nat64_fallback && in_chain {
            Some(Nat64::new(nat64_prefix))
        } else {
            None
        };
        proof {
            assert forall|j: int| 0 <= j < synths@.len() implies #[trigger] is_synthesizer(
                synths@[j],
                synths@[j].rule.ident(),
                nat64_prefix,
            ) && synths@[j].rule.ident() == ids@[j]@ by {
                assert(is_synthesizer(synths@[j], ids@[j]@, nat64_prefix));
            }
        }
        let c = Chain { synths, prefix: nat64_prefix, ttl_cap, nat64_fallback: fallback };
        proof {
            assert forall|j: int| 0 <= j < ids@.len() implies c@.ids[j] == text::texts(
                ids@,
            )[j] by {
                assert(is_synthesizer(synths@[j], ids@[j]@, nat64_prefix));
            }
            assert(c@.ids =~= text::texts(ids@));
            assert forall|j: int| 0 <= j < ids@.len() implies is_synth(#[trigger] ids@[j]@) by {
                assert(is_synthesizer(synths@[j], ids@[j]@, nat64_prefix));
            }
        }
        Ok(c)
    }

    /// Executes one plan: combines what was found, keeps what can be served, and
    /// builds AAAA records; none if nothing usable came out.
    fn run_plan(&self, plan: &Plan, ctx: &SynthContext, found: &[(Ipv6Addr, u32)]) -> (r: Vec<
        Record,
    >)
        ensures
            are_records(r@, ctx.name@, plan_yields(plan@, ctx@, found@, self@.cap)),
    {
        let mut resolved: Vec<Ipv6Addr> = Vec::new();
        let ghost all = Seq::new(found@.len(), |i: int| found@[i].0);
        let mut i: usize = 0;
        while i < found.len()
            invariant
                0 <= i <= found@.len(),
                all == Seq::new(found@.len(), |i: int| found@[i].0),
                resolved@ == all.take(i as int),
            decreases found@.len() - i,
        {
            resolved.push(found[i].0);
            assert(all.take(i + 1) =~= all.take(i as int).push(found@[i as int].0));
            i = i + 1;
        }
        assert(resolved@ =~= all);
        let v4 = ctx.a_addrs();
        let combined = plan.combine.apply(resolved.as_slice(), v4.as_slice());
        let base: u32 = match find_least_ttl(found) {
            Some(t) => t,
            None => match find_least_ttl(ctx.a_records.as_slice()) {
                Some(t) => t,
                None => DEFAULT_SYNTH_TTL,
            },
        };
        let ttl: u32 = capped_ttl(base, self.ttl_cap);
        let ghost out = global_only(combined@);
        let mut records: Vec<Record> = Vec::new();
        let mut k: usize = 0;
        while k < combined.len()
            invariant
                0 <= k <= combined@.len(),
                are_records(
                    records@,
                    ctx.name@,
                    Seq::new(
                        global_only(combined@.take(k as int)).len(),
                        |i: int| (global_only(combined@.take(k as int))[i], ttl),
                    ),
                ),
            decreases combined@.len() - k,
        {
            assert(combined@.take(k + 1).drop_last() =~= combined@.take(k as int));
            if is_global_unicast_v6(combined[k]) {
                records.push(
                    Record {
                        name: ctx.name.clone(),
                        rtype: RecordType::Aaaa,
                        ttl,
                        data: RData::Aaaa(combined[k]),
                        wire: Vec::new(),
                    },
                );
            }
            k = k + 1;
        }
        assert(combined@.take(combined@.len() as int) =~= combined@);
        records
    }

    fn next(&self, from: usize, ctx: &SynthContext) -> (r: Step)
        ensures
            is_step(r, step_from(self@, from as int, ctx@), ctx.name@),
    {
        proof {
            use_type_invariant(self);
        }
        let n: usize = self.synths.len();
        let mut i: usize = from;
        while i < n
            invariant
                self.wf(),
                n == self.synths@.len(),
                from <= i,
                i <= n || i == from,
                step_from(self@, from as int, ctx@) == step_from(self@, i as int, ctx@),
            decreases n - i,
        {
            assert(is_synthesizer(
                self.synths@[i as int],
                self.synths@[i as int].rule.ident(),
                self.prefix,
            ));
            match self.synths[i].rule.detect(ctx) {
                Some(plan) => {
                    return Step::Lookup { index: i, names: plan.resolve };
                },
                None => {},
            }
            i = i + 1;
        }
        Step::Done(None)
    }

    /// Begins to synthesize AAAA records for a name without any.
    pub fn synthesize(&self, ctx: &SynthContext) -> (r: Step)
        ensures
            is_step(r, step_from(self@, 0, ctx@), ctx.name@),
    {
        self.next(0, ctx)
    }

    /// Goes on with the AAAA addresses that were found for the names of the
    /// synthesizer at place `index`, in the order of the names.
    pub fn resume(&self, ctx: &SynthContext, index: usize, found: &[(Ipv6Addr, u32)]) -> (r: Step)
        ensures
            is_step(r, step_after(self@, index as int, ctx@, found@), ctx.name@),
    {
        proof {
            use_type_invariant(self);
        }
        if index >= self.synths.len() {
            return Step::Done(None);
        }
        assert(is_synthesizer(
            self.synths@[index as int],
            self.synths@[index as int].rule.ident(),
            self.prefix,
        ));
        match self.synths[index].rule.detect(ctx) {
            Some(plan) => {
                let mut records = self.run_plan(&plan, ctx, found);
                if records.len() > 0 {
                    let id = self.synths[index].rule.id();
                    let ghost first = plan_yields(plan@, ctx@, found@, self@.cap);
                    if !text::same(id, "nat64") {
                        match &self.nat64_fallback {
                            Some(n) => match n.detect(ctx) {
                                Some(p) => {
                                    let none: Vec<(Ipv6Addr, u32)> = Vec::new();
                                    let mut extra = self.run_plan(&p, ctx, none.as_slice());
                                    let ghost a = records@;
                                    let ghost b = extra@;
                                    records.append(&mut extra);
                                    assert(records@ =~= a + b);
                                },
                                None => {},
                            },
                            None => {},
                        }
                    }
                    assert(are_records(
                        records@,
                        ctx.name@,
                        first + appended(self@, id@, ctx@),
                    ));
                    return Step::Done(Some(Synthesized { records, id }));
                }
            },
            None => {},
        }
        self.next(index + 1, ctx)
    }
}

} // verus!
