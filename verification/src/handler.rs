//! The DNS64 request handler.
//!
//! For an AAAA query (class IN, CD bit clear) the AAAA and A records are looked up
//! together. A name with native AAAA records, or one that does not exist, has the
//! upstream answer relayed untouched. Where there are no AAAA records, the
//! synthesizer chain runs; what it produces is sent with the AD bit clear, and
//! where it produces nothing the empty answer is relayed. Every other query is
//! passed through.
//!
//! Before any of that, and before any cache lookup or upstream query, a client
//! outside the allowlist is refused, and a name on the blocklist does not exist.

use vstd::prelude::*;

use crate::acl;
use crate::acl::ClientAcl;
use crate::blocklist;
use crate::blocklist::Blocklist;
use crate::dns;
use crate::dns::{Edns, Message, Name, Query, RData, Record, RecordType, Response, ResponseCode};
use crate::metrics;
use crate::metrics::{Counters, Metrics, MetricsModel};
use crate::net::{IpAddr, Ipv4Addr};
use crate::querylog;
use crate::querylog::{Entry, Outcome, QueryLog};
use crate::synth::{Authority, CtxModel, SynthContext, Synthesized, EDNS_PAYLOAD};
use crate::upstream::CacheStatus;

verus! {

/// The code of a standard query.
pub const OP_QUERY: u8 = 0;

/// A request as a client sent it.
#[derive(Debug)]
pub struct Request {
    pub op_code: u8,
    /// Whether it calls itself a response.
    pub is_response: bool,
    pub queries: Vec<Query>,
    /// The CD bit.
    pub checking_disabled: bool,
    pub edns: Option<Edns>,
    pub client: IpAddr,
}

/// What is sent to a client.
#[derive(Debug)]
pub enum Reply {
    /// An error: its code, and nothing else.
    Error(ResponseCode),
    /// An answer, recursion available.
    Answer {
        rcode: ResponseCode,
        /// The AD bit.
        authentic: bool,
        answers: Vec<Record>,
        authority: Vec<Record>,
        additionals: Vec<Record>,
        edns: Option<Edns>,
    },
}

/// What a finished request observed, for the query log.
#[derive(Debug, Clone, Copy)]
pub struct Observation {
    pub rcode: ResponseCode,
    pub cache: CacheStatus,
    pub outcome: Outcome,
}

/// What to do with a request.
#[derive(Debug)]
pub enum Next {
    /// Send the reply. Without an observation nothing is logged.
    Reply(Reply, Option<Observation>),
    /// Resolve the message, and pass the result to [`passthrough`].
    Forward(Message),
    /// Resolve both messages together, and pass the results to [`handle_dns64`].
    Dns64 { aaaa: Message, a: Message },
}

// ---------------------------------------------------------------------------
// Messages
// ---------------------------------------------------------------------------

/// Whether a client sets the DO bit.
pub open spec fn wants_dnssec(edns: Option<Edns>) -> bool {
    edns is Some && edns->0.dnssec_ok
}

/// A message is the upstream query for a question of a request.
pub open spec fn is_upstream_query(request: Request, query: Query, m: Message) -> bool {
    &&& m.queries@ == seq![query]
    &&& m.checking_disabled == request.checking_disabled
    &&& m.edns == Some(
        Edns { payload: EDNS_PAYLOAD, dnssec_ok: wants_dnssec(request.edns) },
    )
}

/// Builds an upstream query, with the client's CD bit and DO bit, so that DNSSEC
/// behaviour is preserved end to end.
pub fn upstream_query(request: &Request, query: Query) -> (r: Message)
    ensures
        is_upstream_query(*request, query, r),
{
    let dnssec_ok: bool = match request.edns {
        Some(e) => e.dnssec_ok,
        None => false,
    };
    Message::one(
        query,
        request.checking_disabled,
        Some(Edns { payload: EDNS_PAYLOAD, dnssec_ok }),
    )
}

/// The EDNS part of a response: only for a client that used EDNS, its DO bit
/// mirrored.
pub open spec fn mirrored(edns: Option<Edns>) -> Option<Edns> {
    match edns {
        Some(e) => Some(Edns { payload: EDNS_PAYLOAD, dnssec_ok: e.dnssec_ok }),
        None => None,
    }
}

/// The EDNS part of a response to a request.
pub fn response_edns(request: &Request) -> (r: Option<Edns>)
    ensures
        r == mirrored(request.edns),
{
    match request.edns {
        Some(e) => Some(Edns { payload: EDNS_PAYLOAD, dnssec_ok: e.dnssec_ok }),
        None => None,
    }
}

/// The reply that relays an upstream response.
pub open spec fn relayed(request: Request, resp: Response) -> Reply {
    Reply::Answer {
        rcode: resp.rcode,
        authentic: resp.authentic,
        answers: resp.answers,
        authority: resp.authority,
        additionals: resp.additionals,
        edns: mirrored(request.edns),
    }
}

/// Faithfully relays an upstream response: all sections, response code and the AD
/// bit.
pub fn relay(request: &Request, resp: Response) -> (r: Reply)
    ensures
        r == relayed(*request, resp),
{
    Reply::Answer {
        rcode: resp.rcode,
        authentic: resp.authentic,
        answers: resp.answers,
        authority: resp.authority,
        additionals: resp.additionals,
        edns: response_edns(request),
    }
}

/// A reply is a synthesized answer with the given records.
pub open spec fn is_synthesized(request: Request, records: Vec<Record>, r: Reply) -> bool {
    r matches Reply::Answer { rcode, authentic, answers, authority, additionals, edns } && rcode
        == ResponseCode::NoError && !authentic && answers == records && authority@.len() == 0
        && additionals@.len() == 0 && edns == mirrored(request.edns)
}

/// A synthesized answer. Synthesized data is unsigned, so that the AD bit is
/// clear; a CNAME chain is not reproduced.
pub fn synthesized(request: &Request, records: Vec<Record>) -> (r: Reply)
    ensures
        is_synthesized(*request, records, r),
{
    Reply::Answer {
        rcode: ResponseCode::NoError,
        authentic: false,
        answers: records,
        authority: Vec::new(),
        additionals: Vec::new(),
        edns: response_edns(request),
    }
}

// ---------------------------------------------------------------------------
// Counting
// ---------------------------------------------------------------------------

/// The metrics after a response with a code.
pub open spec fn with_rcode(m: MetricsModel, code: ResponseCode) -> MetricsModel {
    metrics::with_counters(
        m,
        Counters { rcode: metrics::rcode_bumped(m.c.rcode, code), ..m.c },
    )
}

/// The metrics after a question of a type.
pub open spec fn with_qtype(m: MetricsModel, rt: RecordType) -> MetricsModel {
    MetricsModel {
        qtypes: m.qtypes.update(
            metrics::bucket(rt),
            metrics::bump(m.qtypes[metrics::bucket(rt)]),
        ),
        ..m
    }
}

// ---------------------------------------------------------------------------
// Requests
// ---------------------------------------------------------------------------

/// The courses that a request can take.
pub enum Route {
    /// It is no standard query.
    NotImplemented,
    /// It has not exactly one question.
    Malformed,
    /// Its client is outside the allowlist.
    Refused,
    /// Its name is on the blocklist.
    Blocked,
    /// It is an AAAA query, class IN, CD bit clear.
    Dns64,
    /// It is any other query.
    Forward,
}

/// Whether a question is subject to synthesis.
pub open spec fn is_dns64(request: Request) -> bool {
    let q = request.queries@[0];
    q.qtype == RecordType::Aaaa && q.qclass == dns::CLASS_IN && !request.checking_disabled
}

/// Whether a name is on an optional blocklist.
pub open spec fn on_blocklist(list: Option<Blocklist>, name: Seq<char>) -> bool {
    list is Some && blocklist::blocked_by(name, list->0.blocks(), list->0.allows())
}

/// The course of a request.
pub open spec fn route(request: Request, nets: Seq<acl::Net6>, list: Option<Blocklist>) -> Route {
    if request.op_code != OP_QUERY || request.is_response {
        Route::NotImplemented
    } else if request.queries@.len() != 1 {
        Route::Malformed
    } else if !acl::admits(nets, request.client) {
        Route::Refused
    } else if on_blocklist(list, request.queries@[0].name@) {
        Route::Blocked
    } else if is_dns64(request) {
        Route::Dns64
    } else {
        Route::Forward
    }
}

/// What is done with a request on its course.
pub open spec fn is_next(request: Request, route: Route, next: Next) -> bool {
    let q = request.queries@[0];
    match route {
        Route::NotImplemented => next == Next::Reply(Reply::Error(ResponseCode::NotImp), None),
        Route::Malformed => next == Next::Reply(Reply::Error(ResponseCode::FormErr), None),
        Route::Refused => next == Next::Reply(
            Reply::Error(ResponseCode::Refused),
            Some(
                Observation {
                    rcode: ResponseCode::Refused,
                    cache: CacheStatus::Uncached,
                    outcome: Outcome::Refused,
                },
            ),
        ),
        Route::Blocked => next == Next::Reply(
            Reply::Error(ResponseCode::NXDomain),
            Some(
                Observation {
                    rcode: ResponseCode::NXDomain,
                    cache: CacheStatus::Uncached,
                    outcome: Outcome::Blocked,
                },
            ),
        ),
        Route::Dns64 => next matches Next::Dns64 { aaaa, a } && is_upstream_query(request, q, aaaa)
            && is_upstream_query(
            request,
            Query { name: q.name, qtype: RecordType::A, qclass: dns::CLASS_IN },
            a,
        ),
        Route::Forward => next matches Next::Forward(m) && is_upstream_query(request, q, m),
    }
}

/// The metrics after a request was looked at.
pub open spec fn counted(request: Request, route: Route, m: MetricsModel) -> MetricsModel {
    let asked = with_qtype(m, request.queries@[0].qtype);
    match route {
        Route::NotImplemented => with_rcode(m, ResponseCode::NotImp),
        Route::Malformed => with_rcode(m, ResponseCode::FormErr),
        Route::Refused => with_rcode(asked, ResponseCode::Refused),
        Route::Blocked => with_rcode(
            metrics::with_counters(
                asked,
                Counters { blocked: metrics::bump(asked.c.blocked), ..asked.c },
            ),
            ResponseCode::NXDomain,
        ),
        Route::Dns64 => metrics::with_counters(
            asked,
            Counters { queries_dns64: metrics::bump(asked.c.queries_dns64), ..asked.c },
        ),
        Route::Forward => metrics::with_counters(
            asked,
            Counters {
                queries_passthrough: metrics::bump(asked.c.queries_passthrough),
                ..asked.c
            },
        ),
    }
}

/// Decides on requests: who may ask, and which names exist.
pub struct Dns64Handler {
    acl: ClientAcl,
    blocklist: Option<Blocklist>,
}

impl Dns64Handler {
    /// The networks whose clients may ask; none admits every client.
    pub closed spec fn networks(&self) -> Seq<acl::Net6> {
        self.acl@
    }

    /// The blocklist, where there is one.
    pub closed spec fn list(&self) -> Option<Blocklist> {
        self.blocklist
    }

    /// A handler with an allowlist and an optional blocklist.
    pub fn new(acl: ClientAcl, blocklist: Option<Blocklist>) -> (r: Self)
        ensures
            r.networks() == acl@,
            r.list() == blocklist,
    {
        Dns64Handler { acl, blocklist }
    }

    /// Decides what is done with a request.
    pub fn handle_request(&self, request: &Request, metrics: &mut Metrics) -> (r: Next)
        ensures
            is_next(*request, route(*request, self.networks(), self.list()), r),
            final(metrics)@ == counted(
                *request,
                route(*request, self.networks(), self.list()),
                old(metrics)@,
            ),
    {
        if request.op_code != OP_QUERY || request.is_response {
            metrics.record_rcode(ResponseCode::NotImp);
            return Next::Reply(Reply::Error(ResponseCode::NotImp), None);
        }
        if request.queries.len() != 1 {
            metrics.record_rcode(ResponseCode::FormErr);
            return Next::Reply(Reply::Error(ResponseCode::FormErr), None);
        }
        let query = request.queries[0].clone();
        metrics.record_qtype(query.qtype);
        if !self.acl.allows(request.client) {
            metrics.record_rcode(ResponseCode::Refused);
            return Next::Reply(
                Reply::Error(ResponseCode::Refused),
                Some(
                    Observation {
                        rcode: ResponseCode::Refused,
                        cache: CacheStatus::Uncached,
                        outcome: Outcome::Refused,
                    },
                ),
            );
        }
        let blocked: bool = match &self.blocklist {
            Some(list) => list.is_blocked(&query.name),
            None => false,
        };
        if blocked {
            metrics.inc_blocked();
            metrics.record_rcode(ResponseCode::NXDomain);
            return Next::Reply(
                Reply::Error(ResponseCode::NXDomain),
                Some(
                    Observation {
                        rcode: ResponseCode::NXDomain,
                        cache: CacheStatus::Uncached,
                        outcome: Outcome::Blocked,
                    },
                ),
            );
        }
        if query.qtype == RecordType::Aaaa && query.qclass == dns::CLASS_IN
            && !request.checking_disabled {
            metrics.inc_queries_dns64();
            let a_query = Query {
                name: query.name.clone(),
                qtype: RecordType::A,
                qclass: dns::CLASS_IN,
            };
            let a = upstream_query(request, a_query);
            let aaaa = upstream_query(request, query);
            Next::Dns64 { aaaa, a }
        } else {
            metrics.inc_queries_passthrough();
            Next::Forward(upstream_query(request, query))
        }
    }
}

// ---------------------------------------------------------------------------
// Passthrough
// ---------------------------------------------------------------------------

/// Answers a passed-through query with what the upstreams replied.
pub fn passthrough(
    request: &Request,
    resp: Option<Response>,
    cache: CacheStatus,
    metrics: &mut Metrics,
) -> (r: (Reply, Observation))
    ensures
        match resp {
            Some(resp) => r.0 == relayed(*request, resp) && r.1 == (Observation {
                rcode: resp.rcode,
                cache,
                outcome: Outcome::Passthrough,
            }) && final(metrics)@ == with_rcode(old(metrics)@, resp.rcode),
            None => r.0 == Reply::Error(ResponseCode::ServFail) && r.1 == (Observation {
                rcode: ResponseCode::ServFail,
                cache,
                outcome: Outcome::Passthrough,
            }) && final(metrics)@ == with_rcode(old(metrics)@, ResponseCode::ServFail),
        },
{
    match resp {
        Some(resp) => {
            let rcode = resp.rcode;
            metrics.record_rcode(rcode);
            (
                relay(request, resp),
                Observation { rcode, cache, outcome: Outcome::Passthrough },
            )
        },
        None => {
            metrics.record_rcode(ResponseCode::ServFail);
            (
                Reply::Error(ResponseCode::ServFail),
                Observation {
                    rcode: ResponseCode::ServFail,
                    cache,
                    outcome: Outcome::Passthrough,
                },
            )
        },
    }
}

// ---------------------------------------------------------------------------
// Synthesis
// ---------------------------------------------------------------------------

/// Whether some records hold an AAAA record.
pub open spec fn has_aaaa(v: Seq<Record>) -> bool {
    exists|i: int| 0 <= i < v.len() && (#[trigger] v[i]).rtype == RecordType::Aaaa
}

fn has_native_aaaa(v: &Vec<Record>) -> (r: bool)
    ensures
        r == has_aaaa(v@),
{
    let mut i: usize = 0;
    while i < v.len()
        invariant
            0 <= i <= v@.len(),
            forall|j: int| 0 <= j < i ==> (#[trigger] v@[j]).rtype != RecordType::Aaaa,
        decreases v@.len() - i,
    {
        if v[i].rtype == RecordType::Aaaa {
            return true;
        }
        i = i + 1;
    }
    false
}

/// The addresses and TTLs of the A records among some records, in order.
pub open spec fn a_of(v: Seq<Record>) -> Seq<(Ipv4Addr, u32)>
    decreases v.len(),
{
    if v.len() == 0 {
        Seq::empty()
    } else {
        let rest = a_of(v.drop_last());
        match v.last().data {
            RData::A(a) => rest.push((a, v.last().ttl)),
            _ => rest,
        }
    }
}

/// The addresses that the reply to the A lookup gives: those of an answer without
/// error.
pub open spec fn a_found(a: Option<Response>) -> Seq<(Ipv4Addr, u32)> {
    match a {
        Some(resp) => if resp.rcode == ResponseCode::NoError {
            a_of(resp.answers@)
        } else {
            Seq::empty()
        },
        None => Seq::empty(),
    }
}

fn find_a(a: &Option<Response>) -> (r: Vec<(Ipv4Addr, u32)>)
    ensures
        r@ == a_found(*a),
{
    let mut out: Vec<(Ipv4Addr, u32)> = Vec::new();
    match a {
        Some(resp) => match resp.rcode {
            ResponseCode::NoError => {
                let v = &resp.answers;
                let mut i: usize = 0;
                while i < v.len()
                    invariant
                        0 <= i <= v@.len(),
                        out@ == a_of(v@.take(i as int)),
                    decreases v@.len() - i,
                {
                    assert(v@.take(i + 1).drop_last() =~= v@.take(i as int));
                    match &v[i].data {
                        RData::A(x) => {
                            out.push((*x, v[i].ttl));
                        },
                        _ => {},
                    }
                    i = i + 1;
                }
                assert(v@.take(v@.len() as int) =~= v@);
            },
            _ => {},
        },
        None => {},
    }
    out
}

/// The targets of the CNAME records among some records, in order.
pub open spec fn cnames_of(v: Seq<Record>) -> Seq<Seq<char>>
    decreases v.len(),
{
    if v.len() == 0 {
        Seq::empty()
    } else {
        let rest = cnames_of(v.drop_last());
        match v.last().data {
            RData::Cname(n) => rest.push(n@),
            _ => rest,
        }
    }
}

fn find_cnames(v: &Vec<Record>) -> (r: Vec<Name>)
    ensures
        dns::name_texts(r@) == cnames_of(v@),
{
    let mut out: Vec<Name> = Vec::new();
    let mut i: usize = 0;
    assert(dns::name_texts(out@) =~= cnames_of(v@.take(0)));
    while i < v.len()
        invariant
            0 <= i <= v@.len(),
            dns::name_texts(out@) == cnames_of(v@.take(i as int)),
        decreases v@.len() - i,
    {
        assert(v@.take(i + 1).drop_last() =~= v@.take(i as int));
        match &v[i].data {
            RData::Cname(n) => {
                let ghost before = out@;
                out.push(n.clone());
                assert(dns::name_texts(out@) =~= dns::name_texts(before).push(n@));
            },
            _ => {},
        }
        i = i + 1;
    }
    assert(v@.take(v@.len() as int) =~= v@);
    out
}

/// The place of the first SOA record from `i` on, or -1.
pub open spec fn first_soa(v: Seq<Record>, i: int) -> int
    decreases v.len() - i,
{
    if i >= v.len() {
        -1
    } else if v[i].data is Soa {
        i
    } else {
        first_soa(v, i + 1)
    }
}

/// Extracts the authority-section signals that a provider may match on: the admin
/// mailbox of the first SOA record, and its owner (the zone apex).
pub fn extract_authority(resp: &Response) -> (r: Authority)
    ensures
        first_soa(resp.authority@, 0) < 0 ==> r.soa_admin is None && r.soa_zone is None,
        first_soa(resp.authority@, 0) >= 0 ==> {
            let s = resp.authority@[first_soa(resp.authority@, 0)];
            r.soa_admin == Some(s.data->rname) && r.soa_zone == Some(s.name)
        },
{
    let v = &resp.authority;
    let mut i: usize = 0;
    while i < v.len()
        invariant
            v@ == resp.authority@,
            0 <= i <= v@.len(),
            first_soa(v@, 0) == first_soa(v@, i as int),
        decreases v@.len() - i,
    {
        match &v[i].data {
            RData::Soa { rname, minimum: _ } => {
                return Authority {
                    soa_admin: Some(rname.clone()),
                    soa_zone: Some(v[i].name.clone()),
                };
            },
            _ => {},
        }
        i = i + 1;
    }
    Authority::default()
}

/// What the synthesizers get to see of a name without AAAA records.
pub open spec fn context(name: Seq<char>, aaaa: Response, a: Option<Response>) -> CtxModel {
    let s = first_soa(aaaa.authority@, 0);
    CtxModel {
        name,
        cnames: cnames_of(aaaa.answers@),
        a: a_found(a),
        admin: if s >= 0 {
            Some(aaaa.authority@[s].data->rname@)
        } else {
            None
        },
        zone: if s >= 0 {
            Some(aaaa.authority@[s].name@)
        } else {
            None
        },
    }
}

/// What the reply to the AAAA lookup means.
pub enum Verdict {
    /// There is none.
    Failed,
    /// The name has AAAA records.
    Native,
    /// The name does not exist.
    Nxdomain,
    /// The name has no AAAA records.
    Nodata,
}

/// What the reply to the AAAA lookup means.
pub open spec fn verdict(aaaa: Option<Response>) -> Verdict {
    match aaaa {
        None => Verdict::Failed,
        Some(resp) => if has_aaaa(resp.answers@) {
            Verdict::Native
        } else if resp.rcode == ResponseCode::NXDomain {
            Verdict::Nxdomain
        } else {
            Verdict::Nodata
        },
    }
}

/// How a synthesis request goes on.
#[derive(Debug)]
pub enum Dns64 {
    /// Send the reply.
    Reply(Reply, Observation),
    /// Run the chain on the context, and pass what it produces to
    /// [`finish_dns64`] with the response.
    Synthesize { context: SynthContext, aaaa: Response },
}

/// How a synthesis request goes on, by the reply to the AAAA lookup.
pub open spec fn is_dns64_step(
    request: Request,
    aaaa: Option<Response>,
    a: Option<Response>,
    cache: CacheStatus,
    r: Dns64,
) -> bool {
    match verdict(aaaa) {
        Verdict::Failed => r == Dns64::Reply(
            Reply::Error(ResponseCode::ServFail),
            Observation { rcode: ResponseCode::ServFail, cache, outcome: Outcome::ServFail },
        ),
        Verdict::Native => r == Dns64::Reply(
            relayed(request, aaaa->0),
            Observation { rcode: aaaa->0.rcode, cache, outcome: Outcome::NativeAaaa },
        ),
        Verdict::Nxdomain => r == Dns64::Reply(
            relayed(request, aaaa->0),
            Observation { rcode: ResponseCode::NXDomain, cache, outcome: Outcome::Nxdomain },
        ),
        Verdict::Nodata => r matches Dns64::Synthesize { context: c, aaaa: kept } && kept == aaaa->0
            && c@ == context(request.queries@[0].name@, aaaa->0, a) && c.name
            == request.queries@[0].name,
    }
}

/// The metrics after the reply to the AAAA lookup.
pub open spec fn dns64_counted(aaaa: Option<Response>, m: MetricsModel) -> MetricsModel {
    match verdict(aaaa) {
        Verdict::Failed => with_rcode(m, ResponseCode::ServFail),
        Verdict::Native => with_rcode(
            metrics::with_counters(
                m,
                Counters { native_aaaa: metrics::bump(m.c.native_aaaa), ..m.c },
            ),
            aaaa->0.rcode,
        ),
        Verdict::Nxdomain => with_rcode(
            metrics::with_counters(
                m,
                Counters { nxdomain64: metrics::bump(m.c.nxdomain64), ..m.c },
            ),
            ResponseCode::NXDomain,
        ),
        Verdict::Nodata => metrics::with_counters(
            m,
            Counters { nodata: metrics::bump(m.c.nodata), ..m.c },
        ),
    }
}

/// Decides a synthesis request by the replies to its AAAA and A lookups. The cache
/// status is that of the AAAA query.
pub fn handle_dns64(
    request: &Request,
    aaaa: Option<Response>,
    a: &Option<Response>,
    cache: CacheStatus,
    metrics: &mut Metrics,
) -> (r: Dns64)
    requires
        request.queries@.len() == 1,
    ensures
        is_dns64_step(*request, aaaa, *a, cache, r),
        final(metrics)@ == dns64_counted(aaaa, old(metrics)@),
{
    let resp = match aaaa {
        Some(resp) => resp,
        None => {
            metrics.record_rcode(ResponseCode::ServFail);
            return Dns64::Reply(
                Reply::Error(ResponseCode::ServFail),
                Observation {
                    rcode: ResponseCode::ServFail,
                    cache,
                    outcome: Outcome::ServFail,
                },
            );
        },
    };
    if has_native_aaaa(&resp.answers) {
        metrics.inc_native_aaaa();
        let rcode = resp.rcode;
        metrics.record_rcode(rcode);
        return Dns64::Reply(
            relay(request, resp),
            Observation { rcode, cache, outcome: Outcome::NativeAaaa },
        );
    }
    if resp.rcode == ResponseCode::NXDomain {
        metrics.inc_nxdomain64();
        metrics.record_rcode(ResponseCode::NXDomain);
        return Dns64::Reply(
            relay(request, resp),
            Observation { rcode: ResponseCode::NXDomain, cache, outcome: Outcome::Nxdomain },
        );
    }
    metrics.inc_nodata();
    let c = SynthContext::new(
        request.queries[0].name.clone(),
        find_cnames(&resp.answers),
        find_a(a),
        extract_authority(&resp),
    );
    Dns64::Synthesize { context: c, aaaa: resp }
}

/// The metrics after the chain has run.
pub open spec fn finish_counted(
    aaaa: Response,
    outcome: Option<Synthesized>,
    m: MetricsModel,
) -> MetricsModel {
    match outcome {
        Some(s) => {
            let hit = MetricsModel { hits: metrics::hits_after(m, s.id@), ..m };
            with_rcode(
                metrics::with_counters(
                    hit,
                    Counters { synthesized: metrics::bump(hit.c.synthesized), ..hit.c },
                ),
                ResponseCode::NoError,
            )
        },
        None => with_rcode(
            metrics::with_counters(m, Counters { empty: metrics::bump(m.c.empty), ..m.c }),
            aaaa.rcode,
        ),
    }
}

/// Answers a synthesis request once the chain has run: with what it produced, or
/// with the honest empty answer.
pub fn finish_dns64(
    request: &Request,
    aaaa: Response,
    outcome: Option<Synthesized>,
    cache: CacheStatus,
    metrics: &mut Metrics,
) -> (r: (Reply, Observation))
    ensures
        match outcome {
            Some(s) => is_synthesized(*request, s.records, r.0) && r.1 == (Observation {
                rcode: ResponseCode::NoError,
                cache,
                outcome: Outcome::Synthesized(s.id),
            }),
            None => r.0 == relayed(*request, aaaa) && r.1 == (Observation {
                rcode: aaaa.rcode,
                cache,
                outcome: Outcome::EmptyNodata,
            }),
        },
        final(metrics)@ == finish_counted(aaaa, outcome, old(metrics)@),
{
    match outcome {
        Some(s) => {
            metrics.synth_hit(s.id);
            metrics.inc_synthesized();
            metrics.record_rcode(ResponseCode::NoError);
            (
                synthesized(request, s.records),
                Observation {
                    rcode: ResponseCode::NoError,
                    cache,
                    outcome: Outcome::Synthesized(s.id),
                },
            )
        },
        None => {
            metrics.inc_empty();
            let rcode = aaaa.rcode;
            metrics.record_rcode(rcode);
            (
                relay(request, aaaa),
                Observation { rcode, cache, outcome: Outcome::EmptyNodata },
            )
        },
    }
}

// ---------------------------------------------------------------------------
// The query log
// ---------------------------------------------------------------------------

/// The entry of an observation.
pub open spec fn logged(
    request: Request,
    name: String,
    o: Observation,
    latency: u64,
    time: i64,
) -> Entry {
    Entry {
        time,
        client: request.client,
        name,
        qtype: request.queries@[0].qtype,
        rcode: o.rcode,
        cache: o.cache,
        outcome: o.outcome,
        latency,
    }
}

/// Captures one entry, where there is a log, and hands it back for live
/// subscribers. `name` is the queried name as it is shown.
pub fn capture(
    log: &mut Option<QueryLog>,
    request: &Request,
    name: String,
    observation: Observation,
    latency: u64,
    time: i64,
) -> (r: Option<Entry>)
    requires
        request.queries@.len() == 1,
    ensures
        match *old(log) {
            Some(l) => r == Some(logged(*request, name, observation, latency, time)) && (
            *final(log) matches Some(after) && after.capacity() == l.capacity()
                && after@ == querylog::recorded(
                l@,
                l.capacity(),
                logged(*request, name, observation, latency, time),
            )),
            None => r is None && *final(log) is None,
        },
{
    match log {
        Some(l) => Some(
            l.record(
                querylog::Record {
                    client: request.client,
                    name,
                    qtype: request.queries[0].qtype,
                    rcode: observation.rcode,
                    cache: observation.cache,
                    outcome: observation.outcome,
                    latency,
                },
                time,
            ),
        ),
        None => None,
    }
}

// ---------------------------------------------------------------------------
// Laws
// ---------------------------------------------------------------------------

/// Whether a request reaches the cache or an upstream.
pub open spec fn goes_upstream(r: Route) -> bool {
    r is Dns64 || r is Forward
}

/// A client outside the allowlist never reaches the cache or an upstream; a
/// well-formed query of it is refused.
pub proof fn a_refused_client_reaches_nothing(
    request: Request,
    nets: Seq<acl::Net6>,
    list: Option<Blocklist>,
)
    requires
        !acl::admits(nets, request.client),
    ensures
        !goes_upstream(route(request, nets, list)),
        request.op_code == OP_QUERY && !request.is_response && request.queries@.len() == 1
            ==> route(request, nets, list) is Refused,
{
}

/// A blocked name never reaches the cache or an upstream: every well-formed query
/// of it by an admitted client, whatever its type, class, CD and DO bits, is
/// answered that the name does not exist.
pub proof fn a_blocked_name_reaches_nothing(
    request: Request,
    nets: Seq<acl::Net6>,
    list: Option<Blocklist>,
)
    requires
        request.queries@.len() == 1,
        on_blocklist(list, request.queries@[0].name@),
    ensures
        !goes_upstream(route(request, nets, list)),
        request.op_code == OP_QUERY && !request.is_response && acl::admits(nets, request.client)
            ==> route(request, nets, list) is Blocked,
{
}

/// Without an allowlist and a blocklist nothing is filtered: every standard query
/// with one question goes to the upstreams.
pub proof fn nothing_is_filtered_by_default(request: Request)
    requires
        request.op_code == OP_QUERY,
        !request.is_response,
        request.queries@.len() == 1,
    ensures
        goes_upstream(route(request, Seq::empty(), None)),
        route(request, Seq::empty(), None) is Dns64 <==> is_dns64(request),
{
    acl::empty_admits_everyone(request.client);
}

/// Nothing is synthesized for a name that has native AAAA records or that does not
/// exist: the upstream response is relayed, every section, the response code and
/// the AD bit as they came.
pub proof fn native_answers_are_relayed(
    request: Request,
    aaaa: Response,
    a: Option<Response>,
    cache: CacheStatus,
    r: Dns64,
)
    requires
        has_aaaa(aaaa.answers@) || aaaa.rcode == ResponseCode::NXDomain,
        is_dns64_step(request, Some(aaaa), a, cache, r),
    ensures
        r matches Dns64::Reply(reply, _) && reply == relayed(request, aaaa),
{
}

/// The query that goes upstream asks for DNSSEC exactly as the client did, and the
/// reply mirrors it exactly to a client that used EDNS.
pub proof fn dnssec_bits_are_preserved(request: Request, query: Query, m: Message)
    requires
        is_upstream_query(request, query, m),
    ensures
        m.checking_disabled == request.checking_disabled,
        wants_dnssec(m.edns) == wants_dnssec(request.edns),
        mirrored(request.edns) is Some <==> request.edns is Some,
        wants_dnssec(mirrored(request.edns)) == wants_dnssec(request.edns),
{
}

} // verus!
