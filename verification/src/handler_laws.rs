//! What becomes of a request, by its own fields.

use vstd::prelude::*;

use crate::acl;
use crate::blocklist;
use crate::blocklist::Blocklist;
use crate::dns;
use crate::dns::{Edns, Message, RData, Record, RecordType, Response, ResponseCode};
use crate::handler;
use crate::handler::{Dns64, Next, Observation, Reply, Request};
use crate::metrics::{Counters, MetricsModel, RcodeCounters};
use crate::net::{IpAddr, Ipv4Addr};
use crate::querylog::Outcome;
use crate::synth::Synthesized;
use crate::upstream::CacheStatus;

verus! {

// ---------------------------------------------------------------------------
// Requests
// ---------------------------------------------------------------------------

/// A standard query with one question.
pub open spec fn standard(r: Request) -> bool {
    r.op_code == 0 && !r.is_response && r.queries@.len() == 1
}

/// A question of type AAAA and class IN with a clear CD bit.
pub open spec fn wants_synthesis(r: Request) -> bool {
    r.queries@[0].qtype is Aaaa && r.queries@[0].qclass == 1 && !r.checking_disabled
}

/// Whether a request is synthesized depends on its question and its CD bit alone:
/// a standard query that no filter answers is looked up for synthesis exactly where
/// it asks for AAAA, class IN, with a clear CD bit, whatever its EDNS part and its
/// client, and is passed through otherwise.
pub proof fn synthesis_goes_by_question_and_cd(
    request: Request,
    nets: Seq<acl::Net6>,
    list: Option<Blocklist>,
    next: Next,
)
    requires
        standard(request),
        handler::is_next(request, handler::route(request, nets, list), next),
        !(next is Reply),
    ensures
        next is Dns64 <==> wants_synthesis(request),
        next is Forward <==> !wants_synthesis(request),
{
}

/// Without an allowlist and a blocklist every standard query goes on: to synthesis
/// or through.
pub proof fn nothing_is_answered_here_without_filters(request: Request, next: Next)
    requires
        standard(request),
        handler::is_next(request, handler::route(request, Seq::empty(), None), next),
    ensures
        next is Dns64 <==> wants_synthesis(request),
        next is Forward <==> !wants_synthesis(request),
        !(next is Reply),
{
}

/// A message that asks one question, with the given CD bit, and advertises the
/// payload size of 1232 bytes with the given DO bit.
pub open spec fn asks(m: Message, name: Seq<char>, code: u16, class: u16, cd: bool, d: bool) -> bool {
    &&& m.queries@.len() == 1
    &&& m.queries@[0].name@ == name
    &&& m.queries@[0].qtype.code_of() == code
    &&& m.queries@[0].qclass == class
    &&& m.checking_disabled == cd
    &&& m.edns matches Some(e) && e.payload == 1232 && e.dnssec_ok == d
}

/// What is asked upstream is what the client asked, with its CD bit and its DO bit:
/// for synthesis the AAAA records and, of the same name, the A records.
pub proof fn the_upstreams_are_asked_what_the_client_asked(
    request: Request,
    nets: Seq<acl::Net6>,
    list: Option<Blocklist>,
    next: Next,
)
    requires
        standard(request),
        handler::is_next(request, handler::route(request, nets, list), next),
    ensures
        ({
            let q = request.queries@[0];
            let d = request.edns matches Some(e) && e.dnssec_ok;
            match next {
                Next::Forward(m) => asks(
                    m,
                    q.name@,
                    q.qtype.code_of(),
                    q.qclass,
                    request.checking_disabled,
                    d,
                ) && m.queries@[0] == q,
                Next::Dns64 { aaaa, a } => asks(aaaa, q.name@, 28, 1, false, d) && asks(
                    a,
                    q.name@,
                    1,
                    1,
                    false,
                    d,
                ),
                Next::Reply(_, _) => true,
            }
        }),
{
}

/// Which requests are answered here, and how: what is no standard query is not
/// implemented, without exactly one question it is malformed, a client outside the
/// networks is refused, and a blocked name does not exist, in this order.
pub proof fn who_is_answered_here(
    request: Request,
    nets: Seq<acl::Net6>,
    list: Option<Blocklist>,
    next: Next,
)
    requires
        handler::is_next(request, handler::route(request, nets, list), next),
    ensures
        ({
            let other = request.op_code != 0 || request.is_response;
            let odd = request.queries@.len() != 1;
            let outside = nets.len() > 0 && match request.client {
                IpAddr::V4(_) => true,
                IpAddr::V6(c) => forall|i: int|
                    0 <= i < nets.len() ==> !(#[trigger] nets[i]).holds(c.bits),
            };
            let blocked = list is Some && blocklist::blocked_by(
                request.queries@[0].name@,
                list->0.blocks(),
                list->0.allows(),
            );
            &&& other ==> next == Next::Reply(Reply::Error(ResponseCode::NotImp), None)
            &&& !other && odd ==> next == Next::Reply(Reply::Error(ResponseCode::FormErr), None)
            &&& !other && !odd && outside ==> (next matches Next::Reply(r, Some(o)) && r
                == Reply::Error(ResponseCode::Refused) && o.rcode == ResponseCode::Refused
                && o.outcome == Outcome::Refused && o.cache == CacheStatus::Uncached)
            &&& !other && !odd && !outside && blocked ==> (next matches Next::Reply(r, Some(o)) && r
                == Reply::Error(ResponseCode::NXDomain) && o.rcode == ResponseCode::NXDomain
                && o.outcome == Outcome::Blocked && o.cache == CacheStatus::Uncached)
            &&& !other && !odd && !outside && !blocked ==> !(next is Reply)
        }),
{
}

// ---------------------------------------------------------------------------
// Replies
// ---------------------------------------------------------------------------

/// The EDNS part of every reply: there exactly where the request has one, with the
/// payload size of 1232 bytes and the client's DO bit.
pub open spec fn answers_edns(request: Request, e: Option<Edns>) -> bool {
    match request.edns {
        Some(asked) => e matches Some(x) && x.payload == 1232 && x.dnssec_ok == asked.dnssec_ok,
        None => e is None,
    }
}

/// A relayed response keeps the code, the AD bit and every record of every section.
pub proof fn a_relayed_response_is_whole(request: Request, resp: Response, r: Reply)
    requires
        r == handler::relayed(request, resp),
    ensures
        r matches Reply::Answer { rcode, authentic, answers, authority, additionals, edns } && {
            &&& rcode == resp.rcode
            &&& authentic == resp.authentic
            &&& answers@ == resp.answers@
            &&& authority@ == resp.authority@
            &&& additionals@ == resp.additionals@
            &&& answers_edns(request, edns)
        },
{
}

/// A synthesized answer has no error, a clear AD bit, the records and nothing else.
pub proof fn a_synthesized_answer_is_unsigned(request: Request, records: Vec<Record>, r: Reply)
    requires
        handler::is_synthesized(request, records, r),
    ensures
        r matches Reply::Answer { rcode, authentic, answers, authority, additionals, edns } && {
            &&& rcode == ResponseCode::NoError
            &&& !authentic
            &&& answers@ == records@
            &&& authority@.len() == 0
            &&& additionals@.len() == 0
            &&& answers_edns(request, edns)
        },
{
}

// ---------------------------------------------------------------------------
// Synthesis
// ---------------------------------------------------------------------------

/// What the reply to the AAAA lookup leads to. Without a reply the request fails;
/// where any answer record is an AAAA one, or the name does not exist, the response
/// is relayed; and otherwise the chain runs, for the name that was asked.
pub proof fn the_aaaa_reply_decides(
    request: Request,
    aaaa: Option<Response>,
    a: Option<Response>,
    cache: CacheStatus,
    r: Dns64,
)
    requires
        handler::is_dns64_step(request, aaaa, a, cache, r),
    ensures
        match aaaa {
            None => r matches Dns64::Reply(reply, o) && reply == Reply::Error(
                ResponseCode::ServFail,
            ) && o.rcode == ResponseCode::ServFail && o.outcome == Outcome::ServFail,
            Some(resp) => {
                let native = exists|i: int|
                    0 <= i < resp.answers@.len() && (#[trigger] resp.answers@[i]).rtype is Aaaa;
                if native {
                    r matches Dns64::Reply(reply, o) && reply == handler::relayed(request, resp)
                        && o.rcode == resp.rcode && o.outcome == Outcome::NativeAaaa
                } else if resp.rcode is NXDomain {
                    r matches Dns64::Reply(reply, o) && reply == handler::relayed(request, resp)
                        && o.rcode is NXDomain && o.outcome == Outcome::Nxdomain
                } else {
                    r matches Dns64::Synthesize { context, aaaa: kept } && kept == resp
                        && context.name@ == request.queries@[0].name@
                }
            },
        },
        r matches Dns64::Reply(_, o) ==> o.cache == cache,
{
    match aaaa {
        Some(resp) => {
            if handler::has_aaaa(resp.answers@) {
                let i = choose|i: int|
                    0 <= i < resp.answers@.len() && (#[trigger] resp.answers@[i]).rtype
                        == RecordType::Aaaa;
                assert(resp.answers@[i].rtype is Aaaa);
            }
        },
        None => {},
    }
}

/// The chain sees every A record of the A reply, in order, each with its TTL, where
/// that reply has no error; every CNAME target of the AAAA reply; and the mailbox
/// and owner of its first SOA record.
pub proof fn the_chain_sees_the_replies(
    request: Request,
    aaaa: Response,
    a: Option<Response>,
    cache: CacheStatus,
    r: Dns64,
)
    requires
        handler::is_dns64_step(request, Some(aaaa), a, cache, r),
        r is Synthesize,
    ensures
        ({
            let c = r->context;
            &&& a is Some && a->0.rcode is NoError ==> c.a_records@ == handler::a_of(
                a->0.answers@,
            )
            &&& (a is None || !(a->0.rcode is NoError)) ==> c.a_records@.len() == 0
            &&& dns::name_texts(c.cname_targets@) == handler::cnames_of(aaaa.answers@)
            &&& (forall|i: int|
                0 <= i < aaaa.authority@.len() ==> !((#[trigger] aaaa.authority@[i]).data is Soa))
                ==> c.authority.soa_admin is None && c.authority.soa_zone is None
            &&& forall|i: int|
                #![trigger aaaa.authority@[i]]
                0 <= i < aaaa.authority@.len() && aaaa.authority@[i].data is Soa && (forall|j: int|
                    0 <= j < i ==> !((#[trigger] aaaa.authority@[j]).data is Soa)) ==> (
                c.authority.soa_admin matches Some(m) && m@ == aaaa.authority@[i].data->rname@) && (
                c.authority.soa_zone matches Some(z) && z@ == aaaa.authority@[i].name@)
        }),
{
    let c = r->context;
    let m = handler::context(request.queries@[0].name@, aaaa, a);
    assert(c@ == m);
    assert(c@.a == c.a_records@);
    first_soa_is_first(aaaa.authority@, 0);
    assert forall|i: int|
        #![trigger aaaa.authority@[i]]
        0 <= i < aaaa.authority@.len() && aaaa.authority@[i].data is Soa && (forall|j: int|
            0 <= j < i ==> !((#[trigger] aaaa.authority@[j]).data is Soa)) implies (
    c.authority.soa_admin matches Some(m) && m@ == aaaa.authority@[i].data->rname@) && (
    c.authority.soa_zone matches Some(z) && z@ == aaaa.authority@[i].name@) by {
        assert(handler::first_soa(aaaa.authority@, 0) == i);
        assert(c@.admin is Some && c@.zone is Some);
    }
    if forall|i: int|
        0 <= i < aaaa.authority@.len() ==> !((#[trigger] aaaa.authority@[i]).data is Soa) {
        assert(c@.admin is None && c@.zone is None);
    }
}

/// The first SOA record from a place on is one, and none stands between.
proof fn first_soa_is_first(v: Seq<Record>, i: int)
    requires
        0 <= i <= v.len(),
    ensures
        ({
            let k = handler::first_soa(v, i);
            &&& k >= 0 ==> i <= k < v.len() && v[k].data is Soa
            &&& forall|j: int| i <= j < (if k >= 0 { k } else { v.len() as int }) ==> !(v[j].data is Soa)
        }),
    decreases v.len() - i,
{
    if i < v.len() && !(v[i].data is Soa) {
        first_soa_is_first(v, i + 1);
    }
}

/// The A records of two lists in a row are those of each.
pub proof fn a_records_add_up(v: Seq<Record>, w: Seq<Record>)
    ensures
        handler::a_of(v + w) == handler::a_of(v) + handler::a_of(w),
        handler::cnames_of(v + w) == handler::cnames_of(v) + handler::cnames_of(w),
    decreases w.len(),
{
    if w.len() == 0 {
        assert(v + w =~= v);
        assert(handler::a_of(v) + handler::a_of(w) =~= handler::a_of(v));
        assert(handler::cnames_of(v) + handler::cnames_of(w) =~= handler::cnames_of(v));
    } else {
        a_records_add_up(v, w.drop_last());
        assert((v + w).drop_last() =~= v + w.drop_last());
        assert(handler::a_of(v + w) =~= handler::a_of(v) + handler::a_of(w));
        assert(handler::cnames_of(v + w) =~= handler::cnames_of(v) + handler::cnames_of(w));
    }
}

/// An A record counts with its address and its TTL, a CNAME record with its target,
/// and no other record counts as either.
pub proof fn one_record_counts_for_what_it_is(r: Record)
    ensures
        r.data matches RData::A(ip) ==> handler::a_of(seq![r]) == seq![(ip, r.ttl)],
        !(r.data is A) ==> handler::a_of(seq![r]).len() == 0,
        r.data matches RData::Cname(n) ==> handler::cnames_of(seq![r]) == seq![n@],
        !(r.data is Cname) ==> handler::cnames_of(seq![r]).len() == 0,
{
    reveal_with_fuel(handler::a_of, 2);
    reveal_with_fuel(handler::cnames_of, 2);
    assert(seq![r].drop_last() =~= Seq::<Record>::empty());
    match r.data {
        RData::A(ip) => {
            assert(Seq::<(Ipv4Addr, u32)>::empty().push((ip, r.ttl)) =~= seq![(ip, r.ttl)]);
        },
        RData::Cname(n) => {
            assert(Seq::<Seq<char>>::empty().push(n@) =~= seq![n@]);
        },
        _ => {},
    }
}

// ---------------------------------------------------------------------------
// Counting
// ---------------------------------------------------------------------------

/// The number behind a counter's number; it starts anew behind the greatest.
pub open spec fn after(n: u64) -> u64 {
    if n == 0xffff_ffff_ffff_ffff {
        0
    } else {
        (n + 1) as u64
    }
}

/// Two sets of response counters that agree but for one label, which is one further.
pub open spec fn one_response(a: RcodeCounters, b: RcodeCounters, code: ResponseCode) -> bool {
    &&& b.noerror == (if code is NoError { after(a.noerror) } else { a.noerror })
    &&& b.nxdomain == (if code is NXDomain { after(a.nxdomain) } else { a.nxdomain })
    &&& b.servfail == (if code is ServFail { after(a.servfail) } else { a.servfail })
    &&& b.notimp == (if code is NotImp { after(a.notimp) } else { a.notimp })
    &&& b.formerr == (if code is FormErr { after(a.formerr) } else { a.formerr })
    &&& b.refused == (if code is Refused { after(a.refused) } else { a.refused })
    &&& b.other == (if code is Other { after(a.other) } else { a.other })
}

/// A response is counted once, under its code, and nothing else changes.
pub proof fn a_response_is_counted_once(m: MetricsModel, code: ResponseCode)
    ensures
        ({
            let n = handler::with_rcode(m, code);
            &&& one_response(m.c.rcode, n.c.rcode, code)
            &&& n.c == (Counters { rcode: n.c.rcode, ..m.c })
            &&& n.ids == m.ids && n.hits == m.hits && n.qtypes == m.qtypes
        }),
{
}

/// A question is counted once, in the bucket of its type, and nothing else changes.
pub proof fn a_question_is_counted_once(m: MetricsModel, rt: RecordType)
    requires
        m.wf(),
    ensures
        ({
            let n = handler::with_qtype(m, rt);
            let b = crate::metrics::bucket(rt);
            &&& 0 <= b < 17
            &&& n.qtypes.len() == 17
            &&& n.qtypes[b] == after(m.qtypes[b])
            &&& forall|i: int| 0 <= i < 17 && i != b ==> n.qtypes[i] == m.qtypes[i]
            &&& n.c == m.c && n.ids == m.ids && n.hits == m.hits
        }),
{
}

/// What a request adds to the scalar counters: a blocked query to those, one for
/// synthesis or one passed through to these, and nothing to any other.
pub proof fn a_request_is_counted_by_its_course(
    request: Request,
    nets: Seq<acl::Net6>,
    list: Option<Blocklist>,
    next: Next,
    m: MetricsModel,
)
    requires
        standard(request),
        handler::is_next(request, handler::route(request, nets, list), next),
    ensures
        ({
            let n = handler::counted(request, handler::route(request, nets, list), m);
            match next {
                Next::Dns64 { .. } => n.c == (Counters {
                    queries_dns64: after(m.c.queries_dns64),
                    ..m.c
                }),
                Next::Forward(_) => n.c == (Counters {
                    queries_passthrough: after(m.c.queries_passthrough),
                    ..m.c
                }),
                Next::Reply(Reply::Error(code), _) => one_response(m.c.rcode, n.c.rcode, code)
                    && n.c == (Counters {
                    rcode: n.c.rcode,
                    blocked: if code is NXDomain { after(m.c.blocked) } else { m.c.blocked },
                    ..m.c
                }),
                Next::Reply(_, _) => false,
            }
        }),
{
}

/// What the reply to the AAAA lookup adds to the counters.
pub proof fn a_synthesis_step_is_counted(aaaa: Option<Response>, m: MetricsModel)
    ensures
        ({
            let n = handler::dns64_counted(aaaa, m);
            let native = aaaa is Some && exists|i: int|
                0 <= i < aaaa->0.answers@.len() && (#[trigger] aaaa->0.answers@[i]).rtype is Aaaa;
            &&& aaaa is None ==> one_response(m.c.rcode, n.c.rcode, ResponseCode::ServFail) && n.c
                == (Counters { rcode: n.c.rcode, ..m.c })
            &&& native ==> one_response(m.c.rcode, n.c.rcode, aaaa->0.rcode) && n.c == (Counters {
                rcode: n.c.rcode,
                native_aaaa: after(m.c.native_aaaa),
                ..m.c
            })
            &&& aaaa is Some && !native && aaaa->0.rcode is NXDomain ==> one_response(
                m.c.rcode,
                n.c.rcode,
                ResponseCode::NXDomain,
            ) && n.c == (Counters { rcode: n.c.rcode, nxdomain64: after(m.c.nxdomain64), ..m.c })
            &&& aaaa is Some && !native && !(aaaa->0.rcode is NXDomain) ==> n.c == (Counters {
                nodata: after(m.c.nodata),
                ..m.c
            })
            &&& n.ids == m.ids && n.hits == m.hits && n.qtypes == m.qtypes
        }),
{
    if aaaa is Some && handler::has_aaaa(aaaa->0.answers@) {
        let v = aaaa->0.answers@;
        let i = choose|i: int| 0 <= i < v.len() && (#[trigger] v[i]).rtype == RecordType::Aaaa;
        assert(v[i].rtype is Aaaa);
    }
}

/// What the end of a synthesis adds to the counters.
pub proof fn a_finished_synthesis_is_counted(
    aaaa: Response,
    outcome: Option<Synthesized>,
    m: MetricsModel,
)
    ensures
        ({
            let n = handler::finish_counted(aaaa, outcome, m);
            &&& outcome is Some ==> one_response(m.c.rcode, n.c.rcode, ResponseCode::NoError)
                && n.c == (Counters {
                rcode: n.c.rcode,
                synthesized: after(m.c.synthesized),
                ..m.c
            }) && n.hits == crate::metrics::hits_after(m, outcome->0.id@)
            &&& outcome is None ==> one_response(m.c.rcode, n.c.rcode, aaaa.rcode) && n.c == (
            Counters { rcode: n.c.rcode, empty: after(m.c.empty), ..m.c }) && n.hits == m.hits
            &&& n.ids == m.ids && n.qtypes == m.qtypes
        }),
{
}

/// Every question of a standard query is counted under its type, also of one that is
/// refused or blocked; another message is counted by its response alone.
pub proof fn every_question_is_counted_under_its_type(
    request: Request,
    nets: Seq<acl::Net6>,
    list: Option<Blocklist>,
    m: MetricsModel,
)
    requires
        m.wf(),
    ensures
        ({
            let n = handler::counted(request, handler::route(request, nets, list), m);
            let b = crate::metrics::bucket(request.queries@[0].qtype);
            let other = request.op_code != 0 || request.is_response;
            &&& standard(request) ==> n.qtypes == m.qtypes.update(b, after(m.qtypes[b]))
            &&& !standard(request) ==> n.qtypes == m.qtypes
            &&& other ==> one_response(m.c.rcode, n.c.rcode, ResponseCode::NotImp)
            &&& !other && !standard(request) ==> one_response(
                m.c.rcode,
                n.c.rcode,
                ResponseCode::FormErr,
            )
            &&& !standard(request) ==> n.c == (Counters { rcode: n.c.rcode, ..m.c })
            &&& n.ids == m.ids && n.hits == m.hits
        }),
{
}

/// A query is logged with its client, its name and type, and what was observed of it.
pub proof fn a_query_is_logged_as_it_was(
    request: Request,
    name: String,
    o: Observation,
    latency: u64,
    time: i64,
)
    ensures
        ({
            let e = handler::logged(request, name, o, latency, time);
            &&& e.time == time
            &&& e.client == request.client
            &&& e.name == name
            &&& e.qtype == request.queries@[0].qtype
            &&& e.rcode == o.rcode
            &&& e.cache == o.cache
            &&& e.outcome == o.outcome
            &&& e.latency == latency
        }),
{
}

} // verus!
