//! What is counted under which label, and where it is shown.

use vstd::prelude::*;

use crate::dns::{RecordType, ResponseCode};
use crate::exposition;
use crate::exposition::Family;
use crate::metrics;
use crate::metrics::{MetricsModel, RcodeCounters, QTYPE_LABELS};
use crate::synth::{tables, KNOWN_IDS};
use crate::text;
use crate::text::Sep;
use crate::text_laws;

verus! {

// ---------------------------------------------------------------------------
// Counting
// ---------------------------------------------------------------------------

/// Counting adds one, and begins anew behind the greatest number.
pub proof fn counting_adds_one(n: u64)
    ensures
        n < u64::MAX ==> metrics::bump(n) == n + 1,
        n == u64::MAX ==> metrics::bump(n) == 0,
{
}

/// Counting begins at zero.
pub proof fn counting_begins_at_zero()
    ensures
        ({
            let c = metrics::zero_counters();
            &&& c.queries_dns64 == 0 && c.queries_passthrough == 0 && c.blocked == 0
            &&& c.rcode.noerror == 0 && c.rcode.nxdomain == 0 && c.rcode.servfail == 0
            &&& c.rcode.notimp == 0 && c.rcode.formerr == 0 && c.rcode.refused == 0
            &&& c.rcode.other == 0 && c.upstream_failed == 0 && c.cache_hits == 0
            &&& c.cache_misses == 0 && c.negative_cache_hits == 0 && c.served_stale == 0
            &&& c.prefetches == 0 && c.native_aaaa == 0 && c.nxdomain64 == 0 && c.nodata == 0
            &&& c.synthesized == 0 && c.empty == 0
        }),
{
}

/// A response code is counted under its own name, and under no other.
pub proof fn a_code_is_counted_under_its_name(r: RcodeCounters, code: ResponseCode)
    ensures
        ({
            let s = metrics::rcode_bumped(r, code);
            &&& s.noerror == (if code is NoError {
                metrics::bump(r.noerror)
            } else {
                r.noerror
            })
            &&& s.nxdomain == (if code is NXDomain {
                metrics::bump(r.nxdomain)
            } else {
                r.nxdomain
            })
            &&& s.servfail == (if code is ServFail {
                metrics::bump(r.servfail)
            } else {
                r.servfail
            })
            &&& s.notimp == (if code is NotImp {
                metrics::bump(r.notimp)
            } else {
                r.notimp
            })
            &&& s.formerr == (if code is FormErr {
                metrics::bump(r.formerr)
            } else {
                r.formerr
            })
            &&& s.refused == (if code is Refused {
                metrics::bump(r.refused)
            } else {
                r.refused
            })
            &&& s.other == (if code is Other {
                metrics::bump(r.other)
            } else {
                r.other
            })
        }),
{
}

/// The bucket of each record type is the one of its label; other types share the last.
pub proof fn types_are_counted_under_their_labels(code: u16)
    ensures
        QTYPE_LABELS@[metrics::bucket(RecordType::A)]@ == "A"@,
        QTYPE_LABELS@[metrics::bucket(RecordType::Aaaa)]@ == "AAAA"@,
        QTYPE_LABELS@[metrics::bucket(RecordType::Cname)]@ == "CNAME"@,
        QTYPE_LABELS@[metrics::bucket(RecordType::Mx)]@ == "MX"@,
        QTYPE_LABELS@[metrics::bucket(RecordType::Txt)]@ == "TXT"@,
        QTYPE_LABELS@[metrics::bucket(RecordType::Ns)]@ == "NS"@,
        QTYPE_LABELS@[metrics::bucket(RecordType::Ptr)]@ == "PTR"@,
        QTYPE_LABELS@[metrics::bucket(RecordType::Soa)]@ == "SOA"@,
        QTYPE_LABELS@[metrics::bucket(RecordType::Srv)]@ == "SRV"@,
        QTYPE_LABELS@[metrics::bucket(RecordType::Caa)]@ == "CAA"@,
        QTYPE_LABELS@[metrics::bucket(RecordType::Https)]@ == "HTTPS"@,
        QTYPE_LABELS@[metrics::bucket(RecordType::Svcb)]@ == "SVCB"@,
        QTYPE_LABELS@[metrics::bucket(RecordType::Ds)]@ == "DS"@,
        QTYPE_LABELS@[metrics::bucket(RecordType::Dnskey)]@ == "DNSKEY"@,
        QTYPE_LABELS@[metrics::bucket(RecordType::Naptr)]@ == "NAPTR"@,
        QTYPE_LABELS@[metrics::bucket(RecordType::Any)]@ == "ANY"@,
        QTYPE_LABELS@[metrics::bucket(RecordType::Other(code))]@ == "other"@,
        QTYPE_LABELS@.len() == 17,
        metrics::bucket(RecordType::Other(code)) == 16,
{
}

/// Of two lists of ids, those are tracked that are tracked of each; one is tracked
/// where it is known.
pub proof fn tracked_ids_add_up(a: Seq<Seq<char>>, b: Seq<Seq<char>>, id: Seq<char>)
    ensures
        metrics::known_only(a + b) == metrics::known_only(a) + metrics::known_only(b),
        tables::listed(KNOWN_IDS@, id) ==> metrics::known_only(seq![id]) == seq![id],
        !tables::listed(KNOWN_IDS@, id) ==> metrics::known_only(seq![id]).len() == 0,
    decreases b.len(),
{
    reveal_with_fuel(metrics::known_only, 2);
    let none = Seq::<Seq<char>>::empty();
    assert(seq![id].drop_last() =~= none);
    assert(none.push(id) =~= seq![id]);
    if b.len() == 0 {
        assert(a + b =~= a);
        assert(metrics::known_only(a) + metrics::known_only(b) =~= metrics::known_only(a));
    } else {
        tracked_ids_add_up(a, b.drop_last(), id);
        assert((a + b).drop_last() =~= a + b.drop_last());
        assert(metrics::known_only(a + b) =~= metrics::known_only(a) + metrics::known_only(b));
    }
}

/// A hit of a synthesizer is counted at the place of its id, and nowhere else.
pub proof fn a_hit_is_counted_at_its_id(m: MetricsModel, a: Seq<Seq<char>>, id: Seq<char>, b: Seq<Seq<char>>)
    requires
        m.ids == a.push(id) + b,
        !a.contains(id),
        m.hits.len() == m.ids.len(),
    ensures
        metrics::hits_after(m, id).len() == m.hits.len(),
        metrics::hits_after(m, id)[a.len() as int] == metrics::bump(m.hits[a.len() as int]),
        forall|j: int|
            0 <= j < m.hits.len() && j != a.len() ==> #[trigger] metrics::hits_after(m, id)[j]
                == m.hits[j],
{
    crate::synth::rewrite_laws::the_first_place_has_none_in_front(a, id, b);
}

// ---------------------------------------------------------------------------
// Showing
// ---------------------------------------------------------------------------

/// Whether the exposition has a line for a series with a count.
#[verifier::opaque]
pub open spec fn shows(m: MetricsModel, series: Seq<char>, n: u64) -> bool {
    text::lines(metrics::prometheus(m)).contains(series.push(' ') + text::decimal(n as nat))
}

proof fn lines_of_a_family(fs: Seq<Family>, i: int, k: int)
    requires
        0 <= i < fs.len(),
        0 <= k < exposition::family_lines(fs[i]).len(),
    ensures
        exposition::all_lines(fs).contains(exposition::family_lines(fs[i])[k]),
    decreases fs.len(),
{
    let d = fs.drop_last();
    let front = exposition::all_lines(d);
    let back = exposition::family_lines(fs.last());
    if i < fs.len() - 1 {
        assert(d[i] == fs[i]);
        lines_of_a_family(d, i, k);
        let x = exposition::family_lines(fs[i])[k];
        let j = choose|j: int| 0 <= j < front.len() && front[j] == x;
        assert((front + back)[j] == x);
    } else {
        assert((front + back)[front.len() + k] == back[k]);
    }
}

proof fn samples_are_shown(m: MetricsModel, i: int, k: int)
    requires
        exposition::known_model(m),
        0 <= i < 15,
        0 <= k < exposition::families(m)[i].samples.len(),
    ensures
        shows(
            m,
            exposition::families(m)[i].samples[k].0,
            exposition::families(m)[i].samples[k].1,
        ),
{
    reveal(shows);
    exposition::the_exposition_is_made_of_families(m);
    let fs = exposition::families(m);
    let f = fs[i];
    lines_of_a_family(fs, i, k + 2);
    assert(exposition::family_lines(f)[k + 2] == exposition::sample_line(f.samples[k]));
}

proof fn a_scalar_is_shown(m: MetricsModel, j: int)
    requires
        exposition::known_model(m),
        0 <= j < 11,
        exposition::plain_families(m.c)[j].samples.len() == 1,
    ensures
        shows(
            m,
            exposition::plain_families(m.c)[j].samples[0].0,
            exposition::plain_families(m.c)[j].samples[0].1,
        ),
{
    let q = exposition::query_families(m);
    let c = exposition::plain_families(m.c);
    assert(q.len() == 3 && c.len() == 11);
    assert(exposition::families(m)[3 + j] == c[j]);
    samples_are_shown(m, 3 + j, 0);
}

proof fn upstream_failed_is_shown(m: MetricsModel)
    requires
        exposition::known_model(m),
    ensures
        shows(m, "dns_upstream_failed_total"@, m.c.upstream_failed),
{
    let f = exposition::plain_families(m.c)[0];
    assert(f.samples[0] == ("dns_upstream_failed_total"@, m.c.upstream_failed));
    a_scalar_is_shown(m, 0);
}

proof fn cache_hits_is_shown(m: MetricsModel)
    requires
        exposition::known_model(m),
    ensures
        shows(m, "dns_cache_hits_total"@, m.c.cache_hits),
{
    let f = exposition::plain_families(m.c)[1];
    assert(f.samples[0] == ("dns_cache_hits_total"@, m.c.cache_hits));
    a_scalar_is_shown(m, 1);
}

proof fn cache_misses_is_shown(m: MetricsModel)
    requires
        exposition::known_model(m),
    ensures
        shows(m, "dns_cache_misses_total"@, m.c.cache_misses),
{
    let f = exposition::plain_families(m.c)[2];
    assert(f.samples[0] == ("dns_cache_misses_total"@, m.c.cache_misses));
    a_scalar_is_shown(m, 2);
}

proof fn negative_cache_hits_is_shown(m: MetricsModel)
    requires
        exposition::known_model(m),
    ensures
        shows(m, "dns_negative_cache_hits_total"@, m.c.negative_cache_hits),
{
    let f = exposition::plain_families(m.c)[3];
    assert(f.samples[0] == ("dns_negative_cache_hits_total"@, m.c.negative_cache_hits));
    a_scalar_is_shown(m, 3);
}

proof fn served_stale_is_shown(m: MetricsModel)
    requires
        exposition::known_model(m),
    ensures
        shows(m, "dns_served_stale_total"@, m.c.served_stale),
{
    let f = exposition::plain_families(m.c)[4];
    assert(f.samples[0] == ("dns_served_stale_total"@, m.c.served_stale));
    a_scalar_is_shown(m, 4);
}

proof fn prefetches_is_shown(m: MetricsModel)
    requires
        exposition::known_model(m),
    ensures
        shows(m, "dns_prefetch_total"@, m.c.prefetches),
{
    let f = exposition::plain_families(m.c)[5];
    assert(f.samples[0] == ("dns_prefetch_total"@, m.c.prefetches));
    a_scalar_is_shown(m, 5);
}

proof fn native_aaaa_is_shown(m: MetricsModel)
    requires
        exposition::known_model(m),
    ensures
        shows(m, "dns64_native_aaaa_total"@, m.c.native_aaaa),
{
    let f = exposition::plain_families(m.c)[6];
    assert(f.samples[0] == ("dns64_native_aaaa_total"@, m.c.native_aaaa));
    a_scalar_is_shown(m, 6);
}

proof fn nxdomain64_is_shown(m: MetricsModel)
    requires
        exposition::known_model(m),
    ensures
        shows(m, "dns64_nxdomain_total"@, m.c.nxdomain64),
{
    let f = exposition::plain_families(m.c)[7];
    assert(f.samples[0] == ("dns64_nxdomain_total"@, m.c.nxdomain64));
    a_scalar_is_shown(m, 7);
}

proof fn nodata_is_shown(m: MetricsModel)
    requires
        exposition::known_model(m),
    ensures
        shows(m, "dns64_nodata_total"@, m.c.nodata),
{
    let f = exposition::plain_families(m.c)[8];
    assert(f.samples[0] == ("dns64_nodata_total"@, m.c.nodata));
    a_scalar_is_shown(m, 8);
}

proof fn synthesized_is_shown(m: MetricsModel)
    requires
        exposition::known_model(m),
    ensures
        shows(m, "dns64_synthesized_total"@, m.c.synthesized),
{
    let f = exposition::plain_families(m.c)[9];
    assert(f.samples[0] == ("dns64_synthesized_total"@, m.c.synthesized));
    a_scalar_is_shown(m, 9);
}

proof fn empty_is_shown(m: MetricsModel)
    requires
        exposition::known_model(m),
    ensures
        shows(m, "dns64_empty_total"@, m.c.empty),
{
    let f = exposition::plain_families(m.c)[10];
    assert(f.samples[0] == ("dns64_empty_total"@, m.c.empty));
    a_scalar_is_shown(m, 10);
}

/// Each counter is shown under its name.
pub proof fn every_counter_is_shown(m: MetricsModel)
    requires
        exposition::known_model(m),
    ensures
        shows(m, "dns_queries_total{kind=\"dns64\"}"@, m.c.queries_dns64),
        shows(m, "dns_queries_total{kind=\"passthrough\"}"@, m.c.queries_passthrough),
        shows(m, "dns_upstream_failed_total"@, m.c.upstream_failed),
        shows(m, "dns_cache_hits_total"@, m.c.cache_hits),
        shows(m, "dns_cache_misses_total"@, m.c.cache_misses),
        shows(m, "dns_negative_cache_hits_total"@, m.c.negative_cache_hits),
        shows(m, "dns_served_stale_total"@, m.c.served_stale),
        shows(m, "dns_prefetch_total"@, m.c.prefetches),
        shows(m, "dns64_native_aaaa_total"@, m.c.native_aaaa),
        shows(m, "dns64_nxdomain_total"@, m.c.nxdomain64),
        shows(m, "dns64_nodata_total"@, m.c.nodata),
        shows(m, "dns64_synthesized_total"@, m.c.synthesized),
        shows(m, "dns64_empty_total"@, m.c.empty),
{
    queries_are_shown(m);
    upstream_failed_is_shown(m);
    cache_hits_is_shown(m);
    cache_misses_is_shown(m);
    negative_cache_hits_is_shown(m);
    served_stale_is_shown(m);
    prefetches_is_shown(m);
    native_aaaa_is_shown(m);
    nxdomain64_is_shown(m);
    nodata_is_shown(m);
    synthesized_is_shown(m);
    empty_is_shown(m);
}

proof fn queries_are_shown(m: MetricsModel)
    requires
        exposition::known_model(m),
    ensures
        shows(m, "dns_queries_total{kind=\"dns64\"}"@, m.c.queries_dns64),
        shows(m, "dns_queries_total{kind=\"passthrough\"}"@, m.c.queries_passthrough),
{
    let q = exposition::query_families(m);
    assert(q.len() == 3);
    assert(exposition::families(m)[0] == q[0]);
    samples_are_shown(m, 0, 0);
    samples_are_shown(m, 0, 1);
}

/// Each response code is shown under its label.
#[verifier::spinoff_prover]
#[verifier::rlimit(60)]
pub proof fn every_response_code_is_shown(m: MetricsModel)
    requires
        exposition::known_model(m),
    ensures
        shows(m, "dns_responses_total{rcode=\""@ + "noerror"@ + "\"}"@, m.c.rcode.noerror),
        shows(m, "dns_responses_total{rcode=\""@ + "nxdomain"@ + "\"}"@, m.c.rcode.nxdomain),
        shows(m, "dns_responses_total{rcode=\""@ + "servfail"@ + "\"}"@, m.c.rcode.servfail),
        shows(m, "dns_responses_total{rcode=\""@ + "notimp"@ + "\"}"@, m.c.rcode.notimp),
        shows(m, "dns_responses_total{rcode=\""@ + "formerr"@ + "\"}"@, m.c.rcode.formerr),
        shows(m, "dns_responses_total{rcode=\""@ + "refused"@ + "\"}"@, m.c.rcode.refused),
        shows(m, "dns_responses_total{rcode=\""@ + "other"@ + "\"}"@, m.c.rcode.other),
{
    let fs = exposition::families(m);
    assert(fs[2] == exposition::query_families(m)[2]);
    samples_are_shown(m, 2, 0);
    samples_are_shown(m, 2, 1);
    samples_are_shown(m, 2, 2);
    samples_are_shown(m, 2, 3);
    samples_are_shown(m, 2, 4);
    samples_are_shown(m, 2, 5);
    samples_are_shown(m, 2, 6);
}

/// Each record type is shown under its label.
#[verifier::spinoff_prover]
#[verifier::rlimit(60)]
pub proof fn every_type_is_shown(m: MetricsModel, code: u16)
    requires
        exposition::known_model(m),
        m.wf(),
    ensures
        shows(
            m,
            "dns_queries_by_qtype_total{qtype=\""@ + "A"@ + "\"}"@,
            m.qtypes[metrics::bucket(RecordType::A)],
        ),
        shows(
            m,
            "dns_queries_by_qtype_total{qtype=\""@ + "AAAA"@ + "\"}"@,
            m.qtypes[metrics::bucket(RecordType::Aaaa)],
        ),
        shows(
            m,
            "dns_queries_by_qtype_total{qtype=\""@ + "CNAME"@ + "\"}"@,
            m.qtypes[metrics::bucket(RecordType::Cname)],
        ),
        shows(
            m,
            "dns_queries_by_qtype_total{qtype=\""@ + "MX"@ + "\"}"@,
            m.qtypes[metrics::bucket(RecordType::Mx)],
        ),
        shows(
            m,
            "dns_queries_by_qtype_total{qtype=\""@ + "TXT"@ + "\"}"@,
            m.qtypes[metrics::bucket(RecordType::Txt)],
        ),
        shows(
            m,
            "dns_queries_by_qtype_total{qtype=\""@ + "NS"@ + "\"}"@,
            m.qtypes[metrics::bucket(RecordType::Ns)],
        ),
        shows(
            m,
            "dns_queries_by_qtype_total{qtype=\""@ + "PTR"@ + "\"}"@,
            m.qtypes[metrics::bucket(RecordType::Ptr)],
        ),
        shows(
            m,
            "dns_queries_by_qtype_total{qtype=\""@ + "SOA"@ + "\"}"@,
            m.qtypes[metrics::bucket(RecordType::Soa)],
        ),
        shows(
            m,
            "dns_queries_by_qtype_total{qtype=\""@ + "SRV"@ + "\"}"@,
            m.qtypes[metrics::bucket(RecordType::Srv)],
        ),
        shows(
            m,
            "dns_queries_by_qtype_total{qtype=\""@ + "CAA"@ + "\"}"@,
            m.qtypes[metrics::bucket(RecordType::Caa)],
        ),
        shows(
            m,
            "dns_queries_by_qtype_total{qtype=\""@ + "HTTPS"@ + "\"}"@,
            m.qtypes[metrics::bucket(RecordType::Https)],
        ),
        shows(
            m,
            "dns_queries_by_qtype_total{qtype=\""@ + "SVCB"@ + "\"}"@,
            m.qtypes[metrics::bucket(RecordType::Svcb)],
        ),
        shows(
            m,
            "dns_queries_by_qtype_total{qtype=\""@ + "DS"@ + "\"}"@,
            m.qtypes[metrics::bucket(RecordType::Ds)],
        ),
        shows(
            m,
            "dns_queries_by_qtype_total{qtype=\""@ + "DNSKEY"@ + "\"}"@,
            m.qtypes[metrics::bucket(RecordType::Dnskey)],
        ),
        shows(
            m,
            "dns_queries_by_qtype_total{qtype=\""@ + "NAPTR"@ + "\"}"@,
            m.qtypes[metrics::bucket(RecordType::Naptr)],
        ),
        shows(
            m,
            "dns_queries_by_qtype_total{qtype=\""@ + "ANY"@ + "\"}"@,
            m.qtypes[metrics::bucket(RecordType::Any)],
        ),
        shows(
            m,
            "dns_queries_by_qtype_total{qtype=\""@ + "other"@ + "\"}"@,
            m.qtypes[metrics::bucket(RecordType::Other(code))],
        ),
{
    let fs = exposition::families(m);
    assert(fs[1] == exposition::query_families(m)[1]);
    types_are_counted_under_their_labels(code);
    samples_are_shown(m, 1, 0);
    samples_are_shown(m, 1, 1);
    samples_are_shown(m, 1, 2);
    samples_are_shown(m, 1, 3);
    samples_are_shown(m, 1, 4);
    samples_are_shown(m, 1, 5);
    samples_are_shown(m, 1, 6);
    samples_are_shown(m, 1, 7);
    samples_are_shown(m, 1, 8);
    samples_are_shown(m, 1, 9);
    samples_are_shown(m, 1, 10);
    samples_are_shown(m, 1, 11);
    samples_are_shown(m, 1, 12);
    samples_are_shown(m, 1, 13);
    samples_are_shown(m, 1, 14);
    samples_are_shown(m, 1, 15);
    samples_are_shown(m, 1, 16);
}

/// Each tracked synthesizer is shown with its hits.
pub proof fn every_synthesizer_is_shown(m: MetricsModel, i: int)
    requires
        exposition::known_model(m),
        m.wf(),
        0 <= i < m.ids.len(),
    ensures
        shows(m, "synth_hits_total{synthesizer=\""@ + m.ids[i] + "\"}"@, m.hits[i]),
{
    let fs = exposition::families(m);
    assert(fs[14] == exposition::synth_family(m));
    samples_are_shown(m, 14, i);
}

/// Whether the exposition describes a series: its help, and that it is a counter.
#[verifier::opaque]
pub open spec fn describes(m: MetricsModel, name: Seq<char>, help: Seq<char>) -> bool {
    let l = text::lines(metrics::prometheus(m));
    l.contains("# HELP "@ + name.push(' ') + help) && l.contains("# TYPE "@ + name + " counter"@)
}

proof fn families_are_described(m: MetricsModel, i: int)
    requires
        exposition::known_model(m),
        0 <= i < 15,
    ensures
        describes(m, exposition::families(m)[i].name, exposition::families(m)[i].help),
{
    reveal(describes);
    exposition::the_exposition_is_made_of_families(m);
    let fs = exposition::families(m);
    lines_of_a_family(fs, i, 0);
    lines_of_a_family(fs, i, 1);
}

proof fn query_series_are_described(m: MetricsModel)
    requires
        exposition::known_model(m),
    ensures
        describes(m, "dns_queries_total"@, "DNS queries handled, by processing kind."@),
        describes(m, "dns_queries_by_qtype_total"@, "DNS queries handled, by query type."@),
        describes(m, "dns_responses_total"@, "Responses sent to clients, by RCODE."@),
{
    let q = exposition::query_families(m);
    let fs = exposition::families(m);
    assert(q.len() == 3);
    assert(fs[0] == q[0] && fs[1] == q[1] && fs[2] == q[2]);
    families_are_described(m, 0);
    families_are_described(m, 1);
    families_are_described(m, 2);
}

proof fn a_scalar_is_described(m: MetricsModel, j: int)
    requires
        exposition::known_model(m),
        0 <= j < 11,
    ensures
        describes(m, exposition::plain_families(m.c)[j].name, exposition::plain_families(m.c)[j].help),
{
    let q = exposition::query_families(m);
    let c = exposition::plain_families(m.c);
    assert(q.len() == 3 && c.len() == 11);
    assert(exposition::families(m)[3 + j] == c[j]);
    families_are_described(m, 3 + j);
}

/// Each series is described.
pub proof fn every_series_is_described(m: MetricsModel)
    requires
        exposition::known_model(m),
    ensures
        describes(m, "dns_queries_total"@, "DNS queries handled, by processing kind."@),
        describes(m, "dns_queries_by_qtype_total"@, "DNS queries handled, by query type."@),
        describes(m, "dns_responses_total"@, "Responses sent to clients, by RCODE."@),
        describes(m, "dns_upstream_failed_total"@, "Queries where every upstream failed (client got SERVFAIL)."@),
        describes(m, "dns_cache_hits_total"@, "Response-cache hits (all pool lookups, incl. internal reference resolutions)."@),
        describes(m, "dns_cache_misses_total"@, "Response-cache misses for cacheable queries."@),
        describes(m, "dns_negative_cache_hits_total"@, "Cache hits served from a negative (NXDOMAIN/NODATA) entry (RFC 2308)."@),
        describes(m, "dns_served_stale_total"@, "Answers served from expired cache (RFC 8767 serve-stale)."@),
        describes(m, "dns_prefetch_total"@, "Background refreshes triggered by a cache hit near TTL expiry."@),
        describes(m, "dns64_native_aaaa_total"@, "AAAA queries relayed because a native AAAA existed."@),
        describes(m, "dns64_nxdomain_total"@, "AAAA queries that resolved to NXDOMAIN."@),
        describes(m, "dns64_nodata_total"@, "AAAA-NODATA queries that entered the synthesizer chain."@),
        describes(m, "dns64_synthesized_total"@, "AAAA-NODATA queries where the chain produced records."@),
        describes(m, "dns64_empty_total"@, "AAAA-NODATA queries where the chain produced nothing (honest empty answer)."@),
        describes(m, "synth_hits_total"@, "Records synthesized, by the synthesizer that produced them."@),
{
    query_series_are_described(m);
    a_scalar_is_described(m, 0);
    a_scalar_is_described(m, 1);
    a_scalar_is_described(m, 2);
    a_scalar_is_described(m, 3);
    a_scalar_is_described(m, 4);
    a_scalar_is_described(m, 5);
    a_scalar_is_described(m, 6);
    a_scalar_is_described(m, 7);
    a_scalar_is_described(m, 8);
    a_scalar_is_described(m, 9);
    a_scalar_is_described(m, 10);
    let fs = exposition::families(m);
    let q = exposition::query_families(m);
    let c = exposition::plain_families(m.c);
    assert(q.len() == 3 && c.len() == 11);
    assert(fs[14] == exposition::synth_family(m));
    families_are_described(m, 14);
}

/// A series is shown with its help and its type in front.
pub proof fn a_family_has_its_help_and_type(name: Seq<char>, help: Seq<char>, n: u64)
    ensures
        metrics::family(name, help, n) == "# HELP "@ + name + seq![' '] + help + seq!['\n']
            + "# TYPE "@ + name + " counter"@ + seq!['\n'] + name + seq![' '] + text::decimal(
            n as nat,
        ) + seq!['\n'],
{
    let d = text::decimal(n as nat);
    let a = "# HELP "@ + name + seq![' '] + help + seq!['\n'];
    let b = "# TYPE "@ + name + " counter"@ + seq!['\n'];
    let c = name + seq![' '] + d + seq!['\n'];
    assert(metrics::line("# HELP "@ + name.push(' ') + help) =~= a);
    assert(metrics::line("# TYPE "@ + name + " counter"@) =~= b);
    assert(metrics::sample(name, n) =~= c);
    assert(a + b + c =~= "# HELP "@ + name + seq![' '] + help + seq!['\n'] + "# TYPE "@ + name
        + " counter"@ + seq!['\n'] + name + seq![' '] + d + seq!['\n']);
}

// ---------------------------------------------------------------------------
// The endpoint
// ---------------------------------------------------------------------------

/// A request asks for the metrics where its method is `GET` and its path, in front of
/// any query, is `/metrics`; whatever stands on later lines.
pub proof fn get_metrics_asks_for_them(
    method: Seq<char>,
    path: Seq<char>,
    query: Seq<char>,
    version: Seq<char>,
    rest: Seq<char>,
)
    requires
        word(method),
        word(path),
        word(query),
        word(version),
        forall|i: int| 0 <= i < path.len() ==> #[trigger] path[i] != '?',
    ensures
        ({
            let a = method.push(' ') + (path.push(' ') + version);
            let b = method.push(' ') + ((path.push('?') + query).push(' ') + version);
            let want = method == "GET"@ && path == "/metrics"@;
            &&& metrics::asks_for_metrics(a + seq!['\r', '\n'] + rest) == want
            &&& metrics::asks_for_metrics(b + seq!['\r', '\n'] + rest) == want
        }),
{
    let target = path.push('?') + query;
    assert forall|i: int| 0 <= i < target.len() implies !text::is_space(#[trigger] target[i]) by {
        if i < path.len() {
            assert(target[i] == path[i]);
        } else if i > path.len() {
            assert(target[i] == query[i - path.len() - 1]);
        }
    }
    request_line(method, path, version, rest);
    request_line(method, target, version, rest);
    let sep = Sep::Char('?');
    assert forall|i: int| 0 <= i < path.len() implies !text::separates(sep, #[trigger] path[i]) by {}
    text_laws::split_of_a_piece(path, sep);
    text_laws::split_cuts_at_a_separator(path, '?', query, sep);
    assert(text::split(target, sep)[0] == path);
}

/// Characters without white space among them.
pub open spec fn word(s: Seq<char>) -> bool {
    s.len() > 0 && forall|i: int| 0 <= i < s.len() ==> !text::is_space(#[trigger] s[i])
}

proof fn request_line(method: Seq<char>, target: Seq<char>, version: Seq<char>, rest: Seq<char>)
    requires
        word(method),
        word(target),
        word(version),
    ensures
        ({
            let a = method.push(' ') + (target.push(' ') + version);
            let words = text::tokens(
                metrics::member(text::lines(a + seq!['\r', '\n'] + rest), 0),
                Sep::Space,
            );
            words.len() == 3 && words[0] == method && words[1] == target
        }),
{
    let sep = Sep::Space;
    let a = method.push(' ') + (target.push(' ') + version);
    assert forall|i: int| 0 <= i < a.len() implies #[trigger] a[i] != '\n' && a[i] != '\r' by {
        let n = method.len() as int;
        let k = target.len() as int;
        if i < n {
            assert(a[i] == method[i]);
            assert(!text::is_space(method[i]));
        } else if n < i < n + 1 + k {
            assert(a[i] == target[i - n - 1]);
            assert(!text::is_space(target[i - n - 1]));
        } else if i > n + 1 + k {
            assert(a[i] == version[i - n - k - 2]);
            assert(!text::is_space(version[i - n - k - 2]));
        }
    }
    assert(a.last() != '\r');
    text_laws::lines_from_the_front(a, rest);
    assert(a.push('\r').push('\n') + rest =~= a + seq!['\r', '\n'] + rest);
    assert(text::lines(a + seq!['\r', '\n'] + rest)[0] == a);
    assert forall|i: int| 0 <= i < method.len() implies !text::separates(sep, #[trigger] method[i]) by {}
    assert forall|i: int| 0 <= i < target.len() implies !text::separates(sep, #[trigger] target[i]) by {}
    assert forall|i: int| 0 <= i < version.len() implies !text::separates(sep, #[trigger] version[i]) by {}
    text_laws::a_word_is_a_token(method, sep);
    text_laws::a_word_is_a_token(target, sep);
    text_laws::a_word_is_a_token(version, sep);
    text_laws::tokens_are_parted(method, ' ', target.push(' ') + version, sep);
    text_laws::tokens_are_parted(target, ' ', version, sep);
    assert(text::tokens(a, sep) =~= seq![method, target, version]);
}

/// The response to a request: the exposition with status 200 where it asks for the
/// metrics, and status 404 otherwise.
pub proof fn metrics_are_answered(m: MetricsModel, head: Seq<char>)
    ensures
        metrics::asks_for_metrics(head) ==> metrics::http_answer(m, head) == "HTTP/1.1 200 OK"@
            + "\r\nContent-Type: text/plain; version=0.0.4; charset=utf-8"@
            + "\r\nContent-Length: "@ + text::decimal(metrics::byte_len(metrics::prometheus(m)))
            + "\r\nConnection: close\r\n\r\n"@ + metrics::prometheus(m),
        !metrics::asks_for_metrics(head) ==> metrics::http_answer(m, head)
            == "HTTP/1.1 404 Not Found"@ + "\r\nContent-Type: text/plain; charset=utf-8"@
            + "\r\nContent-Length: "@ + text::decimal(metrics::byte_len("not found\n"@))
            + "\r\nConnection: close\r\n\r\n"@ + "not found\n"@,
{
    reveal_strlit("HTTP/1.1 ");
    reveal_strlit("200 OK");
    reveal_strlit("HTTP/1.1 200 OK");
    reveal_strlit("404 Not Found");
    reveal_strlit("HTTP/1.1 404 Not Found");
    reveal_strlit("\r\nContent-Type: ");
    reveal_strlit("text/plain; version=0.0.4; charset=utf-8");
    reveal_strlit("\r\nContent-Type: text/plain; version=0.0.4; charset=utf-8");
    reveal_strlit("text/plain; charset=utf-8");
    reveal_strlit("\r\nContent-Type: text/plain; charset=utf-8");
    assert("HTTP/1.1 "@ + "200 OK"@ + "\r\nContent-Type: "@
        + "text/plain; version=0.0.4; charset=utf-8"@ =~= "HTTP/1.1 200 OK"@
        + "\r\nContent-Type: text/plain; version=0.0.4; charset=utf-8"@);
    assert("HTTP/1.1 "@ + "404 Not Found"@ + "\r\nContent-Type: "@
        + "text/plain; charset=utf-8"@ =~= "HTTP/1.1 404 Not Found"@
        + "\r\nContent-Type: text/plain; charset=utf-8"@);
}

} // verus!
