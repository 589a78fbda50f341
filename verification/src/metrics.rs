//! Counters, their Prometheus text exposition (version 0.0.4), and the answer to
//! a `GET /metrics` request.
//!
//! Hits per synthesizer are tracked only for the enabled synthesizers, in config
//! order, so that `synth_hits_total` is a stable set of series.

use vstd::prelude::*;

use crate::dns::{RecordType, ResponseCode};
use crate::synth;
use crate::synth::labels;
use crate::synth::tables;
use crate::synth::KNOWN_IDS;
use crate::text;
use crate::text::Sep;

verus! {

/// Query-type buckets in render order. Everything not listed maps to the trailing
/// `other` bucket, so that a client cannot inflate the set of labels.
pub const QTYPE_LABELS: [&'static str; 17] = [
    "A",
    "AAAA",
    "CNAME",
    "MX",
    "TXT",
    "NS",
    "PTR",
    "SOA",
    "SRV",
    "CAA",
    "HTTPS",
    "SVCB",
    "DS",
    "DNSKEY",
    "NAPTR",
    "ANY",
    "other",
];

/// The bucket of a record type.
pub open spec fn bucket(rt: RecordType) -> int {
    match rt {
        RecordType::A => 0,
        RecordType::Aaaa => 1,
        RecordType::Cname => 2,
        RecordType::Mx => 3,
        RecordType::Txt => 4,
        RecordType::Ns => 5,
        RecordType::Ptr => 6,
        RecordType::Soa => 7,
        RecordType::Srv => 8,
        RecordType::Caa => 9,
        RecordType::Https => 10,
        RecordType::Svcb => 11,
        RecordType::Ds => 12,
        RecordType::Dnskey => 13,
        RecordType::Naptr => 14,
        RecordType::Any => 15,
        RecordType::Other(_) => 16,
    }
}

/// Index of a record type's bucket in [`QTYPE_LABELS`].
pub fn qtype_index(rt: RecordType) -> (r: usize)
    ensures
        r == bucket(rt),
{
    match rt {
        RecordType::A => 0,
        RecordType::Aaaa => 1,
        RecordType::Cname => 2,
        RecordType::Mx => 3,
        RecordType::Txt => 4,
        RecordType::Ns => 5,
        RecordType::Ptr => 6,
        RecordType::Soa => 7,
        RecordType::Srv => 8,
        RecordType::Caa => 9,
        RecordType::Https => 10,
        RecordType::Svcb => 11,
        RecordType::Ds => 12,
        RecordType::Dnskey => 13,
        RecordType::Naptr => 14,
        RecordType::Any => 15,
        RecordType::Other(_) => 16,
    }
}

/// Response counters, one per RCODE label.
#[derive(Debug, Clone, Copy, PartialEq, Eq, Structural)]
pub struct RcodeCounters {
    pub noerror: u64,
    pub nxdomain: u64,
    pub servfail: u64,
    pub notimp: u64,
    pub formerr: u64,
    pub refused: u64,
    pub other: u64,
}

/// All scalar counters.
#[derive(Debug, Clone, Copy, PartialEq, Eq, Structural)]
pub struct Counters {
    pub queries_dns64: u64,
    pub queries_passthrough: u64,
    pub blocked: u64,
    pub rcode: RcodeCounters,
    pub upstream_failed: u64,
    pub cache_hits: u64,
    pub cache_misses: u64,
    pub negative_cache_hits: u64,
    pub served_stale: u64,
    pub prefetches: u64,
    pub native_aaaa: u64,
    pub nxdomain64: u64,
    pub nodata: u64,
    pub synthesized: u64,
    pub empty: u64,
}

/// Counters that all stand at zero.
pub open spec fn zero_counters() -> Counters {
    Counters {
        queries_dns64: 0,
        queries_passthrough: 0,
        blocked: 0,
        rcode: RcodeCounters {
            noerror: 0,
            nxdomain: 0,
            servfail: 0,
            notimp: 0,
            formerr: 0,
            refused: 0,
            other: 0,
        },
        upstream_failed: 0,
        cache_hits: 0,
        cache_misses: 0,
        negative_cache_hits: 0,
        served_stale: 0,
        prefetches: 0,
        native_aaaa: 0,
        nxdomain64: 0,
        nodata: 0,
        synthesized: 0,
        empty: 0,
    }
}

/// A counter one further; it starts anew behind its greatest value.
pub open spec fn bump(n: u64) -> u64 {
    if n == u64::MAX {
        0
    } else {
        (n + 1) as u64
    }
}

fn bumped(n: u64) -> (r: u64)
    ensures
        r == bump(n),
{
    if n == 0xffff_ffff_ffff_ffff {
        0
    } else {
        n + 1
    }
}

/// Response counters with the one of a code one further.
pub open spec fn rcode_bumped(r: RcodeCounters, code: ResponseCode) -> RcodeCounters {
    match code {
        ResponseCode::NoError => RcodeCounters { noerror: bump(r.noerror), ..r },
        ResponseCode::NXDomain => RcodeCounters { nxdomain: bump(r.nxdomain), ..r },
        ResponseCode::ServFail => RcodeCounters { servfail: bump(r.servfail), ..r },
        ResponseCode::NotImp => RcodeCounters { notimp: bump(r.notimp), ..r },
        ResponseCode::FormErr => RcodeCounters { formerr: bump(r.formerr), ..r },
        ResponseCode::Refused => RcodeCounters { refused: bump(r.refused), ..r },
        ResponseCode::Other(_) => RcodeCounters { other: bump(r.other), ..r },
    }
}

/// Process-wide metrics.
#[derive(Debug)]
pub struct Metrics {
    c: Counters,
    /// Enabled synthesizer ids, in config order, each with its hit count.
    synth_hits: Vec<(&'static str, u64)>,
    /// Query count per type, parallel to [`QTYPE_LABELS`].
    qtype_counts: [u64; 17],
}

/// The labels of some rows of a label and a count.
pub open spec fn row_labels(v: Seq<(&'static str, u64)>) -> Seq<Seq<char>> {
    Seq::new(v.len(), |i: int| v[i].0@)
}

/// The counts of some rows of a label and a count.
pub open spec fn row_counts(v: Seq<(&'static str, u64)>) -> Seq<u64> {
    Seq::new(v.len(), |i: int| v[i].1)
}

/// Metrics as mathematical values.
pub struct MetricsModel {
    pub c: Counters,
    pub ids: Seq<Seq<char>>,
    pub hits: Seq<u64>,
    pub qtypes: Seq<u64>,
}

impl View for Metrics {
    type V = MetricsModel;

    closed spec fn view(&self) -> MetricsModel {
        MetricsModel {
            c: self.c,
            ids: row_labels(self.synth_hits@),
            hits: row_counts(self.synth_hits@),
            qtypes: self.qtype_counts@,
        }
    }
}

/// The members of a list that are known synthesizer ids, in order.
pub open spec fn known_only(ids: Seq<Seq<char>>) -> Seq<Seq<char>>
    decreases ids.len(),
{
    if ids.len() == 0 {
        ids
    } else if tables::listed(KNOWN_IDS@, ids.last()) {
        known_only(ids.drop_last()).push(ids.last())
    } else {
        known_only(ids.drop_last())
    }
}

/// The model with other scalar counters.
pub open spec fn with_counters(m: MetricsModel, c: Counters) -> MetricsModel {
    MetricsModel { c, ids: m.ids, hits: m.hits, qtypes: m.qtypes }
}

/// The static id that equals a text, if there is one.
fn known_id(id: &str) -> (r: Option<&'static str>)
    ensures
        match r {
            Some(k) => k@ == id@ && tables::listed(KNOWN_IDS@, id@),
            None => !tables::listed(KNOWN_IDS@, id@),
        },
{
    let table: &[&'static str] = &KNOWN_IDS;
    let mut i: usize = 0;
    while i < table.len()
        invariant
            table@ == KNOWN_IDS@,
            0 <= i <= table@.len(),
            forall|j: int| 0 <= j < i ==> #[trigger] table@[j]@ != id@,
        decreases table@.len() - i,
    {
        if text::same(table[i], id) {
            return Some(table[i]);
        }
        i = i + 1;
    }
    None
}

impl MetricsModel {
    /// One hit count per id, and one query count per bucket.
    pub open spec fn wf(self) -> bool {
        self.hits.len() == self.ids.len() && self.qtypes.len() == 17
    }
}

impl Metrics {
    /// Builds metrics for the given enabled synthesizer ids; ids that the metrics
    /// do not know are passed over.
    pub fn new(enabled: &Vec<String>) -> (r: Self)
        ensures
            r@.c == zero_counters(),
            r@.ids == known_only(text::texts(enabled@)),
            r@.hits == Seq::new(known_only(text::texts(enabled@)).len(), |i: int| 0u64),
            r@.qtypes == Seq::new(17, |i: int| 0u64),
    {
        let mut synth_hits: Vec<(&'static str, u64)> = Vec::new();
        let ghost all = text::texts(enabled@);
        let mut i: usize = 0;
        assert(row_labels(synth_hits@) =~= known_only(all.take(0)));
        while i < enabled.len()
            invariant
                all == text::texts(enabled@),
                0 <= i <= enabled@.len(),
                row_labels(synth_hits@) == known_only(all.take(i as int)),
                forall|j: int| 0 <= j < synth_hits@.len() ==> (#[trigger] synth_hits@[j]).1 == 0,
            decreases enabled@.len() - i,
        {
            assert(all.take(i + 1).drop_last() =~= all.take(i as int));
            let ghost before = row_labels(synth_hits@);
            match known_id(enabled[i].as_str()) {
                Some(k) => {
                    synth_hits.push((k, 0));
                    assert(row_labels(synth_hits@) =~= before.push(enabled@[i as int]@));
                },
                None => {},
            }
            i = i + 1;
        }
        assert(all.take(enabled@.len() as int) =~= all);
        assert(row_labels(synth_hits@).len() == synth_hits@.len());
        assert(row_counts(synth_hits@) =~= Seq::new(
            known_only(text::texts(enabled@)).len(),
            |i: int| 0u64,
        ));
        let qtype_counts: [u64; 17] = [0, 0, 0, 0, 0, 0, 0, 0, 0, 0, 0, 0, 0, 0, 0, 0, 0];
        assert(qtype_counts@ =~= Seq::new(17, |i: int| 0u64));
        let c = Counters {
            queries_dns64: 0,
            queries_passthrough: 0,
            blocked: 0,
            rcode: RcodeCounters {
                noerror: 0,
                nxdomain: 0,
                servfail: 0,
                notimp: 0,
                formerr: 0,
                refused: 0,
                other: 0,
            },
            upstream_failed: 0,
            cache_hits: 0,
            cache_misses: 0,
            negative_cache_hits: 0,
            served_stale: 0,
            prefetches: 0,
            native_aaaa: 0,
            nxdomain64: 0,
            nodata: 0,
            synthesized: 0,
            empty: 0,
        };
        Metrics { c, synth_hits, qtype_counts }
    }

    /// Counts a query that the synthesis path handles.
    pub fn inc_queries_dns64(&mut self)
        ensures
            final(self)@ == with_counters(
                old(self)@,
                (Counters { queries_dns64: bump(old(self)@.c.queries_dns64), ..old(self)@.c }),
            ),
    {
        self.c.queries_dns64 = bumped(self.c.queries_dns64);
    }

    /// Counts a query that is relayed transparently.
    pub fn inc_queries_passthrough(&mut self)
        ensures
            final(self)@ == with_counters(
                old(self)@,
                (Counters { queries_passthrough: bump(old(self)@.c.queries_passthrough), ..old(self)@.c }),
            ),
    {
        self.c.queries_passthrough = bumped(self.c.queries_passthrough);
    }

    /// Counts a query for a blocked name.
    pub fn inc_blocked(&mut self)
        ensures
            final(self)@ == with_counters(
                old(self)@,
                (Counters { blocked: bump(old(self)@.c.blocked), ..old(self)@.c }),
            ),
    {
        self.c.blocked = bumped(self.c.blocked);
    }

    /// Counts a query that every upstream failed.
    pub fn inc_upstream_failed(&mut self)
        ensures
            final(self)@ == with_counters(
                old(self)@,
                (Counters { upstream_failed: bump(old(self)@.c.upstream_failed), ..old(self)@.c }),
            ),
    {
        self.c.upstream_failed = bumped(self.c.upstream_failed);
    }

    /// Counts a cache hit.
    pub fn inc_cache_hit(&mut self)
        ensures
            final(self)@ == with_counters(
                old(self)@,
                (Counters { cache_hits: bump(old(self)@.c.cache_hits), ..old(self)@.c }),
            ),
    {
        self.c.cache_hits = bumped(self.c.cache_hits);
    }

    /// Counts a cache miss.
    pub fn inc_cache_miss(&mut self)
        ensures
            final(self)@ == with_counters(
                old(self)@,
                (Counters { cache_misses: bump(old(self)@.c.cache_misses), ..old(self)@.c }),
            ),
    {
        self.c.cache_misses = bumped(self.c.cache_misses);
    }

    /// Counts a hit of a negative cache entry.
    pub fn inc_negative_cache_hit(&mut self)
        ensures
            final(self)@ == with_counters(
                old(self)@,
                (Counters { negative_cache_hits: bump(old(self)@.c.negative_cache_hits), ..old(self)@.c }),
            ),
    {
        self.c.negative_cache_hits = bumped(self.c.negative_cache_hits);
    }

    /// Counts an answer from expired cache.
    pub fn inc_served_stale(&mut self)
        ensures
            final(self)@ == with_counters(
                old(self)@,
                (Counters { served_stale: bump(old(self)@.c.served_stale), ..old(self)@.c }),
            ),
    {
        self.c.served_stale = bumped(self.c.served_stale);
    }

    /// Counts a prefetch.
    pub fn inc_prefetch(&mut self)
        ensures
            final(self)@ == with_counters(
                old(self)@,
                (Counters { prefetches: bump(old(self)@.c.prefetches), ..old(self)@.c }),
            ),
    {
        self.c.prefetches = bumped(self.c.prefetches);
    }

    /// Counts an AAAA query with a native answer.
    pub fn inc_native_aaaa(&mut self)
        ensures
            final(self)@ == with_counters(
                old(self)@,
                (Counters { native_aaaa: bump(old(self)@.c.native_aaaa), ..old(self)@.c }),
            ),
    {
        self.c.native_aaaa = bumped(self.c.native_aaaa);
    }

    /// Counts an AAAA query for a name that does not exist.
    pub fn inc_nxdomain64(&mut self)
        ensures
            final(self)@ == with_counters(
                old(self)@,
                (Counters { nxdomain64: bump(old(self)@.c.nxdomain64), ..old(self)@.c }),
            ),
    {
        self.c.nxdomain64 = bumped(self.c.nxdomain64);
    }

    /// Counts an AAAA query that enters the chain.
    pub fn inc_nodata(&mut self)
        ensures
            final(self)@ == with_counters(
                old(self)@,
                (Counters { nodata: bump(old(self)@.c.nodata), ..old(self)@.c }),
            ),
    {
        self.c.nodata = bumped(self.c.nodata);
    }

    /// Counts an AAAA query with a synthesized answer.
    pub fn inc_synthesized(&mut self)
        ensures
            final(self)@ == with_counters(
                old(self)@,
                (Counters { synthesized: bump(old(self)@.c.synthesized), ..old(self)@.c }),
            ),
    {
        self.c.synthesized = bumped(self.c.synthesized);
    }

    /// Counts an AAAA query for which the chain gave nothing.
    pub fn inc_empty(&mut self)
        ensures
            final(self)@ == with_counters(
                old(self)@,
                (Counters { empty: bump(old(self)@.c.empty), ..old(self)@.c }),
            ),
    {
        self.c.empty = bumped(self.c.empty);
    }

    /// Records a query under its type bucket (unlisted types fall to `other`).
    pub fn record_qtype(&mut self, rt: RecordType)
        ensures
            final(self)@ == (MetricsModel {
                qtypes: old(self)@.qtypes.update(
                    bucket(rt),
                    bump(old(self)@.qtypes[bucket(rt)]),
                ),
                ..old(self)@
            }),
    {
        let i: usize = qtype_index(rt);
        let n: u64 = bumped(self.qtype_counts[i]);
        self.qtype_counts[i] = n;
    }

    /// Records a response code under the matching label.
    pub fn record_rcode(&mut self, code: ResponseCode)
        ensures
            final(self)@ == with_counters(
                old(self)@,
                (Counters {
                    rcode: rcode_bumped(old(self)@.c.rcode, code),
                    ..old(self)@.c
                }),
            ),
    {
        match code {
            ResponseCode::NoError => {
                self.c.rcode.noerror = bumped(self.c.rcode.noerror);
            },
            ResponseCode::NXDomain => {
                self.c.rcode.nxdomain = bumped(self.c.rcode.nxdomain);
            },
            ResponseCode::ServFail => {
                self.c.rcode.servfail = bumped(self.c.rcode.servfail);
            },
            ResponseCode::NotImp => {
                self.c.rcode.notimp = bumped(self.c.rcode.notimp);
            },
            ResponseCode::FormErr => {
                self.c.rcode.formerr = bumped(self.c.rcode.formerr);
            },
            ResponseCode::Refused => {
                self.c.rcode.refused = bumped(self.c.rcode.refused);
            },
            ResponseCode::Other(_) => {
                self.c.rcode.other = bumped(self.c.rcode.other);
            },
        }
    }

    /// Records that synthesizer `id` produced records. Nothing happens for an id
    /// that is not enabled.
    pub fn synth_hit(&mut self, id: &str)
        ensures
            final(self)@ == (MetricsModel {
                hits: hits_after(old(self)@, id@),
                ..old(self)@
            }),
    {
        let ghost m = self@;
        let n: usize = self.synth_hits.len();
        assert(m.ids.len() == n);
        let mut i: usize = 0;
        while i < n
            invariant
                *self == *old(self),
                m == self@,
                n == self.synth_hits@.len(),
                m.ids.len() == n,
                0 <= i <= n,
                labels::index_of(m.ids.take(i as int), id@) == -1,
            decreases n - i,
        {
            assert(m.ids.take(i + 1).drop_last() =~= m.ids.take(i as int));
            assert(m.ids[i as int] == self.synth_hits@[i as int].0@);
            if text::same(self.synth_hits[i].0, id) {
                proof {
                    labels::index_of_stays(m.ids, id@, i + 1);
                }
                let known: &'static str = self.synth_hits[i].0;
                let h: u64 = bumped(self.synth_hits[i].1);
                self.synth_hits[i] = (known, h);
                assert(self@.ids =~= m.ids);
                assert(self@.hits =~= hits_after(m, id@));
                return;
            }
            i = i + 1;
        }
        assert(m.ids.take(n as int) =~= m.ids);
    }
}

/// The hit counts after a hit of a synthesizer.
pub open spec fn hits_after(m: MetricsModel, id: Seq<char>) -> Seq<u64> {
    let i = labels::index_of(m.ids, id);
    if i >= 0 {
        m.hits.update(i, bump(m.hits[i]))
    } else {
        m.hits
    }
}

// ---------------------------------------------------------------------------
// The exposition
// ---------------------------------------------------------------------------

/// A line of text.
pub open spec fn line(s: Seq<char>) -> Seq<char> {
    s.push('\n')
}

/// A sample line: a series and its value.
pub open spec fn sample(series: Seq<char>, n: u64) -> Seq<char> {
    line(series.push(' ') + text::decimal(n as nat))
}

/// The sample lines of a family with one label: one per value of the label.
pub open spec fn labelled(
    head: Seq<char>,
    values: Seq<Seq<char>>,
    counts: Seq<u64>,
) -> Seq<char>
    decreases values.len(),
{
    if values.len() == 0 {
        Seq::empty()
    } else {
        labelled(head, values.drop_last(), counts) + sample(
            head + values.last() + "\"}"@,
            counts[values.len() - 1],
        )
    }
}

/// The two comment lines of a family.
pub open spec fn family_head(name: Seq<char>, help: Seq<char>) -> Seq<char> {
    line("# HELP "@ + name.push(' ') + help) + line("# TYPE "@ + name + " counter"@)
}

/// A family without labels: its comment lines and its sample.
pub open spec fn family(name: Seq<char>, help: Seq<char>, n: u64) -> Seq<char> {
    family_head(name, help) + sample(name, n)
}

/// The RCODE labels, in render order.
pub open spec fn rcode_labels() -> Seq<Seq<char>> {
    seq![
        "noerror"@,
        "nxdomain"@,
        "servfail"@,
        "notimp"@,
        "formerr"@,
        "refused"@,
        "other"@,
    ]
}

/// The response counters, in render order.
pub open spec fn rcode_counts(r: RcodeCounters) -> Seq<u64> {
    seq![r.noerror, r.nxdomain, r.servfail, r.notimp, r.formerr, r.refused, r.other]
}

/// The families of queries and responses.
pub open spec fn labelled_families(m: MetricsModel) -> Seq<char> {
    family_head("dns_queries_total"@, "DNS queries handled, by processing kind."@) + sample(
        "dns_queries_total{kind=\"dns64\"}"@,
        m.c.queries_dns64,
    ) + sample("dns_queries_total{kind=\"passthrough\"}"@, m.c.queries_passthrough) + family_head(
        "dns_queries_by_qtype_total"@,
        "DNS queries handled, by query type."@,
    ) + labelled("dns_queries_by_qtype_total{qtype=\""@, labels::strs(QTYPE_LABELS@), m.qtypes)
        + family_head("dns_responses_total"@, "Responses sent to clients, by RCODE."@) + labelled(
        "dns_responses_total{rcode=\""@,
        rcode_labels(),
        rcode_counts(m.c.rcode),
    )
}

/// The families without labels.
pub open spec fn scalar_families(c: Counters) -> Seq<char> {
    family(
        "dns_upstream_failed_total"@,
        "Queries where every upstream failed (client got SERVFAIL)."@,
        c.upstream_failed,
    ) + family(
        "dns_cache_hits_total"@,
        "Response-cache hits (all pool lookups, incl. internal reference resolutions)."@,
        c.cache_hits,
    ) + family(
        "dns_cache_misses_total"@,
        "Response-cache misses for cacheable queries."@,
        c.cache_misses,
    ) + family(
        "dns_negative_cache_hits_total"@,
        "Cache hits served from a negative (NXDOMAIN/NODATA) entry (RFC 2308)."@,
        c.negative_cache_hits,
    ) + family(
        "dns_served_stale_total"@,
        "Answers served from expired cache (RFC 8767 serve-stale)."@,
        c.served_stale,
    ) + family(
        "dns_prefetch_total"@,
        "Background refreshes triggered by a cache hit near TTL expiry."@,
        c.prefetches,
    ) + family(
        "dns64_native_aaaa_total"@,
        "AAAA queries relayed because a native AAAA existed."@,
        c.native_aaaa,
    ) + family(
        "dns64_nxdomain_total"@,
        "AAAA queries that resolved to NXDOMAIN."@,
        c.nxdomain64,
    ) + family(
        "dns64_nodata_total"@,
        "AAAA-NODATA queries that entered the synthesizer chain."@,
        c.nodata,
    ) + family(
        "dns64_synthesized_total"@,
        "AAAA-NODATA queries where the chain produced records."@,
        c.synthesized,
    ) + family(
        "dns64_empty_total"@,
        "AAAA-NODATA queries where the chain produced nothing (honest empty answer)."@,
        c.empty,
    )
}

/// The whole exposition.
pub open spec fn prometheus(m: MetricsModel) -> Seq<char> {
    labelled_families(m) + scalar_families(m.c) + family_head(
        "synth_hits_total"@,
        "Records synthesized, by the synthesizer that produced them."@,
    ) + labelled("synth_hits_total{synthesizer=\""@, m.ids, m.hits)
}

fn push_sample(s: &mut String, series: &str, n: u64)
    ensures
        final(s)@ == old(s)@ + sample(series@, n),
{
    s.append(series);
    s.push(' ');
    text::push_decimal(s, n);
    s.push('\n');
    assert(s@ =~= old(s)@ + sample(series@, n));
}

fn push_family_head(s: &mut String, name: &str, help: &str)
    ensures
        final(s)@ == old(s)@ + family_head(name@, help@),
{
    s.append("# HELP ");
    s.append(name);
    s.push(' ');
    s.append(help);
    s.push('\n');
    s.append("# TYPE ");
    s.append(name);
    s.append(" counter");
    s.push('\n');
    assert(s@ =~= old(s)@ + family_head(name@, help@));
}

fn push_family(s: &mut String, name: &str, help: &str, n: u64)
    ensures
        final(s)@ == old(s)@ + family(name@, help@, n),
{
    push_family_head(s, name, help);
    push_sample(s, name, n);
    assert(s@ =~= old(s)@ + family(name@, help@, n));
}

fn push_labelled(s: &mut String, head: &str, rows: &[(&'static str, u64)])
    ensures
        final(s)@ == old(s)@ + labelled(head@, row_labels(rows@), row_counts(rows@)),
{
    let ghost all = row_labels(rows@);
    let ghost counts = row_counts(rows@);
    let mut i: usize = 0;
    assert(s@ =~= old(s)@ + labelled(head@, all.take(0), counts));
    while i < rows.len()
        invariant
            all == row_labels(rows@),
            counts == row_counts(rows@),
            0 <= i <= rows@.len(),
            s@ == old(s)@ + labelled(head@, all.take(i as int), counts),
        decreases rows@.len() - i,
    {
        let mut series = text::copy(head);
        series.append(rows[i].0);
        series.append("\"}");
        push_sample(s, series.as_str(), rows[i].1);
        assert(all.take(i + 1).drop_last() =~= all.take(i as int));
        assert(all.take(i + 1).last() == rows@[i as int].0@);
        assert(series@ == head@ + rows@[i as int].0@ + "\"}"@);
        assert(s@ =~= old(s)@ + labelled(head@, all.take(i + 1), counts));
        i = i + 1;
    }
    assert(all.take(rows@.len() as int) =~= all);
}

/// Label values with their counts, for display.
pub struct Snapshot {
    pub counters: Counters,
    pub rcode: Vec<(&'static str, u64)>,
    pub qtype: Vec<(&'static str, u64)>,
    pub synth: Vec<(&'static str, u64)>,
}

fn zip(names: &[&'static str], counts: &[u64]) -> (r: Vec<(&'static str, u64)>)
    requires
        names@.len() == counts@.len(),
    ensures
        row_labels(r@) == labels::strs(names@),
        row_counts(r@) == counts@,
{
    let mut v: Vec<(&'static str, u64)> = Vec::new();
    let mut i: usize = 0;
    while i < names.len()
        invariant
            names@.len() == counts@.len(),
            0 <= i <= names@.len(),
            v@.len() == i,
            forall|j: int|
                0 <= j < i ==> (#[trigger] v@[j]).0@ == names@[j]@ && v@[j].1 == counts@[j],
        decreases names@.len() - i,
    {
        v.push((names[i], counts[i]));
        i = i + 1;
    }
    assert(row_labels(v@) =~= labels::strs(names@));
    assert(row_counts(v@) =~= counts@);
    v
}

impl Metrics {
    fn rcode_rows(&self) -> (r: Vec<(&'static str, u64)>)
        ensures
            row_labels(r@) == rcode_labels(),
            row_counts(r@) == rcode_counts(self@.c.rcode),
    {
        let c = self.c.rcode;
        let names: [&'static str; 7] = [
            "noerror",
            "nxdomain",
            "servfail",
            "notimp",
            "formerr",
            "refused",
            "other",
        ];
        let counts: [u64; 7] = [
            c.noerror,
            c.nxdomain,
            c.servfail,
            c.notimp,
            c.formerr,
            c.refused,
            c.other,
        ];
        assert(labels::strs(names@) =~= rcode_labels());
        assert(counts@ =~= rcode_counts(self@.c.rcode));
        zip(&names, &counts)
    }

    fn synth_rows(&self) -> (r: Vec<(&'static str, u64)>)
        ensures
            r@ == self.synth_hits@,
    {
        let mut v: Vec<(&'static str, u64)> = Vec::new();
        let mut i: usize = 0;
        while i < self.synth_hits.len()
            invariant
                0 <= i <= self.synth_hits@.len(),
                v@ == self.synth_hits@.take(i as int),
            decreases self.synth_hits@.len() - i,
        {
            v.push(self.synth_hits[i]);
            assert(self.synth_hits@.take(i + 1) =~= self.synth_hits@.take(i as int).push(
                self.synth_hits@[i as int],
            ));
            i = i + 1;
        }
        assert(self.synth_hits@.take(self.synth_hits@.len() as int) =~= self.synth_hits@);
        v
    }

    fn push_labelled_families(&self, s: &mut String)
        ensures
            final(s)@ == old(s)@ + labelled_families(self@),
    {
        push_family_head(s, "dns_queries_total", "DNS queries handled, by processing kind.");
        push_sample(s, "dns_queries_total{kind=\"dns64\"}", self.c.queries_dns64);
        push_sample(s, "dns_queries_total{kind=\"passthrough\"}", self.c.queries_passthrough);
        push_family_head(
            s,
            "dns_queries_by_qtype_total",
            "DNS queries handled, by query type.",
        );
        let types = zip(&QTYPE_LABELS, &self.qtype_counts);
        push_labelled(s, "dns_queries_by_qtype_total{qtype=\"", types.as_slice());
        push_family_head(s, "dns_responses_total", "Responses sent to clients, by RCODE.");
        let codes = self.rcode_rows();
        push_labelled(s, "dns_responses_total{rcode=\"", codes.as_slice());
        assert(s@ =~= old(s)@ + labelled_families(self@));
    }

    fn push_scalar_families(&self, s: &mut String)
        ensures
            final(s)@ == old(s)@ + scalar_families(self@.c),
    {
        push_family(
            s,
            "dns_upstream_failed_total",
            "Queries where every upstream failed (client got SERVFAIL).",
            self.c.upstream_failed,
        );
        push_family(
            s,
            "dns_cache_hits_total",
            "Response-cache hits (all pool lookups, incl. internal reference resolutions).",
            self.c.cache_hits,
        );
        push_family(
            s,
            "dns_cache_misses_total",
            "Response-cache misses for cacheable queries.",
            self.c.cache_misses,
        );
        push_family(
            s,
            "dns_negative_cache_hits_total",
            "Cache hits served from a negative (NXDOMAIN/NODATA) entry (RFC 2308).",
            self.c.negative_cache_hits,
        );
        push_family(
            s,
            "dns_served_stale_total",
            "Answers served from expired cache (RFC 8767 serve-stale).",
            self.c.served_stale,
        );
        push_family(
            s,
            "dns_prefetch_total",
            "Background refreshes triggered by a cache hit near TTL expiry.",
            self.c.prefetches,
        );
        push_family(
            s,
            "dns64_native_aaaa_total",
            "AAAA queries relayed because a native AAAA existed.",
            self.c.native_aaaa,
        );
        push_family(
            s,
            "dns64_nxdomain_total",
            "AAAA queries that resolved to NXDOMAIN.",
            self.c.nxdomain64,
        );
        push_family(
            s,
            "dns64_nodata_total",
            "AAAA-NODATA queries that entered the synthesizer chain.",
            self.c.nodata,
        );
        push_family(
            s,
            "dns64_synthesized_total",
            "AAAA-NODATA queries where the chain produced records.",
            self.c.synthesized,
        );
        push_family(
            s,
            "dns64_empty_total",
            "AAAA-NODATA queries where the chain produced nothing (honest empty answer).",
            self.c.empty,
        );
        assert(s@ =~= old(s)@ + scalar_families(self@.c));
    }

    /// Renders the Prometheus text exposition (version 0.0.4).
    pub fn render_prometheus(&self) -> (r: String)
        ensures
            r@ == prometheus(self@),
    {
        let mut s: String = String::new();
        self.push_labelled_families(&mut s);
        self.push_scalar_families(&mut s);
        push_family_head(
            &mut s,
            "synth_hits_total",
            "Records synthesized, by the synthesizer that produced them.",
        );
        push_labelled(
            &mut s,
            "synth_hits_total{synthesizer=\"",
            self.synth_hits.as_slice(),
        );
        assert(s@ =~= prometheus(self@));
        s
    }

    /// All counters with their labels, for the dashboard.
    pub fn snapshot(&self) -> (r: Snapshot)
        ensures
            r.counters == self@.c,
            row_labels(r.rcode@) == rcode_labels(),
            row_counts(r.rcode@) == rcode_counts(self@.c.rcode),
            row_labels(r.qtype@) == labels::strs(QTYPE_LABELS@),
            row_counts(r.qtype@) == self@.qtypes,
            row_labels(r.synth@) == self@.ids,
            row_counts(r.synth@) == self@.hits,
    {
        Snapshot {
            counters: self.c,
            rcode: self.rcode_rows(),
            qtype: zip(&QTYPE_LABELS, &self.qtype_counts),
            synth: self.synth_rows(),
        }
    }
}

// ---------------------------------------------------------------------------
// The endpoint
// ---------------------------------------------------------------------------

/// The member of a list at a place, or nothing.
pub open spec fn member(p: Seq<Seq<char>>, i: int) -> Seq<char> {
    if 0 <= i < p.len() {
        p[i]
    } else {
        Seq::empty()
    }
}

/// Whether the head of a request asks for the metrics: `GET`, and the path
/// `/metrics` before any query.
pub open spec fn asks_for_metrics(head: Seq<char>) -> bool {
    let words = text::tokens(member(text::lines(head), 0), Sep::Space);
    &&& member(words, 0) == "GET"@
    &&& text::split(member(words, 1), Sep::Char('?'))[0] == "/metrics"@
}

/// An HTTP response that closes the connection.
pub open spec fn http_response(
    status: Seq<char>,
    ctype: Seq<char>,
    length: nat,
    body: Seq<char>,
) -> Seq<char> {
    "HTTP/1.1 "@ + status + "\r\nContent-Type: "@ + ctype + "\r\nContent-Length: "@ + text::decimal(
        length,
    ) + "\r\nConnection: close\r\n\r\n"@ + body
}

/// The answer to a request: the exposition for the metrics, else 404.
pub open spec fn http_answer(m: MetricsModel, head: Seq<char>) -> Seq<char> {
    if asks_for_metrics(head) {
        http_response(
            "200 OK"@,
            "text/plain; version=0.0.4; charset=utf-8"@,
            byte_len(prometheus(m)),
            prometheus(m),
        )
    } else {
        http_response(
            "404 Not Found"@,
            "text/plain; charset=utf-8"@,
            byte_len("not found\n"@),
            "not found\n"@,
        )
    }
}

/// The length of a text in bytes.
pub open spec fn byte_len(s: Seq<char>) -> nat {
    (vstd::utf8::encode_utf8(s).len() as usize) as nat
}

fn is_word(words: &Vec<Vec<char>>, i: usize, w: &str) -> (r: bool)
    requires
        w@.len() > 0,
    ensures
        r == (member(text::lists(words@), i as int) == w@),
{
    if i < words.len() {
        let v = text::to_chars(w);
        text::same_chars(words[i].as_slice(), v.as_slice())
    } else {
        false
    }
}

fn wants_metrics(head: &str) -> (r: bool)
    ensures
        r == asks_for_metrics(head@),
{
    let v = text::to_chars(head);
    let lines = text::line_chars(v.as_slice());
    let first: Vec<char> = if lines.len() > 0 {
        text::slice(lines[0].as_slice(), 0, lines[0].len())
    } else {
        Vec::new()
    };
    assert(first@ =~= member(text::lines(head@), 0));
    let words = text::token_chars(first.as_slice(), Sep::Space);
    proof {
        reveal_strlit("GET");
    }
    if !is_word(&words, 0, "GET") {
        return false;
    }
    let path: Vec<char> = if words.len() > 1 {
        text::slice(words[1].as_slice(), 0, words[1].len())
    } else {
        Vec::new()
    };
    assert(path@ =~= member(text::lists(words@), 1));
    let parts = text::split_chars(path.as_slice(), Sep::Char('?'));
    assert(text::lists(parts@)[0] == parts@[0]@);
    let want = text::to_chars("/metrics");
    text::same_chars(parts[0].as_slice(), want.as_slice())
}

fn http(status: &str, ctype: &str, body: &str) -> (r: String)
    ensures
        r@ == http_response(status@, ctype@, byte_len(body@), body@),
{
    let mut s: String = String::new();
    s.append("HTTP/1.1 ");
    s.append(status);
    s.append("\r\nContent-Type: ");
    s.append(ctype);
    s.append("\r\nContent-Length: ");
    let n: usize = body.len();
    text::push_decimal(&mut s, n as u64);
    s.append("\r\nConnection: close\r\n\r\n");
    s.append(body);
    assert(s@ =~= http_response(status@, ctype@, byte_len(body@), body@));
    s
}

impl Metrics {
    /// The response to a request with the given head: the exposition for
    /// `GET /metrics`, 404 for everything else.
    pub fn answer(&self, head: &str) -> (r: String)
        ensures
            r@ == http_answer(self@, head@),
    {
        if wants_metrics(head) {
            let body = self.render_prometheus();
            http("200 OK", "text/plain; version=0.0.4; charset=utf-8", body.as_str())
        } else {
            http("404 Not Found", "text/plain; charset=utf-8", "not found\n")
        }
    }

    /// The response to the bytes of a request.
    pub fn handle_conn(&self, raw: &[u8]) -> (r: String)
        ensures
            r@ == http_answer(self@, text::lossy_text(raw@)),
    {
        let head = text::decode_lossy(raw);
        self.answer(head.as_str())
    }
}

// ---------------------------------------------------------------------------
// Laws
// ---------------------------------------------------------------------------

/// Metrics have one hit count per tracked id and one query count per bucket,
/// whatever was counted.
pub proof fn every_series_has_its_count(m: Metrics)
    ensures
        m@.wf(),
{
}

/// A hit of a synthesizer that is not enabled changes nothing.
pub proof fn unknown_hits_change_nothing(m: MetricsModel, id: Seq<char>)
    requires
        m.wf(),
        !m.ids.contains(id),
    ensures
        hits_after(m, id) == m.hits,
{
    labels::index_of_is_first(m.ids, id);
}

/// A hit of an enabled synthesizer counts for it and for no other.
pub proof fn a_hit_counts_once(m: MetricsModel, id: Seq<char>)
    requires
        m.wf(),
        m.ids.contains(id),
    ensures
        ({
            let i = labels::index_of(m.ids, id);
            &&& 0 <= i < m.ids.len()
            &&& m.ids[i] == id
            &&& hits_after(m, id)[i] == bump(m.hits[i])
            &&& forall|j: int|
                0 <= j < m.hits.len() && j != i ==> hits_after(m, id)[j] == m.hits[j]
        }),
{
    labels::index_of_is_first(m.ids, id);
    let k = m.ids.index_of(id);
    assert(m.ids[k] == id);
}

/// Only known ids are tracked, and each known one is, in config order.
pub proof fn tracked_ids_are_known(ids: Seq<Seq<char>>, id: Seq<char>)
    ensures
        known_only(ids).contains(id) <==> ids.contains(id) && tables::listed(KNOWN_IDS@, id),
    decreases ids.len(),
{
    if ids.len() > 0 {
        let d = ids.drop_last();
        let e = known_only(d);
        tracked_ids_are_known(d, id);
        if ids.contains(id) && tables::listed(KNOWN_IDS@, id) {
            let i = ids.index_of(id);
            if i < d.len() {
                assert(d[i] == id);
                let k = e.index_of(id);
                assert(known_only(ids)[k] == id);
            } else {
                assert(known_only(ids).last() == id);
            }
        }
        if known_only(ids).contains(id) {
            let k = known_only(ids).index_of(id);
            if k < e.len() {
                assert(e[k] == id);
                let i = d.index_of(id);
                assert(ids[i] == id);
            } else {
                assert(ids.last() == id);
            }
        }
    }
}

/// Every enabled synthesizer is tracked, in the order of the configuration.
pub proof fn every_enabled_synthesizer_is_tracked(ids: Seq<Seq<char>>)
    requires
        forall|i: int| 0 <= i < ids.len() ==> synth::is_synth(#[trigger] ids[i]),
    ensures
        known_only(ids) == ids,
    decreases ids.len(),
{
    if ids.len() > 0 {
        let d = ids.drop_last();
        assert forall|i: int| 0 <= i < d.len() implies synth::is_synth(#[trigger] d[i]) by {
            assert(d[i] == ids[i]);
        }
        every_enabled_synthesizer_is_tracked(d);
        assert(synth::is_synth(ids[ids.len() - 1]));
        synth::laws::every_synthesizer_is_known(ids.last());
        assert(d.push(ids.last()) =~= ids);
    }
}

} // verus!
