//! The shape of the exposition: its families and its lines.

use vstd::prelude::*;

use crate::metrics;
use crate::metrics::{Counters, MetricsModel, QTYPE_LABELS};
use crate::synth::labels;
use crate::synth::tables;
use crate::synth::KNOWN_IDS;
use crate::text;
use crate::text::Sep;

verus! {

/// A metric family: its name, what it counts, and its samples, each a series with
/// its value.
pub struct Family {
    pub name: Seq<char>,
    pub help: Seq<char>,
    pub samples: Seq<(Seq<char>, u64)>,
}

/// The samples of a family with one label, one per value of the label.
pub open spec fn labelled_samples(
    head: Seq<char>,
    values: Seq<Seq<char>>,
    counts: Seq<u64>,
) -> Seq<(Seq<char>, u64)> {
    Seq::new(values.len(), |i: int| (head + values[i] + "\"}"@, counts[i]))
}

/// The families of queries and responses.
pub open spec fn query_families(m: MetricsModel) -> Seq<Family> {
    seq![
        Family {
            name: "dns_queries_total"@,
            help: "DNS queries handled, by processing kind."@,
            samples: seq![
                ("dns_queries_total{kind=\"dns64\"}"@, m.c.queries_dns64),
                ("dns_queries_total{kind=\"passthrough\"}"@, m.c.queries_passthrough),
            ],
        },
        Family {
            name: "dns_queries_by_qtype_total"@,
            help: "DNS queries handled, by query type."@,
            samples: labelled_samples(
                "dns_queries_by_qtype_total{qtype=\""@,
                labels::strs(QTYPE_LABELS@),
                m.qtypes,
            ),
        },
        Family {
            name: "dns_responses_total"@,
            help: "Responses sent to clients, by RCODE."@,
            samples: labelled_samples(
                "dns_responses_total{rcode=\""@,
                metrics::rcode_labels(),
                metrics::rcode_counts(m.c.rcode),
            ),
        },
    ]
}

/// A family without labels.
pub open spec fn scalar(name: Seq<char>, help: Seq<char>, n: u64) -> Family {
    Family { name, help, samples: seq![(name, n)] }
}

/// The families without labels.
pub open spec fn plain_families(c: Counters) -> Seq<Family> {
    seq![
        scalar(
            "dns_upstream_failed_total"@,
            "Queries where every upstream failed (client got SERVFAIL)."@,
            c.upstream_failed,
        ),
        scalar(
            "dns_cache_hits_total"@,
            "Response-cache hits (all pool lookups, incl. internal reference resolutions)."@,
            c.cache_hits,
        ),
        scalar(
            "dns_cache_misses_total"@,
            "Response-cache misses for cacheable queries."@,
            c.cache_misses,
        ),
        scalar(
            "dns_negative_cache_hits_total"@,
            "Cache hits served from a negative (NXDOMAIN/NODATA) entry (RFC 2308)."@,
            c.negative_cache_hits,
        ),
        scalar(
            "dns_served_stale_total"@,
            "Answers served from expired cache (RFC 8767 serve-stale)."@,
            c.served_stale,
        ),
        scalar(
            "dns_prefetch_total"@,
            "Background refreshes triggered by a cache hit near TTL expiry."@,
            c.prefetches,
        ),
        scalar(
            "dns64_native_aaaa_total"@,
            "AAAA queries relayed because a native AAAA existed."@,
            c.native_aaaa,
        ),
        scalar(
            "dns64_nxdomain_total"@,
            "AAAA queries that resolved to NXDOMAIN."@,
            c.nxdomain64,
        ),
        scalar(
            "dns64_nodata_total"@,
            "AAAA-NODATA queries that entered the synthesizer chain."@,
            c.nodata,
        ),
        scalar(
            "dns64_synthesized_total"@,
            "AAAA-NODATA queries where the chain produced records."@,
            c.synthesized,
        ),
        scalar(
            "dns64_empty_total"@,
            "AAAA-NODATA queries where the chain produced nothing (honest empty answer)."@,
            c.empty,
        ),
    ]
}

/// The family of synthesizer hits.
pub open spec fn synth_family(m: MetricsModel) -> Family {
    Family {
        name: "synth_hits_total"@,
        help: "Records synthesized, by the synthesizer that produced them."@,
        samples: labelled_samples("synth_hits_total{synthesizer=\""@, m.ids, m.hits),
    }
}

/// All families, in render order.
pub open spec fn families(m: MetricsModel) -> Seq<Family> {
    (query_families(m) + plain_families(m.c)).push(synth_family(m))
}

/// The line of a sample: the series and its value in decimal.
pub open spec fn sample_line(s: (Seq<char>, u64)) -> Seq<char> {
    s.0.push(' ') + text::decimal(s.1 as nat)
}

/// The lines of a family: the comment that says what it counts, the comment that
/// gives its type, and directly behind them its samples.
pub open spec fn family_lines(f: Family) -> Seq<Seq<char>> {
    seq!["# HELP "@ + f.name.push(' ') + f.help, "# TYPE "@ + f.name + " counter"@]
        + f.samples.map_values(|s: (Seq<char>, u64)| sample_line(s))
}

/// The lines of some families.
pub open spec fn all_lines(fs: Seq<Family>) -> Seq<Seq<char>>
    decreases fs.len(),
{
    if fs.len() == 0 {
        Seq::empty()
    } else {
        all_lines(fs.drop_last()) + family_lines(fs.last())
    }
}

/// How many samples some families have.
pub open spec fn sample_count(fs: Seq<Family>) -> nat
    decreases fs.len(),
{
    if fs.len() == 0 {
        0
    } else {
        sample_count(fs.drop_last()) + fs.last().samples.len()
    }
}

// ---------------------------------------------------------------------------
// Lines and text
// ---------------------------------------------------------------------------

/// The text of some lines, each with a line feed at its end.
pub open spec fn text_of(l: Seq<Seq<char>>) -> Seq<char>
    decreases l.len(),
{
    if l.len() == 0 {
        Seq::empty()
    } else {
        text_of(l.drop_last()) + metrics::line(l.last())
    }
}

/// A text without a line feed or a carriage return.
pub open spec fn one_line(s: Seq<char>) -> bool {
    forall|i: int| 0 <= i < s.len() ==> #[trigger] s[i] != '\n' && s[i] != '\r'
}

/// Texts that are all without a line feed or a carriage return.
pub open spec fn single_lines(l: Seq<Seq<char>>) -> bool {
    forall|i: int| 0 <= i < l.len() ==> one_line(#[trigger] l[i])
}

proof fn text_of_both(a: Seq<Seq<char>>, b: Seq<Seq<char>>)
    ensures
        text_of(a + b) == text_of(a) + text_of(b),
    decreases b.len(),
{
    if b.len() == 0 {
        assert(a + b =~= a);
        assert(text_of(a) + text_of(b) =~= text_of(a));
    } else {
        text_of_both(a, b.drop_last());
        assert((a + b).drop_last() =~= a + b.drop_last());
        assert(text_of(a + b) =~= text_of(a) + text_of(b));
    }
}

proof fn split_of_lines(l: Seq<Seq<char>>)
    requires
        single_lines(l),
    ensures
        text::split(text_of(l), Sep::Char('\n')) == l.push(Seq::empty()),
    decreases l.len(),
{
    let sep = Sep::Char('\n');
    if l.len() == 0 {
        assert(text::split(text_of(l), sep) =~= l.push(Seq::empty()));
    } else {
        let d = l.drop_last();
        assert forall|i: int| 0 <= i < d.len() implies one_line(#[trigger] d[i]) by {
            assert(d[i] == l[i]);
        }
        split_of_lines(d);
        let last = l.last();
        assert(one_line(l[l.len() - 1]));
        text::split_grows_last(text_of(d), last, sep);
        let whole = text_of(l);
        assert(whole.drop_last() =~= text_of(d) + last);
        assert(whole.last() == '\n');
        assert(d.push(Seq::<char>::empty()).drop_last() =~= d);
        assert(Seq::<char>::empty() + last =~= last);
        assert(d.push(last) =~= l);
    }
}

/// The lines of the text of some lines are these lines, if none of them holds a
/// line feed or a carriage return.
pub proof fn lines_come_back(l: Seq<Seq<char>>)
    requires
        single_lines(l),
    ensures
        text::lines(text_of(l)) == l,
{
    split_of_lines(l);
    let p = l.push(Seq::<char>::empty());
    assert forall|i: int| 0 <= i < l.len() implies text::strip_cr(p[i]) == l[i] by {
        assert(one_line(l[i]));
        if l[i].len() > 0 {
            assert(l[i].last() == l[i][l[i].len() - 1]);
        }
    }
    assert(text::lines(text_of(l)) =~= l);
}

// ---------------------------------------------------------------------------
// The families make the text
// ---------------------------------------------------------------------------

proof fn lines_of_both(a: Seq<Family>, b: Seq<Family>)
    ensures
        all_lines(a + b) == all_lines(a) + all_lines(b),
        sample_count(a + b) == sample_count(a) + sample_count(b),
    decreases b.len(),
{
    if b.len() == 0 {
        assert(a + b =~= a);
        assert(all_lines(a) + all_lines(b) =~= all_lines(a));
    } else {
        lines_of_both(a, b.drop_last());
        assert((a + b).drop_last() =~= a + b.drop_last());
        assert(all_lines(a + b) =~= all_lines(a) + all_lines(b));
    }
}

proof fn line_count(fs: Seq<Family>)
    ensures
        all_lines(fs).len() == 2 * fs.len() + sample_count(fs),
    decreases fs.len(),
{
    if fs.len() > 0 {
        line_count(fs.drop_last());
    }
}

proof fn one_more_family(fs: Seq<Family>, f: Family)
    ensures
        text_of(all_lines(fs.push(f))) == text_of(all_lines(fs)) + text_of(family_lines(f)),
        sample_count(fs.push(f)) == sample_count(fs) + f.samples.len(),
{
    assert(fs.push(f).drop_last() =~= fs);
    text_of_both(all_lines(fs), family_lines(f));
}

/// The text of a family's samples.
pub open spec fn samples_text(v: Seq<(Seq<char>, u64)>) -> Seq<char> {
    text_of(v.map_values(|s: (Seq<char>, u64)| sample_line(s)))
}

proof fn one_more_sample(v: Seq<(Seq<char>, u64)>)
    requires
        v.len() > 0,
    ensures
        samples_text(v) == samples_text(v.drop_last()) + metrics::sample(v.last().0, v.last().1),
{
    let f = |s: (Seq<char>, u64)| sample_line(s);
    assert(v.map_values(f).drop_last() =~= v.drop_last().map_values(f));
    assert(v.map_values(f).last() == sample_line(v.last()));
}

proof fn family_is_text(f: Family)
    ensures
        text_of(family_lines(f)) == metrics::family_head(f.name, f.help) + samples_text(f.samples),
{
    let help = "# HELP "@ + f.name.push(' ') + f.help;
    let kind = "# TYPE "@ + f.name + " counter"@;
    let head = seq![help, kind];
    text_of_both(head, f.samples.map_values(|s: (Seq<char>, u64)| sample_line(s)));
    assert(head.drop_last() =~= seq![help]);
    assert(seq![help].drop_last() =~= Seq::<Seq<char>>::empty());
    assert(text_of(Seq::<Seq<char>>::empty()) == Seq::<char>::empty());
    assert(text_of(seq![help]) =~= metrics::line(help));
    assert(text_of(head) =~= metrics::family_head(f.name, f.help));
}

proof fn labelled_is_text(head: Seq<char>, values: Seq<Seq<char>>, counts: Seq<u64>)
    ensures
        samples_text(labelled_samples(head, values, counts)) == metrics::labelled(
            head,
            values,
            counts,
        ),
    decreases values.len(),
{
    let v = labelled_samples(head, values, counts);
    if values.len() == 0 {
        assert(v.map_values(|s: (Seq<char>, u64)| sample_line(s)).len() == 0);
    } else {
        labelled_is_text(head, values.drop_last(), counts);
        one_more_sample(v);
        assert(v.drop_last() =~= labelled_samples(head, values.drop_last(), counts));
    }
}

proof fn scalar_is_text(name: Seq<char>, help: Seq<char>, n: u64)
    ensures
        text_of(family_lines(scalar(name, help, n))) == metrics::family(name, help, n),
{
    let v = seq![(name, n)];
    family_is_text(scalar(name, help, n));
    one_more_sample(v);
    let none = v.drop_last();
    assert(none.map_values(|s: (Seq<char>, u64)| sample_line(s)).len() == 0);
    assert(samples_text(v) =~= metrics::sample(name, n));
}

proof fn query_families_are_text(m: MetricsModel)
    ensures
        text_of(all_lines(query_families(m))) == metrics::labelled_families(m),
        sample_count(query_families(m)) == 26,
{
    let q = query_families(m);
    let none = Seq::<Family>::empty();
    one_more_family(none, q[0]);
    one_more_family(none.push(q[0]), q[1]);
    one_more_family(none.push(q[0]).push(q[1]), q[2]);
    assert(none.push(q[0]).push(q[1]).push(q[2]) =~= q);
    assert(text_of(all_lines(none)) =~= Seq::<char>::empty());
    family_is_text(q[0]);
    family_is_text(q[1]);
    family_is_text(q[2]);
    let v = q[0].samples;
    one_more_sample(v);
    one_more_sample(v.drop_last());
    assert(v.drop_last().drop_last().map_values(|s: (Seq<char>, u64)| sample_line(s)).len() == 0);
    labelled_is_text(
        "dns_queries_by_qtype_total{qtype=\""@,
        labels::strs(QTYPE_LABELS@),
        m.qtypes,
    );
    labelled_is_text(
        "dns_responses_total{rcode=\""@,
        metrics::rcode_labels(),
        metrics::rcode_counts(m.c.rcode),
    );
    assert(text_of(all_lines(q)) =~= metrics::labelled_families(m));
}

proof fn plain_families_are_text(c: Counters)
    ensures
        text_of(all_lines(plain_families(c))) == metrics::scalar_families(c),
        sample_count(plain_families(c)) == 11,
{
    let q = plain_families(c);
    let f0 = Seq::<Family>::empty();
    let f1 = f0.push(q[0]);
    let f2 = f1.push(q[1]);
    let f3 = f2.push(q[2]);
    let f4 = f3.push(q[3]);
    let f5 = f4.push(q[4]);
    let f6 = f5.push(q[5]);
    let f7 = f6.push(q[6]);
    let f8 = f7.push(q[7]);
    let f9 = f8.push(q[8]);
    let f10 = f9.push(q[9]);
    let f11 = f10.push(q[10]);
    one_more_family(f0, q[0]);
    one_more_family(f1, q[1]);
    one_more_family(f2, q[2]);
    one_more_family(f3, q[3]);
    one_more_family(f4, q[4]);
    one_more_family(f5, q[5]);
    one_more_family(f6, q[6]);
    one_more_family(f7, q[7]);
    one_more_family(f8, q[8]);
    one_more_family(f9, q[9]);
    one_more_family(f10, q[10]);
    scalar_is_text(q[0].name, q[0].help, c.upstream_failed);
    scalar_is_text(q[1].name, q[1].help, c.cache_hits);
    scalar_is_text(q[2].name, q[2].help, c.cache_misses);
    scalar_is_text(q[3].name, q[3].help, c.negative_cache_hits);
    scalar_is_text(q[4].name, q[4].help, c.served_stale);
    scalar_is_text(q[5].name, q[5].help, c.prefetches);
    scalar_is_text(q[6].name, q[6].help, c.native_aaaa);
    scalar_is_text(q[7].name, q[7].help, c.nxdomain64);
    scalar_is_text(q[8].name, q[8].help, c.nodata);
    scalar_is_text(q[9].name, q[9].help, c.synthesized);
    scalar_is_text(q[10].name, q[10].help, c.empty);
    assert(f11 =~= q);
    assert(text_of(all_lines(f0)) =~= Seq::<char>::empty());
    assert(text_of(all_lines(f1)) =~= text_of(family_lines(q[0])));
}

proof fn texts_in_a_row(a: Seq<char>, b: Seq<char>, c: Seq<char>, d: Seq<char>)
    ensures
        (a + b) + (c + d) == a + b + c + d,
{
    assert((a + b) + (c + d) =~= a + b + c + d);
}

proof fn families_are_text(m: MetricsModel)
    ensures
        text_of(all_lines(families(m))) == metrics::prometheus(m),
        families(m).len() == 15,
        sample_count(families(m)) == 37 + m.ids.len(),
{
    let a = query_families(m);
    let b = plain_families(m.c);
    query_families_are_text(m);
    plain_families_are_text(m.c);
    lines_of_both(a, b);
    text_of_both(all_lines(a), all_lines(b));
    one_more_family(a + b, synth_family(m));
    family_is_text(synth_family(m));
    labelled_is_text("synth_hits_total{synthesizer=\""@, m.ids, m.hits);
    texts_in_a_row(
        metrics::labelled_families(m),
        metrics::scalar_families(m.c),
        metrics::family_head(synth_family(m).name, synth_family(m).help),
        samples_text(synth_family(m).samples),
    );
}

// ---------------------------------------------------------------------------
// Every line is one line
// ---------------------------------------------------------------------------

proof fn head_literals()
    ensures
        one_line("# HELP "@),
        one_line("# TYPE "@),
        one_line(" counter"@),
        one_line("\"}"@),
{
    reveal_strlit("# HELP ");
    reveal_strlit("# TYPE ");
    reveal_strlit(" counter");
    reveal_strlit("\"}");
}

proof fn query_literals()
    ensures
        one_line("dns_queries_total"@),
        one_line("DNS queries handled, by processing kind."@),
        one_line("dns_queries_total{kind=\"dns64\"}"@),
        one_line("dns_queries_total{kind=\"passthrough\"}"@),
        one_line("dns_queries_by_qtype_total"@),
        one_line("DNS queries handled, by query type."@),
        one_line("dns_queries_by_qtype_total{qtype=\""@),
        one_line("dns_responses_total"@),
        one_line("Responses sent to clients, by RCODE."@),
        one_line("dns_responses_total{rcode=\""@),
        one_line("synth_hits_total"@),
        one_line("Records synthesized, by the synthesizer that produced them."@),
        one_line("synth_hits_total{synthesizer=\""@),
{
    reveal_strlit("dns_queries_total");
    reveal_strlit("DNS queries handled, by processing kind.");
    reveal_strlit("dns_queries_total{kind=\"dns64\"}");
    reveal_strlit("dns_queries_total{kind=\"passthrough\"}");
    reveal_strlit("dns_queries_by_qtype_total");
    reveal_strlit("DNS queries handled, by query type.");
    reveal_strlit("dns_queries_by_qtype_total{qtype=\"");
    reveal_strlit("dns_responses_total");
    reveal_strlit("Responses sent to clients, by RCODE.");
    reveal_strlit("dns_responses_total{rcode=\"");
    reveal_strlit("synth_hits_total");
    reveal_strlit("Records synthesized, by the synthesizer that produced them.");
    reveal_strlit("synth_hits_total{synthesizer=\"");
}

proof fn scalar_names()
    ensures
        one_line("dns_upstream_failed_total"@),
        one_line("dns_cache_hits_total"@),
        one_line("dns_cache_misses_total"@),
        one_line("dns_negative_cache_hits_total"@),
        one_line("dns_served_stale_total"@),
        one_line("dns_prefetch_total"@),
        one_line("dns64_native_aaaa_total"@),
        one_line("dns64_nxdomain_total"@),
        one_line("dns64_nodata_total"@),
        one_line("dns64_synthesized_total"@),
        one_line("dns64_empty_total"@),
{
    reveal_strlit("dns_upstream_failed_total");
    reveal_strlit("dns_cache_hits_total");
    reveal_strlit("dns_cache_misses_total");
    reveal_strlit("dns_negative_cache_hits_total");
    reveal_strlit("dns_served_stale_total");
    reveal_strlit("dns_prefetch_total");
    reveal_strlit("dns64_native_aaaa_total");
    reveal_strlit("dns64_nxdomain_total");
    reveal_strlit("dns64_nodata_total");
    reveal_strlit("dns64_synthesized_total");
    reveal_strlit("dns64_empty_total");
}

proof fn scalar_helps()
    ensures
        one_line("Queries where every upstream failed (client got SERVFAIL)."@),
        one_line("Response-cache hits (all pool lookups, incl. internal reference resolutions)."@),
        one_line("Response-cache misses for cacheable queries."@),
        one_line("Cache hits served from a negative (NXDOMAIN/NODATA) entry (RFC 2308)."@),
        one_line("Answers served from expired cache (RFC 8767 serve-stale)."@),
        one_line("Background refreshes triggered by a cache hit near TTL expiry."@),
        one_line("AAAA queries relayed because a native AAAA existed."@),
        one_line("AAAA queries that resolved to NXDOMAIN."@),
        one_line("AAAA-NODATA queries that entered the synthesizer chain."@),
        one_line("AAAA-NODATA queries where the chain produced records."@),
        one_line("AAAA-NODATA queries where the chain produced nothing (honest empty answer)."@),
{
    reveal_strlit("Queries where every upstream failed (client got SERVFAIL).");
    reveal_strlit("Response-cache hits (all pool lookups, incl. internal reference resolutions).");
    reveal_strlit("Response-cache misses for cacheable queries.");
    reveal_strlit("Cache hits served from a negative (NXDOMAIN/NODATA) entry (RFC 2308).");
    reveal_strlit("Answers served from expired cache (RFC 8767 serve-stale).");
    reveal_strlit("Background refreshes triggered by a cache hit near TTL expiry.");
    reveal_strlit("AAAA queries relayed because a native AAAA existed.");
    reveal_strlit("AAAA queries that resolved to NXDOMAIN.");
    reveal_strlit("AAAA-NODATA queries that entered the synthesizer chain.");
    reveal_strlit("AAAA-NODATA queries where the chain produced records.");
    reveal_strlit("AAAA-NODATA queries where the chain produced nothing (honest empty answer).");
}

proof fn type_labels()
    ensures
        single_lines(labels::strs(QTYPE_LABELS@)),
{
    reveal_strlit("A");
    reveal_strlit("AAAA");
    reveal_strlit("CNAME");
    reveal_strlit("MX");
    reveal_strlit("TXT");
    reveal_strlit("NS");
    reveal_strlit("PTR");
    reveal_strlit("SOA");
    reveal_strlit("SRV");
    reveal_strlit("CAA");
    reveal_strlit("HTTPS");
    reveal_strlit("SVCB");
    reveal_strlit("DS");
    reveal_strlit("DNSKEY");
    reveal_strlit("NAPTR");
    reveal_strlit("ANY");
    reveal_strlit("other");
    let v = labels::strs(QTYPE_LABELS@);
    assert forall|i: int| 0 <= i < v.len() implies one_line(#[trigger] v[i]) by {}
}

proof fn code_labels()
    ensures
        single_lines(metrics::rcode_labels()),
{
    reveal_strlit("noerror");
    reveal_strlit("nxdomain");
    reveal_strlit("servfail");
    reveal_strlit("notimp");
    reveal_strlit("formerr");
    reveal_strlit("refused");
    reveal_strlit("other");
    let v = metrics::rcode_labels();
    assert forall|i: int| 0 <= i < v.len() implies one_line(#[trigger] v[i]) by {}
}

proof fn known_ids()
    ensures
        single_lines(labels::strs(KNOWN_IDS@)),
{
    reveal_strlit("nat64");
    reveal_strlit("fastly");
    reveal_strlit("akamai");
    reveal_strlit("cloudfront");
    reveal_strlit("cloudflare");
    reveal_strlit("shopify");
    reveal_strlit("webflow");
    reveal_strlit("s3");
    reveal_strlit("oss");
    reveal_strlit("alicdn");
    reveal_strlit("oracleobjectstorage");
    reveal_strlit("msedge");
    reveal_strlit("bunnycdn");
    reveal_strlit("blazingcdn");
    reveal_strlit("gcorecdn");
    reveal_strlit("cachefly");
    reveal_strlit("cdn77");
    reveal_strlit("awsglb");
    reveal_strlit("weebly");
    reveal_strlit("sucuri");
    reveal_strlit("netlify");
    reveal_strlit("bearblog");
    reveal_strlit("azurewebsites");
    reveal_strlit("wpvip");
    reveal_strlit("edgecast");
    reveal_strlit("limelight");
    let v = labels::strs(KNOWN_IDS@);
    assert forall|i: int| 0 <= i < v.len() implies one_line(#[trigger] v[i]) by {}
}

proof fn both_on_one_line(a: Seq<char>, b: Seq<char>)
    requires
        one_line(a),
        one_line(b),
    ensures
        one_line(a + b),
        one_line(a.push(' ')),
{
}

proof fn decimal_on_one_line(n: nat)
    ensures
        one_line(text::decimal(n)),
    decreases n,
{
    if n >= 10 {
        decimal_on_one_line(n / 10);
    }
}

/// A family whose name, help and series are each on one line.
pub open spec fn neat(f: Family) -> bool {
    &&& one_line(f.name)
    &&& one_line(f.help)
    &&& forall|i: int| 0 <= i < f.samples.len() ==> one_line((#[trigger] f.samples[i]).0)
}

proof fn neat_lines(f: Family)
    requires
        neat(f),
    ensures
        single_lines(family_lines(f)),
{
    head_literals();
    both_on_one_line(f.name, f.name);
    both_on_one_line("# HELP "@, f.name.push(' '));
    both_on_one_line("# HELP "@ + f.name.push(' '), f.help);
    both_on_one_line("# TYPE "@, f.name);
    both_on_one_line("# TYPE "@ + f.name, " counter"@);
    let l = family_lines(f);
    assert forall|i: int| 0 <= i < l.len() implies one_line(#[trigger] l[i]) by {
        if i >= 2 {
            let s = f.samples[i - 2];
            assert(l[i] == sample_line(s));
            decimal_on_one_line(s.1 as nat);
            both_on_one_line(s.0, s.0);
            both_on_one_line(s.0.push(' '), text::decimal(s.1 as nat));
        }
    }
}

proof fn all_neat_lines(fs: Seq<Family>)
    requires
        forall|i: int| 0 <= i < fs.len() ==> neat(#[trigger] fs[i]),
    ensures
        single_lines(all_lines(fs)),
    decreases fs.len(),
{
    if fs.len() > 0 {
        let d = fs.drop_last();
        assert forall|i: int| 0 <= i < d.len() implies neat(#[trigger] d[i]) by {
            assert(d[i] == fs[i]);
        }
        all_neat_lines(d);
        assert(neat(fs[fs.len() - 1]));
        neat_lines(fs.last());
        let a = all_lines(d);
        let b = family_lines(fs.last());
        let l = all_lines(fs);
        assert forall|i: int| 0 <= i < l.len() implies one_line(#[trigger] l[i]) by {
            if i < a.len() {
                assert(l[i] == a[i]);
            } else {
                assert(l[i] == b[i - a.len()]);
            }
        }
    }
}

proof fn neat_samples(head: Seq<char>, values: Seq<Seq<char>>, counts: Seq<u64>)
    requires
        one_line(head),
        single_lines(values),
    ensures
        forall|i: int|
            0 <= i < values.len() ==> one_line(
                (#[trigger] labelled_samples(head, values, counts)[i]).0,
            ),
{
    head_literals();
    let v = labelled_samples(head, values, counts);
    assert forall|i: int| 0 <= i < values.len() implies one_line((#[trigger] v[i]).0) by {
        both_on_one_line(head, values[i]);
        both_on_one_line(head + values[i], "\"}"@);
    }
}

proof fn query_families_are_neat(m: MetricsModel)
    ensures
        forall|i: int| 0 <= i < 3 ==> neat(#[trigger] query_families(m)[i]),
{
    query_literals();
    type_labels();
    code_labels();
    neat_samples(
        "dns_queries_by_qtype_total{qtype=\""@,
        labels::strs(QTYPE_LABELS@),
        m.qtypes,
    );
    neat_samples(
        "dns_responses_total{rcode=\""@,
        metrics::rcode_labels(),
        metrics::rcode_counts(m.c.rcode),
    );
    let q = query_families(m);
    assert(neat(q[0]));
    assert(neat(q[1]));
    assert(neat(q[2]));
}

proof fn plain_families_are_neat(c: Counters)
    ensures
        forall|i: int| 0 <= i < 11 ==> neat(#[trigger] plain_families(c)[i]),
{
    scalar_names();
    scalar_helps();
}

/// Ids that the metrics track: known ones.
pub open spec fn known_model(m: MetricsModel) -> bool {
    forall|i: int| 0 <= i < m.ids.len() ==> tables::listed(KNOWN_IDS@, #[trigger] m.ids[i])
}

proof fn the_synth_family_is_neat(m: MetricsModel)
    requires
        known_model(m),
    ensures
        neat(synth_family(m)),
{
    query_literals();
    known_ids();
    let v = labels::strs(KNOWN_IDS@);
    assert forall|i: int| 0 <= i < m.ids.len() implies one_line(#[trigger] m.ids[i]) by {
        let k = choose|k: int|
            0 <= k < KNOWN_IDS@.len() && #[trigger] KNOWN_IDS@[k]@ == m.ids[i];
        assert(v[k] == m.ids[i]);
    }
    neat_samples("synth_hits_total{synthesizer=\""@, m.ids, m.hits);
}

// ---------------------------------------------------------------------------
// Laws
// ---------------------------------------------------------------------------

/// The exposition has fifteen families. Its lines are those of the families in
/// order: for each the two comment lines and directly behind them its samples, each
/// of which ends with a decimal number. With `k` tracked ids there are `37 + k`
/// samples and `67 + k` lines, and every line ends with a line feed.
pub proof fn the_exposition_is_made_of_families(m: MetricsModel)
    requires
        known_model(m),
    ensures
        families(m).len() == 15,
        text::lines(metrics::prometheus(m)) == all_lines(families(m)),
        sample_count(families(m)) == 37 + m.ids.len(),
        text::lines(metrics::prometheus(m)).len() == 67 + m.ids.len(),
        metrics::prometheus(m).last() == '\n',
{
    families_are_text(m);
    query_families_are_neat(m);
    plain_families_are_neat(m.c);
    the_synth_family_is_neat(m);
    let fs = families(m);
    assert forall|i: int| 0 <= i < fs.len() implies neat(#[trigger] fs[i]) by {
        if i < 3 {
            assert(fs[i] == query_families(m)[i]);
        } else if i < 14 {
            assert(fs[i] == plain_families(m.c)[i - 3]);
        }
    }
    all_neat_lines(fs);
    lines_come_back(all_lines(fs));
    line_count(fs);
    let l = all_lines(fs);
    assert(text_of(l).last() == '\n');
}

/// The names of the families, in render order.
pub open spec fn family_names() -> Seq<Seq<char>> {
    seq![
        "dns_queries_total"@,
        "dns_queries_by_qtype_total"@,
        "dns_responses_total"@,
        "dns_upstream_failed_total"@,
        "dns_cache_hits_total"@,
        "dns_cache_misses_total"@,
        "dns_negative_cache_hits_total"@,
        "dns_served_stale_total"@,
        "dns_prefetch_total"@,
        "dns64_native_aaaa_total"@,
        "dns64_nxdomain_total"@,
        "dns64_nodata_total"@,
        "dns64_synthesized_total"@,
        "dns64_empty_total"@,
        "synth_hits_total"@,
    ]
}

/// No two families of the exposition have the same name.
pub proof fn family_names_differ(m: MetricsModel)
    ensures
        families(m).map_values(|f: Family| f.name) == family_names(),
        family_names().no_duplicates(),
{
    reveal_strlit("dns_queries_total");
    reveal_strlit("dns_queries_by_qtype_total");
    reveal_strlit("dns_responses_total");
    reveal_strlit("dns_upstream_failed_total");
    reveal_strlit("dns_cache_hits_total");
    reveal_strlit("dns_cache_misses_total");
    reveal_strlit("dns_negative_cache_hits_total");
    reveal_strlit("dns_served_stale_total");
    reveal_strlit("dns_prefetch_total");
    reveal_strlit("dns64_native_aaaa_total");
    reveal_strlit("dns64_nxdomain_total");
    reveal_strlit("dns64_nodata_total");
    reveal_strlit("dns64_synthesized_total");
    reveal_strlit("dns64_empty_total");
    reveal_strlit("synth_hits_total");
    let n = family_names();
    assert forall|i: int, j: int| 0 <= i < n.len() && 0 <= j < n.len() && i != j implies n[i]
        != n[j] by {
        assert(n[i].len() != n[j].len() || n[i][7] != n[j][7]);
    }
    assert(families(m).map_values(|f: Family| f.name) =~= n);
}

/// The metrics of some enabled synthesizers track known ids only.
pub proof fn metrics_track_known_ids(enabled: Seq<Seq<char>>, m: MetricsModel)
    requires
        m.ids == metrics::known_only(enabled),
    ensures
        known_model(m),
{
    assert forall|i: int| 0 <= i < m.ids.len() implies tables::listed(
        KNOWN_IDS@,
        #[trigger] m.ids[i],
    ) by {
        metrics::tracked_ids_are_known(enabled, m.ids[i]);
        assert(m.ids.contains(m.ids[i]));
    }
}

} // verus!
