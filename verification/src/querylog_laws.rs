//! What the query log keeps of a query.

use vstd::prelude::*;

use crate::querylog;
use crate::querylog::{Entry, Outcome, Record};

verus! {

/// An entry has the time of its recording and every field of its record.
pub proof fn an_entry_keeps_its_record(r: Record, time: i64)
    ensures
        ({
            let e = querylog::entry_of(r, time);
            &&& e.time == time
            &&& e.client == r.client
            &&& e.name == r.name
            &&& e.qtype == r.qtype
            &&& e.rcode == r.rcode
            &&& e.cache == r.cache
            &&& e.outcome == r.outcome
            &&& e.latency == r.latency
        }),
{
}

/// A new entry stands behind the others; only where the log is full does the oldest
/// one leave.
pub proof fn an_entry_stands_last(v: Seq<Entry>, cap: usize, e: Entry)
    requires
        1 <= cap,
        v.len() <= cap,
    ensures
        ({
            let w = querylog::recorded(v, cap, e);
            &&& w.len() > 0 && w[w.len() - 1] == e
            &&& v.len() < cap ==> w.len() == v.len() + 1 && forall|i: int|
                0 <= i < v.len() ==> #[trigger] w[i] == v[i]
            &&& v.len() == cap ==> w.len() == cap && forall|i: int|
                0 <= i < cap - 1 ==> #[trigger] w[i] == v[i + 1]
        }),
{
}

/// The label of each outcome; that of a synthesized one names the provider.
pub proof fn outcomes_have_labels(o: Outcome)
    ensures
        o is NativeAaaa ==> querylog::outcome_label(o) == "native-aaaa"@,
        o is Nxdomain ==> querylog::outcome_label(o) == "nxdomain"@,
        o is Synthesized ==> querylog::outcome_label(o) == "synth:"@ + o->Synthesized_0@,
        o is EmptyNodata ==> querylog::outcome_label(o) == "empty"@,
        o is Passthrough ==> querylog::outcome_label(o) == "passthrough"@,
        o is Blocked ==> querylog::outcome_label(o) == "blocked"@,
        o is Refused ==> querylog::outcome_label(o) == "refused"@,
        o is ServFail ==> querylog::outcome_label(o) == "servfail"@,
{
}

/// The kind of each outcome; NAT64 has one of its own among the synthesized ones.
pub proof fn outcomes_have_kinds(o: Outcome)
    ensures
        o is NativeAaaa ==> querylog::outcome_kind(o) == "native"@,
        o is Nxdomain ==> querylog::outcome_kind(o) == "nxdomain"@,
        o is Synthesized && o->Synthesized_0@ == "nat64"@ ==> querylog::outcome_kind(o) == "nat64"@,
        o is Synthesized && o->Synthesized_0@ != "nat64"@ ==> querylog::outcome_kind(o) == "synth"@,
        o is EmptyNodata ==> querylog::outcome_kind(o) == "empty"@,
        o is Passthrough ==> querylog::outcome_kind(o) == "passthrough"@,
        o is Blocked ==> querylog::outcome_kind(o) == "blocked"@,
        o is Refused ==> querylog::outcome_kind(o) == "refused"@,
        o is ServFail ==> querylog::outcome_kind(o) == "servfail"@,
{
}

} // verus!
