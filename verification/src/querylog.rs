//! The query log: a bounded, in-memory record of recent queries for the
//! dashboard. It exists only while the dashboard is enabled.
//!
//! New entries are pushed into a ring buffer, the oldest displaced, and handed
//! back so that the caller can fan them out to live subscribers.

use std::collections::VecDeque;

use vstd::prelude::*;

use crate::dns::{RecordType, ResponseCode};
use crate::net::IpAddr;
use crate::text;
use crate::upstream::CacheStatus;

verus! {

/// How a query was ultimately answered.
#[derive(Debug, Clone, Copy)]
pub enum Outcome {
    /// Relayed an upstream native AAAA (synthesis suppressed).
    NativeAaaa,
    /// AAAA query that resolved to NXDOMAIN (relayed).
    Nxdomain,
    /// The chain produced records; carries the winning synthesizer's id.
    Synthesized(&'static str),
    /// The chain produced nothing (honest empty answer).
    EmptyNodata,
    /// A non-AAAA (or CD-bit) query relayed transparently.
    Passthrough,
    /// The name was on the blocklist: answered NXDOMAIN locally.
    Blocked,
    /// The client was outside the allowlist: answered REFUSED locally.
    Refused,
    /// Every upstream failed; the client got SERVFAIL.
    ServFail,
}

/// The category of an outcome.
pub open spec fn outcome_kind(o: Outcome) -> Seq<char> {
    match o {
        Outcome::NativeAaaa => "native"@,
        Outcome::Nxdomain => "nxdomain"@,
        Outcome::Synthesized(id) => if id@ == "nat64"@ {
            "nat64"@
        } else {
            "synth"@
        },
        Outcome::EmptyNodata => "empty"@,
        Outcome::Passthrough => "passthrough"@,
        Outcome::Blocked => "blocked"@,
        Outcome::Refused => "refused"@,
        Outcome::ServFail => "servfail"@,
    }
}

/// The label of an outcome.
pub open spec fn outcome_label(o: Outcome) -> Seq<char> {
    match o {
        Outcome::NativeAaaa => "native-aaaa"@,
        Outcome::Nxdomain => "nxdomain"@,
        Outcome::Synthesized(id) => "synth:"@ + id@,
        Outcome::EmptyNodata => "empty"@,
        Outcome::Passthrough => "passthrough"@,
        Outcome::Blocked => "blocked"@,
        Outcome::Refused => "refused"@,
        Outcome::ServFail => "servfail"@,
    }
}

impl Outcome {
    /// Stable category for styling: a name that fell through to NAT64 is `nat64`,
    /// any other synthesized one `synth`.
    pub fn kind(&self) -> (r: &'static str)
        ensures
            r@ == outcome_kind(*self),
    {
        match self {
            Outcome::NativeAaaa => "native",
            Outcome::Nxdomain => "nxdomain",
            Outcome::Synthesized(id) => if text::same(id, "nat64") {
                "nat64"
            } else {
                "synth"
            },
            Outcome::EmptyNodata => "empty",
            Outcome::Passthrough => "passthrough",
            Outcome::Blocked => "blocked",
            Outcome::Refused => "refused",
            Outcome::ServFail => "servfail",
        }
    }

    /// Short label for display (`synth:<id>` for a synthesized answer).
    pub fn label(&self) -> (r: String)
        ensures
            r@ == outcome_label(*self),
    {
        match self {
            Outcome::NativeAaaa => text::copy("native-aaaa"),
            Outcome::Nxdomain => text::copy("nxdomain"),
            Outcome::Synthesized(id) => {
                let mut s = text::copy("synth:");
                s.append(id);
                s
            },
            Outcome::EmptyNodata => text::copy("empty"),
            Outcome::Passthrough => text::copy("passthrough"),
            Outcome::Blocked => text::copy("blocked"),
            Outcome::Refused => text::copy("refused"),
            Outcome::ServFail => text::copy("servfail"),
        }
    }
}

/// One handled query and how it was answered.
#[derive(Debug)]
pub struct Entry {
    /// When the entry was recorded, in seconds of Unix time.
    pub time: i64,
    /// The client that asked.
    pub client: IpAddr,
    /// The queried name (already a presentation string).
    pub name: String,
    /// The queried record type.
    pub qtype: RecordType,
    /// The response code returned to the client.
    pub rcode: ResponseCode,
    /// Cache disposition of the client-facing query.
    pub cache: CacheStatus,
    /// How the answer was produced.
    pub outcome: Outcome,
    /// End-to-end handling latency, in nanoseconds.
    pub latency: u64,
}

impl Clone for Entry {
    fn clone(&self) -> (r: Self)
        ensures
            r == *self,
    {
        Entry {
            time: self.time,
            client: self.client,
            name: self.name.clone(),
            qtype: self.qtype,
            rcode: self.rcode,
            cache: self.cache,
            outcome: self.outcome,
            latency: self.latency,
        }
    }
}

/// What the handler knows about a query before it is recorded.
#[derive(Debug)]
pub struct Record {
    pub client: IpAddr,
    pub name: String,
    pub qtype: RecordType,
    pub rcode: ResponseCode,
    pub cache: CacheStatus,
    pub outcome: Outcome,
    pub latency: u64,
}

/// The entry of a record at a time.
pub open spec fn entry_of(r: Record, time: i64) -> Entry {
    Entry {
        time,
        client: r.client,
        name: r.name,
        qtype: r.qtype,
        rcode: r.rcode,
        cache: r.cache,
        outcome: r.outcome,
        latency: r.latency,
    }
}

/// A bounded ring buffer of recent entries.
#[derive(Debug)]
pub struct QueryLog {
    buf: VecDeque<Entry>,
    cap: usize,
}

impl View for QueryLog {
    type V = Seq<Entry>;

    /// The entries, oldest first.
    closed spec fn view(&self) -> Seq<Entry> {
        self.buf@
    }
}

/// A list of at most `cap` entries with one more at its end: the oldest one goes
/// where it was full.
pub open spec fn recorded(v: Seq<Entry>, cap: usize, e: Entry) -> Seq<Entry> {
    if v.len() == cap {
        v.skip(1).push(e)
    } else {
        v.push(e)
    }
}

impl QueryLog {
    /// How many entries the log holds at most.
    pub closed spec fn capacity(&self) -> usize {
        self.cap
    }

    /// The log holds no more than its capacity, which is not zero.
    #[verifier::type_invariant]
    closed spec fn wf(self) -> bool {
        1 <= self.cap && self.buf@.len() <= self.cap
    }

    /// A log holding at most `cap` recent entries (at least one).
    pub fn new(cap: usize) -> (r: Self)
        ensures
            r@.len() == 0,
            r.capacity() == (if cap == 0 {
                1
            } else {
                cap
            }),
    {
        let cap: usize = if cap == 0 {
            1
        } else {
            cap
        };
        QueryLog { buf: VecDeque::new(), cap }
    }

    /// Records a handled query at a time, in seconds of Unix time: pushes it into
    /// the ring, displacing the oldest entry if full, and returns the entry for
    /// live subscribers.
    pub fn record(&mut self, r: Record, time: i64) -> (e: Entry)
        ensures
            final(self).capacity() == old(self).capacity(),
            e == entry_of(r, time),
            final(self)@ == recorded(old(self)@, old(self).capacity(), e),
    {
        let entry = Entry {
            time,
            client: r.client,
            name: r.name,
            qtype: r.qtype,
            rcode: r.rcode,
            cache: r.cache,
            outcome: r.outcome,
            latency: r.latency,
        };
        proof {
            use_type_invariant(&*self);
        }
        let ghost before = self@;
        let mut buf: VecDeque<Entry> = VecDeque::new();
        std::mem::swap(&mut self.buf, &mut buf);
        if buf.len() == self.cap {
            buf.pop_front();
            assert(buf@ =~= before.skip(1));
        }
        buf.push_back(entry.clone());
        assert(buf@ =~= recorded(before, self.cap, entry));
        self.buf = buf;
        entry
    }

    /// The entries, newest first; never more than the capacity.
    pub fn snapshot_newest_first(&self) -> (r: Vec<Entry>)
        ensures
            r@ == self@.reverse(),
            1 <= self.capacity(),
            r@.len() <= self.capacity(),
    {
        proof {
            use_type_invariant(self);
        }
        let mut out: Vec<Entry> = Vec::new();
        let n: usize = self.buf.len();
        let mut i: usize = 0;
        while i < n
            invariant
                n == self.buf@.len(),
                0 <= i <= n,
                out@ == self@.reverse().take(i as int),
            decreases n - i,
        {
            out.push(self.buf[n - 1 - i].clone());
            assert(self@.reverse().take(i + 1) =~= self@.reverse().take(i as int).push(
                self@.reverse()[i as int],
            ));
            i = i + 1;
        }
        assert(self@.reverse().take(n as int) =~= self@.reverse());
        out
    }
}

// ---------------------------------------------------------------------------
// Laws
// ---------------------------------------------------------------------------

/// Recording some entries one after the other.
pub open spec fn recorded_all(v: Seq<Entry>, cap: usize, es: Seq<Entry>) -> Seq<Entry>
    decreases es.len(),
{
    if es.len() == 0 {
        v
    } else {
        recorded(recorded_all(v, cap, es.drop_last()), cap, es.last())
    }
}

/// The log never holds more than its capacity, whatever is recorded.
pub proof fn the_log_stays_bounded(v: Seq<Entry>, cap: usize, es: Seq<Entry>)
    requires
        cap >= 1,
        v.len() <= cap,
    ensures
        recorded_all(v, cap, es).len() <= cap,
    decreases es.len(),
{
    if es.len() > 0 {
        the_log_stays_bounded(v, cap, es.drop_last());
    }
}

/// The log holds exactly the most recent entries, oldest first: all of them while
/// they fit, and the last `cap` of them afterwards.
pub proof fn the_log_holds_the_most_recent(cap: usize, es: Seq<Entry>)
    requires
        cap >= 1,
    ensures
        recorded_all(Seq::empty(), cap, es) == (if es.len() <= cap {
            es
        } else {
            es.skip(es.len() - cap)
        }),
    decreases es.len(),
{
    if es.len() == 0 {
        assert(es =~= Seq::empty());
    } else {
        let d = es.drop_last();
        the_log_holds_the_most_recent(cap, d);
        let r = recorded_all(Seq::empty(), cap, es);
        if es.len() <= cap {
            assert(r =~= es);
        } else {
            assert(r =~= es.skip(es.len() - cap));
        }
    }
}

} // verus!
