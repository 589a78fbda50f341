//! The decisions around connections to upstream resolvers: the fallback to TCP,
//! reconnecting, and failing over.

use vstd::prelude::*;

use crate::dns::{Response, ResponseCode};

verus! {

// ---------------------------------------------------------------------------
// Transports
// ---------------------------------------------------------------------------

/// How a query travels to an upstream.
#[derive(Debug, Clone, Copy, PartialEq, Eq, Structural)]
pub enum Transport {
    Udp,
    Tcp,
    Tls,
}

/// The transport to repeat a query over after its response, if any: TCP where a
/// response over UDP was truncated. A stream never truncates.
pub fn retry_over(sent: Transport, truncated: bool) -> (r: Option<Transport>)
    ensures
        r == (if sent == Transport::Udp && truncated {
            Some(Transport::Tcp)
        } else {
            None
        }),
{
    match sent {
        Transport::Udp if truncated => Some(Transport::Tcp),
        _ => None,
    }
}

// ---------------------------------------------------------------------------
// Reconnecting
// ---------------------------------------------------------------------------

/// One upstream's connection, which is (re)established on demand: none before the
/// first use and after a failure. Each connection has a generation of its own.
#[derive(Debug)]
pub struct Upstream<C> {
    cell: Option<(u64, C)>,
    generation: u64,
}

impl<C> Upstream<C> {
    /// The live connection with its generation.
    pub closed spec fn live(&self) -> Option<(u64, C)> {
        self.cell
    }

    /// The generation of the connection that was last established.
    pub closed spec fn last(&self) -> u64 {
        self.generation
    }

    /// An upstream that is not connected yet.
    pub fn new() -> (r: Self)
        ensures
            r.live() is None,
            r.last() == 0,
    {
        Upstream { cell: None, generation: 0 }
    }

    /// The live connection, if there is one; otherwise one has to be dialed.
    pub fn acquire(&self) -> (r: Option<(u64, &C)>)
        ensures
            match r {
                Some((g, c)) => self.live() == Some((g, *c)),
                None => self.live() is None,
            },
    {
        match &self.cell {
            Some((g, c)) => Some((*g, c)),
            None => None,
        }
    }

    /// Takes over a connection that was dialed, and gives it the next generation.
    pub fn connected(&mut self, conn: C) -> (r: u64)
        ensures
            r == (if old(self).last() == u64::MAX {
                0
            } else {
                (old(self).last() + 1) as u64
            }),
            final(self).last() == r,
            final(self).live() == Some((r, conn)),
    {
        let g: u64 = if self.generation == 0xffff_ffff_ffff_ffff {
            0
        } else {
            self.generation + 1
        };
        self.generation = g;
        self.cell = Some((g, conn));
        g
    }

    /// Drops the connection if it is still generation `g`, so that the next use
    /// dials again. One that was replaced meanwhile is left as it is.
    pub fn invalidate(&mut self, g: u64)
        ensures
            final(self).last() == old(self).last(),
            final(self).live() == (if (old(self).live() matches Some((h, _)) && h == g) {
                None
            } else {
                old(self).live()
            }),
    {
        let dead: bool = match &self.cell {
            Some((h, _)) => *h == g,
            None => false,
        };
        if dead {
            self.cell = None;
        }
    }
}

/// How many connections a query may be sent over before its upstream is given up:
/// one that may have died, and one that was dialed anew.
pub const ATTEMPTS: u8 = 2;

/// The course of one query at one upstream.
#[derive(Debug, Clone, Copy)]
pub struct Attempts {
    failed: u8,
}

impl Attempts {
    /// How many attempts have failed.
    pub closed spec fn count(&self) -> u8 {
        self.failed
    }

    /// No attempt has failed yet.
    pub fn new() -> (r: Self)
        ensures
            r.count() == 0,
    {
        Attempts { failed: 0 }
    }

    /// Notes that an attempt failed, and says whether another one follows.
    pub fn failed(&mut self) -> (r: bool)
        ensures
            final(self).count() == (if old(self).count() < ATTEMPTS {
                (old(self).count() + 1) as u8
            } else {
                old(self).count()
            }),
            r == (final(self).count() < ATTEMPTS),
    {
        if self.failed < ATTEMPTS {
            self.failed = self.failed + 1;
        }
        self.failed < ATTEMPTS
    }
}

// ---------------------------------------------------------------------------
// Failing over
// ---------------------------------------------------------------------------

/// What to do next in a walk over the upstreams.
#[derive(Debug)]
pub enum Failover {
    /// Ask the upstream at this place.
    Try(usize),
    /// Answer with this response.
    Answer(Response),
    /// Every upstream failed.
    AllFailed,
}

/// Whether a reply settles a query: there is one, and it is not SERVFAIL. Any
/// other response, NXDOMAIN and NODATA among them, is authoritative.
pub open spec fn settles(reply: Option<Response>) -> bool {
    reply matches Some(r) && r.rcode != ResponseCode::ServFail
}

/// The walk from place `i` on.
pub open spec fn walk_from(upstreams: usize, i: int) -> Failover {
    if i < upstreams {
        Failover::Try(i as usize)
    } else {
        Failover::AllFailed
    }
}

/// The first step of a walk over some upstreams.
pub fn first_upstream(upstreams: usize) -> (r: Failover)
    ensures
        r == walk_from(upstreams, 0),
{
    if upstreams > 0 {
        Failover::Try(0)
    } else {
        Failover::AllFailed
    }
}

/// The step after the reply of the upstream at place `tried` (none for a transport
/// error): answer with what settles the query, else ask the next one.
pub fn after_reply(upstreams: usize, tried: usize, reply: Option<Response>) -> (r: Failover)
    requires
        tried < upstreams,
    ensures
        r == (if settles(reply) {
            Failover::Answer(reply->0)
        } else {
            walk_from(upstreams, tried + 1)
        }),
{
    match reply {
        Some(resp) => match resp.rcode {
            ResponseCode::ServFail => {},
            _ => {
                return Failover::Answer(resp);
            },
        },
        None => {},
    }
    if tried + 1 < upstreams {
        Failover::Try(tried + 1)
    } else {
        Failover::AllFailed
    }
}

/// What a walk from place `i` on ends with when the upstreams reply `replies`: the
/// first reply that settles the query.
pub open spec fn first_settling(replies: Seq<Option<Response>>, i: int) -> Option<Response>
    decreases replies.len() - i,
{
    if i < 0 || i >= replies.len() {
        None
    } else if settles(replies[i]) {
        replies[i]
    } else {
        first_settling(replies, i + 1)
    }
}

// ---------------------------------------------------------------------------
// Laws
// ---------------------------------------------------------------------------

/// A walk over the upstreams ends with the first reply that settles the query,
/// and with a failure only if none does.
pub proof fn a_walk_ends_with_the_first_settling_reply(
    replies: Seq<Option<Response>>,
    i: int,
)
    requires
        0 <= i < replies.len() <= usize::MAX,
    ensures
        settles(replies[i]) ==> first_settling(replies, i) == replies[i],
        !settles(replies[i]) ==> match walk_from(replies.len() as usize, i + 1) {
            Failover::Try(j) => j == i + 1 && first_settling(replies, i) == first_settling(
                replies,
                j as int,
            ),
            Failover::Answer(_) => false,
            Failover::AllFailed => first_settling(replies, i) is None,
        },
{
    reveal_with_fuel(first_settling, 2);
}

/// A reply is passed over only if it is missing or SERVFAIL.
pub proof fn only_failures_are_passed_over(replies: Seq<Option<Response>>, i: int)
    requires
        0 <= i <= replies.len(),
    ensures
        match first_settling(replies, i) {
            Some(r) => exists|k: int|
                i <= k < replies.len() && #[trigger] replies[k] == Some(r) && settles(replies[k])
                    && forall|j: int| i <= j < k ==> !settles(#[trigger] replies[j]),
            None => forall|j: int| i <= j < replies.len() ==> !settles(#[trigger] replies[j]),
        },
    decreases replies.len() - i,
{
    if i < replies.len() {
        if settles(replies[i]) {
            assert(replies[i] == Some(replies[i]->0));
        } else {
            only_failures_are_passed_over(replies, i + 1);
            if first_settling(replies, i + 1) is Some {
                let r = first_settling(replies, i + 1)->0;
                let k = choose|k: int|
                    i + 1 <= k < replies.len() && #[trigger] replies[k] == Some(r) && settles(
                        replies[k],
                    ) && forall|j: int| i + 1 <= j < k ==> !settles(#[trigger] replies[j]);
                assert(replies[k] == Some(r));
            }
        }
    }
}

} // verus!
