//! Which replies end a walk over the upstreams.

use vstd::prelude::*;

use crate::dns::Response;
use crate::upstream::conn;
use crate::upstream::conn::Failover;

verus! {

/// A walk over `n` upstreams asks them in order, from the first to the last, and
/// fails behind the last.
pub proof fn a_walk_goes_from_first_to_last(n: usize, i: int)
    ensures
        n > 0 ==> conn::walk_from(n, 0) == Failover::Try(0),
        n == 0 ==> conn::walk_from(n, 0) is AllFailed,
        0 <= i && i + 1 < n ==> conn::walk_from(n, i + 1) == Failover::Try((i + 1) as usize),
        i + 1 == n ==> conn::walk_from(n, i + 1) is AllFailed,
{
}

/// Every response settles a query but SERVFAIL; a transport error settles none.
pub proof fn every_response_but_servfail_settles(reply: Option<Response>)
    ensures
        reply is None ==> !conn::settles(reply),
        reply is Some && reply->0.rcode is ServFail ==> !conn::settles(reply),
        reply is Some && !(reply->0.rcode is ServFail) ==> conn::settles(reply),
{
}

/// A query is sent over two connections of an upstream at most.
pub proof fn a_query_has_two_attempts()
    ensures
        conn::ATTEMPTS == 2,
{
}

/// The first response that is not SERVFAIL is the answer, whatever follows it.
pub proof fn the_first_good_reply_is_the_answer(
    failures: Seq<Option<Response>>,
    r: Response,
    rest: Seq<Option<Response>>,
)
    requires
        forall|i: int|
            0 <= i < failures.len() ==> (#[trigger] failures[i]) is None
                || failures[i]->0.rcode is ServFail,
        !(r.rcode is ServFail),
    ensures
        conn::first_settling(failures.push(Some(r)) + rest, 0) == Some(r),
        conn::first_settling(failures, 0) is None,
{
    let s = failures.push(Some(r)) + rest;
    conn::only_failures_are_passed_over(s, 0);
    conn::only_failures_are_passed_over(failures, 0);
    let n = failures.len() as int;
    assert(s[n] == Some(r));
    assert(conn::settles(s[n]));
    if conn::first_settling(s, 0) is Some {
        let x = conn::first_settling(s, 0)->0;
        let k = choose|k: int|
            0 <= k < s.len() && #[trigger] s[k] == Some(x) && conn::settles(s[k]) && forall|j: int|
                0 <= j < k ==> !conn::settles(#[trigger] s[j]);
        if k < n {
            assert(s[k] == failures[k]);
        }
        assert(k == n);
    }
    if conn::first_settling(failures, 0) is Some {
        let x = conn::first_settling(failures, 0)->0;
        let k = choose|k: int|
            0 <= k < failures.len() && #[trigger] failures[k] == Some(x) && conn::settles(
                failures[k],
            ) && forall|j: int| 0 <= j < k ==> !conn::settles(#[trigger] failures[j]);
        assert(failures[k] is None || failures[k]->0.rcode is ServFail);
    }
}

} // verus!
