//! What the dashboard shows: who may see it, and its figures and labels.
//!
//! It observes only: it changes neither the configuration nor any answer.

use vstd::prelude::*;

use crate::dns::ResponseCode;
use crate::metrics::Counters;
use crate::net;
use crate::querylog::{Entry, Outcome};
use crate::text;
use crate::text::Sep;

verus! {

// ---------------------------------------------------------------------------
// The guard against DNS rebinding
// ---------------------------------------------------------------------------

/// The host of a `Host` value: what stands in the brackets of a bracketed literal,
/// and otherwise what stands before a single colon.
pub open spec fn host_part(s: Seq<char>) -> Seq<char> {
    let parts = text::split(s, Sep::Char(':'));
    if s.len() > 0 && s[0] == '[' {
        text::split(s.skip(1), Sep::Char(']'))[0]
    } else if parts.len() == 2 {
        parts[0]
    } else {
        s
    }
}

/// Strips a trailing `:port` from a `Host` value, leaving the hostname or the
/// address. A bare IPv6 literal, with its many colons, is left intact.
pub fn strip_port(host: &str) -> (r: String)
    ensures
        r@ == host_part(host@),
{
    let v = text::to_chars(host);
    let n: usize = v.len();
    if n > 0 && v[0] == '[' {
        let rest = text::slice(v.as_slice(), 1, n);
        assert(rest@ =~= host@.skip(1));
        let parts = text::split_chars(rest.as_slice(), Sep::Char(']'));
        assert(text::lists(parts@)[0] == parts@[0]@);
        return text::from_chars(parts[0].as_slice());
    }
    let parts = text::split_chars(v.as_slice(), Sep::Char(':'));
    assert(text::lists(parts@).len() == parts@.len());
    if parts.len() == 2 {
        assert(text::lists(parts@)[0] == parts@[0]@);
        text::from_chars(parts[0].as_slice())
    } else {
        text::copy(host)
    }
}

/// Whether a `Host` value may see the dashboard: its host is an address or
/// `localhost`.
pub open spec fn host_allowed(host: Seq<char>) -> bool {
    let h = host_part(host);
    text::lower(h) == text::lower("localhost"@) || net::is_ip_text(h)
}

/// Whether a `Host` header is an IP literal or `localhost`, with or without a
/// port: the forms that an operator uses, and that a rebinding attacker, who is
/// stuck with a hostname of their own, cannot present.
pub fn host_is_allowed(host: Option<&str>) -> (r: bool)
    ensures
        r == (match host {
            Some(h) => host_allowed(h@),
            None => false,
        }),
{
    match host {
        Some(h) => {
            let name = strip_port(h);
            text::same_ignore_case(name.as_str(), "localhost") || net::chars_are_ip(
                text::to_chars(name.as_str()).as_slice(),
            )
        },
        None => false,
    }
}

proof fn no_double_colon(s: Seq<char>)
    requires
        !s.contains(':'),
    ensures
        net::double_colon(s) is None,
    decreases s.len(),
{
    if s.len() >= 2 {
        assert(s[0] != ':');
        let t = s.skip(1);
        if t.contains(':') {
            let i = t.index_of(':');
            assert(s[i + 1] == ':');
        }
        no_double_colon(t);
    }
}

proof fn a_hostname_is_no_address(h: Seq<char>, p: int)
    requires
        !h.contains(':'),
        0 <= p < h.len(),
        h[p] != '.',
        !('0' <= h[p] && h[p] <= '9'),
    ensures
        !net::is_ip_text(h),
{
    no_double_colon(h);
    text::split_without_separator(h, ':');
    let one = seq![h];
    assert(one.drop_last() =~= Seq::<Seq<char>>::empty());
    assert(net::hex_groups(one.drop_last()) == Some(Seq::<nat>::empty()));
    assert(net::ipv6_text(h) is None);
    let parts = text::split(h, Sep::Char('.'));
    text::split_keeps_characters(h, Sep::Char('.'), p);
    let (i, j) = choose|i: int, j: int|
        0 <= i < parts.len() && 0 <= j < parts[i].len() && #[trigger] parts[i][j] == h[p];
    if net::ipv4_text(h) is Some {
        assert(net::octet_text(parts[i]) is Some);
        text::number_digits(parts[i], 10, j);
    }
}

/// A hostname is refused, with a port or without: one that has a character other
/// than a digit or a dot, is not `localhost`, and has neither a colon nor a
/// bracket.
pub proof fn a_hostname_is_refused(h: Seq<char>, port: Seq<char>, p: int)
    requires
        !h.contains(':'),
        !h.contains('['),
        0 <= p < h.len(),
        h[p] != '.',
        !('0' <= h[p] && h[p] <= '9'),
        text::lower(h) != text::lower("localhost"@),
        !port.contains(':'),
    ensures
        !host_allowed(h),
        !host_allowed(h.push(':') + port),
{
    a_hostname_is_no_address(h, p);
    text::split_without_separator(h, ':');
    assert(h[0] != '[');
    let with_port = h.push(':') + port;
    assert(with_port[0] == h[0]);
    let pieces = seq![h, port];
    assert(text::join(pieces, ':') =~= with_port) by {
        reveal_with_fuel(text::join, 3);
        assert(pieces.drop_last() =~= seq![h]);
    }
    assert forall|i: int| 0 <= i < pieces.len() implies !(#[trigger] pieces[i]).contains(':') by {}
    text::split_undoes_join(pieces, ':');
}

/// An address is let in, bare or in brackets with a port.
pub proof fn an_address_is_let_in(a: Seq<char>, port: Seq<char>)
    requires
        net::is_ip_text(a),
        !a.contains(']'),
    ensures
        host_allowed(seq!['['] + a + seq![']', ':'] + port),
        !a.contains(':') && !port.contains(':') && a.len() > 0 && a[0] != '[' ==> host_allowed(
            a.push(':') + port,
        ),
{
    let b = seq!['['] + a + seq![']', ':'] + port;
    assert(b[0] == '[');
    let rest = b.skip(1);
    assert(rest =~= a.push(']') + (seq![':'] + port));
    first_piece(a, seq![':'] + port, ']');
    if !a.contains(':') && !port.contains(':') && a.len() > 0 && a[0] != '[' {
        let pieces = seq![a, port];
        assert(text::join(pieces, ':') =~= a.push(':') + port) by {
            reveal_with_fuel(text::join, 3);
            assert(pieces.drop_last() =~= seq![a]);
        }
        assert forall|i: int| 0 <= i < pieces.len() implies !(#[trigger] pieces[i]).contains(
            ':',
        ) by {}
        text::split_undoes_join(pieces, ':');
        assert((a.push(':') + port)[0] == a[0]);
    }
}

proof fn first_piece(a: Seq<char>, tail: Seq<char>, c: char)
    requires
        !a.contains(c),
    ensures
        text::split(a.push(c) + tail, Sep::Char(c)).len() >= 2,
        text::split(a.push(c) + tail, Sep::Char(c))[0] == a,
    decreases tail.len(),
{
    let s = a.push(c) + tail;
    if tail.len() == 0 {
        assert(s =~= a.push(c));
        assert(s.drop_last() =~= a);
        text::split_without_separator(a, c);
    } else {
        assert(s.drop_last() =~= a.push(c) + tail.drop_last());
        first_piece(a, tail.drop_last(), c);
    }
}

// ---------------------------------------------------------------------------
// Rankings
// ---------------------------------------------------------------------------

/// How often a key occurs.
pub open spec fn count(keys: Seq<Seq<char>>, k: Seq<char>) -> nat
    decreases keys.len(),
{
    if keys.len() == 0 {
        0
    } else {
        count(keys.drop_last(), k) + (if keys.last() == k {
            1nat
        } else {
            0
        })
    }
}

/// Whether a text comes before another, by their characters.
pub open spec fn before(a: Seq<char>, b: Seq<char>) -> bool
    decreases a.len(),
{
    if b.len() == 0 {
        false
    } else if a.len() == 0 {
        true
    } else if a[0] != b[0] {
        a[0] < b[0]
    } else {
        before(a.skip(1), b.skip(1))
    }
}

/// Whether a key with its count ranks above another: it occurs more often, or as
/// often and comes first.
pub open spec fn above(a: (Seq<char>, nat), b: (Seq<char>, nat)) -> bool {
    a.1 > b.1 || (a.1 == b.1 && before(a.0, b.0))
}

/// A key with its count.
pub open spec fn ranked(keys: Seq<Seq<char>>, k: Seq<char>) -> (Seq<char>, nat) {
    (k, count(keys, k))
}

/// How many places a ranking has.
pub const TOP: usize = 10;

/// A ranking's rows as mathematical values.
pub open spec fn row_models(v: Seq<(String, u64)>) -> Seq<(Seq<char>, nat)> {
    Seq::new(v.len(), |i: int| (v[i].0@, v[i].1 as nat))
}

/// Whether some rows have a key.
pub open spec fn has_key(rows: Seq<(Seq<char>, nat)>, k: Seq<char>) -> bool {
    exists|i: int| 0 <= i < rows.len() && (#[trigger] rows[i]).0 == k
}

/// Whether rows are the ranking of some keys: the keys with their counts, highest
/// first, and no key is left out but for want of a place.
pub open spec fn is_top(keys: Seq<Seq<char>>, rows: Seq<(Seq<char>, nat)>) -> bool {
    &&& rows.len() <= TOP
    &&& forall|i: int|
        0 <= i < rows.len() ==> keys.contains((#[trigger] rows[i]).0) && rows[i] == ranked(
            keys,
            rows[i].0,
        )
    &&& forall|i: int, j: int|
        0 <= i < j < rows.len() ==> above(#[trigger] rows[i], #[trigger] rows[j])
    &&& forall|k: Seq<char>| #[trigger]
        keys.contains(k) && !has_key(rows, k) ==> rows.len() == TOP && above(
            rows.last(),
            ranked(keys, k),
        )
}

proof fn before_is_irreflexive(a: Seq<char>)
    ensures
        !before(a, a),
    decreases a.len(),
{
    if a.len() > 0 {
        before_is_irreflexive(a.skip(1));
    }
}

proof fn before_is_transitive(a: Seq<char>, b: Seq<char>, c: Seq<char>)
    requires
        before(a, b),
        before(b, c),
    ensures
        before(a, c),
    decreases a.len(),
{
    if a.len() > 0 && b.len() > 0 && c.len() > 0 && a[0] == b[0] && b[0] == c[0] {
        before_is_transitive(a.skip(1), b.skip(1), c.skip(1));
    }
}

proof fn before_is_total(a: Seq<char>, b: Seq<char>)
    requires
        a != b,
    ensures
        before(a, b) || before(b, a),
    decreases a.len(),
{
    if a.len() == 0 && b.len() == 0 {
        assert(a =~= b);
    } else if a.len() > 0 && b.len() > 0 && a[0] == b[0] {
        if a.skip(1) == b.skip(1) {
            assert(a =~= seq![a[0]] + a.skip(1));
            assert(b =~= seq![b[0]] + b.skip(1));
        }
        before_is_total(a.skip(1), b.skip(1));
    }
}

proof fn above_is_transitive(a: (Seq<char>, nat), b: (Seq<char>, nat), c: (Seq<char>, nat))
    requires
        above(a, b),
        above(b, c),
    ensures
        above(a, c),
{
    if a.1 == b.1 && b.1 == c.1 {
        before_is_transitive(a.0, b.0, c.0);
    }
}

proof fn above_is_total(a: (Seq<char>, nat), b: (Seq<char>, nat))
    requires
        a.0 != b.0,
    ensures
        above(a, b) || above(b, a),
{
    before_is_total(a.0, b.0);
}

fn comes_before(a: &str, b: &str) -> (r: bool)
    ensures
        r == before(a@, b@),
{
    let x = text::to_chars(a);
    let y = text::to_chars(b);
    let mut i: usize = 0;
    assert(x@.skip(0) =~= a@);
    assert(y@.skip(0) =~= b@);
    loop
        invariant
            x@ == a@,
            y@ == b@,
            0 <= i <= x@.len(),
            i <= y@.len(),
            before(a@, b@) == before(x@.skip(i as int), y@.skip(i as int)),
        decreases x@.len() - i,
    {
        if i >= y.len() {
            return false;
        }
        if i >= x.len() {
            return true;
        }
        assert(x@.skip(i as int)[0] == x@[i as int]);
        assert(y@.skip(i as int)[0] == y@[i as int]);
        if x[i] != y[i] {
            return x[i] < y[i];
        }
        assert(x@.skip(i as int).skip(1) =~= x@.skip(i + 1));
        assert(y@.skip(i as int).skip(1) =~= y@.skip(i + 1));
        i = i + 1;
    }
}

fn ranks_above(a: &(String, u64), b: &(String, u64)) -> (r: bool)
    ensures
        r == above((a.0@, a.1 as nat), (b.0@, b.1 as nat)),
{
    a.1 > b.1 || (a.1 == b.1 && comes_before(a.0.as_str(), b.0.as_str()))
}

/// Whether rows are a tally of some keys: each key once, with its count.
spec fn is_tally(keys: Seq<Seq<char>>, rows: Seq<(Seq<char>, nat)>) -> bool {
    &&& forall|i: int|
        0 <= i < rows.len() ==> keys.contains((#[trigger] rows[i]).0) && rows[i] == ranked(
            keys,
            rows[i].0,
        )
    &&& forall|i: int, j: int|
        0 <= i < j < rows.len() ==> (#[trigger] rows[i]).0 != (#[trigger] rows[j]).0
    &&& forall|k: Seq<char>| #[trigger] keys.contains(k) ==> has_key(rows, k)
}

proof fn count_is_bounded(keys: Seq<Seq<char>>, k: Seq<char>)
    ensures
        count(keys, k) <= keys.len(),
    decreases keys.len(),
{
    if keys.len() > 0 {
        count_is_bounded(keys.drop_last(), k);
    }
}

proof fn absent_counts_zero(keys: Seq<Seq<char>>, k: Seq<char>)
    requires
        !keys.contains(k),
    ensures
        count(keys, k) == 0,
    decreases keys.len(),
{
    if keys.len() > 0 {
        let d = keys.drop_last();
        assert(keys[keys.len() - 1] != k);
        if d.contains(k) {
            let i = d.index_of(k);
            assert(keys[i] == k);
        }
        absent_counts_zero(d, k);
    }
}

proof fn tally_grows(keys: Seq<Seq<char>>, rows: Seq<(Seq<char>, nat)>, k: Seq<char>, at: int)
    requires
        is_tally(keys, rows),
        -1 <= at < rows.len(),
        at >= 0 ==> rows[at].0 == k,
        at < 0 ==> !has_key(rows, k),
    ensures
        at >= 0 ==> is_tally(keys.push(k), rows.update(at, (k, rows[at].1 + 1))),
        at < 0 ==> is_tally(keys.push(k), rows.push((k, 1))),
{
    let more = keys.push(k);
    assert(more.drop_last() =~= keys);
    let out = if at >= 0 {
        rows.update(at, (k, rows[at].1 + 1))
    } else {
        rows.push((k, 1))
    };
    if at < 0 {
        if keys.contains(k) {
            assert(has_key(rows, k));
        }
        absent_counts_zero(keys, k);
    }
    assert forall|i: int| 0 <= i < out.len() implies more.contains((#[trigger] out[i]).0) && out[i]
        == ranked(more, out[i].0) by {
        if i == at || i == rows.len() {
            assert(more[keys.len() as int] == k);
        } else {
            assert(out[i] == rows[i]);
            if at >= 0 {
                if i < at {
                    assert(rows[i].0 != rows[at].0);
                } else {
                    assert(rows[at].0 != rows[i].0);
                }
            } else if rows[i].0 == k {
                assert(has_key(rows, k));
            }
            let p = keys.index_of(rows[i].0);
            assert(more[p] == rows[i].0);
        }
    }
    assert forall|i: int, j: int| 0 <= i < j < out.len() implies (#[trigger] out[i]).0 != (
    #[trigger] out[j]).0 by {
        if at < 0 && j == rows.len() {
            assert(rows[i].0 != k) by {
                if rows[i].0 == k {
                    assert(has_key(rows, k));
                }
            }
        } else {
            assert(rows[i].0 != rows[j].0);
        }
    }
    assert forall|x: Seq<char>| #[trigger] more.contains(x) implies has_key(out, x) by {
        if x == k {
            if at >= 0 {
                assert(out[at].0 == k);
            } else {
                assert(out[rows.len() as int].0 == k);
            }
        } else {
            let p = more.index_of(x);
            assert(keys[p] == x);
            assert(keys.contains(x));
            let i = choose|i: int| 0 <= i < rows.len() && (#[trigger] rows[i]).0 == x;
            assert(out[i].0 == x);
        }
    }
}

fn tally(keys: &Vec<String>) -> (r: Vec<(String, u64)>)
    ensures
        is_tally(text::texts(keys@), row_models(r@)),
{
    let mut rows: Vec<(String, u64)> = Vec::new();
    let ghost all = text::texts(keys@);
    let mut i: usize = 0;
    while i < keys.len()
        invariant
            0 <= i <= keys@.len(),
            all == text::texts(keys@),
            is_tally(all.take(i as int), row_models(rows@)),
        decreases keys@.len() - i,
    {
        let ghost before = row_models(rows@);
        let ghost k = keys@[i as int]@;
        assert(all.take(i + 1) =~= all.take(i as int).push(k));
        let n: usize = rows.len();
        let mut j: usize = 0;
        while j < n && !text::same(rows[j].0.as_str(), keys[i].as_str())
            invariant
                n == rows@.len(),
                0 <= j <= n,
                i < keys@.len(),
                k == keys@[i as int]@,
                before == row_models(rows@),
                forall|x: int| 0 <= x < j ==> (#[trigger] before[x]).0 != k,
            decreases n - j,
        {
            j = j + 1;
        }
        if j < n {
            let c: u64 = rows[j].1;
            proof {
                assert(before[j as int].0 == k);
                count_is_bounded(all.take(i as int), k);
                tally_grows(all.take(i as int), before, k, j as int);
            }
            rows.set(j, (keys[i].clone(), c + 1));
            assert(row_models(rows@) =~= before.update(j as int, (k, (c + 1) as nat)));
        } else {
            proof {
                tally_grows(all.take(i as int), before, k, -1);
            }
            rows.push((keys[i].clone(), 1));
            assert(row_models(rows@) =~= before.push((k, 1)));
        }
        i = i + 1;
    }
    assert(all.take(keys@.len() as int) =~= all);
    rows
}

fn best_place(rows: &Vec<(String, u64)>) -> (r: usize)
    requires
        rows@.len() > 0,
        forall|i: int, j: int|
            0 <= i < j < rows@.len() ==> (#[trigger] row_models(rows@)[i]).0 != (
            #[trigger] row_models(rows@)[j]).0,
    ensures
        r < rows@.len(),
        forall|i: int|
            0 <= i < rows@.len() && i != r ==> above(
                row_models(rows@)[r as int],
                #[trigger] row_models(rows@)[i],
            ),
{
    let ghost m = row_models(rows@);
    let mut best: usize = 0;
    let mut i: usize = 1;
    while i < rows.len()
        invariant
            m == row_models(rows@),
            1 <= i <= rows@.len(),
            best < i,
            forall|x: int, y: int| 0 <= x < y < m.len() ==> (#[trigger] m[x]).0 != (#[trigger] m[y]).0,
            forall|j: int| 0 <= j < i && j != best ==> above(m[best as int], #[trigger] m[j]),
        decreases rows@.len() - i,
    {
        assert(m[best as int].0 != m[i as int].0);
        if ranks_above(&rows[i], &rows[best]) {
            proof {
                assert forall|j: int| 0 <= j < i + 1 && j != i implies above(
                    m[i as int],
                    #[trigger] m[j],
                ) by {
                    if j != best {
                        above_is_transitive(m[i as int], m[best as int], m[j]);
                    }
                }
            }
            best = i;
        } else {
            proof {
                above_is_total(m[best as int], m[i as int]);
            }
        }
        i = i + 1;
    }
    best
}

/// Tallies keys into a descending ranking of ten places, ties broken by key.
pub fn top_counts(keys: &Vec<String>) -> (r: Vec<(String, u64)>)
    ensures
        is_top(text::texts(keys@), row_models(r@)),
{
    let mut left = tally(keys);
    let mut out: Vec<(String, u64)> = Vec::new();
    let ghost all = text::texts(keys@);
    while out.len() < TOP && left.len() > 0
        invariant
            all == text::texts(keys@),
            out@.len() <= TOP,
            forall|i: int|
                0 <= i < out@.len() ==> all.contains((#[trigger] row_models(out@)[i]).0)
                    && row_models(out@)[i] == ranked(all, row_models(out@)[i].0),
            forall|i: int|
                0 <= i < left@.len() ==> all.contains((#[trigger] row_models(left@)[i]).0)
                    && row_models(left@)[i] == ranked(all, row_models(left@)[i].0),
            forall|i: int, j: int|
                0 <= i < j < left@.len() ==> (#[trigger] row_models(left@)[i]).0 != (
                #[trigger] row_models(left@)[j]).0,
            forall|i: int, j: int|
                0 <= i < j < out@.len() ==> above(
                    #[trigger] row_models(out@)[i],
                    #[trigger] row_models(out@)[j],
                ),
            forall|i: int, j: int|
                0 <= i < out@.len() && 0 <= j < left@.len() ==> above(
                    #[trigger] row_models(out@)[i],
                    #[trigger] row_models(left@)[j],
                ),
            forall|k: Seq<char>| #[trigger]
                all.contains(k) ==> has_key(row_models(out@), k) || has_key(row_models(left@), k),
        decreases left@.len(),
    {
        let ghost l = row_models(left@);
        let ghost o = row_models(out@);
        let b: usize = best_place(&left);
        let row = left.remove(b);
        out.push(row);
        proof {
            let l2 = row_models(left@);
            let o2 = row_models(out@);
            assert(l2 =~= l.remove(b as int));
            assert(o2 =~= o.push(l[b as int]));
            assert forall|i: int| 0 <= i < l2.len() implies #[trigger] l2[i] == l[if i < b {
                i
            } else {
                i + 1
            }] by {}
            assert forall|k: Seq<char>| #[trigger] all.contains(k) implies has_key(o2, k)
                || has_key(l2, k) by {
                if has_key(o, k) {
                    let i = choose|i: int| 0 <= i < o.len() && (#[trigger] o[i]).0 == k;
                    assert(o2[i].0 == k);
                } else {
                    let i = choose|i: int| 0 <= i < l.len() && (#[trigger] l[i]).0 == k;
                    if i == b {
                        assert(o2[o.len() as int].0 == k);
                    } else if i < b {
                        assert(l2[i].0 == k);
                    } else {
                        assert(l2[i - 1].0 == k);
                    }
                }
            }
            assert forall|i: int, j: int| 0 <= i < o2.len() && 0 <= j < l2.len() implies above(
                #[trigger] o2[i],
                #[trigger] l2[j],
            ) by {
                let p = if j < b {
                    j
                } else {
                    j + 1
                };
                assert(l2[j] == l[p]);
                if i < o.len() {
                    assert(o2[i] == o[i]);
                }
            }
            assert forall|i: int, j: int| 0 <= i < j < o2.len() implies above(
                #[trigger] o2[i],
                #[trigger] o2[j],
            ) by {
                assert(o2[i] == o[i]);
                if j < o.len() {
                    assert(o2[j] == o[j]);
                }
            }
        }
    }
    proof {
        let o = row_models(out@);
        let l = row_models(left@);
        assert forall|k: Seq<char>| #[trigger] all.contains(k) && !has_key(o, k) implies o.len()
            == TOP && above(o.last(), ranked(all, k)) by {
            let i = choose|i: int| 0 <= i < l.len() && (#[trigger] l[i]).0 == k;
            assert(above(o[o.len() - 1], l[i]));
        }
    }
    out
}

// ---------------------------------------------------------------------------
// Figures and labels
// ---------------------------------------------------------------------------

/// The thin space that groups digits.
pub const THIN_SPACE: char = '\u{2009}';

/// Digits in groups of three from the right.
pub open spec fn grouped(s: Seq<char>) -> Seq<char>
    decreases s.len(),
{
    if s.len() <= 3 {
        s
    } else {
        grouped(s.take(s.len() - 3)).push(THIN_SPACE) + s.skip(s.len() - 3)
    }
}

/// The first `i` characters of a text of `n`, with a space before every third
/// from the right.
spec fn spaced(s: Seq<char>, n: int, i: int) -> Seq<char>
    decreases i,
{
    if i <= 0 {
        Seq::empty()
    } else if i > 1 && (n - (i - 1)) % 3 == 0 {
        spaced(s, n, i - 1).push(THIN_SPACE).push(s[i - 1])
    } else {
        spaced(s, n, i - 1).push(s[i - 1])
    }
}

proof fn spaced_is_shorter(s: Seq<char>, n: int, i: int)
    requires
        0 <= i <= s.len() - 3,
        s.len() == n,
    ensures
        spaced(s, n, i) == spaced(s.take(n - 3), n - 3, i),
    decreases i,
{
    if i > 0 {
        spaced_is_shorter(s, n, i - 1);
    }
}

proof fn spaced_is_grouped(s: Seq<char>)
    ensures
        spaced(s, s.len() as int, s.len() as int) == grouped(s),
    decreases s.len(),
{
    let n = s.len() as int;
    reveal_with_fuel(spaced, 4);
    if n <= 3 {
        assert(spaced(s, n, n) =~= s);
    } else {
        spaced_is_grouped(s.take(n - 3));
        spaced_is_shorter(s, n, n - 3);
        assert(spaced(s, n, n) =~= grouped(s.take(n - 3)).push(THIN_SPACE) + s.skip(n - 3));
    }
}

/// Groups a count with thin spaces every three digits.
pub fn fmt_count(n: usize) -> (r: String)
    ensures
        r@ == grouped(text::decimal(n as nat)),
{
    let digits = text::to_chars(text::decimal_text(n as u64).as_str());
    let len: usize = digits.len();
    let mut out: String = String::new();
    let mut i: usize = 0;
    assert(out@ =~= spaced(digits@, len as int, 0));
    while i < len
        invariant
            len == digits@.len(),
            0 <= i <= len,
            out@ == spaced(digits@, len as int, i as int),
        decreases len - i,
    {
        if i != 0 && (len - i) % 3 == 0 {
            out.push(THIN_SPACE);
        }
        out.push(digits[i]);
        i = i + 1;
    }
    proof {
        spaced_is_grouped(digits@);
    }
    out
}

/// A text without its thin spaces.
pub open spec fn ungrouped(s: Seq<char>) -> Seq<char> {
    s.filter(|c: char| c != THIN_SPACE)
}

/// Grouping loses no digit: without the spaces, the digits are there as they were.
pub proof fn grouping_keeps_the_digits(s: Seq<char>)
    requires
        !s.contains(THIN_SPACE),
    ensures
        ungrouped(grouped(s)) == s,
    decreases s.len(),
{
    let f = |c: char| c != THIN_SPACE;
    if s.len() <= 3 {
        plain_stays(s);
    } else {
        let a = s.take(s.len() - 3);
        let b = s.skip(s.len() - 3);
        if a.contains(THIN_SPACE) {
            let i = a.index_of(THIN_SPACE);
            assert(s[i] == THIN_SPACE);
        }
        if b.contains(THIN_SPACE) {
            let i = b.index_of(THIN_SPACE);
            assert(s[s.len() - 3 + i] == THIN_SPACE);
        }
        grouping_keeps_the_digits(a);
        plain_stays(b);
        let g = grouped(a).push(THIN_SPACE);
        Seq::filter_distributes_over_add(g, b, f);
        reveal(Seq::filter);
        assert(g.drop_last() =~= grouped(a));
        assert(g.filter(f) =~= grouped(a).filter(f));
        assert(a + b =~= s);
    }
}

proof fn plain_stays(s: Seq<char>)
    requires
        !s.contains(THIN_SPACE),
    ensures
        ungrouped(s) == s,
    decreases s.len(),
{
    reveal(Seq::filter);
    if s.len() > 0 {
        let d = s.drop_last();
        if d.contains(THIN_SPACE) {
            let i = d.index_of(THIN_SPACE);
            assert(s[i] == THIN_SPACE);
        }
        plain_stays(d);
        assert(s[s.len() - 1] != THIN_SPACE);
        assert(ungrouped(s) =~= s);
    } else {
        assert(ungrouped(s) =~= s);
    }
}

/// A response code as its `Debug` writes it: the name of its variant.
pub open spec fn rcode_debug(n: u16) -> Seq<char> {
    if n == 0 {
        "NoError"@
    } else if n == 1 {
        "FormErr"@
    } else if n == 2 {
        "ServFail"@
    } else if n == 3 {
        "NXDomain"@
    } else if n == 4 {
        "NotImp"@
    } else if n == 5 {
        "Refused"@
    } else if n == 6 {
        "YXDomain"@
    } else if n == 7 {
        "YXRRSet"@
    } else if n == 8 {
        "NXRRSet"@
    } else if n == 9 {
        "NotAuth"@
    } else if n == 10 {
        "NotZone"@
    } else if n == 16 {
        "BADSIG"@
    } else if n == 17 {
        "BADKEY"@
    } else if n == 18 {
        "BADTIME"@
    } else if n == 19 {
        "BADMODE"@
    } else if n == 20 {
        "BADNAME"@
    } else if n == 21 {
        "BADALG"@
    } else if n == 22 {
        "BADTRUNC"@
    } else if n == 23 {
        "BADCOOKIE"@
    } else {
        "Unknown("@ + text::decimal(n as nat) + ")"@
    }
}

/// The `Debug` of hickory_proto's `ResponseCode`, made from its number, writes the
/// name of the variant, and `Unknown` with the number for one without a name.
#[verifier::external_body]
fn show_rcode(n: u16) -> (r: String)
    ensures
        r@ == rcode_debug(n),
{
    let code: hickory_proto::op::ResponseCode = n.into();
    format!("{code:?}")
}

/// The label of a response code.
pub open spec fn rcode_text(c: ResponseCode) -> Seq<char> {
    match c {
        ResponseCode::NoError => "noerror"@,
        ResponseCode::NXDomain => "nxdomain"@,
        ResponseCode::ServFail => "servfail"@,
        ResponseCode::NotImp => "notimp"@,
        ResponseCode::FormErr => "formerr"@,
        ResponseCode::Refused => "refused"@,
        ResponseCode::Other(n) => text::lower(rcode_debug(n)),
    }
}

/// Short lowercase label of a response code.
pub fn rcode_label(c: ResponseCode) -> (r: String)
    ensures
        r@ == rcode_text(c),
{
    match c {
        ResponseCode::NoError => text::copy("noerror"),
        ResponseCode::NXDomain => text::copy("nxdomain"),
        ResponseCode::ServFail => text::copy("servfail"),
        ResponseCode::NotImp => text::copy("notimp"),
        ResponseCode::FormErr => text::copy("formerr"),
        ResponseCode::Refused => text::copy("refused"),
        ResponseCode::Other(n) => {
            let v = text::to_chars(show_rcode(n).as_str());
            text::from_chars(text::lower_chars(v.as_slice()).as_slice())
        },
    }
}

/// The rows of a table that are shown: all of them, or those with a count.
pub open spec fn shown(rows: Seq<(&'static str, u64)>, hide_zero: bool) -> Seq<(&'static str, u64)>
    decreases rows.len(),
{
    if rows.len() == 0 {
        rows
    } else if !hide_zero || rows.last().1 > 0 {
        shown(rows.drop_last(), hide_zero).push(rows.last())
    } else {
        shown(rows.drop_last(), hide_zero)
    }
}

/// The rows of a label and count table. `hide_zero` passes over rows with a zero
/// count.
pub fn visible_rows(rows: &[(&'static str, u64)], hide_zero: bool) -> (r: Vec<(&'static str, u64)>)
    ensures
        r@ == shown(rows@, hide_zero),
{
    let mut out: Vec<(&'static str, u64)> = Vec::new();
    let mut i: usize = 0;
    assert(out@ =~= shown(rows@.take(0), hide_zero));
    while i < rows.len()
        invariant
            0 <= i <= rows@.len(),
            out@ == shown(rows@.take(i as int), hide_zero),
        decreases rows@.len() - i,
    {
        assert(rows@.take(i + 1).drop_last() =~= rows@.take(i as int));
        if !hide_zero || rows[i].1 > 0 {
            out.push(rows[i]);
        }
        i = i + 1;
    }
    assert(rows@.take(rows@.len() as int) =~= rows@);
    out
}

/// The figures of the overview.
pub struct Overview {
    /// Every query that was counted.
    pub total: u64,
    /// Every query that looked into the cache.
    pub cache_total: u64,
    pub kind: Vec<(&'static str, u64)>,
    pub dns64: Vec<(&'static str, u64)>,
    pub cache: Vec<(&'static str, u64)>,
}

/// Whether rows show a list of counts under a list of labels.
pub open spec fn labelled(
    rows: Seq<(&'static str, u64)>,
    labels: Seq<Seq<char>>,
    counts: Seq<u64>,
) -> bool {
    &&& rows.len() == labels.len()
    &&& rows.len() == counts.len()
    &&& forall|i: int|
        0 <= i < rows.len() ==> (#[trigger] rows[i]).0@ == labels[i] && rows[i].1 == counts[i]
}

/// The figures of the overview, from the counters.
pub fn overview(c: &Counters) -> (r: Overview)
    requires
        c.queries_dns64 + c.queries_passthrough + c.blocked <= u64::MAX,
        c.cache_hits + c.cache_misses <= u64::MAX,
    ensures
        r.total == c.queries_dns64 + c.queries_passthrough + c.blocked,
        r.cache_total == c.cache_hits + c.cache_misses,
        labelled(
            r.kind@,
            seq!["dns64 (AAAA synthesis)"@, "passthrough"@, "blocked"@],
            seq![c.queries_dns64, c.queries_passthrough, c.blocked],
        ),
        labelled(
            r.dns64@,
            seq![
                "native AAAA"@,
                "nxdomain"@,
                "nodata → chain"@,
                "synthesized"@,
                "empty (no synth)"@,
            ],
            seq![c.native_aaaa, c.nxdomain64, c.nodata, c.synthesized, c.empty],
        ),
        labelled(
            r.cache@,
            seq![
                "hits"@,
                "misses"@,
                "negative hits"@,
                "served stale"@,
                "prefetches"@,
                "upstream failed"@,
            ],
            seq![
                c.cache_hits,
                c.cache_misses,
                c.negative_cache_hits,
                c.served_stale,
                c.prefetches,
                c.upstream_failed,
            ],
        ),
{
    let mut kind: Vec<(&'static str, u64)> = Vec::new();
    kind.push(("dns64 (AAAA synthesis)", c.queries_dns64));
    kind.push(("passthrough", c.queries_passthrough));
    kind.push(("blocked", c.blocked));
    let mut dns64: Vec<(&'static str, u64)> = Vec::new();
    dns64.push(("native AAAA", c.native_aaaa));
    dns64.push(("nxdomain", c.nxdomain64));
    dns64.push(("nodata → chain", c.nodata));
    dns64.push(("synthesized", c.synthesized));
    dns64.push(("empty (no synth)", c.empty));
    let mut cache: Vec<(&'static str, u64)> = Vec::new();
    cache.push(("hits", c.cache_hits));
    cache.push(("misses", c.cache_misses));
    cache.push(("negative hits", c.negative_cache_hits));
    cache.push(("served stale", c.served_stale));
    cache.push(("prefetches", c.prefetches));
    cache.push(("upstream failed", c.upstream_failed));
    Overview {
        total: c.queries_dns64 + c.queries_passthrough + c.blocked,
        cache_total: c.cache_hits + c.cache_misses,
        kind,
        dns64,
        cache,
    }
}

// ---------------------------------------------------------------------------
// The rankings of the query log
// ---------------------------------------------------------------------------

/// The names of some entries.
pub open spec fn names_of(v: Seq<Entry>) -> Seq<Seq<char>> {
    Seq::new(v.len(), |i: int| v[i].name@)
}

/// The clients of some entries, in text.
pub open spec fn clients_of(v: Seq<Entry>) -> Seq<Seq<char>> {
    Seq::new(v.len(), |i: int| net::ip_display(v[i].client))
}

/// The outcomes of some entries, by label.
pub open spec fn outcomes_of(v: Seq<Entry>) -> Seq<Seq<char>> {
    Seq::new(v.len(), |i: int| crate::querylog::outcome_label(v[i].outcome))
}

/// The names of those entries that were blocked.
pub open spec fn blocked_of(v: Seq<Entry>) -> Seq<Seq<char>>
    decreases v.len(),
{
    if v.len() == 0 {
        Seq::empty()
    } else if v.last().outcome is Blocked {
        blocked_of(v.drop_last()).push(v.last().name@)
    } else {
        blocked_of(v.drop_last())
    }
}

/// The rankings of the recent queries.
pub struct Rankings {
    pub domains: Vec<(String, u64)>,
    pub clients: Vec<(String, u64)>,
    pub outcomes: Vec<(String, u64)>,
    pub blocked: Vec<(String, u64)>,
}

/// Ranks the domains, the clients, the outcomes and the blocked domains of some
/// entries.
pub fn rankings(entries: &Vec<Entry>) -> (r: Rankings)
    ensures
        is_top(names_of(entries@), row_models(r.domains@)),
        is_top(clients_of(entries@), row_models(r.clients@)),
        is_top(outcomes_of(entries@), row_models(r.outcomes@)),
        is_top(blocked_of(entries@), row_models(r.blocked@)),
{
    let mut names: Vec<String> = Vec::new();
    let mut clients: Vec<String> = Vec::new();
    let mut outcomes: Vec<String> = Vec::new();
    let mut blocked: Vec<String> = Vec::new();
    let mut i: usize = 0;
    assert(text::texts(blocked@) =~= blocked_of(entries@.take(0)));
    while i < entries.len()
        invariant
            0 <= i <= entries@.len(),
            names@.len() == i,
            clients@.len() == i,
            outcomes@.len() == i,
            forall|j: int| 0 <= j < i ==> (#[trigger] names@[j])@ == entries@[j].name@,
            forall|j: int|
                0 <= j < i ==> (#[trigger] clients@[j])@ == net::ip_display(entries@[j].client),
            forall|j: int|
                0 <= j < i ==> (#[trigger] outcomes@[j])@ == crate::querylog::outcome_label(
                    entries@[j].outcome,
                ),
            text::texts(blocked@) == blocked_of(entries@.take(i as int)),
        decreases entries@.len() - i,
    {
        assert(entries@.take(i + 1).drop_last() =~= entries@.take(i as int));
        names.push(entries[i].name.clone());
        clients.push(entries[i].client.text());
        outcomes.push(entries[i].outcome.label());
        match entries[i].outcome {
            Outcome::Blocked => {
                let ghost b = blocked@;
                blocked.push(entries[i].name.clone());
                assert(text::texts(blocked@) =~= text::texts(b).push(entries@[i as int].name@));
            },
            _ => {},
        }
        i = i + 1;
    }
    assert(entries@.take(entries@.len() as int) =~= entries@);
    assert(text::texts(names@) =~= names_of(entries@));
    assert(text::texts(clients@) =~= clients_of(entries@));
    assert(text::texts(outcomes@) =~= outcomes_of(entries@));
    Rankings {
        domains: top_counts(&names),
        clients: top_counts(&clients),
        outcomes: top_counts(&outcomes),
        blocked: top_counts(&blocked),
    }
}

/// A ranking is determined by its keys: there is only one.
pub proof fn a_ranking_is_unique(
    keys: Seq<Seq<char>>,
    a: Seq<(Seq<char>, nat)>,
    b: Seq<(Seq<char>, nat)>,
)
    requires
        is_top(keys, a),
        is_top(keys, b),
    ensures
        a == b,
{
    places_agree(keys, a, b, if a.len() < b.len() {
        a.len()
    } else {
        b.len()
    });
    none_is_longer(keys, a, b);
    none_is_longer(keys, b, a);
    assert(a =~= b);
}

proof fn none_is_longer(
    keys: Seq<Seq<char>>,
    a: Seq<(Seq<char>, nat)>,
    b: Seq<(Seq<char>, nat)>,
)
    requires
        is_top(keys, a),
        is_top(keys, b),
        forall|i: int| 0 <= i < a.len() && i < b.len() ==> a[i] == b[i],
    ensures
        a.len() >= b.len(),
{
    if a.len() < b.len() {
        let x = b[a.len() as int];
        assert(keys.contains(x.0));
        if has_key(a, x.0) {
            let i = choose|i: int| 0 <= i < a.len() && (#[trigger] a[i]).0 == x.0;
            assert(above(b[i], x));
            before_is_irreflexive(x.0);
            assert(b[i] == ranked(keys, x.0));
        }
    }
}

proof fn places_agree(
    keys: Seq<Seq<char>>,
    a: Seq<(Seq<char>, nat)>,
    b: Seq<(Seq<char>, nat)>,
    n: nat,
)
    requires
        is_top(keys, a),
        is_top(keys, b),
        n <= a.len(),
        n <= b.len(),
    ensures
        forall|i: int| 0 <= i < n ==> a[i] == b[i],
    decreases n,
{
    if n > 0 {
        places_agree(keys, a, b, (n - 1) as nat);
        let p = n - 1;
        if a[p].0 != b[p].0 {
            not_above_at(keys, a, b, p);
            not_above_at(keys, b, a, p);
            above_is_total(a[p], b[p]);
        }
    }
}

proof fn not_above_at(
    keys: Seq<Seq<char>>,
    a: Seq<(Seq<char>, nat)>,
    b: Seq<(Seq<char>, nat)>,
    p: int,
)
    requires
        is_top(keys, a),
        is_top(keys, b),
        0 <= p < a.len(),
        p < b.len(),
        forall|i: int| 0 <= i < p ==> a[i] == b[i],
        a[p].0 != b[p].0,
    ensures
        !above(a[p], b[p]),
{
    let x = a[p];
    if above(x, b[p]) {
        assert(keys.contains(x.0));
        if has_key(b, x.0) {
            let i = choose|i: int| 0 <= i < b.len() && (#[trigger] b[i]).0 == x.0;
            assert(b[i] == x);
            before_is_irreflexive(x.0);
            if i < p {
                assert(above(a[i], a[p]));
            } else {
                assert(i > p);
                assert(above(b[p], b[i]));
                above_is_transitive(x, b[p], x);
            }
        } else {
            before_is_irreflexive(x.0);
            assert(above(b.last(), x));
            if p < b.len() - 1 {
                assert(above(b[p], b[b.len() - 1]));
                above_is_transitive(b[p], b.last(), x);
            }
            above_is_transitive(x, b[p], x);
        }
    }
}

} // verus!
