//! What the dashboard counts and how it ranks and shows it.

use vstd::prelude::*;

use crate::dns::ResponseCode;
use crate::net;
use crate::querylog;
use crate::querylog::Entry;
use crate::text;
use crate::text::Sep;
use crate::text_laws;
use crate::web;

verus! {

// ---------------------------------------------------------------------------
// Who may see it
// ---------------------------------------------------------------------------

/// The host of a `Host` value: without brackets, and without a port where there is one
/// colon; a value with two colons or more is taken whole.
pub proof fn the_host_of_a_value(h: Seq<char>, port: Seq<char>, more: Seq<char>)
    requires
        forall|i: int| 0 <= i < h.len() ==> #[trigger] h[i] != ':' && h[i] != ']',
        h.len() > 0 ==> h[0] != '[',
        forall|i: int| 0 <= i < port.len() ==> #[trigger] port[i] != ':',
    ensures
        web::host_part(h) == h,
        web::host_part(h.push(':') + port) == h,
        web::host_part(h.push(':') + (port.push(':') + more)) == h.push(':') + (port.push(':')
            + more),
        web::host_part(seq!['['] + h + seq![']'] + more) == h,
        web::host_part(seq!['['] + h) == h,
{
    let sep = Sep::Char(':');
    let end = Sep::Char(']');
    assert forall|i: int| 0 <= i < h.len() implies !text::separates(sep, #[trigger] h[i])
        && !text::separates(end, h[i]) by {}
    assert forall|i: int| 0 <= i < port.len() implies !text::separates(sep, #[trigger] port[i]) by {}
    text_laws::split_of_a_piece(h, sep);
    text_laws::split_of_a_piece(h, end);
    text_laws::split_of_a_piece(port, sep);
    text_laws::split_cuts_at_a_separator(h, ':', port, sep);
    text_laws::split_cuts_at_a_separator(port, ':', more, sep);
    text_laws::split_cuts_at_a_separator(h, ':', port.push(':') + more, sep);
    text_laws::split_is_not_empty(more, sep);
    text_laws::split_cuts_at_a_separator(h, ']', more, end);
    let b = seq!['['] + h + seq![']'] + more;
    assert(b.skip(1) =~= h.push(']') + more);
    assert((seq!['['] + h).skip(1) =~= h);
    let hp = h.push(':') + port;
    if h.len() > 0 {
        assert(hp[0] == h[0]);
        assert((h.push(':') + (port.push(':') + more))[0] == h[0]);
    } else {
        assert(hp[0] == ':');
        assert((h.push(':') + (port.push(':') + more))[0] == ':');
    }
    assert(text::split(hp, sep) =~= seq![h, port]);
    assert(text::split(h.push(']') + more, end)[0] == h);
}

/// A host may see the dashboard where it is `localhost`, in whatever case, or an
/// address of either family; no other may.
pub proof fn localhost_and_addresses_are_let_in(s: Seq<char>)
    ensures
        web::host_allowed(s) <==> text::lower(web::host_part(s)) == "localhost"@ || net::ipv4_text(
            web::host_part(s),
        ) is Some || net::ipv6_text(web::host_part(s)) is Some,
{
    reveal_strlit("localhost");
    assert(text::lower("localhost"@) =~= "localhost"@);
}

// ---------------------------------------------------------------------------
// Counting
// ---------------------------------------------------------------------------

/// The count of a key in two lists is the sum of its counts, and in a list of one it
/// is one or none.
pub proof fn counts_add_up(a: Seq<Seq<char>>, b: Seq<Seq<char>>, k: Seq<char>, x: Seq<char>)
    ensures
        web::count(a + b, k) == web::count(a, k) + web::count(b, k),
        web::count(seq![x], k) == (if x == k {
            1nat
        } else {
            0
        }),
    decreases b.len(),
{
    reveal_with_fuel(web::count, 2);
    assert(seq![x].drop_last() =~= Seq::<Seq<char>>::empty());
    if b.len() == 0 {
        assert(a + b =~= a);
    } else {
        counts_add_up(a, b.drop_last(), k, x);
        assert((a + b).drop_last() =~= a + b.drop_last());
    }
}

/// Keys are ordered by their first difference, a shorter one in front of those that it
/// begins.
pub proof fn keys_are_ordered_by_their_first_difference(
    p: Seq<char>,
    a: Seq<char>,
    b: Seq<char>,
)
    ensures
        a.len() > 0 && b.len() > 0 && a[0] != b[0] ==> (web::before(p + a, p + b)
            <==> a[0] < b[0]),
        b.len() > 0 ==> web::before(p, p + b),
        !web::before(p + b, p),
    decreases p.len(),
{
    if p.len() == 0 {
        assert(p + a =~= a);
        assert(p + b =~= b);
    } else {
        let q = p.skip(1);
        keys_are_ordered_by_their_first_difference(q, a, b);
        assert((p + a).skip(1) =~= q + a);
        assert((p + b).skip(1) =~= q + b);
        assert((p + a)[0] == p[0] && (p + b)[0] == p[0]);
    }
}

/// A ranking has at most ten places. Each holds a key that occurs, with its count; a
/// higher count stands in front, and of equal ones the key that is ordered in front.
/// What has no place has ten in front of it.
pub proof fn a_ranking_has_ten_places(keys: Seq<Seq<char>>, rows: Seq<(Seq<char>, nat)>)
    requires
        web::is_top(keys, rows),
    ensures
        rows.len() <= 10,
        forall|i: int|
            0 <= i < rows.len() ==> keys.contains((#[trigger] rows[i]).0) && rows[i].1
                == web::count(keys, rows[i].0),
        forall|i: int, j: int|
            0 <= i < j < rows.len() ==> (#[trigger] rows[i]).1 > (#[trigger] rows[j]).1
                || (rows[i].1 == rows[j].1 && web::before(rows[i].0, rows[j].0)),
        forall|k: Seq<char>| #[trigger]
            keys.contains(k) && (forall|i: int| 0 <= i < rows.len() ==> (#[trigger] rows[i]).0 != k)
                ==> rows.len() == 10 && (rows[9].1 > web::count(keys, k) || (rows[9].1
                == web::count(keys, k) && web::before(rows[9].0, k))),
{
    assert forall|k: Seq<char>| #[trigger]
        keys.contains(k) && (forall|i: int|
            0 <= i < rows.len() ==> (#[trigger] rows[i]).0 != k) implies rows.len() == 10 && (
    rows[9].1 > web::count(keys, k) || (rows[9].1 == web::count(keys, k) && web::before(
        rows[9].0,
        k,
    ))) by {
        assert(!web::has_key(rows, k));
        assert(rows.last() == rows[9]);
    }
}

/// What is ranked of the entries: the name, the client and the outcome of each.
pub proof fn what_is_ranked(v: Seq<Entry>, i: int)
    requires
        0 <= i < v.len(),
    ensures
        web::names_of(v).len() == v.len(),
        web::names_of(v)[i] == v[i].name@,
        web::clients_of(v).len() == v.len(),
        web::clients_of(v)[i] == net::ip_display(v[i].client),
        web::outcomes_of(v).len() == v.len(),
        web::outcomes_of(v)[i] == querylog::outcome_label(v[i].outcome),
{
}

/// The blocked names of some entries and of some more are those of both, and one entry
/// has one where it was blocked.
pub proof fn blocked_names_add_up(v: Seq<Entry>, w: Seq<Entry>, e: Entry)
    ensures
        web::blocked_of(v + w) == web::blocked_of(v) + web::blocked_of(w),
        e.outcome is Blocked ==> web::blocked_of(seq![e]) == seq![e.name@],
        !(e.outcome is Blocked) ==> web::blocked_of(seq![e]).len() == 0,
    decreases w.len(),
{
    reveal_with_fuel(web::blocked_of, 2);
    assert(seq![e].drop_last() =~= Seq::<Entry>::empty());
    assert(Seq::<Seq<char>>::empty().push(e.name@) =~= seq![e.name@]);
    if w.len() == 0 {
        assert(v + w =~= v);
        assert(web::blocked_of(v) + web::blocked_of(w) =~= web::blocked_of(v));
    } else {
        blocked_names_add_up(v, w.drop_last(), e);
        assert((v + w).drop_last() =~= v + w.drop_last());
        assert(web::blocked_of(v + w) =~= web::blocked_of(v) + web::blocked_of(w));
    }
}

// ---------------------------------------------------------------------------
// Showing
// ---------------------------------------------------------------------------

/// The rows that are shown of some and of some more are those of both; a row is passed
/// over where zeros are hidden and it is one.
pub proof fn shown_rows_add_up(
    v: Seq<(&'static str, u64)>,
    w: Seq<(&'static str, u64)>,
    r: (&'static str, u64),
    hide_zero: bool,
)
    ensures
        web::shown(v + w, hide_zero) == web::shown(v, hide_zero) + web::shown(w, hide_zero),
        r.1 != 0 || !hide_zero ==> web::shown(seq![r], hide_zero) == seq![r],
        r.1 == 0 && hide_zero ==> web::shown(seq![r], hide_zero).len() == 0,
    decreases w.len(),
{
    reveal_with_fuel(web::shown, 2);
    let none = Seq::<(&'static str, u64)>::empty();
    assert(seq![r].drop_last() =~= none);
    assert(none.push(r) =~= seq![r]);
    if w.len() == 0 {
        assert(v + w =~= v);
        assert(web::shown(v, hide_zero) + web::shown(w, hide_zero) =~= web::shown(v, hide_zero));
    } else {
        shown_rows_add_up(v, w.drop_last(), r, hide_zero);
        assert((v + w).drop_last() =~= v + w.drop_last());
        assert(web::shown(v + w, hide_zero) =~= web::shown(v, hide_zero) + web::shown(
            w,
            hide_zero,
        ));
    }
}

/// Three digits stand together from the end on, parted by a thin space.
pub proof fn digits_stand_in_threes(s: Seq<char>, t: Seq<char>)
    requires
        t.len() == 3,
    ensures
        s.len() > 0 ==> web::grouped(s + t) == web::grouped(s) + seq!['\u{2009}'] + t,
        s.len() <= 3 ==> web::grouped(s) == s,
{
    if s.len() > 0 {
        let st = s + t;
        assert(st.take(st.len() - 3) =~= s);
        assert(st.skip(st.len() - 3) =~= t);
        assert(web::grouped(st) =~= web::grouped(s) + seq!['\u{2009}'] + t);
    }
}

/// The label of each response code.
pub proof fn response_codes_have_labels(c: ResponseCode)
    ensures
        c is NoError ==> web::rcode_text(c) == "noerror"@,
        c is NXDomain ==> web::rcode_text(c) == "nxdomain"@,
        c is ServFail ==> web::rcode_text(c) == "servfail"@,
        c is NotImp ==> web::rcode_text(c) == "notimp"@,
        c is FormErr ==> web::rcode_text(c) == "formerr"@,
        c is Refused ==> web::rcode_text(c) == "refused"@,
{
}

/// The label of a response code that has no name of its own here.
pub proof fn other_codes_have_labels(n: u16)
    ensures
        ({
            let t = web::rcode_text(ResponseCode::Other(n));
            &&& n == 6 ==> t == "yxdomain"@
            &&& n == 7 ==> t == "yxrrset"@
            &&& n == 8 ==> t == "nxrrset"@
            &&& n == 9 ==> t == "notauth"@
            &&& n == 10 ==> t == "notzone"@
            &&& n == 16 ==> t == "badsig"@
            &&& n == 17 ==> t == "badkey"@
            &&& n == 18 ==> t == "badtime"@
            &&& n == 19 ==> t == "badmode"@
            &&& n == 20 ==> t == "badname"@
            &&& n == 21 ==> t == "badalg"@
            &&& n == 22 ==> t == "badtrunc"@
            &&& n == 23 ==> t == "badcookie"@
            &&& 11 <= n <= 15 || n >= 24 ==> t == "unknown("@ + text::decimal(n as nat) + ")"@
        }),
{
    reveal_strlit("YXDomain");
    reveal_strlit("yxdomain");
    reveal_strlit("YXRRSet");
    reveal_strlit("yxrrset");
    reveal_strlit("NXRRSet");
    reveal_strlit("nxrrset");
    reveal_strlit("NotAuth");
    reveal_strlit("notauth");
    reveal_strlit("NotZone");
    reveal_strlit("notzone");
    reveal_strlit("BADSIG");
    reveal_strlit("badsig");
    reveal_strlit("BADKEY");
    reveal_strlit("badkey");
    reveal_strlit("BADTIME");
    reveal_strlit("badtime");
    reveal_strlit("BADMODE");
    reveal_strlit("badmode");
    reveal_strlit("BADNAME");
    reveal_strlit("badname");
    reveal_strlit("BADALG");
    reveal_strlit("badalg");
    reveal_strlit("BADTRUNC");
    reveal_strlit("badtrunc");
    reveal_strlit("BADCOOKIE");
    reveal_strlit("badcookie");
    reveal_strlit("Unknown(");
    reveal_strlit("unknown(");
    reveal_strlit(")");
    assert(text::lower("YXDomain"@) =~= "yxdomain"@);
    assert(text::lower("YXRRSet"@) =~= "yxrrset"@);
    assert(text::lower("NXRRSet"@) =~= "nxrrset"@);
    assert(text::lower("NotAuth"@) =~= "notauth"@);
    assert(text::lower("NotZone"@) =~= "notzone"@);
    assert(text::lower("BADSIG"@) =~= "badsig"@);
    assert(text::lower("BADKEY"@) =~= "badkey"@);
    assert(text::lower("BADTIME"@) =~= "badtime"@);
    assert(text::lower("BADMODE"@) =~= "badmode"@);
    assert(text::lower("BADNAME"@) =~= "badname"@);
    assert(text::lower("BADALG"@) =~= "badalg"@);
    assert(text::lower("BADTRUNC"@) =~= "badtrunc"@);
    assert(text::lower("BADCOOKIE"@) =~= "badcookie"@);
    if 11 <= n <= 15 || n >= 24 {
        let d = text::decimal(n as nat);
        text::decimal_reads_back(n as nat);
        assert(text::lower(d) =~= d) by {
            assert forall|i: int| 0 <= i < d.len() implies text::lower(d)[i] == d[i] by {
                text::number_digits(d, 10, i);
            }
        }
        text_laws::lower_goes_through("Unknown("@ + d, ")"@);
        text_laws::lower_goes_through("Unknown("@, d);
        assert(text::lower("Unknown("@) =~= "unknown("@);
        assert(text::lower(")"@) =~= ")"@);
    }
}

} // verus!
