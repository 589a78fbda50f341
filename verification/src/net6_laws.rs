//! IPv6 addresses in text, read and written.

use vstd::prelude::*;

use crate::net;
use crate::net::{IpAddr, Ipv4Addr, Ipv6Addr, SocketAddr};
use crate::net_laws;
use crate::text;
use crate::text::Sep;
use crate::text_laws;

verus! {

// ---------------------------------------------------------------------------
// Hexadecimal digits
// ---------------------------------------------------------------------------

/// A number in hexadecimal: a digit, or a letter from `a` on, below sixteen, and
/// otherwise one more behind those of its sixteenth.
pub proof fn hexadecimal_by_places(n: nat, d: nat)
    requires
        d < 16,
    ensures
        d < 10 ==> net::hex(d) == seq![(48 + d) as char],
        d >= 10 ==> net::hex(d) == seq![(87 + d) as char],
        n > 0 ==> net::hex(16 * n + d) == net::hex(n) + net::hex(d),
{
    if n > 0 {
        assert((16 * n + d) / 16 == n);
        assert((16 * n + d) % 16 == d);
        assert(net::hex(16 * n + d) =~= net::hex(n) + net::hex(d));
    }
}

/// A number in hexadecimal reads back.
pub proof fn hexadecimal_reads_back(n: nat)
    ensures
        text::number(net::hex(n), 16) == Some(n),
        net::hex(n).len() >= 1,
    decreases n,
{
    let d = n % 16;
    let c = net::hex_char(d);
    assert(text::digit(c) == Some(d));
    if n < 16 {
        assert(net::hex(n) =~= Seq::<char>::empty().push(c));
        text_laws::a_digit_is_appended(Seq::empty(), c, 16);
    } else {
        hexadecimal_reads_back(n / 16);
        text_laws::a_digit_is_appended(net::hex(n / 16), c, 16);
        assert(n == (n / 16) * 16 + d);
    }
}

proof fn hexadecimal_of_a_group(n: nat)
    requires
        n <= 0xffff,
    ensures
        net::group_text(net::hex(n)) == Some(n),
        net::hex(n).len() >= 1,
        forall|i: int| 0 <= i < net::hex(n).len() ==> #[trigger] net::hex(n)[i] != ':',
{
    hexadecimal_reads_back(n);
    let h = net::hex(n);
    assert(h.len() <= 4) by {
        reveal_with_fuel(net::hex, 5);
        if n >= 4096 {
            assert(((n / 16) / 16) / 16 < 16);
        } else if n >= 256 {
            assert((n / 16) / 16 < 16);
        } else if n >= 16 {
            assert(n / 16 < 16);
        }
    }
    assert forall|i: int| 0 <= i < h.len() implies #[trigger] h[i] != ':' by {
        text::number_digits(h, 16, i);
    }
}

/// Whether every group fits in sixteen bits.
pub open spec fn small(g: Seq<nat>) -> bool {
    forall|i: int| 0 <= i < g.len() ==> #[trigger] g[i] <= 0xffff
}

/// Groups in hexadecimal, one text each.
pub open spec fn hexed(g: Seq<nat>) -> Seq<Seq<char>> {
    Seq::new(g.len(), |i: int| net::hex(g[i]))
}

proof fn hexed_is_read(g: Seq<nat>)
    requires
        small(g),
    ensures
        net::hex_groups(hexed(g)) == Some(g),
        g.len() > 0 ==> net::mixed_groups(hexed(g)) == Some(g),
    decreases g.len(),
{
    if g.len() == 0 {
        assert(g =~= Seq::empty());
    } else {
        let d = g.drop_last();
        assert forall|i: int| 0 <= i < d.len() implies #[trigger] d[i] <= 0xffff by {
            assert(d[i] == g[i]);
        }
        hexed_is_read(d);
        hexadecimal_of_a_group(g.last());
        assert(hexed(g).drop_last() =~= hexed(d));
        assert(hexed(g).last() == net::hex(g.last()));
        assert(d.push(g.last()) =~= g);
    }
}

// ---------------------------------------------------------------------------
// Colons
// ---------------------------------------------------------------------------

/// Whether no two colons stand in a row, and none at either end.
pub open spec fn gapless(s: Seq<char>) -> bool {
    &&& forall|i: int| 0 <= i && i + 1 < s.len() ==> !(#[trigger] s[i] == ':' && s[i + 1] == ':')
    &&& s.len() > 0 ==> s[0] != ':' && s.last() != ':'
}

/// Whether some texts are not empty and have no colon.
pub open spec fn colonless(p: Seq<Seq<char>>) -> bool {
    forall|i: int| 0 <= i < p.len() ==> (#[trigger] p[i]).len() > 0 && !p[i].contains(':')
}

proof fn joined_is_gapless(p: Seq<Seq<char>>)
    requires
        colonless(p),
    ensures
        gapless(text::join(p, ':')),
        p.len() > 0 ==> text::join(p, ':').len() > 0,
        p.len() > 0 ==> text::split(text::join(p, ':'), Sep::Char(':')) == p,
    decreases p.len(),
{
    if p.len() > 0 {
        assert forall|i: int, j: int| 0 <= i < p.len() && 0 <= j < p[i].len() implies p[i][j]
            != ':' by {
            assert(p[i].contains(p[i][j]));
        }
        text::split_undoes_join(p, ':');
        let d = p.drop_last();
        let x = p.last();
        assert(x == p[p.len() - 1]);
        assert forall|j: int| 0 <= j < x.len() implies x[j] != ':' by {
            assert(x.contains(x[j]));
        }
        if p.len() > 1 {
            assert forall|i: int| 0 <= i < d.len() implies (#[trigger] d[i]).len() > 0
                && !d[i].contains(':') by {
                assert(d[i] == p[i]);
            }
            joined_is_gapless(d);
            let a = text::join(d, ':');
            let s = text::join(p, ':');
            assert(s == a.push(':') + x);
            assert forall|i: int| 0 <= i && i + 1 < s.len() implies !(#[trigger] s[i] == ':' && s[i
                + 1] == ':') by {
                if i + 1 < a.len() {
                    assert(s[i] == a[i] && s[i + 1] == a[i + 1]);
                } else if i + 1 == a.len() {
                    assert(s[i] == a.last());
                } else if i == a.len() {
                    assert(s[i + 1] == x[0]);
                } else {
                    assert(s[i] == x[i - a.len() - 1]);
                }
            }
            assert(s[0] == a[0]);
            assert(s.last() == x.last());
        } else {
            assert(text::join(p, ':') == x);
        }
    }
}

proof fn no_gap_is_found(s: Seq<char>)
    requires
        forall|i: int| 0 <= i && i + 1 < s.len() ==> !(#[trigger] s[i] == ':' && s[i + 1] == ':'),
    ensures
        net::double_colon(s) is None,
    decreases s.len(),
{
    if s.len() >= 2 {
        let t = s.skip(1);
        assert(!(s[0] == ':' && s[0int + 1] == ':'));
        assert forall|i: int| 0 <= i && i + 1 < t.len() implies !(#[trigger] t[i] == ':' && t[i + 1]
            == ':') by {
            assert(t[i] == s[i + 1] && t[i + 1] == s[i + 2]);
            assert(!(s[i + 1] == ':' && s[(i + 1) + 1] == ':'));
        }
        no_gap_is_found(t);
    }
}

proof fn the_gap_is_found(a: Seq<char>, b: Seq<char>)
    requires
        gapless(a),
    ensures
        net::double_colon(a + seq![':', ':'] + b) == Some(a.len() as int),
    decreases a.len(),
{
    let s = a + seq![':', ':'] + b;
    if a.len() == 0 {
        assert(s[0] == ':' && s[1] == ':');
    } else {
        let t = a.skip(1);
        assert(s[0] == a[0] && s[0] != ':');
        assert forall|i: int| 0 <= i && i + 1 < t.len() implies !(#[trigger] t[i] == ':' && t[i + 1]
            == ':') by {
            assert(t[i] == a[i + 1] && t[i + 1] == a[i + 2]);
            assert(!(a[i + 1] == ':' && a[(i + 1) + 1] == ':'));
        }
        the_gap_is_found_behind(t, b);
        assert(s.skip(1) =~= t + seq![':', ':'] + b);
    }
}

proof fn the_gap_is_found_behind(a: Seq<char>, b: Seq<char>)
    requires
        forall|i: int| 0 <= i && i + 1 < a.len() ==> !(#[trigger] a[i] == ':' && a[i + 1] == ':'),
        a.len() > 0 ==> a.last() != ':',
    ensures
        net::double_colon(a + seq![':', ':'] + b) == Some(a.len() as int),
    decreases a.len(),
{
    let s = a + seq![':', ':'] + b;
    if a.len() == 0 {
        assert(s[0] == ':' && s[1] == ':');
    } else {
        let t = a.skip(1);
        assert(s[0] == a[0]);
        if a.len() > 1 {
            assert(s[1] == a[1]);
            assert(!(a[0] == ':' && a[0int + 1] == ':'));
            assert(t.last() == a.last());
        } else {
            assert(a[0] == a.last());
        }
        assert forall|i: int| 0 <= i && i + 1 < t.len() implies !(#[trigger] t[i] == ':' && t[i + 1]
            == ':') by {
            assert(t[i] == a[i + 1] && t[i + 1] == a[i + 2]);
            assert(!(a[i + 1] == ':' && a[(i + 1) + 1] == ':'));
        }
        the_gap_is_found_behind(t, b);
        assert(s.skip(1) =~= t + seq![':', ':'] + b);
    }
}

proof fn hexed_is_colonless(g: Seq<nat>)
    requires
        small(g),
    ensures
        colonless(hexed(g)),
        net::colon_hex(g) == text::join(hexed(g), ':'),
{
    let p = hexed(g);
    assert(p =~= Seq::new(g.len(), |i: int| net::hex(g[i])));
    assert forall|i: int| 0 <= i < p.len() implies (#[trigger] p[i]).len() > 0 && !p[i].contains(
        ':',
    ) by {
        assert(g[i] <= 0xffff);
        hexadecimal_of_a_group(g[i]);
    }
}

// ---------------------------------------------------------------------------
// Reading
// ---------------------------------------------------------------------------

/// Eight groups in hexadecimal with colons between them are an address; any other
/// number of groups is none.
pub proof fn eight_groups_are_an_address(g: Seq<nat>)
    requires
        small(g),
        g.len() > 0,
    ensures
        g.len() == 8 ==> net::ipv6_groups(net::colon_hex(g)) == Some(g),
        g.len() != 8 ==> net::ipv6_groups(net::colon_hex(g)) is None,
{
    hexed_is_colonless(g);
    joined_is_gapless(hexed(g));
    no_gap_is_found(text::join(hexed(g), ':'));
    hexed_is_read(g);
}

/// Two colons in a row stand for the groups of zero that are missing, one at least.
pub proof fn a_gap_stands_for_zeros(h: Seq<nat>, t: Seq<nat>)
    requires
        small(h),
        small(t),
    ensures
        ({
            let s = net::colon_hex(h) + seq![':', ':'] + net::colon_hex(t);
            let z = Seq::new((8 - h.len() - t.len()) as nat, |i: int| 0nat);
            &&& h.len() + t.len() <= 7 ==> net::ipv6_groups(s) == Some(h + z + t)
            &&& h.len() + t.len() >= 8 ==> net::ipv6_groups(s) is None
        }),
{
    hexed_is_colonless(h);
    hexed_is_colonless(t);
    let a = net::colon_hex(h);
    let b = net::colon_hex(t);
    joined_is_gapless(hexed(h));
    joined_is_gapless(hexed(t));
    the_gap_is_found(a, b);
    hexed_is_read(h);
    hexed_is_read(t);
    let s = a + seq![':', ':'] + b;
    assert(s.take(a.len() as int) =~= a);
    assert(s.skip(a.len() as int + 2) =~= b);
    if h.len() == 0 {
        assert(hexed(h) =~= Seq::empty());
        assert(h =~= Seq::empty());
        text_laws::join_from_the_front(Seq::empty(), Seq::empty(), ':');
    }
    if t.len() == 0 {
        assert(hexed(t) =~= Seq::empty());
        assert(t =~= Seq::empty());
        text_laws::join_from_the_front(Seq::empty(), Seq::empty(), ':');
    }
    if h.len() + t.len() <= 7 {
        let n = (8 - h.len() - t.len()) as nat;
        assert(net::zero_groups(n) =~= Seq::new(n, |i: int| 0nat));
    }
}

/// The last two groups may be written as an IPv4 address.
pub proof fn an_ipv4_address_may_stand_last(t: Seq<nat>, v4: Seq<char>, n: u32)
    requires
        small(t),
        t.len() <= 5,
        net::ipv4_text(v4) == Some(n),
    ensures
        net::ipv6_groups(seq![':', ':'] + text::join(hexed(t).push(v4), ':')) == Some(
            Seq::new((6 - t.len()) as nat, |i: int| 0nat) + t.push(n as nat / 65_536).push(
                n as nat % 65_536,
            ),
        ),
{
    let p = hexed(t).push(v4);
    let g = t.push(n as nat / 65_536).push(n as nat % 65_536);
    hexed_is_colonless(t);
    an_ipv4_text_is_no_group(v4);
    assert forall|i: int| 0 <= i < p.len() implies (#[trigger] p[i]).len() > 0 && !p[i].contains(
        ':',
    ) by {
        if i < t.len() {
            assert(p[i] == hexed(t)[i]);
        }
    }
    an_ipv4_piece(t, v4, n);
    a_gap_in_front(p, g);
    let z = Seq::new((6 - t.len()) as nat, |i: int| 0nat);
    assert(Seq::new((8 - g.len()) as nat, |i: int| 0nat) =~= z);
}

proof fn an_ipv4_text_is_no_group(v4: Seq<char>)
    requires
        net::ipv4_text(v4) is Some,
    ensures
        v4.len() >= 5,
        !v4.contains(':'),
{
    let n = net::ipv4_text(v4)->0 as nat;
    net_laws::only_dotted_decimal_is_read(v4);
    text::decimal_reads_back(n / 16_777_216);
    text::decimal_reads_back((n / 65_536) % 256);
    text::decimal_reads_back((n / 256) % 256);
    text::decimal_reads_back(n % 256);
    assert forall|i: int| 0 <= i < v4.len() implies v4[i] != ':' by {
        net::dotted_decimal_characters(v4, i);
    }
}

proof fn an_ipv4_piece(t: Seq<nat>, v4: Seq<char>, n: u32)
    requires
        small(t),
        v4.len() >= 5,
        net::ipv4_text(v4) == Some(n),
    ensures
        net::mixed_groups(hexed(t).push(v4)) == Some(
            t.push(n as nat / 0x10000).push(n as nat % 0x10000),
        ),
{
    let p = hexed(t).push(v4);
    hexed_is_read(t);
    assert(p.drop_last() =~= hexed(t));
    assert(p.last() == v4);
}

proof fn a_gap_in_front(p: Seq<Seq<char>>, g: Seq<nat>)
    requires
        p.len() > 0,
        colonless(p),
        net::mixed_groups(p) == Some(g),
        g.len() <= 7,
    ensures
        net::ipv6_groups(seq![':', ':'] + text::join(p, ':')) == Some(
            Seq::new((8 - g.len()) as nat, |i: int| 0nat) + g,
        ),
{
    joined_is_gapless(p);
    let none = Seq::<char>::empty();
    let b = text::join(p, ':');
    the_gap_is_found(none, b);
    let s = seq![':', ':'] + b;
    assert(none + seq![':', ':'] + b =~= s);
    assert(s.take(0) =~= none);
    assert(s.skip(2) =~= b);
    let n = (8 - g.len()) as nat;
    let z = Seq::new(n, |i: int| 0nat);
    assert(net::zero_groups(n) =~= z);
    assert(Seq::<nat>::empty() + z + g =~= z + g);
}

/// A group of an address is one to four hexadecimal digits.
pub proof fn a_group_has_at_most_four_digits(s: Seq<char>, i: int)
    requires
        net::group_text(s) is Some,
        0 <= i < s.len(),
    ensures
        1 <= s.len() <= 4,
        text::digit(s[i]) is Some,
        net::group_text(s)->0 <= 0xffff,
{
    text::number_digits(s, 16, i);
    text::number_bound(s, 16);
    reveal_with_fuel(text::power, 5);
}

// ---------------------------------------------------------------------------
// Writing
// ---------------------------------------------------------------------------

proof fn segments_are_groups(bits: u128)
    ensures
        net::segment_groups(bits).len() == 8,
        small(net::segment_groups(bits)),
        net::group_value(net::segment_groups(bits)) == bits,
{
    let g = net::segment_groups(bits);
    net_laws::an_address_is_its_segments(bits);
    assert forall|i: int| 0 <= i < 8 implies #[trigger] g[i] <= 0xffff by {
        assert(net::segment(bits as int, i) <= 65_535);
    }
    let k = 0x1_0000nat;
    let v1 = g[0];
    let v2 = v1 * k + g[1];
    let v3 = v2 * k + g[2];
    let v4 = v3 * k + g[3];
    let v5 = v4 * k + g[4];
    let v6 = v5 * k + g[5];
    let v7 = v6 * k + g[6];
    let v8 = v7 * k + g[7];
    values_of_eight(g);
    assert(v8 == bits);
}

proof fn values_of_eight(g: Seq<nat>)
    requires
        g.len() == 8,
    ensures
        net::group_value(g) == ((((((g[0] * 0x1_0000 + g[1]) * 0x1_0000 + g[2]) * 0x1_0000 + g[3])
            * 0x1_0000 + g[4]) * 0x1_0000 + g[5]) * 0x1_0000 + g[6]) * 0x1_0000 + g[7],
{
    let a7 = g.drop_last();
    let a6 = a7.drop_last();
    let a5 = a6.drop_last();
    let a4 = a5.drop_last();
    let a3 = a4.drop_last();
    let a2 = a3.drop_last();
    let a1 = a2.drop_last();
    assert(a1.drop_last().len() == 0);
    assert(net::group_value(a1.drop_last()) == 0);
    assert(net::group_value(a1) == g[0]);
    assert(net::group_value(a2) == g[0] * 0x1_0000 + g[1]);
    assert(net::group_value(a3) == (g[0] * 0x1_0000 + g[1]) * 0x1_0000 + g[2]);
    let v4 = ((g[0] * 0x1_0000 + g[1]) * 0x1_0000 + g[2]) * 0x1_0000 + g[3];
    assert(net::group_value(a4) == v4);
    assert(net::group_value(a5) == v4 * 0x1_0000 + g[4]);
    assert(net::group_value(a6) == (v4 * 0x1_0000 + g[4]) * 0x1_0000 + g[5]);
    assert(net::group_value(a7) == ((v4 * 0x1_0000 + g[4]) * 0x1_0000 + g[5]) * 0x1_0000 + g[6]);
}

proof fn zeros_in_a_row(g: Seq<nat>, i: int)
    requires
        0 <= i <= g.len(),
    ensures
        ({
            let k = net::zeros_at(g, i);
            &&& i + k <= g.len()
            &&& forall|j: int| i <= j < i + k ==> #[trigger] g[j] == 0
            &&& i + k < g.len() ==> g[i + k] != 0
        }),
    decreases g.len() - i,
{
    if i < g.len() && g[i] == 0 {
        zeros_in_a_row(g, i + 1);
    }
}

/// Whether `n` zeros stand in a row from place `i` on.
pub open spec fn zero_run(g: Seq<nat>, i: int, n: int) -> bool {
    0 <= i && 0 <= n && i + n <= g.len() && forall|j: int| i <= j < i + n ==> #[trigger] g[j] == 0
}

proof fn a_run_is_no_longer(g: Seq<nat>, i: int, n: int)
    requires
        zero_run(g, i, n),
    ensures
        n <= net::zeros_at(g, i),
{
    zeros_in_a_row(g, i);
    let k = net::zeros_at(g, i);
    if n > k {
        assert(g[i + k] != 0);
        assert(g[i + k] == 0);
    }
}

/// The run of zeros that is left out of the text of an address is the longest one, and
/// the first of equally long ones.
pub proof fn the_first_longest_run(g: Seq<nat>, m: nat, i: int, n: int)
    requires
        m <= g.len(),
        0 <= i < m,
        zero_run(g, i, n),
    ensures
        ({
            let r = net::longest_run(g, m);
            &&& zero_run(g, r.0 as int, r.1 as int)
            &&& n <= r.1
            &&& n == r.1 && n > 0 ==> r.0 <= i
        }),
    decreases m,
{
    let r = net::longest_run(g, m);
    let best = net::longest_run(g, (m - 1) as nat);
    let here = net::zeros_at(g, m - 1);
    zeros_in_a_row(g, m - 1);
    a_run_is_no_longer(g, i, n);
    runs_are_runs(g, m);
    if i < m - 1 {
        the_first_longest_run(g, (m - 1) as nat, i, n);
    } else {
        runs_are_runs(g, (m - 1) as nat);
    }
}

proof fn runs_are_runs(g: Seq<nat>, m: nat)
    requires
        m <= g.len(),
    ensures
        zero_run(g, net::longest_run(g, m).0 as int, net::longest_run(g, m).1 as int),
        net::longest_run(g, m).1 > 0 ==> net::longest_run(g, m).0 < m,
    decreases m,
{
    if m > 0 {
        runs_are_runs(g, (m - 1) as nat);
        zeros_in_a_row(g, m - 1);
    }
}

proof fn a_run_reads_back(g: Seq<nat>, p: int, k: int)
    requires
        g.len() == 8,
        small(g),
        zero_run(g, p, k),
        k >= 1,
    ensures
        net::ipv6_groups(
            net::colon_hex(g.subrange(0, p)) + "::"@ + net::colon_hex(g.subrange(p + k, 8)),
        ) == Some(g),
{
    let h = g.subrange(0, p);
    let t = g.subrange(p + k, 8);
    assert forall|i: int| 0 <= i < h.len() implies #[trigger] h[i] <= 0xffff by {
        assert(h[i] == g[i]);
    }
    assert forall|i: int| 0 <= i < t.len() implies #[trigger] t[i] <= 0xffff by {
        assert(t[i] == g[i + p + k]);
    }
    a_gap_stands_for_zeros(h, t);
    reveal_strlit("::");
    assert("::"@ =~= seq![':', ':']);
    let z = Seq::new((8 - h.len() - t.len()) as nat, |i: int| 0nat);
    assert(h + z + t =~= g) by {
        assert forall|i: int| 0 <= i < 8 implies (h + z + t)[i] == g[i] by {
            if p <= i < p + k {
                assert(g[i] == 0);
            }
        }
    }
}

/// An address in text reads back.
#[verifier::spinoff_prover]
pub proof fn an_ipv6_address_reads_back(a: Ipv6Addr)
    ensures
        net::ipv6_text(net::ipv6_display(a.bits)) == Some(a.bits),
{
    let g = net::segment_groups(a.bits);
    let run = net::longest_run(g, 8);
    segments_are_groups(a.bits);
    runs_are_runs(g, 8);
    if g[0] == 0 && g[1] == 0 && g[2] == 0 && g[3] == 0 && g[4] == 0 && g[5] == 0xffff {
        a_mapped_address_reads_back(a.bits);
    } else if run.1 > 1 {
        a_run_reads_back(g, run.0 as int, run.1 as int);
    } else {
        eight_groups_are_an_address(g);
    }
}

/// An address that maps an IPv4 one is written with it in dotted decimal.
pub proof fn a_mapped_address_shows_its_ipv4_address(ip: Ipv4Addr)
    ensures
        net::ipv6_display((0xffff_0000_0000 + ip.bits) as u128) == "::ffff:"@ + net_laws::dotted(
            ip.bits as nat / 16_777_216,
            (ip.bits as nat / 65_536) % 256,
            (ip.bits as nat / 256) % 256,
            ip.bits as nat % 256,
        ),
{
    let bits = (0xffff_0000_0000 + ip.bits) as u128;
    let g = net::segment_groups(bits);
    assert(g[0] == 0 && g[1] == 0 && g[2] == 0 && g[3] == 0 && g[4] == 0);
    assert(g[5] == 0xffff);
    assert(bits as int % 0x100000000 == ip.bits);
    net_laws::an_ipv4_address_reads_back(ip);
}

proof fn a_mapped_address_reads_back(bits: u128)
    requires
        ({
            let g = net::segment_groups(bits);
            g[0] == 0 && g[1] == 0 && g[2] == 0 && g[3] == 0 && g[4] == 0 && g[5] == 0xffff
        }),
    ensures
        net::ipv6_text(net::ipv6_display(bits)) == Some(bits),
{
    let g = net::segment_groups(bits);
    segments_are_groups(bits);
    let n = bits as nat % 0x1_0000_0000;
    let ip = Ipv4Addr { bits: n as u32 };
    net_laws::an_ipv4_address_reads_back(ip);
    let v4 = net::ipv4_display(bits as int % 0x100000000);
    let t = seq![0xffffnat];
    an_ipv4_address_may_stand_last(t, v4, n as u32);
    mapped_text(v4);
    let z = Seq::new((6 - t.len()) as nat, |i: int| 0nat);
    let w = z + t.push(n / 65_536).push(n % 65_536);
    low_groups(bits as nat);
    assert(w =~= g);
}

proof fn low_groups(m: nat)
    ensures
        ({
            let n = m % 0x1_0000_0000;
            (m / 0x1_0000) % 0x1_0000 == n / 65_536 && m % 0x1_0000 == n % 65_536
        }),
{
    let q = m / 0x1_0000_0000;
    let n = m % 0x1_0000_0000;
    let hi = n / 0x1_0000;
    let lo = n % 0x1_0000;
    assert(m == (q * 0x1_0000 + hi) * 0x1_0000 + lo);
    assert(m / 0x1_0000 == q * 0x1_0000 + hi);
    assert((q * 0x1_0000 + hi) % 0x1_0000 == hi);
}

proof fn mapped_text(v4: Seq<char>)
    ensures
        "::ffff:"@ + v4 == seq![':', ':'] + text::join(hexed(seq![0xffffnat]).push(v4), ':'),
{
    let t = seq![0xffffnat];
    reveal_strlit("::ffff:");
    hexadecimal_by_places(0xfff, 15);
    hexadecimal_by_places(0xff, 15);
    hexadecimal_by_places(0xf, 15);
    let f = net::hex(0xffff);
    assert(f =~= seq!['f', 'f', 'f', 'f']);
    assert(hexed(t).push(v4) =~= seq![f, v4]);
    text_laws::join_from_the_front(v4, Seq::empty(), ':');
    text_laws::join_from_the_front(f, seq![v4], ':');
    assert(seq![f] + seq![v4] =~= seq![f, v4]);
    assert("::ffff:"@ + v4 =~= seq![':', ':'] + (f.push(':') + v4));
}

/// The text of an address: its groups in hexadecimal with colons between them, but two
/// colons in place of the first longest run of zeros, where it has two or more.
pub proof fn how_an_address_is_written(bits: u128, p: nat, k: nat)
    requires
        net::longest_run(net::segment_groups(bits), 8) == (p, k),
        bits / 0x1_0000_0000 != 0xffff,
    ensures
        ({
            let g = net::segment_groups(bits);
            &&& k <= 1 ==> net::ipv6_display(bits) == net::colon_hex(g)
            &&& k >= 2 ==> net::ipv6_display(bits) == net::colon_hex(g.take(p as int)) + seq![
                ':',
                ':',
            ] + net::colon_hex(g.skip((p + k) as int))
        }),
{
    let g = net::segment_groups(bits);
    runs_are_runs(g, 8);
    reveal_strlit("::");
    assert("::"@ =~= seq![':', ':']);
    assert(g.subrange(0, p as int) =~= g.take(p as int));
    assert(g.subrange((p + k) as int, 8) =~= g.skip((p + k) as int));
    net_laws::an_address_is_its_segments(bits);
}

/// An address with a port: in brackets where it is an IPv6 one, with its scope, where it
/// has one, behind a percent sign.
pub proof fn an_address_with_a_port(ip: IpAddr, port: u16, scope: u32)
    ensures
        ({
            let s = net::socket_display(SocketAddr { ip, port, scope });
            let t = net::ip_display(ip);
            let p = text::decimal(port as nat);
            &&& ip is V4 ==> s == t + seq![':'] + p
            &&& ip is V6 && scope == 0 ==> s == seq!['['] + t + seq![']', ':'] + p
            &&& ip is V6 && scope != 0 ==> s == seq!['['] + t + seq!['%'] + text::decimal(
                scope as nat,
            ) + seq![']', ':'] + p
        }),
{
    reveal_strlit("]:");
    assert("]:"@ =~= seq![']', ':']);
    let t = net::ip_display(ip);
    let p = text::decimal(port as nat);
    let c = text::decimal(scope as nat);
    assert(t.push(':') + p =~= t + seq![':'] + p);
    assert((seq!['['] + t).push('%') + c + "]:"@ + p =~= seq!['['] + t + seq!['%'] + c + seq![
        ']',
        ':',
    ] + p);
}

} // verus!
