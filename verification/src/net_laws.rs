//! What holds of addresses and of the texts that write them.

use vstd::prelude::*;

use crate::net;
use crate::net::{IpAddr, Ipv4Addr};
use crate::text;
use crate::text::Sep;
use crate::text_laws;

verus! {

// ---------------------------------------------------------------------------
// IPv4
// ---------------------------------------------------------------------------

/// Four numbers in decimal with a dot between each two.
pub open spec fn dotted(a: nat, b: nat, c: nat, d: nat) -> Seq<char> {
    text::decimal(a).push('.') + (text::decimal(b).push('.') + (text::decimal(c).push('.')
        + text::decimal(d)))
}

proof fn decimal_is_digits(n: nat, i: int)
    requires
        0 <= i < text::decimal(n).len(),
    ensures
        48 <= text::decimal(n)[i] as nat <= 57,
{
    text::decimal_reads_back(n);
    text::number_digits(text::decimal(n), 10, i);
}

proof fn decimal_of_an_octet(n: nat)
    requires
        n <= 255,
    ensures
        net::octet_text(text::decimal(n)) == Some(n),
{
    text::decimal_reads_back(n);
    let s = text::decimal(n);
    if n >= 10 {
        text_laws::decimal_by_places(n / 10, n % 10);
        text_laws::decimal_by_places(n, 0);
        if n >= 100 {
            text_laws::decimal_by_places(n / 100, (n / 10) % 10);
        }
    }
}

proof fn positive_behind_a_digit(s: Seq<char>)
    requires
        s.len() >= 1,
        s[0] != '0',
        text::number(s, 10) is Some,
    ensures
        text::number(s, 10)->0 > 0,
    decreases s.len(),
{
    text::number_digits(s, 10, 0);
    if s.len() > 1 {
        positive_behind_a_digit(s.drop_last());
    }
}

/// Digits without a zero in front are the decimal digits of their number.
pub proof fn digits_are_decimal(s: Seq<char>)
    requires
        s.len() >= 1,
        s.len() == 1 || s[0] != '0',
        text::number(s, 10) is Some,
    ensures
        text::decimal(text::number(s, 10)->0) == s,
    decreases s.len(),
{
    let d = s.drop_last();
    let n = text::number(s, 10)->0;
    let last = text::digit(s.last())->0;
    text::number_digits(s, 10, s.len() - 1);
    if s.len() == 1 {
        assert(text::number(d, 10) == Some(0nat));
        assert(n == last);
        assert(text::decimal(n) =~= s);
    } else {
        positive_behind_a_digit(d);
        digits_are_decimal(d);
        let m = text::number(d, 10)->0;
        assert(n == m * 10 + last);
        text_laws::decimal_by_places(m, last);
        assert(text::decimal(n) =~= s);
    }
}

proof fn pieces_of_dotted(a: nat, b: nat, c: nat, d: nat)
    ensures
        text::split(dotted(a, b, c, d), Sep::Char('.')) == seq![
            text::decimal(a),
            text::decimal(b),
            text::decimal(c),
            text::decimal(d),
        ],
{
    let sep = Sep::Char('.');
    let p = seq![text::decimal(a), text::decimal(b), text::decimal(c), text::decimal(d)];
    assert forall|n: nat, i: int| 0 <= i < text::decimal(n).len() implies !text::separates(
        sep,
        #[trigger] text::decimal(n)[i],
    ) by {
        decimal_is_digits(n, i);
    }
    text_laws::split_of_a_piece(p[0], sep);
    text_laws::split_of_a_piece(p[1], sep);
    text_laws::split_of_a_piece(p[2], sep);
    text_laws::split_of_a_piece(p[3], sep);
    text_laws::split_cuts_at_a_separator(p[2], '.', p[3], sep);
    let cd = p[2].push('.') + p[3];
    text_laws::split_cuts_at_a_separator(p[1], '.', cd, sep);
    let bcd = p[1].push('.') + cd;
    text_laws::split_cuts_at_a_separator(p[0], '.', bcd, sep);
    assert(text::split(dotted(a, b, c, d), sep) =~= p);
}

/// Four octets in dotted decimal write the address whose octets they are.
pub proof fn dotted_decimal_is_read(a: nat, b: nat, c: nat, d: nat)
    requires
        a <= 255,
        b <= 255,
        c <= 255,
        d <= 255,
    ensures
        net::ipv4_text(dotted(a, b, c, d)) == Some(
            (a * 16_777_216 + b * 65_536 + c * 256 + d) as u32,
        ),
        net::is_ip_text(dotted(a, b, c, d)),
{
    pieces_of_dotted(a, b, c, d);
    decimal_of_an_octet(a);
    decimal_of_an_octet(b);
    decimal_of_an_octet(c);
    decimal_of_an_octet(d);
}

/// Nothing else writes an IPv4 address: a text that does is the four octets of the
/// address in dotted decimal.
pub proof fn only_dotted_decimal_is_read(s: Seq<char>)
    requires
        net::ipv4_text(s) is Some,
    ensures
        ({
            let n = net::ipv4_text(s)->0 as nat;
            s == dotted(n / 16_777_216, (n / 65_536) % 256, (n / 256) % 256, n % 256)
        }),
{
    let p = text::split(s, Sep::Char('.'));
    let a = net::octet_text(p[0])->0;
    let b = net::octet_text(p[1])->0;
    let c = net::octet_text(p[2])->0;
    let d = net::octet_text(p[3])->0;
    digits_are_decimal(p[0]);
    digits_are_decimal(p[1]);
    digits_are_decimal(p[2]);
    digits_are_decimal(p[3]);
    net::octets_of_quad(a as u8, b as u8, c as u8, d as u8);
    text::join_undoes_split(s, '.');
    let q3 = seq![p[3]];
    let q2 = seq![p[2], p[3]];
    let q1 = seq![p[1], p[2], p[3]];
    text_laws::join_from_the_front(p[3], Seq::empty(), '.');
    text_laws::join_from_the_front(p[2], q3, '.');
    text_laws::join_from_the_front(p[1], q2, '.');
    text_laws::join_from_the_front(p[0], q1, '.');
    assert(seq![p[2]] + q3 =~= q2);
    assert(seq![p[1]] + q2 =~= q1);
    assert(seq![p[0]] + q1 =~= p);
}

/// An IPv4 address is shown as its octets in dotted decimal, and what is shown
/// reads back as the address.
pub proof fn an_ipv4_address_reads_back(ip: Ipv4Addr)
    ensures
        net::ipv4_display(ip.bits as int) == dotted(
            ip.bits as nat / 16_777_216,
            (ip.bits as nat / 65_536) % 256,
            (ip.bits as nat / 256) % 256,
            ip.bits as nat % 256,
        ),
        net::ipv4_text(net::ipv4_display(ip.bits as int)) == Some(ip.bits),
        net::ip_display(IpAddr::V4(ip)) == net::ipv4_display(ip.bits as int),
        net::ip_text(net::ipv4_display(ip.bits as int)) == Some(IpAddr::V4(ip)),
{
    let n = ip.bits as nat;
    an_address_is_its_octets(ip.bits);
    shown_as_dotted(ip.bits);
    dotted_decimal_is_read(n / 16_777_216, (n / 65_536) % 256, (n / 256) % 256, n % 256);
}

proof fn shown_as_dotted(bits: u32)
    ensures
        net::ipv4_display(bits as int) == dotted(
            bits as nat / 16_777_216,
            (bits as nat / 65_536) % 256,
            (bits as nat / 256) % 256,
            bits as nat % 256,
        ),
{
    let a = text::decimal(net::octet(bits as int, 0) as nat).push('.');
    let b = text::decimal(net::octet(bits as int, 1) as nat).push('.');
    let c = text::decimal(net::octet(bits as int, 2) as nat).push('.');
    let d = text::decimal(net::octet(bits as int, 3) as nat);
    assert(a + b + c + d =~= a + (b + (c + d)));
}

/// The octets of an address, highest first, make it up.
pub proof fn an_address_is_its_octets(bits: u32)
    ensures
        forall|i: int| 0 <= i < 4 ==> 0 <= #[trigger] net::octet(bits as int, i) <= 255,
        bits == net::octet(bits as int, 0) * 16_777_216 + net::octet(bits as int, 1) * 65_536
            + net::octet(bits as int, 2) * 256 + net::octet(bits as int, 3),
{
}

/// The segments of an IPv6 address, highest first, make it up.
pub proof fn an_address_is_its_segments(bits: u128)
    ensures
        forall|i: int| 0 <= i < 8 ==> 0 <= #[trigger] net::segment(bits as int, i) <= 65_535,
        bits == net::segment(bits as int, 0) * 0x1_0000_0000_0000_0000_0000_0000_0000
            + net::segment(bits as int, 1) * 0x1_0000_0000_0000_0000_0000_0000 + net::segment(
            bits as int,
            2,
        ) * 0x1_0000_0000_0000_0000_0000 + net::segment(bits as int, 3) * 0x1_0000_0000_0000_0000
            + net::segment(bits as int, 4) * 0x1_0000_0000_0000 + net::segment(bits as int, 5)
            * 0x1_0000_0000 + net::segment(bits as int, 6) * 0x1_0000 + net::segment(
            bits as int,
            7,
        ),
{
    let n = bits as int;
    let k: int = 0x1_0000;
    vstd::arithmetic::div_mod::lemma_div_denominator(n, 0x1_0000, k);
    vstd::arithmetic::div_mod::lemma_div_denominator(n, 0x1_0000_0000, k);
    vstd::arithmetic::div_mod::lemma_div_denominator(n, 0x1_0000_0000_0000, k);
    vstd::arithmetic::div_mod::lemma_div_denominator(n, 0x1_0000_0000_0000_0000, k);
    vstd::arithmetic::div_mod::lemma_div_denominator(n, 0x1_0000_0000_0000_0000_0000, k);
    vstd::arithmetic::div_mod::lemma_div_denominator(n, 0x1_0000_0000_0000_0000_0000_0000, k);
    let q1 = n / 0x1_0000;
    let q2 = n / 0x1_0000_0000;
    let q3 = n / 0x1_0000_0000_0000;
    let q4 = n / 0x1_0000_0000_0000_0000;
    let q5 = n / 0x1_0000_0000_0000_0000_0000;
    let q6 = n / 0x1_0000_0000_0000_0000_0000_0000;
    let q7 = n / 0x1_0000_0000_0000_0000_0000_0000_0000;
    assert(n == q1 * k + n % k);
    assert(q1 == q2 * k + q1 % k);
    assert(q2 == q3 * k + q2 % k);
    assert(q3 == q4 * k + q3 % k);
    assert(q4 == q5 * k + q4 % k);
    assert(q5 == q6 * k + q5 % k);
    assert(q6 == q7 * k + q6 % k);
}

} // verus!
