//! Network addresses as plain numbers, and their textual forms.

use vstd::prelude::*;

use crate::text;

verus! {

// ---------------------------------------------------------------------------
// IPv4
// ---------------------------------------------------------------------------

/// An IPv4 address: its four octets as one number, the first octet highest.
#[derive(Debug, Clone, Copy, PartialEq, Eq, Structural)]
pub struct Ipv4Addr {
    pub bits: u32,
}

/// The number whose four octets are `a`, `b`, `c` and `d`.
pub open spec fn quad(a: int, b: int, c: int, d: int) -> int {
    a * 0x1000000 + b * 0x10000 + c * 0x100 + d
}

/// Octet `i` of an address, counted from the front.
pub open spec fn octet(bits: int, i: int) -> int {
    if i == 0 {
        bits / 0x1000000
    } else if i == 1 {
        (bits / 0x10000) % 0x100
    } else if i == 2 {
        (bits / 0x100) % 0x100
    } else {
        bits % 0x100
    }
}

/// The number that one octet in decimal writes: one to three digits, no zero in
/// front of another digit, at most 255.
pub open spec fn octet_text(s: Seq<char>) -> Option<nat> {
    match text::number(s, 10) {
        Some(n) => if 1 <= s.len() <= 3 && n <= 255 && (s.len() == 1 || s[0] != '0') {
            Some(n)
        } else {
            None
        },
        None => None,
    }
}

/// The address that a text in dotted decimal writes.
pub open spec fn ipv4_text(s: Seq<char>) -> Option<u32> {
    let p = text::split(s, text::Sep::Char('.'));
    if p.len() == 4 && octet_text(p[0]) is Some && octet_text(p[1]) is Some && octet_text(
        p[2],
    ) is Some && octet_text(p[3]) is Some {
        Some(
            quad(
                octet_text(p[0])->0 as int,
                octet_text(p[1])->0 as int,
                octet_text(p[2])->0 as int,
                octet_text(p[3])->0 as int,
            ) as u32,
        )
    } else {
        None
    }
}

impl Ipv4Addr {
    /// The address with the given octets.
    pub fn new(a: u8, b: u8, c: u8, d: u8) -> (r: Self)
        ensures
            r.bits == quad(a as int, b as int, c as int, d as int),
    {
        Ipv4Addr {
            bits: (a as u32) * 0x1000000 + (b as u32) * 0x10000 + (c as u32) * 0x100 + (d as u32),
        }
    }

    /// The octets, first to last.
    pub fn octets(&self) -> (r: (u8, u8, u8, u8))
        ensures
            r.0 == octet(self.bits as int, 0),
            r.1 == octet(self.bits as int, 1),
            r.2 == octet(self.bits as int, 2),
            r.3 == octet(self.bits as int, 3),
            self.bits == quad(r.0 as int, r.1 as int, r.2 as int, r.3 as int),
    {
        let b = self.bits;
        (
            (b / 0x1000000) as u8,
            ((b / 0x10000) % 0x100) as u8,
            ((b / 0x100) % 0x100) as u8,
            (b % 0x100) as u8,
        )
    }

    /// The address that a text writes, if it writes one.
    pub fn parse(s: &str) -> (r: Option<Self>)
        ensures
            match r {
                Some(a) => ipv4_text(s@) == Some(a.bits),
                None => ipv4_text(s@) is None,
            },
    {
        let v = text::to_chars(s);
        parse_ipv4(v.as_slice())
    }

    /// The address in dotted decimal.
    pub fn text(&self) -> (r: String)
        ensures
            r@ == ipv4_display(self.bits as int),
    {
        let o = self.octets();
        let mut s: String = String::new();
        text::push_decimal(&mut s, o.0 as u64);
        s.push('.');
        text::push_decimal(&mut s, o.1 as u64);
        s.push('.');
        text::push_decimal(&mut s, o.2 as u64);
        s.push('.');
        text::push_decimal(&mut s, o.3 as u64);
        assert(s@ =~= ipv4_display(self.bits as int));
        s
    }
}

/// An address in dotted decimal.
pub open spec fn ipv4_display(bits: int) -> Seq<char> {
    text::decimal(octet(bits, 0) as nat).push('.') + text::decimal(octet(bits, 1) as nat).push('.')
        + text::decimal(octet(bits, 2) as nat).push('.') + text::decimal(octet(bits, 3) as nat)
}

/// The octets of an address are those it was made of.
pub proof fn octets_of_quad(a: u8, b: u8, c: u8, d: u8)
    ensures
        octet(quad(a as int, b as int, c as int, d as int), 0) == a,
        octet(quad(a as int, b as int, c as int, d as int), 1) == b,
        octet(quad(a as int, b as int, c as int, d as int), 2) == c,
        octet(quad(a as int, b as int, c as int, d as int), 3) == d,
{
    let q = quad(a as int, b as int, c as int, d as int);
    vstd::arithmetic::div_mod::lemma_fundamental_div_mod_converse(q, 0x1000000, a as int, b * 0x10000 + c * 0x100 + d);
    vstd::arithmetic::div_mod::lemma_fundamental_div_mod_converse(q, 0x10000, a * 0x100 + b, c * 0x100 + d);
    vstd::arithmetic::div_mod::lemma_fundamental_div_mod_converse(q, 0x100, a * 0x10000 + b * 0x100 + c, d as int);
    vstd::arithmetic::div_mod::lemma_fundamental_div_mod_converse(a * 0x100 + b, 0x100, a as int, b as int);
    vstd::arithmetic::div_mod::lemma_fundamental_div_mod_converse(
        a * 0x10000 + b * 0x100 + c,
        0x100,
        a * 0x100 + b,
        c as int,
    );
}

fn parse_octet(v: &[char]) -> (r: Option<u8>)
    ensures
        match r {
            Some(n) => octet_text(v@) == Some(n as nat),
            None => octet_text(v@) is None,
        },
{
    if v.len() == 0 || v.len() > 3 || (v.len() > 1 && v[0] == '0') || v[0] == '+' {
        proof {
            if v@.len() > 0 && v@[0] == '+' && text::number(v@, 10) is Some {
                text::number_digits(v@, 10, 0);
            }
        }
        return None;
    }
    match text::parse_number(v, 10, 255) {
        Some(n) => Some(n as u8),
        None => None,
    }
}

fn parse_ipv4(v: &[char]) -> (r: Option<Ipv4Addr>)
    ensures
        match r {
            Some(a) => ipv4_text(v@) == Some(a.bits),
            None => ipv4_text(v@) is None,
        },
{
    let p = text::split_chars(v, text::Sep::Char('.'));
    assert(text::lists(p@).len() == p@.len());
    if p.len() != 4 {
        return None;
    }
    assert(forall|i: int| 0 <= i < 4 ==> #[trigger] text::lists(p@)[i] == p@[i]@);
    match (
        parse_octet(p[0].as_slice()),
        parse_octet(p[1].as_slice()),
        parse_octet(p[2].as_slice()),
        parse_octet(p[3].as_slice()),
    ) {
        (Some(a), Some(b), Some(c), Some(d)) => Some(Ipv4Addr::new(a, b, c, d)),
        _ => None,
    }
}

// ---------------------------------------------------------------------------
// IPv6
// ---------------------------------------------------------------------------

/// An IPv6 address: its eight segments as one number, the first one highest.
#[derive(Debug, Clone, Copy, PartialEq, Eq, Structural)]
pub struct Ipv6Addr {
    pub bits: u128,
}

/// The number whose 16-bit groups, highest first, are those of `g`.
pub open spec fn group_value(g: Seq<nat>) -> nat
    decreases g.len(),
{
    if g.len() == 0 {
        0
    } else {
        group_value(g.drop_last()) * 0x10000 + g.last()
    }
}

/// Segment `i` of an address, counted from the front.
pub open spec fn segment(bits: int, i: int) -> int {
    if i == 0 {
        bits / 0x10000000000000000000000000000
    } else if i == 1 {
        (bits / 0x1000000000000000000000000) % 0x10000
    } else if i == 2 {
        (bits / 0x100000000000000000000) % 0x10000
    } else if i == 3 {
        (bits / 0x10000000000000000) % 0x10000
    } else if i == 4 {
        (bits / 0x1000000000000) % 0x10000
    } else if i == 5 {
        (bits / 0x100000000) % 0x10000
    } else if i == 6 {
        (bits / 0x10000) % 0x10000
    } else {
        bits % 0x10000
    }
}

/// The number that one to four hexadecimal digits write.
pub open spec fn group_text(s: Seq<char>) -> Option<nat> {
    if 1 <= s.len() <= 4 {
        text::number(s, 16)
    } else {
        None
    }
}

/// The groups that pieces of hexadecimal digits write, one each.
pub open spec fn hex_groups(p: Seq<Seq<char>>) -> Option<Seq<nat>>
    decreases p.len(),
{
    if p.len() == 0 {
        Some(Seq::empty())
    } else {
        match (hex_groups(p.drop_last()), group_text(p.last())) {
            (Some(g), Some(n)) => Some(g.push(n)),
            _ => None,
        }
    }
}

/// The groups that pieces write when the last of them may be an IPv4 address,
/// which writes two.
pub open spec fn mixed_groups(p: Seq<Seq<char>>) -> Option<Seq<nat>> {
    match hex_groups(p.drop_last()) {
        Some(g) => match (group_text(p.last()), ipv4_text(p.last())) {
            (Some(n), _) => Some(g.push(n)),
            (None, Some(b)) => Some(g.push(b as nat / 0x10000).push(b as nat % 0x10000)),
            _ => None,
        },
        None => None,
    }
}

/// The first place of two colons in a row.
pub open spec fn double_colon(s: Seq<char>) -> Option<int>
    decreases s.len(),
{
    if s.len() < 2 {
        None
    } else if s[0] == ':' && s[1] == ':' {
        Some(0)
    } else {
        match double_colon(s.skip(1)) {
            Some(i) => Some(i + 1),
            None => None,
        }
    }
}

/// The pieces of a text between colons; none where the text is empty.
pub open spec fn colon_pieces(s: Seq<char>) -> Seq<Seq<char>> {
    if s.len() == 0 {
        Seq::empty()
    } else {
        text::split(s, text::Sep::Char(':'))
    }
}

/// The groups of the part behind a double colon.
pub open spec fn tail_groups(s: Seq<char>) -> Option<Seq<nat>> {
    if s.len() == 0 {
        Some(Seq::empty())
    } else {
        mixed_groups(text::split(s, text::Sep::Char(':')))
    }
}

/// `n` groups of zero.
pub open spec fn zero_groups(n: nat) -> Seq<nat> {
    Seq::new(n, |i: int| 0)
}

/// The eight groups that the text of an address writes: all eight, or a double
/// colon in place of one or more groups of zero.
pub open spec fn ipv6_groups(s: Seq<char>) -> Option<Seq<nat>> {
    match double_colon(s) {
        None => match mixed_groups(text::split(s, text::Sep::Char(':'))) {
            Some(g) => if g.len() == 8 {
                Some(g)
            } else {
                None
            },
            None => None,
        },
        Some(i) => match (hex_groups(colon_pieces(s.take(i))), tail_groups(s.skip(i + 2))) {
            (Some(h), Some(t)) => if h.len() + t.len() <= 7 {
                Some(h + zero_groups((8 - h.len() - t.len()) as nat) + t)
            } else {
                None
            },
            _ => None,
        },
    }
}

/// The address that a text writes.
pub open spec fn ipv6_text(s: Seq<char>) -> Option<u128> {
    match ipv6_groups(s) {
        Some(g) => Some(group_value(g) as u128),
        None => None,
    }
}

/// The groups of some machine words.
pub open spec fn groups_of(v: Seq<u16>) -> Seq<nat> {
    Seq::new(v.len(), |i: int| v[i] as nat)
}

fn find_double_colon(v: &[char]) -> (r: Option<usize>)
    ensures
        match r {
            Some(i) => double_colon(v@) == Some(i as int) && i + 2 <= v@.len(),
            None => double_colon(v@) is None,
        },
{
    let n: usize = v.len();
    let mut i: usize = 0;
    assert(v@.skip(0) =~= v@);
    while i < n && n - i >= 2
        invariant
            n == v@.len(),
            0 <= i <= n,
            match double_colon(v@.skip(i as int)) {
                Some(j) => double_colon(v@) == Some(i + j),
                None => double_colon(v@) is None,
            },
        decreases n - i,
    {
        assert(v@.skip(i as int).skip(1) =~= v@.skip(i + 1));
        assert(v@.skip(i as int)[0] == v@[i as int]);
        assert(v@.skip(i as int)[1] == v@[i + 1]);
        if v[i] == ':' && v[i + 1] == ':' {
            return Some(i);
        }
        i = i + 1;
    }
    None
}

fn parse_group(v: &[char]) -> (r: Option<u16>)
    ensures
        match r {
            Some(n) => group_text(v@) == Some(n as nat),
            None => group_text(v@) is None,
        },
{
    if v.len() == 0 || v.len() > 4 || v[0] == '+' {
        proof {
            if v@.len() > 0 && v@[0] == '+' && text::number(v@, 16) is Some {
                text::number_digits(v@, 16, 0);
            }
        }
        return None;
    }
    proof {
        if text::number(v@, 16) is Some {
            text::number_bound(v@, 16);
            reveal_with_fuel(text::power, 6);
        }
    }
    match text::parse_number(v, 16, 0xffff) {
        Some(n) => Some(n as u16),
        None => None,
    }
}

/// Reads the pieces from the front, `n` of them, as groups.
fn parse_hex_groups(p: &Vec<Vec<char>>, n: usize) -> (r: Option<Vec<u16>>)
    requires
        n <= p@.len(),
    ensures
        match r {
            Some(g) => hex_groups(text::lists(p@).take(n as int)) == Some(groups_of(g@)),
            None => hex_groups(text::lists(p@).take(n as int)) is None,
        },
{
    let mut out: Vec<u16> = Vec::new();
    let mut i: usize = 0;
    assert(groups_of(out@) =~= Seq::empty());
    while i < n
        invariant
            0 <= i <= n <= p@.len(),
            hex_groups(text::lists(p@).take(i as int)) == Some(groups_of(out@)),
        decreases n - i,
    {
        let ghost q = text::lists(p@).take(i + 1);
        assert(q.drop_last() =~= text::lists(p@).take(i as int));
        assert(q.last() == p@[i as int]@);
        let ghost before = groups_of(out@);
        match parse_group(p[i].as_slice()) {
            Some(g) => {
                out.push(g);
                assert(groups_of(out@) =~= before.push(g as nat));
            },
            None => {
                proof {
                    hex_groups_prefix(text::lists(p@).take(n as int), i + 1);
                    assert(text::lists(p@).take(n as int).take(i + 1) =~= q);
                }
                return None;
            },
        }
        i = i + 1;
    }
    Some(out)
}

proof fn hex_groups_prefix(p: Seq<Seq<char>>, i: int)
    requires
        0 <= i <= p.len(),
    ensures
        hex_groups(p) is Some ==> hex_groups(p.take(i)) is Some,
    decreases p.len(),
{
    if i == p.len() {
        assert(p.take(i) =~= p);
    } else {
        hex_groups_prefix(p.drop_last(), i);
        assert(p.drop_last().take(i) =~= p.take(i));
    }
}

/// Reads all pieces as groups; the last one may be an IPv4 address.
fn parse_mixed_groups(p: &Vec<Vec<char>>) -> (r: Option<Vec<u16>>)
    requires
        p@.len() >= 1,
    ensures
        match r {
            Some(g) => mixed_groups(text::lists(p@)) == Some(groups_of(g@)),
            None => mixed_groups(text::lists(p@)) is None,
        },
{
    let last: usize = p.len() - 1;
    assert(text::lists(p@).take(last as int) =~= text::lists(p@).drop_last());
    assert(text::lists(p@).last() == p@[last as int]@);
    let mut g: Vec<u16> = match parse_hex_groups(p, last) {
        Some(g) => g,
        None => {
            return None;
        },
    };
    let ghost before = groups_of(g@);
    match parse_group(p[last].as_slice()) {
        Some(n) => {
            g.push(n);
            assert(groups_of(g@) =~= before.push(n as nat));
            Some(g)
        },
        None => match parse_ipv4(p[last].as_slice()) {
            Some(a) => {
                g.push((a.bits / 0x10000) as u16);
                g.push((a.bits % 0x10000) as u16);
                assert(groups_of(g@) =~= before.push(a.bits as nat / 0x10000).push(
                    a.bits as nat % 0x10000,
                ));
                Some(g)
            },
            None => None,
        },
    }
}

/// The number that eight groups make.
fn from_groups(g: &Vec<u16>) -> (r: Ipv6Addr)
    requires
        g@.len() == 8,
    ensures
        r.bits == group_value(groups_of(g@)),
{
    proof {
        reveal_with_fuel(group_value, 9);
        let s = groups_of(g@);
        assert(s.drop_last().drop_last().drop_last().drop_last().drop_last().drop_last().drop_last().drop_last().len()
            == 0);
    }
    Ipv6Addr::from_segments(g[0], g[1], g[2], g[3], g[4], g[5], g[6], g[7])
}

fn parse_ipv6(v: &[char]) -> (r: Option<Ipv6Addr>)
    ensures
        match r {
            Some(a) => ipv6_text(v@) == Some(a.bits),
            None => ipv6_text(v@) is None,
        },
{
    match find_double_colon(v) {
        None => {
            let p = text::split_chars(v, text::Sep::Char(':'));
            match parse_mixed_groups(&p) {
                Some(g) => {
                    assert(groups_of(g@).len() == g@.len());
                    if g.len() == 8 {
                        Some(from_groups(&g))
                    } else {
                        None
                    }
                },
                None => None,
            }
        },
        Some(i) => {
            let n: usize = v.len();
            let front = text::slice(v, 0, i);
            let back = text::slice(v, i + 2, n);
            assert(front@ =~= v@.take(i as int));
            assert(back@ =~= v@.skip(i + 2));
            let p: Vec<Vec<char>> = if front.len() == 0 {
                Vec::new()
            } else {
                text::split_chars(front.as_slice(), text::Sep::Char(':'))
            };
            assert(text::lists(p@) =~= colon_pieces(v@.take(i as int)));
            assert(text::lists(p@).take(p@.len() as int) =~= text::lists(p@));
            let h: Vec<u16> = match parse_hex_groups(&p, p.len()) {
                Some(h) => h,
                None => {
                    return None;
                },
            };
            let t: Vec<u16> = if back.len() == 0 {
                Vec::new()
            } else {
                match parse_mixed_groups(
                    &text::split_chars(back.as_slice(), text::Sep::Char(':')),
                ) {
                    Some(t) => t,
                    None => {
                        return None;
                    },
                }
            };
            assert(tail_groups(v@.skip(i + 2)) == Some(groups_of(t@))) by {
                if back@.len() == 0 {
                    assert(groups_of(t@) =~= Seq::<nat>::empty());
                }
            }
            let hn: usize = h.len();
            let tn: usize = t.len();
            if hn > 7 || tn > 7 || hn + tn > 7 {
                return None;
            }
            let mut g: Vec<u16> = h;
            let zeros: usize = 8 - hn - tn;
            let mut k: usize = 0;
            while k < zeros
                invariant
                    0 <= k <= zeros,
                    groups_of(g@) == groups_of(h@) + zero_groups(k as nat),
                decreases zeros - k,
            {
                let ghost before = groups_of(g@);
                g.push(0);
                assert(groups_of(g@) =~= before.push(0));
                assert(zero_groups((k + 1) as nat) =~= zero_groups(k as nat).push(0));
                k = k + 1;
            }
            let ghost before = groups_of(g@);
            let mut j: usize = 0;
            while j < tn
                invariant
                    0 <= j <= tn == t@.len(),
                    groups_of(g@) == before + groups_of(t@).take(j as int),
                decreases tn - j,
            {
                let ghost b2 = groups_of(g@);
                g.push(t[j]);
                assert(groups_of(g@) =~= b2.push(t@[j as int] as nat));
                assert(groups_of(t@).take(j + 1) =~= groups_of(t@).take(j as int).push(
                    t@[j as int] as nat,
                ));
                j = j + 1;
            }
            assert(groups_of(t@).take(tn as int) =~= groups_of(t@));
            assert(groups_of(g@).len() == g@.len());
            assert(groups_of(h@).len() == hn);
            Some(from_groups(&g))
        },
    }
}

impl Ipv6Addr {
    /// The address with the given segments.
    pub fn from_segments(
        a: u16,
        b: u16,
        c: u16,
        d: u16,
        e: u16,
        f: u16,
        g: u16,
        h: u16,
    ) -> (r: Self)
        ensures
            r.bits == ((((((a * 0x10000 + b) * 0x10000 + c) * 0x10000 + d) * 0x10000 + e) * 0x10000
                + f) * 0x10000 + g) * 0x10000 + h,
    {
        Ipv6Addr {
            bits: (((((((a as u128) * 0x10000 + (b as u128)) * 0x10000 + (c as u128)) * 0x10000 + (
            d as u128)) * 0x10000 + (e as u128)) * 0x10000 + (f as u128)) * 0x10000 + (g as u128))
                * 0x10000 + (h as u128),
        }
    }

    /// The address that a text writes, if it writes one.
    pub fn parse(s: &str) -> (r: Option<Self>)
        ensures
            match r {
                Some(a) => ipv6_text(s@) == Some(a.bits),
                None => ipv6_text(s@) is None,
            },
    {
        let v = text::to_chars(s);
        parse_ipv6(v.as_slice())
    }

    /// The segments, first to last.
    pub fn segments(&self) -> (r: [u16; 8])
        ensures
            groups_of(r@) == segment_groups(self.bits),
    {
        let b = self.bits;
        let r: [u16; 8] = [
            (b / 0x10000000000000000000000000000) as u16,
            ((b / 0x1000000000000000000000000) % 0x10000) as u16,
            ((b / 0x100000000000000000000) % 0x10000) as u16,
            ((b / 0x10000000000000000) % 0x10000) as u16,
            ((b / 0x1000000000000) % 0x10000) as u16,
            ((b / 0x100000000) % 0x10000) as u16,
            ((b / 0x10000) % 0x10000) as u16,
            (b % 0x10000) as u16,
        ];
        assert(groups_of(r@) =~= segment_groups(self.bits));
        r
    }

    /// The address in text: lower-case hexadecimal, the first longest run of two
    /// or more zero segments as a double colon.
    pub fn text(&self) -> (r: String)
        ensures
            r@ == ipv6_display(self.bits),
    {
        let g = self.segments();
        assert(forall|i: int| 0 <= i < 8 ==> segment_groups(self.bits)[i] == g@[i] as nat);
        let mut s: String = String::new();
        if g[0] == 0 && g[1] == 0 && g[2] == 0 && g[3] == 0 && g[4] == 0 && g[5] == 0xffff {
            s.append("::ffff:");
            let v4 = Ipv4Addr { bits: (self.bits % 0x100000000) as u32 };
            s.append(v4.text().as_str());
            assert(s@ =~= ipv6_display(self.bits));
            return s;
        }
        let (start, len) = longest_zeros(&g);
        if len > 1 {
            push_groups(&mut s, &g, 0, start);
            s.append("::");
            push_groups(&mut s, &g, start + len, 8);
            assert(s@ =~= ipv6_display(self.bits));
        } else {
            push_groups(&mut s, &g, 0, 8);
            assert(segment_groups(self.bits).subrange(0, 8) =~= segment_groups(self.bits));
            assert(s@ =~= ipv6_display(self.bits));
        }
        s
    }
}

/// The segments of an address.
pub open spec fn segment_groups(bits: u128) -> Seq<nat> {
    Seq::new(8, |i: int| segment(bits as int, i) as nat)
}

/// How many zeros in a row stand in `g` from place `i` on.
pub open spec fn zeros_at(g: Seq<nat>, i: int) -> nat
    decreases g.len() - i,
{
    if 0 <= i < g.len() && g[i] == 0 {
        1 + zeros_at(g, i + 1)
    } else {
        0
    }
}

/// Of the runs of zeros that begin before place `n`, the first longest one: its
/// place and its length.
pub open spec fn longest_run(g: Seq<nat>, n: nat) -> (nat, nat)
    decreases n,
{
    if n == 0 {
        (0, 0)
    } else {
        let best = longest_run(g, (n - 1) as nat);
        let here = zeros_at(g, n - 1);
        if here > best.1 {
            ((n - 1) as nat, here)
        } else {
            best
        }
    }
}

/// A number in lower-case hexadecimal digits.
pub open spec fn hex(n: nat) -> Seq<char>
    decreases n,
{
    if n < 16 {
        seq![hex_char(n)]
    } else {
        hex(n / 16).push(hex_char(n % 16))
    }
}

/// The hexadecimal digit of a value below sixteen.
pub open spec fn hex_char(n: nat) -> char {
    if n < 10 {
        (48 + n) as char
    } else {
        (87 + n) as char
    }
}

/// Groups in hexadecimal with a colon between each two.
pub open spec fn colon_hex(g: Seq<nat>) -> Seq<char> {
    text::join(Seq::new(g.len(), |i: int| hex(g[i])), ':')
}

/// An address in text.
pub open spec fn ipv6_display(bits: u128) -> Seq<char> {
    let g = segment_groups(bits);
    let run = longest_run(g, 8);
    if g[0] == 0 && g[1] == 0 && g[2] == 0 && g[3] == 0 && g[4] == 0 && g[5] == 0xffff {
        "::ffff:"@ + ipv4_display(bits as int % 0x100000000)
    } else if run.1 > 1 {
        colon_hex(g.subrange(0, run.0 as int)) + "::"@ + colon_hex(
            g.subrange((run.0 + run.1) as int, 8),
        )
    } else {
        colon_hex(g)
    }
}

fn zeros_from(g: &[u16; 8], i: usize) -> (r: usize)
    requires
        i <= 8,
    ensures
        r == zeros_at(groups_of(g@), i as int),
        i + r <= 8,
    decreases 8 - i,
{
    if i < 8 && g[i] == 0 {
        1 + zeros_from(g, i + 1)
    } else {
        0
    }
}

fn longest_zeros(g: &[u16; 8]) -> (r: (usize, usize))
    ensures
        r.0 == longest_run(groups_of(g@), 8).0,
        r.1 == longest_run(groups_of(g@), 8).1,
        r.0 + r.1 <= 8,
{
    let mut start: usize = 0;
    let mut len: usize = 0;
    let mut i: usize = 0;
    while i < 8
        invariant
            0 <= i <= 8,
            start == longest_run(groups_of(g@), i as nat).0,
            len == longest_run(groups_of(g@), i as nat).1,
            start + len <= 8,
        decreases 8 - i,
    {
        let here: usize = zeros_from(g, i);
        if here > len {
            start = i;
            len = here;
        }
        i = i + 1;
    }
    (start, len)
}

fn push_hex(s: &mut String, n: u16)
    ensures
        final(s)@ == old(s)@ + hex(n as nat),
    decreases n,
{
    if n >= 16 {
        push_hex(s, n / 16);
    }
    let d: u8 = (n % 16) as u8;
    if d < 10 {
        s.push((48 + d) as char);
    } else {
        s.push((87 + d) as char);
    }
    assert(s@ =~= old(s)@ + hex(n as nat));
}

fn push_groups(s: &mut String, g: &[u16; 8], from: usize, to: usize)
    requires
        from <= to <= 8,
    ensures
        final(s)@ == old(s)@ + colon_hex(groups_of(g@).subrange(from as int, to as int)),
{
    let ghost all = groups_of(g@);
    let mut i: usize = from;
    assert(colon_hex(all.subrange(from as int, from as int)) =~= Seq::<char>::empty());
    assert(s@ =~= old(s)@ + Seq::<char>::empty());
    while i < to
        invariant
            from <= i <= to <= 8,
            all == groups_of(g@),
            s@ == old(s)@ + colon_hex(all.subrange(from as int, i as int)),
        decreases to - i,
    {
        proof {
            let a = all.subrange(from as int, i as int);
            let b = all.subrange(from as int, i + 1);
            let p = Seq::new(b.len(), |k: int| hex(b[k]));
            assert(p.drop_last() =~= Seq::new(a.len(), |k: int| hex(a[k])));
            assert(p.last() == hex(g@[i as int] as nat));
            if i == from {
                assert(p[0] == hex(g@[i as int] as nat));
                assert(colon_hex(a) =~= Seq::<char>::empty());
            }
        }
        if i > from {
            s.push(':');
        }
        push_hex(s, g[i]);
        assert(s@ =~= old(s)@ + colon_hex(all.subrange(from as int, i + 1)));
        i = i + 1;
    }
}

// ---------------------------------------------------------------------------
// Either
// ---------------------------------------------------------------------------

/// An address of either family.
#[derive(Debug, Clone, Copy, PartialEq, Eq, Structural)]
pub enum IpAddr {
    V4(Ipv4Addr),
    V6(Ipv6Addr),
}

/// Whether a text writes an address of either family.
pub open spec fn is_ip_text(s: Seq<char>) -> bool {
    ipv4_text(s) is Some || ipv6_text(s) is Some
}

/// Every character of a text in dotted decimal is a decimal digit or a dot.
pub proof fn dotted_decimal_characters(s: Seq<char>, i: int)
    requires
        ipv4_text(s) is Some,
        0 <= i < s.len(),
    ensures
        s[i] == '.' || ('0' <= s[i] && s[i] <= '9'),
{
    if s[i] != '.' {
        let sep = text::Sep::Char('.');
        let p = text::split(s, sep);
        text::split_keeps_characters(s, sep, i);
        let (k, j) = choose|k: int, j: int|
            0 <= k < p.len() && 0 <= j < p[k].len() && #[trigger] p[k][j] == s[i];
        assert(octet_text(p[k]) is Some);
        text::number_digits(p[k], 10, j);
    }
}

proof fn double_colon_holds_colons(s: Seq<char>)
    ensures
        double_colon(s) is Some ==> s.contains(':'),
    decreases s.len(),
{
    if s.len() >= 2 {
        if s[0] == ':' {
            assert(s.contains(':'));
        } else {
            double_colon_holds_colons(s.skip(1));
            if s.skip(1).contains(':') {
                let i = choose|i: int| 0 <= i < s.skip(1).len() && s.skip(1)[i] == ':';
                assert(s[i + 1] == ':');
            }
        }
    }
}

/// An address without a colon is in dotted decimal.
pub proof fn an_address_without_colons(s: Seq<char>)
    requires
        is_ip_text(s),
        !s.contains(':'),
    ensures
        ipv4_text(s) is Some,
{
    double_colon_holds_colons(s);
    text::split_without_separator(s, ':');
    let p = text::split(s, text::Sep::Char(':'));
    assert(p.drop_last() =~= Seq::<Seq<char>>::empty());
}

/// The address that a text writes.
pub open spec fn ip_text(s: Seq<char>) -> Option<IpAddr> {
    match ipv4_text(s) {
        Some(bits) => Some(IpAddr::V4(Ipv4Addr { bits })),
        None => match ipv6_text(s) {
            Some(bits) => Some(IpAddr::V6(Ipv6Addr { bits })),
            None => None,
        },
    }
}

/// Whether some characters write an address of either family.
pub fn chars_are_ip(v: &[char]) -> (r: bool)
    ensures
        r == is_ip_text(v@),
{
    parse_ipv4(v).is_some() || parse_ipv6(v).is_some()
}

/// An address in text.
pub open spec fn ip_display(ip: IpAddr) -> Seq<char> {
    match ip {
        IpAddr::V4(a) => ipv4_display(a.bits as int),
        IpAddr::V6(a) => ipv6_display(a.bits),
    }
}

impl IpAddr {
    /// The address that a text writes, if it writes one.
    pub fn parse(s: &str) -> (r: Option<Self>)
        ensures
            r == ip_text(s@),
    {
        match Ipv4Addr::parse(s) {
            Some(a) => Some(IpAddr::V4(a)),
            None => match Ipv6Addr::parse(s) {
                Some(a) => Some(IpAddr::V6(a)),
                None => None,
            },
        }
    }

    /// The address in text.
    pub fn text(&self) -> (r: String)
        ensures
            r@ == ip_display(*self),
    {
        match self {
            IpAddr::V4(a) => a.text(),
            IpAddr::V6(a) => a.text(),
        }
    }
}

/// An address with a port; `scope` is the scope id of an IPv6 address.
#[derive(Debug, Clone, Copy, PartialEq, Eq, Structural)]
pub struct SocketAddr {
    pub ip: IpAddr,
    pub port: u16,
    pub scope: u32,
}

/// An address with a port in text.
pub open spec fn socket_display(a: SocketAddr) -> Seq<char> {
    match a.ip {
        IpAddr::V4(v4) => ipv4_display(v4.bits as int).push(':') + text::decimal(a.port as nat),
        IpAddr::V6(v6) => if a.scope == 0 {
            seq!['['] + ipv6_display(v6.bits) + "]:"@ + text::decimal(a.port as nat)
        } else {
            (seq!['['] + ipv6_display(v6.bits)).push('%') + text::decimal(a.scope as nat) + "]:"@
                + text::decimal(a.port as nat)
        },
    }
}

impl SocketAddr {
    /// An address with a port, in no scope.
    pub fn new(ip: IpAddr, port: u16) -> (r: Self)
        ensures
            r == (SocketAddr { ip, port, scope: 0 }),
    {
        SocketAddr { ip, port, scope: 0 }
    }

    /// Whether the address is an IPv6 one.
    pub fn is_ipv6(&self) -> (r: bool)
        ensures
            r == (self.ip is V6),
    {
        match self.ip {
            IpAddr::V6(_) => true,
            IpAddr::V4(_) => false,
        }
    }

    /// The address with its port in text.
    pub fn text(&self) -> (r: String)
        ensures
            r@ == socket_display(*self),
    {
        let mut s: String = String::new();
        match self.ip {
            IpAddr::V4(a) => {
                s.append(a.text().as_str());
                s.push(':');
            },
            IpAddr::V6(a) => {
                s.push('[');
                s.append(a.text().as_str());
                if self.scope != 0 {
                    s.push('%');
                    text::push_decimal(&mut s, self.scope as u64);
                }
                s.append("]:");
            },
        }
        text::push_decimal(&mut s, self.port as u64);
        assert(s@ =~= socket_display(*self));
        s
    }
}

} // verus!
