//! Labels of domain names: taking names apart, matching suffixes, and the list
//! operations that hostname rewrites are made of.

use vstd::prelude::*;

use crate::dns;
use crate::dns::Name;
use crate::text;
use crate::text::Sep;

verus! {

/// The labels of a name's text, in lower case, without the root.
pub open spec fn name_labels(s: Seq<char>) -> Seq<Seq<char>> {
    text::lower_each(text::tokens(text::trim_end(s, Sep::Char('.')), Sep::Char('.')))
}

/// A name's labels in lower case, root dropped: `www.Example.COM.` gives
/// `www`, `example`, `com`.
pub fn labels(name: &Name) -> (r: Vec<String>)
    ensures
        text::texts(r@) == name_labels(name@),
{
    let v = text::to_chars(name.text.as_str());
    let t = text::trim_end_chars(v.as_slice(), Sep::Char('.'));
    let p = text::token_chars(t.as_slice(), Sep::Char('.'));
    let mut out: Vec<String> = Vec::new();
    let mut i: usize = 0;
    while i < p.len()
        invariant
            0 <= i <= p@.len(),
            out@.len() == i,
            forall|j: int| 0 <= j < i ==> #[trigger] out@[j]@ == text::lower(p@[j]@),
        decreases p@.len() - i,
    {
        let l = text::lower_chars(p[i].as_slice());
        out.push(text::from_chars(l.as_slice()));
        i = i + 1;
    }
    assert(text::texts(out@) =~= text::lower_each(text::lists(p@)));
    out
}

/// The texts of some string slices.
pub open spec fn strs(v: Seq<&str>) -> Seq<Seq<char>> {
    Seq::new(v.len(), |i: int| v[i]@)
}

/// Whether the last members of `a` are those of `b`.
pub open spec fn ends(a: Seq<Seq<char>>, b: Seq<Seq<char>>) -> bool {
    b.len() <= a.len() && a.skip(a.len() - b.len()) == b
}

/// Whether already-computed labels end with `suffix`.
pub fn labels_end_with(labels: &[String], suffix: &[&str]) -> (r: bool)
    ensures
        r == ends(text::texts(labels@), strs(suffix@)),
{
    let n: usize = labels.len();
    let k: usize = suffix.len();
    if k > n {
        return false;
    }
    let mut i: usize = 0;
    while i < k
        invariant
            n == labels@.len(),
            k == suffix@.len(),
            k <= n,
            0 <= i <= k,
            forall|j: int| 0 <= j < i ==> labels@[n - k + j]@ == #[trigger] suffix@[j]@,
        decreases k - i,
    {
        if !text::same(labels[n - k + i].as_str(), suffix[i]) {
            proof {
                let a = text::texts(labels@).skip(n - k);
                assert(a[i as int] == labels@[n - k + i]@);
                assert(strs(suffix@)[i as int] == suffix@[i as int]@);
            }
            return false;
        }
        i = i + 1;
    }
    assert(text::texts(labels@).skip(n - k) =~= strs(suffix@));
    true
}

/// Whether the name's trailing labels equal `suffix`, which is in lower case.
pub fn ends_with(name: &Name, suffix: &[&str]) -> (r: bool)
    ensures
        r == ends(name_labels(name@), strs(suffix@)),
{
    let l = labels(name);
    labels_end_with(l.as_slice(), suffix)
}

/// The absolute form of a name's text: one dot at the end.
pub open spec fn absolute(s: Seq<char>) -> Seq<char> {
    text::trim_end(s, Sep::Char('.')).push('.')
}

/// Parses a (possibly not absolute) text into an absolute name.
pub fn parse_name(s: &str) -> (r: Option<Name>)
    ensures
        match r {
            Some(n) => dns::ascii_name(absolute(s@)) == Some(n@),
            None => dns::ascii_name(absolute(s@)) is None,
        },
        dns::plain_name(absolute(s@)) ==> (r matches Some(n) && n@ == absolute(s@)),
{
    let v = text::to_chars(s);
    let t = text::trim_end_chars(v.as_slice(), Sep::Char('.'));
    let mut a = text::from_chars(t.as_slice());
    a.push('.');
    Name::from_ascii(a.as_str())
}

/// The text of the absolute name of some labels.
pub open spec fn joined(l: Seq<Seq<char>>) -> Seq<char> {
    text::join(l, '.').push('.')
}

/// Joins labels into an absolute name.
pub fn name_from_labels(l: &Vec<String>) -> (r: Option<Name>)
    ensures
        match r {
            Some(n) => dns::ascii_name(joined(text::texts(l@))) == Some(n@),
            None => dns::ascii_name(joined(text::texts(l@))) is None,
        },
{
    let mut s = text::join_texts(l, '.');
    s.push('.');
    Name::from_ascii(s.as_str())
}

/// The name of rewritten labels, where there are any and they make a name.
pub open spec fn rewritten(l: Option<Seq<Seq<char>>>) -> Option<Seq<char>> {
    match l {
        Some(p) => dns::ascii_name(joined(p)),
        None => None,
    }
}

/// A text of plain labels with a dot between each two makes an absolute name.
pub proof fn plain_labels_make_a_name(s: Seq<char>, l: Seq<Seq<char>>)
    requires
        l.len() >= 1,
        s == text::join(l, '.'),
        s.len() <= 253,
        forall|i: int| 0 <= i < l.len() ==> dns::plain_label(#[trigger] l[i]),
    ensures
        absolute(s) == s.push('.'),
        dns::plain_name(absolute(s)),
{
    assert forall|i: int, j: int| 0 <= i < l.len() && 0 <= j < l[i].len() implies l[i][j]
        != '.' by {
        assert(dns::plain_label(l[i]));
        assert(dns::label_char(l[i][j], j == 0));
    }
    text::split_undoes_join(l, '.');
    let last = l.last();
    assert(dns::plain_label(l[l.len() - 1]));
    assert(s.len() > 0 && s.last() == last.last()) by {
        if l.len() == 1 {
            assert(s == l[0]);
        } else {
            assert(s == text::join(l.drop_last(), '.').push('.') + last);
        }
    }
    assert(last.last() == l[l.len() - 1][last.len() - 1]);
    assert(s.push('.').drop_last() =~= s);
}

// ---------------------------------------------------------------------------
// Lists of texts
// ---------------------------------------------------------------------------

/// The first place of `t` in a list, or -1.
pub open spec fn index_of(s: Seq<Seq<char>>, t: Seq<char>) -> int
    decreases s.len(),
{
    if s.len() == 0 {
        -1
    } else if index_of(s.drop_last(), t) >= 0 {
        index_of(s.drop_last(), t)
    } else if s.last() == t {
        s.len() - 1
    } else {
        -1
    }
}

/// What the first place of a text in a list is.
pub proof fn index_of_is_first(s: Seq<Seq<char>>, t: Seq<char>)
    ensures
        -1 <= index_of(s, t) < s.len(),
        index_of(s, t) >= 0 ==> s[index_of(s, t)] == t,
        forall|j: int|
            0 <= j < (if index_of(s, t) >= 0 {
                index_of(s, t)
            } else {
                s.len() as int
            }) ==> s[j] != t,
    decreases s.len(),
{
    if s.len() > 0 {
        index_of_is_first(s.drop_last(), t);
        let d = s.drop_last();
        assert forall|j: int|
            0 <= j < (if index_of(s, t) >= 0 {
                index_of(s, t)
            } else {
                s.len() as int
            }) implies s[j] != t by {
            if j < d.len() {
                assert(d[j] == s[j]);
            }
        }
    }
}

/// The first place of `t`, if the list has it.
pub fn position(v: &Vec<String>, t: &str) -> (r: Option<usize>)
    ensures
        match r {
            Some(i) => index_of(text::texts(v@), t@) == i,
            None => index_of(text::texts(v@), t@) == -1,
        },
{
    let mut i: usize = 0;
    while i < v.len()
        invariant
            0 <= i <= v@.len(),
            index_of(text::texts(v@).take(i as int), t@) == -1,
        decreases v@.len() - i,
    {
        let ghost q = text::texts(v@).take(i + 1);
        assert(q.drop_last() =~= text::texts(v@).take(i as int));
        assert(q.last() == v@[i as int]@);
        if text::same(v[i].as_str(), t) {
            proof {
                index_of_stays(text::texts(v@), t@, i + 1);
            }
            return Some(i);
        }
        i = i + 1;
    }
    assert(text::texts(v@).take(v@.len() as int) =~= text::texts(v@));
    None
}

/// Whether the first place of `t` is `k`.
pub fn first_at(v: &Vec<String>, t: &str, k: usize) -> (r: bool)
    ensures
        r == (index_of(text::texts(v@), t@) == k),
{
    match position(v, t) {
        Some(i) => i == k,
        None => false,
    }
}

/// A first place that was found stays the first place in a longer list.
pub proof fn index_of_stays(s: Seq<Seq<char>>, t: Seq<char>, i: int)
    requires
        0 <= i <= s.len(),
        index_of(s.take(i), t) >= 0,
    ensures
        index_of(s, t) == index_of(s.take(i), t),
    decreases s.len(),
{
    if i == s.len() {
        assert(s.take(i) =~= s);
    } else {
        assert(s.drop_last().take(i) =~= s.take(i));
        index_of_stays(s.drop_last(), t, i);
    }
}

/// The list with `x` put in at place `i`, or at the end where it is shorter.
pub open spec fn put_in(s: Seq<Seq<char>>, i: int, x: Seq<char>) -> Seq<Seq<char>> {
    if i < s.len() {
        s.insert(i, x)
    } else {
        s.push(x)
    }
}

/// The list without the member at place `i`, where it has one.
pub open spec fn left_out(s: Seq<Seq<char>>, i: int) -> Seq<Seq<char>> {
    if i < s.len() {
        s.remove(i)
    } else {
        s
    }
}

/// The list with `x` in place of the member at place `i`, or at the end where it
/// is shorter.
pub open spec fn replaced(s: Seq<Seq<char>>, i: int, x: Seq<char>) -> Seq<Seq<char>> {
    if i < s.len() {
        s.update(i, x)
    } else {
        s.push(x)
    }
}

/// The list with `x` at place `i`, filled up with empty texts where it is
/// shorter.
pub open spec fn set_at(s: Seq<Seq<char>>, i: int, x: Seq<char>) -> Seq<Seq<char>> {
    Seq::new(
        if s.len() <= i {
            (i + 1) as nat
        } else {
            s.len()
        },
        |k: int|
            if k == i {
                x
            } else if k < s.len() {
                s[k]
            } else {
                Seq::<char>::empty()
            },
    )
}

/// Inserts at place `i`, or at the end where the list is shorter.
pub fn splice_insert(v: &mut Vec<String>, i: usize, val: &str)
    ensures
        text::texts(final(v)@) == put_in(text::texts(old(v)@), i as int, val@),
{
    let n: usize = v.len();
    let at: usize = if i < n {
        i
    } else {
        n
    };
    v.insert(at, text::copy(val));
    assert(text::texts(v@) =~= put_in(text::texts(old(v)@), i as int, val@));
}

/// Removes the member at place `i`, where there is one.
pub fn splice_remove(v: &mut Vec<String>, i: usize)
    ensures
        text::texts(final(v)@) == left_out(text::texts(old(v)@), i as int),
{
    if i < v.len() {
        v.remove(i);
    }
    assert(text::texts(v@) =~= left_out(text::texts(old(v)@), i as int));
}

/// Replaces the member at place `i`, or appends where there is none.
pub fn splice_replace(v: &mut Vec<String>, i: usize, val: &str)
    ensures
        text::texts(final(v)@) == replaced(text::texts(old(v)@), i as int, val@),
{
    if i < v.len() {
        v[i] = text::copy(val);
    } else {
        v.push(text::copy(val));
    }
    assert(text::texts(v@) =~= replaced(text::texts(old(v)@), i as int, val@));
}

/// Sets the member at place `i`, filling up with empty texts as needed.
pub fn set_ext(v: &mut Vec<String>, i: usize, val: &str)
    requires
        i < usize::MAX,
    ensures
        text::texts(final(v)@) == set_at(text::texts(old(v)@), i as int, val@),
{
    while v.len() <= i
        invariant
            i < usize::MAX,
            old(v)@.len() <= v@.len(),
            v@.len() <= i + 1 || v@.len() == old(v)@.len(),
            forall|k: int|
                0 <= k < v@.len() ==> #[trigger] v@[k]@ == (if k < old(v)@.len() {
                    old(v)@[k]@
                } else {
                    Seq::<char>::empty()
                }),
        decreases i + 1 - v@.len(),
    {
        v.push(String::new());
    }
    v[i] = text::copy(val);
    assert(text::texts(v@) =~= set_at(text::texts(old(v)@), i as int, val@));
}

/// A list in reverse order.
pub fn reversed(v: &Vec<String>) -> (r: Vec<String>)
    ensures
        text::texts(r@) == text::texts(v@).reverse(),
{
    let mut out: Vec<String> = Vec::new();
    let n: usize = v.len();
    let mut i: usize = 0;
    while i < n
        invariant
            n == v@.len(),
            0 <= i <= n,
            out@.len() == i,
            forall|j: int| 0 <= j < i ==> #[trigger] out@[j]@ == v@[n - 1 - j]@,
        decreases n - i,
    {
        out.push(v[n - 1 - i].clone());
        i = i + 1;
    }
    assert(text::texts(out@) =~= text::texts(v@).reverse());
    out
}

/// The pieces of a text between its hyphens.
pub fn hyphen_parts(s: &str) -> (r: Vec<String>)
    ensures
        text::texts(r@) == text::split(s@, Sep::Char('-')),
        r@.len() >= 1,
{
    let v = text::to_chars(s);
    let p = text::split_chars(v.as_slice(), Sep::Char('-'));
    let mut out: Vec<String> = Vec::new();
    let mut i: usize = 0;
    while i < p.len()
        invariant
            0 <= i <= p@.len(),
            out@.len() == i,
            forall|j: int| 0 <= j < i ==> #[trigger] out@[j]@ == p@[j]@,
        decreases p@.len() - i,
    {
        out.push(text::from_chars(p[i].as_slice()));
        i = i + 1;
    }
    assert(text::texts(out@) =~= text::lists(p@));
    out
}

/// The members from place `from` up to, not including, place `to`.
pub fn part(v: &Vec<String>, from: usize, to: usize) -> (r: Vec<String>)
    requires
        from <= to <= v@.len(),
    ensures
        text::texts(r@) == text::texts(v@).subrange(from as int, to as int),
{
    let mut out: Vec<String> = Vec::new();
    let mut i: usize = from;
    while i < to
        invariant
            from <= i <= to <= v@.len(),
            out@.len() == i - from,
            forall|j: int| 0 <= j < i - from ==> #[trigger] out@[j]@ == v@[from + j]@,
        decreases to - i,
    {
        out.push(v[i].clone());
        i = i + 1;
    }
    assert(text::texts(out@) =~= text::texts(v@).subrange(from as int, to as int));
    out
}

} // verus!
