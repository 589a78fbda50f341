//! Text: characters, pieces of text, and numbers written as text.

use vstd::prelude::*;

verus! {

/// `String::push` of std appends the character to the text.
pub assume_specification[ String::push ](s: &mut String, ch: char)
    ensures
        final(s)@ == old(s)@.push(ch),
;

/// A text as std's `Debug` writes it: in double quotes, with escapes.
pub uninterp spec fn quoted(s: Seq<char>) -> Seq<char>;

/// Whether a character stands in a quoted text as it is: printable ASCII but for
/// the double quote and the backslash.
pub open spec fn quotes_plain(c: char) -> bool {
    ' ' <= c && c <= '~' && c != '"' && c != '\\'
}

/// `Debug` of std for `str` puts a text in double quotes; printable ASCII other
/// than a double quote or a backslash stands as it is, and the rest is escaped
/// in a way that is left to its name.
#[verifier::external_body]
pub(crate) fn quote(s: &str) -> (r: String)
    ensures
        r@ == quoted(s@),
        (forall|i: int| 0 <= i < s@.len() ==> quotes_plain(#[trigger] s@[i])) ==> r@ == seq!['"']
            + s@ + seq!['"'],
{
    format!("{s:?}")
}

/// The text that std's `String::from_utf8_lossy` makes of some bytes.
pub uninterp spec fn lossy_text(b: Seq<u8>) -> Seq<char>;

/// `String::from_utf8_lossy` of std decodes UTF-8; bytes that are valid UTF-8 are
/// decoded exactly, and what stands for others is left to its name.
#[verifier::external_body]
pub(crate) fn decode_lossy(b: &[u8]) -> (r: String)
    ensures
        r@ == lossy_text(b@),
        vstd::utf8::valid_utf8(b@) ==> r@ == vstd::utf8::decode_utf8(b@),
{
    String::from_utf8_lossy(b).into_owned()
}

/// How the error of std's `str::from_utf8` reads for some bytes.
pub uninterp spec fn utf8_fault(b: Seq<u8>) -> Seq<char>;

/// `str::from_utf8` of std decodes bytes that are valid UTF-8, and refuses others
/// with an error, whose text is left to its name.
#[verifier::external_body]
pub(crate) fn decode_utf8(b: &[u8]) -> (r: Result<String, String>)
    ensures
        r is Ok <==> vstd::utf8::valid_utf8(b@),
        r is Ok ==> r->Ok_0@ == vstd::utf8::decode_utf8(b@),
        r is Err ==> r->Err_0@ == utf8_fault(b@),
{
    match std::str::from_utf8(b) {
        Ok(s) => Ok(String::from(s)),
        Err(e) => Err(e.to_string()),
    }
}

/// The texts of a list of strings.
pub open spec fn texts(v: Seq<String>) -> Seq<Seq<char>> {
    Seq::new(v.len(), |i: int| v[i]@)
}

/// The texts of a list of character lists.
pub open spec fn lists(v: Seq<Vec<char>>) -> Seq<Seq<char>> {
    Seq::new(v.len(), |i: int| v[i]@)
}

/// The characters of a text.
pub fn to_chars(s: &str) -> (r: Vec<char>)
    ensures
        r@ == s@,
{
    let mut v: Vec<char> = Vec::new();
    for c in it: s.chars()
        invariant
            v@ == s@.take(it.index() as int),
            it.seq() == s@,
    {
        assert(s@.take(it.index() as int + 1) =~= s@.take(it.index() as int).push(c));
        v.push(c);
    }
    assert(s@.take(s@.len() as int) =~= s@);
    v
}

/// The text made of some characters.
pub fn from_chars(v: &[char]) -> (r: String)
    ensures
        r@ == v@,
{
    let mut s: String = String::new();
    let mut i: usize = 0;
    while i < v.len()
        invariant
            0 <= i <= v@.len(),
            s@ == v@.take(i as int),
        decreases v@.len() - i,
    {
        assert(v@.take(i + 1) =~= v@.take(i as int).push(v@[i as int]));
        s.push(v[i]);
        i = i + 1;
    }
    assert(v@.take(v@.len() as int) =~= v@);
    s
}

/// A copy of the characters from `from` up to, not including, `to`.
pub fn slice(v: &[char], from: usize, to: usize) -> (r: Vec<char>)
    requires
        from <= to <= v@.len(),
    ensures
        r@ == v@.subrange(from as int, to as int),
{
    let mut out: Vec<char> = Vec::new();
    let mut i: usize = from;
    while i < to
        invariant
            from <= i <= to <= v@.len(),
            out@ == v@.subrange(from as int, i as int),
        decreases to - i,
    {
        assert(v@.subrange(from as int, i + 1) =~= v@.subrange(from as int, i as int).push(
            v@[i as int],
        ));
        out.push(v[i]);
        i = i + 1;
    }
    out
}

/// A string with the same text.
pub fn copy(s: &str) -> (r: String)
    ensures
        r@ == s@,
{
    let mut r: String = String::new();
    r.append(s);
    assert(r@ =~= s@);
    r
}

/// Whether two lists of characters are the same.
pub fn same_chars(a: &[char], b: &[char]) -> (r: bool)
    ensures
        r == (a@ == b@),
{
    if a.len() != b.len() {
        return false;
    }
    let mut i: usize = 0;
    while i < a.len()
        invariant
            a@.len() == b@.len(),
            0 <= i <= a@.len(),
            a@.take(i as int) == b@.take(i as int),
        decreases a@.len() - i,
    {
        if a[i] != b[i] {
            assert(a@[i as int] != b@[i as int]);
            return false;
        }
        assert(a@.take(i + 1) =~= a@.take(i as int).push(a@[i as int]));
        assert(b@.take(i + 1) =~= b@.take(i as int).push(b@[i as int]));
        i = i + 1;
    }
    assert(a@.take(a@.len() as int) =~= a@);
    assert(b@.take(b@.len() as int) =~= b@);
    true
}

/// Whether two texts are the same.
pub fn same(a: &str, b: &str) -> (r: bool)
    ensures
        r == (a@ == b@),
{
    let x = to_chars(a);
    let y = to_chars(b);
    same_chars(x.as_slice(), y.as_slice())
}

// ---------------------------------------------------------------------------
// Case
// ---------------------------------------------------------------------------

/// An ASCII capital letter in lower case; any other character unchanged.
pub open spec fn lower_char(c: char) -> char {
    if 'A' <= c && c <= 'Z' {
        ((c as u32) + 32) as char
    } else {
        c
    }
}

/// A text with its ASCII capital letters in lower case.
pub open spec fn lower(s: Seq<char>) -> Seq<char> {
    Seq::new(s.len(), |i: int| lower_char(s[i]))
}

fn char_lower(c: char) -> (r: char)
    ensures
        r == lower_char(c),
{
    if 'A' <= c && c <= 'Z' {
        ((c as u8) + 32) as char
    } else {
        c
    }
}

/// The characters with ASCII capital letters in lower case.
pub fn lower_chars(v: &[char]) -> (r: Vec<char>)
    ensures
        r@ == lower(v@),
{
    let mut out: Vec<char> = Vec::new();
    let mut i: usize = 0;
    while i < v.len()
        invariant
            0 <= i <= v@.len(),
            out@ == lower(v@.take(i as int)),
        decreases v@.len() - i,
    {
        out.push(char_lower(v[i]));
        assert(lower(v@.take(i + 1)) =~= lower(v@.take(i as int)).push(lower_char(v@[i as int])));
        i = i + 1;
    }
    assert(v@.take(v@.len() as int) =~= v@);
    out
}

/// Whether two texts differ at most in the case of ASCII letters.
pub fn same_ignore_case(a: &str, b: &str) -> (r: bool)
    ensures
        r == (lower(a@) == lower(b@)),
{
    let x = lower_chars(to_chars(a).as_slice());
    let y = lower_chars(to_chars(b).as_slice());
    same_chars(x.as_slice(), y.as_slice())
}

/// Putting a text in lower case twice changes nothing more.
pub proof fn lower_is_idempotent(s: Seq<char>)
    ensures
        lower(lower(s)) == lower(s),
{
    assert(lower(lower(s)) =~= lower(s));
}

// ---------------------------------------------------------------------------
// Trimming
// ---------------------------------------------------------------------------

/// The Unicode characters with the White_Space property.
pub open spec fn is_space(c: char) -> bool {
    ||| '\u{9}' <= c && c <= '\u{d}'
    ||| c == ' '
    ||| c == '\u{85}'
    ||| c == '\u{a0}'
    ||| c == '\u{1680}'
    ||| '\u{2000}' <= c && c <= '\u{200a}'
    ||| c == '\u{2028}'
    ||| c == '\u{2029}'
    ||| c == '\u{202f}'
    ||| c == '\u{205f}'
    ||| c == '\u{3000}'
}

fn char_is_space(c: char) -> (r: bool)
    ensures
        r == is_space(c),
{
    ('\u{9}' <= c && c <= '\u{d}') || c == ' ' || c == '\u{85}' || c == '\u{a0}' || c == '\u{1680}'
        || ('\u{2000}' <= c && c <= '\u{200a}') || c == '\u{2028}' || c == '\u{2029}' || c
        == '\u{202f}' || c == '\u{205f}' || c == '\u{3000}'
}

/// What separates the pieces of a text: one character, or white space.
#[derive(Clone, Copy)]
pub enum Sep {
    Char(char),
    Space,
}

/// Whether `c` separates.
pub open spec fn separates(sep: Sep, c: char) -> bool {
    match sep {
        Sep::Char(d) => c == d,
        Sep::Space => is_space(c),
    }
}

fn char_separates(sep: Sep, c: char) -> (r: bool)
    ensures
        r == separates(sep, c),
{
    match sep {
        Sep::Char(d) => c == d,
        Sep::Space => char_is_space(c),
    }
}

/// The text without the separators at its front.
pub open spec fn trim_start(s: Seq<char>, sep: Sep) -> Seq<char>
    decreases s.len(),
{
    if s.len() > 0 && separates(sep, s[0]) {
        trim_start(s.skip(1), sep)
    } else {
        s
    }
}

/// The text without the separators at its end.
pub open spec fn trim_end(s: Seq<char>, sep: Sep) -> Seq<char>
    decreases s.len(),
{
    if s.len() > 0 && separates(sep, s.last()) {
        trim_end(s.drop_last(), sep)
    } else {
        s
    }
}

/// The text without white space at either end.
pub open spec fn trim(s: Seq<char>) -> Seq<char> {
    trim_end(trim_start(s, Sep::Space), Sep::Space)
}

/// The characters without the separators at the front.
pub fn trim_start_chars(v: &[char], sep: Sep) -> (r: Vec<char>)
    ensures
        r@ == trim_start(v@, sep),
{
    let mut i: usize = 0;
    assert(v@.skip(0) =~= v@);
    while i < v.len() && char_separates(sep, v[i])
        invariant
            0 <= i <= v@.len(),
            trim_start(v@, sep) == trim_start(v@.skip(i as int), sep),
        decreases v@.len() - i,
    {
        assert(v@.skip(i as int).skip(1) =~= v@.skip(i + 1));
        i = i + 1;
    }
    let r = slice(v, i, v.len());
    assert(r@ =~= v@.skip(i as int));
    r
}

/// The characters without the separators at the end.
pub fn trim_end_chars(v: &[char], sep: Sep) -> (r: Vec<char>)
    ensures
        r@ == trim_end(v@, sep),
{
    let mut n: usize = v.len();
    assert(v@.take(n as int) =~= v@);
    while n > 0 && char_separates(sep, v[n - 1])
        invariant
            0 <= n <= v@.len(),
            trim_end(v@, sep) == trim_end(v@.take(n as int), sep),
        decreases n,
    {
        assert(v@.take(n as int).drop_last() =~= v@.take(n - 1));
        n = n - 1;
    }
    let r = slice(v, 0, n);
    assert(r@ =~= v@.take(n as int));
    r
}

/// The characters without white space at either end.
pub fn trim_chars(v: &[char]) -> (r: Vec<char>)
    ensures
        r@ == trim(v@),
{
    let t = trim_start_chars(v, Sep::Space);
    trim_end_chars(t.as_slice(), Sep::Space)
}

// ---------------------------------------------------------------------------
// Splitting and joining
// ---------------------------------------------------------------------------

/// The pieces of a text between its separators, the empty ones included.
pub open spec fn split(s: Seq<char>, sep: Sep) -> Seq<Seq<char>>
    decreases s.len(),
{
    if s.len() == 0 {
        seq![Seq::<char>::empty()]
    } else {
        let p = split(s.drop_last(), sep);
        if separates(sep, s.last()) {
            p.push(Seq::<char>::empty())
        } else {
            p.drop_last().push(p.last().push(s.last()))
        }
    }
}

/// The members of a list that are not empty, in order.
pub open spec fn nonempty(p: Seq<Seq<char>>) -> Seq<Seq<char>>
    decreases p.len(),
{
    if p.len() == 0 {
        p
    } else if p.last().len() > 0 {
        nonempty(p.drop_last()).push(p.last())
    } else {
        nonempty(p.drop_last())
    }
}

/// The pieces of a text between its separators, without the empty ones.
pub open spec fn tokens(s: Seq<char>, sep: Sep) -> Seq<Seq<char>> {
    nonempty(split(s, sep))
}

/// A list of texts, each in lower case.
pub open spec fn lower_each(p: Seq<Seq<char>>) -> Seq<Seq<char>> {
    Seq::new(p.len(), |i: int| lower(p[i]))
}

/// A list of texts, each followed by `sep` but the last.
pub open spec fn join(p: Seq<Seq<char>>, sep: char) -> Seq<char>
    decreases p.len(),
{
    if p.len() == 0 {
        Seq::<char>::empty()
    } else if p.len() == 1 {
        p[0]
    } else {
        join(p.drop_last(), sep).push(sep) + p.last()
    }
}

/// The pieces of a text between its separators.
pub fn split_chars(v: &[char], sep: Sep) -> (r: Vec<Vec<char>>)
    ensures
        lists(r@) == split(v@, sep),
        r@.len() >= 1,
{
    let mut out: Vec<Vec<char>> = Vec::new();
    let mut cur: Vec<char> = Vec::new();
    let mut i: usize = 0;
    assert(lists(out@).push(cur@) =~= split(v@.take(0), sep));
    while i < v.len()
        invariant
            0 <= i <= v@.len(),
            lists(out@).push(cur@) == split(v@.take(i as int), sep),
        decreases v@.len() - i,
    {
        let c = v[i];
        let ghost before = lists(out@).push(cur@);
        assert(v@.take(i + 1).drop_last() =~= v@.take(i as int));
        assert(v@.take(i + 1).last() == c);
        assert(before.drop_last() =~= lists(out@));
        if char_separates(sep, c) {
            let ghost o = out@;
            out.push(cur);
            cur = Vec::new();
            assert(lists(out@) =~= before);
            assert(cur@ =~= Seq::<char>::empty());
        } else {
            cur.push(c);
        }
        i = i + 1;
    }
    assert(v@.take(v@.len() as int) =~= v@);
    let ghost before = lists(out@).push(cur@);
    out.push(cur);
    assert(lists(out@) =~= before);
    out
}

/// The pieces of a text between its separators, without the empty ones.
pub fn token_chars(v: &[char], sep: Sep) -> (r: Vec<Vec<char>>)
    ensures
        lists(r@) == tokens(v@, sep),
{
    let all = split_chars(v, sep);
    let mut out: Vec<Vec<char>> = Vec::new();
    let mut i: usize = 0;
    assert(lists(out@) =~= nonempty(lists(all@).take(0)));
    while i < all.len()
        invariant
            0 <= i <= all@.len(),
            lists(out@) == nonempty(lists(all@).take(i as int)),
        decreases all@.len() - i,
    {
        let ghost before = lists(out@);
        assert(lists(all@).take(i + 1).drop_last() =~= lists(all@).take(i as int));
        assert(lists(all@).take(i + 1).last() == all@[i as int]@);
        if all[i].len() > 0 {
            let piece = slice(all[i].as_slice(), 0, all[i].len());
            assert(piece@ =~= all@[i as int]@);
            out.push(piece);
            assert(lists(out@) =~= before.push(all@[i as int]@));
        }
        i = i + 1;
    }
    assert(lists(all@).take(all@.len() as int) =~= lists(all@));
    out
}

/// The texts joined, with `sep` between each two.
pub fn join_texts(v: &Vec<String>, sep: char) -> (r: String)
    ensures
        r@ == join(texts(v@), sep),
{
    let mut out: String = String::new();
    let mut i: usize = 0;
    while i < v.len()
        invariant
            0 <= i <= v@.len(),
            out@ == join(texts(v@).take(i as int), sep),
        decreases v@.len() - i,
    {
        let ghost p = texts(v@).take(i + 1);
        assert(p.drop_last() =~= texts(v@).take(i as int));
        assert(p.last() == v@[i as int]@);
        if i > 0 {
            out.push(sep);
        } else {
            assert(out@ =~= Seq::<char>::empty());
            assert(out@ + v@[0]@ =~= v@[0]@);
        }
        out.append(v[i].as_str());
        i = i + 1;
    }
    assert(texts(v@).take(v@.len() as int) =~= texts(v@));
    out
}

/// Joining the pieces of a text with the character that separated them gives
/// the text back.
pub proof fn join_undoes_split(s: Seq<char>, sep: char)
    ensures
        split(s, Sep::Char(sep)).len() >= 1,
        join(split(s, Sep::Char(sep)), sep) == s,
    decreases s.len(),
{
    if s.len() > 0 {
        join_undoes_split(s.drop_last(), sep);
        let p = split(s.drop_last(), Sep::Char(sep));
        let q = split(s, Sep::Char(sep));
        if s.last() == sep {
            assert(q.drop_last() =~= p);
            assert(join(p, sep).push(sep) + Seq::<char>::empty() =~= s);
        } else {
            assert(q.drop_last() =~= p.drop_last());
            if p.len() == 1 {
                assert(q[0] =~= s);
            } else {
                assert(join(p.drop_last(), sep).push(sep) + p.last().push(s.last()) =~= (join(
                    p.drop_last(),
                    sep,
                ).push(sep) + p.last()).push(s.last()));
                assert(s =~= s.drop_last().push(s.last()));
            }
        }
    } else {
        assert(s =~= Seq::<char>::empty());
    }
}

/// Appending characters that do not separate makes the last piece longer.
pub proof fn split_grows_last(a: Seq<char>, b: Seq<char>, sep: Sep)
    requires
        forall|i: int| 0 <= i < b.len() ==> !separates(sep, #[trigger] b[i]),
    ensures
        split(a, sep).len() >= 1,
        split(a + b, sep) == split(a, sep).drop_last().push(split(a, sep).last() + b),
    decreases a.len() + b.len(),
{
    if b.len() == 0 {
        assert(a + b =~= a);
        if a.len() > 0 {
            split_grows_last(a.drop_last(), Seq::empty(), sep);
        }
        let p = split(a, sep);
        assert(p.last() + b =~= p.last());
        assert(p.drop_last().push(p.last()) =~= p);
    } else {
        let c = b.drop_last();
        split_grows_last(a, c, sep);
        assert((a + b).drop_last() =~= a + c);
        assert((a + b).last() == b.last());
        let p = split(a, sep);
        let q = split(a + c, sep);
        assert(!separates(sep, b.last()));
        assert(q.drop_last() =~= p.drop_last());
        assert(q.last().push(b.last()) =~= p.last() + b);
    }
}

/// A text without a separator is its only piece.
pub proof fn split_without_separator(s: Seq<char>, c: char)
    requires
        !s.contains(c),
    ensures
        split(s, Sep::Char(c)) == seq![s],
    decreases s.len(),
{
    if s.len() > 0 {
        let t = s.drop_last();
        if t.contains(c) {
            let i = choose|i: int| 0 <= i < t.len() && t[i] == c;
            assert(s[i] == c);
        }
        split_without_separator(t, c);
        assert(s[s.len() - 1] != c);
        assert(t.push(s.last()) =~= s);
        assert(split(s, Sep::Char(c)) =~= seq![s]);
    } else {
        assert(s =~= Seq::empty());
    }
}

/// Every character that is no separator stands in one of the pieces.
pub proof fn split_keeps_characters(s: Seq<char>, sep: Sep, p: int)
    requires
        0 <= p < s.len(),
        !separates(sep, s[p]),
    ensures
        exists|i: int, j: int|
            0 <= i < split(s, sep).len() && 0 <= j < split(s, sep)[i].len() && #[trigger] split(
                s,
                sep,
            )[i][j] == s[p],
    decreases s.len(),
{
    let d = s.drop_last();
    let q = split(d, sep);
    let r = split(s, sep);
    if p == s.len() - 1 {
        let i = r.len() - 1;
        let j = r[i].len() - 1;
        assert(r[i][j] == s[p]);
    } else {
        split_keeps_characters(d, sep, p);
        let (i, j) = choose|i: int, j: int|
            0 <= i < q.len() && 0 <= j < q[i].len() && #[trigger] q[i][j] == d[p];
        assert(r[i][j] == s[p]);
    }
}

/// Splitting what was joined gives the pieces back, if none of them holds the
/// separator.
pub proof fn split_undoes_join(p: Seq<Seq<char>>, sep: char)
    requires
        p.len() >= 1,
        forall|i: int, j: int| 0 <= i < p.len() && 0 <= j < p[i].len() ==> p[i][j] != sep,
    ensures
        split(join(p, sep), Sep::Char(sep)) == p,
    decreases p.len(),
{
    let s = Sep::Char(sep);
    assert forall|j: int| 0 <= j < p.last().len() implies !separates(
        s,
        #[trigger] p.last()[j],
    ) by {
        assert(p[p.len() - 1][j] != sep);
    }
    if p.len() == 1 {
        split_grows_last(Seq::empty(), p[0], s);
        assert(Seq::<char>::empty() + p[0] =~= p[0]);
        assert(split(p[0], s) =~= p);
    } else {
        let d = p.drop_last();
        assert forall|i: int, j: int| 0 <= i < d.len() && 0 <= j < d[i].len() implies d[i][j]
            != sep by {
            assert(p[i][j] != sep);
        }
        split_undoes_join(d, sep);
        let a = join(d, sep).push(sep);
        assert(a.drop_last() =~= join(d, sep));
        assert(split(a, s) == d.push(Seq::empty()));
        split_grows_last(a, p.last(), s);
        assert(d.push(Seq::<char>::empty()).drop_last() =~= d);
        assert(Seq::<char>::empty() + p.last() =~= p.last());
        assert(d.push(p.last()) =~= p);
    }
}

// ---------------------------------------------------------------------------
// Searching
// ---------------------------------------------------------------------------

/// `i` is the first place at which `s` has the character `c`.
pub open spec fn first_at(s: Seq<char>, c: char, i: int) -> bool {
    &&& 0 <= i < s.len()
    &&& s[i] == c
    &&& forall|j: int| 0 <= j < i ==> s[j] != c
}

/// The first place of `c`, if the text has one.
pub fn find(v: &[char], c: char) -> (r: Option<usize>)
    ensures
        match r {
            Some(i) => first_at(v@, c, i as int),
            None => !v@.contains(c),
        },
{
    let mut i: usize = 0;
    while i < v.len()
        invariant
            0 <= i <= v@.len(),
            forall|j: int| 0 <= j < i ==> v@[j] != c,
        decreases v@.len() - i,
    {
        if v[i] == c {
            return Some(i);
        }
        i = i + 1;
    }
    None
}

/// Whether `s` begins with `p`.
pub open spec fn begins(s: Seq<char>, p: Seq<char>) -> bool {
    p.len() <= s.len() && s.take(p.len() as int) == p
}

/// Whether the characters begin with the text `p`.
pub fn begins_with(v: &[char], p: &str) -> (r: bool)
    ensures
        r == begins(v@, p@),
{
    let q = to_chars(p);
    if q.len() > v.len() {
        return false;
    }
    let head = slice(v, 0, q.len());
    assert(head@ =~= v@.take(p@.len() as int));
    same_chars(head.as_slice(), q.as_slice())
}

/// Whether `p` occurs somewhere in `s`.
pub open spec fn occurs(s: Seq<char>, p: Seq<char>) -> bool {
    exists|i: int| 0 <= i && i + p.len() <= s.len() && #[trigger] s.subrange(i, i + p.len()) == p
}

/// Whether the text `p` occurs among the characters.
pub fn contains(v: &[char], p: &str) -> (r: bool)
    ensures
        r == occurs(v@, p@),
{
    let q = to_chars(p);
    let n: usize = v.len();
    let k: usize = q.len();
    if k == 0 {
        assert(v@.subrange(0, 0int + p@.len()) =~= p@);
        return true;
    }
    let mut i: usize = 0;
    while i < n && k <= n - i
        invariant
            q@ == p@,
            k == q@.len(),
            n == v@.len(),
            0 <= i <= n,
            forall|j: int| 0 <= j < i ==> #[trigger] v@.subrange(j, j + p@.len()) != p@,
        decreases n - i,
    {
        let part = slice(v, i, i + k);
        if same_chars(part.as_slice(), q.as_slice()) {
            assert(v@.subrange(i as int, i + p@.len()) == p@);
            return true;
        }
        i = i + 1;
    }
    false
}

// ---------------------------------------------------------------------------
// Lines
// ---------------------------------------------------------------------------

/// A text without a carriage return at its end.
pub open spec fn strip_cr(s: Seq<char>) -> Seq<char> {
    if s.len() > 0 && s.last() == '\r' {
        s.drop_last()
    } else {
        s
    }
}

/// The lines of a text: a line feed ends a line, with a carriage return before
/// it where there is one; what follows the last line feed is a line unless it
/// is empty.
pub open spec fn lines(s: Seq<char>) -> Seq<Seq<char>> {
    let p = split(s, Sep::Char('\n'));
    let ended = Seq::new((p.len() - 1) as nat, |i: int| strip_cr(p[i]));
    if p.last().len() == 0 {
        ended
    } else {
        ended.push(p.last())
    }
}

/// The lines of a text.
pub fn line_chars(v: &[char]) -> (r: Vec<Vec<char>>)
    ensures
        lists(r@) == lines(v@),
{
    let all = split_chars(v, Sep::Char('\n'));
    let last: usize = all.len() - 1;
    let mut out: Vec<Vec<char>> = Vec::new();
    let mut i: usize = 0;
    while i < last
        invariant
            0 <= i <= last < all@.len(),
            out@.len() == i,
            forall|j: int| 0 <= j < i ==> #[trigger] out@[j]@ == strip_cr(lists(all@)[j]),
        decreases last - i,
    {
        let n: usize = all[i].len();
        let end: usize = if n > 0 && all[i][n - 1] == '\r' {
            n - 1
        } else {
            n
        };
        let line = slice(all[i].as_slice(), 0, end);
        assert(line@ =~= strip_cr(all@[i as int]@));
        out.push(line);
        i = i + 1;
    }
    if all[last].len() > 0 {
        let line = slice(all[last].as_slice(), 0, all[last].len());
        assert(line@ =~= all@[last as int]@);
        out.push(line);
    }
    assert(lists(out@) =~= lines(v@));
    out
}

// ---------------------------------------------------------------------------
// Numbers
// ---------------------------------------------------------------------------

/// The value of a digit character; letters are digits from ten on.
pub open spec fn digit(c: char) -> Option<nat> {
    if '0' <= c && c <= '9' {
        Some((c as nat - '0' as nat) as nat)
    } else if 'a' <= c && c <= 'f' {
        Some((c as nat - 'a' as nat + 10) as nat)
    } else if 'A' <= c && c <= 'F' {
        Some((c as nat - 'A' as nat + 10) as nat)
    } else {
        None
    }
}

/// The number that the digits of `s` write in base `radix`.
pub open spec fn number(s: Seq<char>, radix: nat) -> Option<nat>
    decreases s.len(),
{
    if s.len() == 0 {
        Some(0)
    } else {
        match (number(s.drop_last(), radix), digit(s.last())) {
            (Some(n), Some(d)) => if d < radix {
                Some(n * radix + d)
            } else {
                None
            },
            _ => None,
        }
    }
}

/// What follows a leading plus sign, or all of the text where there is none.
pub open spec fn unsigned_part(s: Seq<char>) -> Seq<char> {
    if s.len() > 0 && s[0] == '+' {
        s.skip(1)
    } else {
        s
    }
}

/// The number at most `max` that a text writes: digits, at least one, behind an
/// optional plus sign.
pub open spec fn parsed(s: Seq<char>, radix: nat, max: nat) -> Option<nat> {
    let t = unsigned_part(s);
    match number(t, radix) {
        Some(n) => if t.len() > 0 && n <= max {
            Some(n)
        } else {
            None
        },
        None => None,
    }
}

/// How the error of std's `usize::from_str_radix` reads for a hexadecimal text.
pub uninterp spec fn hex_fault(s: Seq<char>) -> Seq<char>;

/// `usize::from_str_radix` of std refuses, in radix 16, a text that writes no
/// hexadecimal number or one over `usize::MAX`; the error's text is left to its
/// name.
#[verifier::external_body]
pub(crate) fn hex_error(s: &str) -> (r: Option<String>)
    ensures
        r is Some <==> parsed(s@, 16, usize::MAX as nat) is None,
        r is Some ==> r->0@ == hex_fault(s@),
{
    usize::from_str_radix(s, 16).err().map(|e| e.to_string())
}

/// The value of a digit character.
pub fn digit_value(c: char) -> (r: Option<u8>)
    ensures
        match r {
            Some(d) => digit(c) == Some(d as nat) && d < 16,
            None => digit(c) is None,
        },
{
    if '0' <= c && c <= '9' {
        Some((c as u8) - 48)
    } else if 'a' <= c && c <= 'f' {
        Some((c as u8) - 97 + 10)
    } else if 'A' <= c && c <= 'F' {
        Some((c as u8) - 65 + 10)
    } else {
        None
    }
}

proof fn number_prefix(s: Seq<char>, radix: nat, i: int)
    requires
        0 <= i <= s.len(),
        radix >= 1,
        number(s, radix) is Some,
    ensures
        number(s.take(i), radix) is Some,
        number(s.take(i), radix)->0 <= number(s, radix)->0,
    decreases s.len(),
{
    if i == s.len() {
        assert(s.take(i) =~= s);
    } else {
        number_prefix(s.drop_last(), radix, i);
        assert(s.drop_last().take(i) =~= s.take(i));
        let n = number(s.drop_last(), radix)->0;
        assert(n * radix >= n) by (nonlinear_arith)
            requires
                radix >= 1,
        ;
    }
}

/// Every character of a text that writes a number is a digit.
pub proof fn number_digits(s: Seq<char>, radix: nat, i: int)
    requires
        0 <= i < s.len(),
        number(s, radix) is Some,
    ensures
        digit(s[i]) is Some,
        digit(s[i])->0 < radix,
    decreases s.len(),
{
    if i < s.len() - 1 {
        number_digits(s.drop_last(), radix, i);
    }
}

/// `b` to the power `e`.
pub open spec fn power(b: nat, e: nat) -> nat
    decreases e,
{
    if e == 0 {
        1
    } else {
        power(b, (e - 1) as nat) * b
    }
}

/// A number of `n` digits is below the radix to the power `n`.
pub proof fn number_bound(s: Seq<char>, radix: nat)
    requires
        radix >= 1,
        number(s, radix) is Some,
    ensures
        number(s, radix)->0 < power(radix, s.len()),
    decreases s.len(),
{
    if s.len() > 0 {
        number_bound(s.drop_last(), radix);
        let n = number(s.drop_last(), radix)->0;
        let p = power(radix, (s.len() - 1) as nat);
        let d = digit(s.last())->0;
        assert(n * radix + d < p * radix) by (nonlinear_arith)
            requires
                n < p,
                d < radix,
        ;
    }
}

/// The number at most `max` that the characters write.
pub fn parse_number(v: &[char], radix: u8, max: u64) -> (r: Option<u64>)
    requires
        radix == 10 || radix == 16,
    ensures
        match r {
            Some(n) => parsed(v@, radix as nat, max as nat) == Some(n as nat),
            None => parsed(v@, radix as nat, max as nat) is None,
        },
{
    let start: usize = if v.len() > 0 && v[0] == '+' {
        1
    } else {
        0
    };
    let t = slice(v, start, v.len());
    assert(t@ =~= unsigned_part(v@));
    if t.len() == 0 {
        return None;
    }
    let mut n: u64 = 0;
    let mut i: usize = 0;
    while i < t.len()
        invariant
            radix == 10 || radix == 16,
            0 <= i <= t@.len(),
            t@ == unsigned_part(v@),
            number(t@.take(i as int), radix as nat) == Some(n as nat),
            n <= max,
        decreases t@.len() - i,
    {
        assert(t@.take(i + 1).drop_last() =~= t@.take(i as int));
        assert(t@.take(i + 1).last() == t@[i as int]);
        let d: u8 = match digit_value(t[i]) {
            Some(d) => d,
            None => {
                proof {
                    if number(t@, radix as nat) is Some {
                        number_prefix(t@, radix as nat, i + 1);
                    }
                }
                return None;
            },
        };
        if d >= radix {
            proof {
                if number(t@, radix as nat) is Some {
                    number_prefix(t@, radix as nat, i + 1);
                }
            }
            return None;
        }
        let next: u128 = (n as u128) * (radix as u128) + (d as u128);
        if next > max as u128 {
            proof {
                if number(t@, radix as nat) is Some {
                    number_prefix(t@, radix as nat, i + 1);
                }
            }
            return None;
        }
        n = next as u64;
        i = i + 1;
    }
    assert(t@.take(t@.len() as int) =~= t@);
    Some(n)
}

/// The decimal digit character of a value below ten.
pub open spec fn digit_char(d: nat) -> char {
    (48 + d) as char
}

/// A number in decimal digits.
pub open spec fn decimal(n: nat) -> Seq<char>
    decreases n,
{
    if n < 10 {
        seq![digit_char(n)]
    } else {
        decimal(n / 10).push(digit_char(n % 10))
    }
}

/// Appends a number in decimal digits.
pub fn push_decimal(s: &mut String, n: u64)
    ensures
        final(s)@ == old(s)@ + decimal(n as nat),
    decreases n,
{
    if n >= 10 {
        push_decimal(s, n / 10);
    }
    s.push((48 + (n % 10) as u8) as char);
    assert(s@ =~= old(s)@ + decimal(n as nat));
}

/// A number in decimal digits.
pub fn decimal_text(n: u64) -> (r: String)
    ensures
        r@ == decimal(n as nat),
{
    let mut s: String = String::new();
    push_decimal(&mut s, n);
    assert(s@ =~= decimal(n as nat));
    s
}

/// The decimal digits of a number, read back, give the number.
pub proof fn decimal_reads_back(n: nat)
    ensures
        number(decimal(n), 10) == Some(n),
        decimal(n).len() >= 1,
        digit(decimal(n)[0]) is Some,
    decreases n,
{
    reveal_with_fuel(number, 2);
    if n < 10 {
        assert(decimal(n).drop_last() =~= Seq::<char>::empty());
    } else {
        decimal_reads_back(n / 10);
        assert(decimal(n).drop_last() =~= decimal(n / 10));
    }
}

} // verus!
