//! What holds of the operations on text, for every text.

use vstd::prelude::*;

use crate::text;
use crate::text::Sep;

verus! {

// ---------------------------------------------------------------------------
// Case
// ---------------------------------------------------------------------------

/// Lower case moves the 26 capital letters of ASCII by 32 and nothing else.
pub proof fn lower_moves_capitals_only(s: Seq<char>, i: int)
    requires
        0 <= i < s.len(),
    ensures
        text::lower(s).len() == s.len(),
        65 <= s[i] as nat <= 90 ==> text::lower(s)[i] as nat == s[i] as nat + 32,
        !(65 <= s[i] as nat <= 90) ==> text::lower(s)[i] == s[i],
{
}

/// The lower case of two texts in a row is that of each.
pub proof fn lower_goes_through(a: Seq<char>, b: Seq<char>)
    ensures
        text::lower(a + b) == text::lower(a) + text::lower(b),
{
    assert(text::lower(a + b) =~= text::lower(a) + text::lower(b));
}

// ---------------------------------------------------------------------------
// White space and trimming
// ---------------------------------------------------------------------------

/// The characters that count as white space, by their code points.
pub proof fn white_space_by_code(c: char)
    ensures
        text::is_space(c) <==> {
            let n = c as nat;
            ||| n == 9 || n == 10 || n == 11 || n == 12 || n == 13 || n == 32
            ||| n == 133 || n == 160 || n == 5760
            ||| 8192 <= n <= 8202
            ||| n == 8232 || n == 8233 || n == 8239 || n == 8287 || n == 12288
        },
{
}

/// One separator is its character and no other; white space is white space.
pub proof fn separators(c: char, d: char)
    ensures
        text::separates(Sep::Char(d), c) <==> c == d,
        text::separates(Sep::Space, c) <==> text::is_space(c),
{
}

/// A core that does not end with a separator is what is left when separators
/// behind it are trimmed.
pub proof fn trim_end_leaves_the_core(core: Seq<char>, tail: Seq<char>, sep: Sep)
    requires
        core.len() > 0 ==> !text::separates(sep, core.last()),
        forall|i: int| 0 <= i < tail.len() ==> text::separates(sep, #[trigger] tail[i]),
    ensures
        text::trim_end(core + tail, sep) == core,
    decreases tail.len(),
{
    let s = core + tail;
    if tail.len() == 0 {
        assert(s =~= core);
    } else {
        let d = tail.drop_last();
        assert forall|i: int| 0 <= i < d.len() implies text::separates(sep, #[trigger] d[i]) by {
            assert(d[i] == tail[i]);
        }
        trim_end_leaves_the_core(core, d, sep);
        assert(s.drop_last() =~= core + d);
        assert(text::separates(sep, tail[tail.len() - 1]));
        assert(s.last() == tail[tail.len() - 1]);
    }
}

/// A core that does not begin with a separator is what is left when separators in
/// front of it are trimmed.
pub proof fn trim_start_leaves_the_core(head: Seq<char>, core: Seq<char>, sep: Sep)
    requires
        core.len() > 0 ==> !text::separates(sep, core[0]),
        forall|i: int| 0 <= i < head.len() ==> text::separates(sep, #[trigger] head[i]),
    ensures
        text::trim_start(head + core, sep) == core,
    decreases head.len(),
{
    let s = head + core;
    if head.len() == 0 {
        assert(s =~= core);
    } else {
        let d = head.skip(1);
        assert forall|i: int| 0 <= i < d.len() implies text::separates(sep, #[trigger] d[i]) by {
            assert(d[i] == head[i + 1]);
        }
        trim_start_leaves_the_core(d, core, sep);
        assert(s.skip(1) =~= d + core);
        assert(text::separates(sep, head[0]));
    }
}

/// A core with no white space at either end is what is left when white space
/// around it is trimmed.
pub proof fn trim_leaves_the_core(head: Seq<char>, core: Seq<char>, tail: Seq<char>)
    requires
        core.len() > 0,
        !text::is_space(core[0]),
        !text::is_space(core.last()),
        forall|i: int| 0 <= i < head.len() ==> text::is_space(#[trigger] head[i]),
        forall|i: int| 0 <= i < tail.len() ==> text::is_space(#[trigger] tail[i]),
    ensures
        text::trim(head + core + tail) == core,
{
    assert(head + core + tail =~= head + (core + tail));
    assert forall|i: int| 0 <= i < head.len() implies text::separates(
        Sep::Space,
        #[trigger] head[i],
    ) by {}
    assert forall|i: int| 0 <= i < tail.len() implies text::separates(
        Sep::Space,
        #[trigger] tail[i],
    ) by {}
    trim_start_leaves_the_core(head, core + tail, Sep::Space);
    trim_end_leaves_the_core(core, tail, Sep::Space);
}

/// A text with no white space at either end is trimmed to itself.
pub proof fn trim_keeps_a_core(core: Seq<char>)
    requires
        core.len() > 0,
        !text::is_space(core[0]),
        !text::is_space(core.last()),
    ensures
        text::trim(core) == core,
{
    let none = Seq::<char>::empty();
    trim_leaves_the_core(none, core, none);
    assert(none + core + none =~= core);
}

// ---------------------------------------------------------------------------
// Splitting and joining
// ---------------------------------------------------------------------------

/// A separator cuts: the pieces in front of it, then those behind it.
pub proof fn split_cuts_at_a_separator(a: Seq<char>, c: char, b: Seq<char>, sep: Sep)
    requires
        text::separates(sep, c),
    ensures
        text::split(a.push(c) + b, sep) == text::split(a, sep) + text::split(b, sep),
    decreases b.len(),
{
    let s = a.push(c) + b;
    if b.len() == 0 {
        assert(s.drop_last() =~= a);
        assert(s.last() == c);
        assert(text::split(s, sep) =~= text::split(a, sep) + text::split(b, sep));
    } else {
        let d = b.drop_last();
        split_cuts_at_a_separator(a, c, d, sep);
        assert(s.drop_last() =~= a.push(c) + d);
        assert(s.last() == b.last());
        split_is_not_empty(d, sep);
        assert(text::split(s, sep) =~= text::split(a, sep) + text::split(b, sep));
    }
}

/// Every text has a piece.
pub proof fn split_is_not_empty(s: Seq<char>, sep: Sep)
    ensures
        text::split(s, sep).len() >= 1,
    decreases s.len(),
{
    if s.len() > 0 {
        split_is_not_empty(s.drop_last(), sep);
    }
}

/// A text without a separator is one piece.
pub proof fn split_of_a_piece(s: Seq<char>, sep: Sep)
    requires
        forall|i: int| 0 <= i < s.len() ==> !text::separates(sep, #[trigger] s[i]),
    ensures
        text::split(s, sep) == seq![s],
    decreases s.len(),
{
    if s.len() == 0 {
        assert(s =~= Seq::empty());
    } else {
        let d = s.drop_last();
        assert forall|i: int| 0 <= i < d.len() implies !text::separates(sep, #[trigger] d[i]) by {
            assert(d[i] == s[i]);
        }
        split_of_a_piece(d, sep);
        assert(!text::separates(sep, s[s.len() - 1]));
        assert(d.push(s.last()) =~= s);
        assert(text::split(s, sep) =~= seq![s]);
    }
}

/// The members that are not empty, of two lists in a row, are those of each.
pub proof fn nonempty_goes_through(a: Seq<Seq<char>>, b: Seq<Seq<char>>)
    ensures
        text::nonempty(a + b) == text::nonempty(a) + text::nonempty(b),
    decreases b.len(),
{
    if b.len() == 0 {
        assert(a + b =~= a);
        assert(text::nonempty(a) + text::nonempty(b) =~= text::nonempty(a));
    } else {
        nonempty_goes_through(a, b.drop_last());
        assert((a + b).drop_last() =~= a + b.drop_last());
        assert(text::nonempty(a + b) =~= text::nonempty(a) + text::nonempty(b));
    }
}

/// A text alone is kept exactly where it is not empty.
pub proof fn nonempty_of_one(x: Seq<char>)
    ensures
        x.len() > 0 ==> text::nonempty(seq![x]) == seq![x],
        x.len() == 0 ==> text::nonempty(seq![x]).len() == 0,
{
    reveal_with_fuel(text::nonempty, 2);
    assert(seq![x].drop_last() =~= Seq::<Seq<char>>::empty());
    assert(Seq::<Seq<char>>::empty().push(x) =~= seq![x]);
}

/// A separator parts the words in front of it from those behind it.
pub proof fn tokens_are_parted(a: Seq<char>, c: char, b: Seq<char>, sep: Sep)
    requires
        text::separates(sep, c),
    ensures
        text::tokens(a.push(c) + b, sep) == text::tokens(a, sep) + text::tokens(b, sep),
{
    split_cuts_at_a_separator(a, c, b, sep);
    nonempty_goes_through(text::split(a, sep), text::split(b, sep));
}

/// A text without a separator is one word, if it is not empty, and none otherwise.
pub proof fn a_word_is_a_token(s: Seq<char>, sep: Sep)
    requires
        forall|i: int| 0 <= i < s.len() ==> !text::separates(sep, #[trigger] s[i]),
    ensures
        s.len() > 0 ==> text::tokens(s, sep) == seq![s],
        s.len() == 0 ==> text::tokens(s, sep).len() == 0,
{
    split_of_a_piece(s, sep);
    nonempty_of_one(s);
}

/// Joining puts the character between the first text and the rest.
pub proof fn join_from_the_front(x: Seq<char>, p: Seq<Seq<char>>, c: char)
    ensures
        text::join(seq![x], c) == x,
        p.len() > 0 ==> text::join(seq![x] + p, c) == x.push(c) + text::join(p, c),
        text::join(Seq::empty(), c).len() == 0,
    decreases p.len(),
{
    assert(text::join(seq![x], c) == x);
    if p.len() == 1 {
        let l = seq![x] + p;
        assert(text::join(l, c) == text::join(l.drop_last(), c).push(c) + l.last());
        assert(l.drop_last() =~= seq![x]);
        assert(l.last() == p[0]);
    } else if p.len() > 1 {
        let d = p.drop_last();
        join_from_the_front(x, d, c);
        let l = seq![x] + p;
        assert(l.drop_last() =~= seq![x] + d);
        assert(l.last() == p.last());
        assert(text::join(l, c) =~= x.push(c) + text::join(p, c));
    }
}

// ---------------------------------------------------------------------------
// Searching
// ---------------------------------------------------------------------------

/// A text begins with another exactly where it is that one with something behind.
pub proof fn begins_means_something_follows(s: Seq<char>, p: Seq<char>)
    ensures
        text::begins(s, p) <==> exists|r: Seq<char>| s == #[trigger] (p + r),
{
    if text::begins(s, p) {
        let r = s.skip(p.len() as int);
        assert(s =~= p + r);
    }
    if exists|r: Seq<char>| s == #[trigger] (p + r) {
        let r = choose|r: Seq<char>| s == #[trigger] (p + r);
        assert((p + r).take(p.len() as int) =~= p);
    }
}

/// A text occurs in every text that has it somewhere, and in no other.
pub proof fn occurs_means_something_around(s: Seq<char>, p: Seq<char>)
    ensures
        text::occurs(s, p) <==> exists|a: Seq<char>, b: Seq<char>| s == #[trigger] (a + p + b),
{
    if text::occurs(s, p) {
        let i = choose|i: int|
            0 <= i && i + p.len() <= s.len() && #[trigger] s.subrange(i, i + p.len()) == p;
        let a = s.take(i);
        let b = s.skip(i + p.len());
        assert(s =~= a + s.subrange(i, i + p.len()) + b);
        assert(s == a + p + b);
    }
    if exists|a: Seq<char>, b: Seq<char>| s == #[trigger] (a + p + b) {
        let (a, b) = choose|a: Seq<char>, b: Seq<char>| s == #[trigger] (a + p + b);
        let i = a.len() as int;
        assert(s.subrange(i, i + p.len()) =~= p);
    }
}

// ---------------------------------------------------------------------------
// Lines
// ---------------------------------------------------------------------------

/// A line feed ends a line; a carriage return right before it is not part of it.
pub proof fn lines_from_the_front(a: Seq<char>, b: Seq<char>)
    requires
        forall|i: int| 0 <= i < a.len() ==> #[trigger] a[i] != '\n',
        a.len() > 0 ==> a.last() != '\r',
    ensures
        text::lines(a.push('\n') + b) == seq![a] + text::lines(b),
        text::lines(a.push('\r').push('\n') + b) == seq![a] + text::lines(b),
        a.len() > 0 ==> text::lines(a) == seq![a],
        text::lines(Seq::empty()).len() == 0,
{
    let sep = Sep::Char('\n');
    split_of_a_piece(a, sep);
    split_is_not_empty(b, sep);
    split_cuts_at_a_separator(a, '\n', b, sep);
    let p = text::split(b, sep);
    assert((seq![a] + p).last() == p.last());
    assert(text::lines(a.push('\n') + b) =~= seq![a] + text::lines(b));
    let r = a.push('\r');
    split_of_a_piece(r, sep);
    split_cuts_at_a_separator(r, '\n', b, sep);
    assert(r.drop_last() =~= a);
    assert((seq![r] + p).last() == p.last());
    assert(text::lines(r.push('\n') + b) =~= seq![a] + text::lines(b));
    if a.len() > 0 {
        assert(text::lines(a) =~= seq![a]);
    }
}

// ---------------------------------------------------------------------------
// Numbers
// ---------------------------------------------------------------------------

/// The value of each digit, by its code: 0 to 9, then a to f in either case.
pub proof fn digits_by_code(c: char)
    ensures
        48 <= c as nat <= 57 ==> text::digit(c) == Some((c as nat - 48) as nat),
        97 <= c as nat <= 102 ==> text::digit(c) == Some((c as nat - 87) as nat),
        65 <= c as nat <= 70 ==> text::digit(c) == Some((c as nat - 55) as nat),
        text::digit(c) is Some ==> 48 <= c as nat <= 57 || 97 <= c as nat <= 102 || 65 <= c as nat
            <= 70,
{
}

/// A digit behind a number makes it that many times greater, and adds its value.
pub proof fn a_digit_is_appended(s: Seq<char>, c: char, radix: nat)
    ensures
        text::number(Seq::empty(), radix) == Some(0nat),
        text::number(s, radix) is Some && text::digit(c) is Some && text::digit(c)->0 < radix
            ==> text::number(s.push(c), radix) == Some(
            text::number(s, radix)->0 * radix + text::digit(c)->0,
        ),
        text::digit(c) is None || text::digit(c)->0 >= radix ==> text::number(
            s.push(c),
            radix,
        ) is None,
        text::number(s, radix) is None ==> text::number(s.push(c), radix) is None,
{
    assert(s.push(c).drop_last() =~= s);
}

/// What is read as a number up to a limit: one or more digits, with a plus sign in
/// front or not, whose number is within the limit.
pub proof fn a_limit_bounds_what_is_read(s: Seq<char>, radix: nat, max: nat, n: nat)
    requires
        radix <= 16,
    ensures
        text::parsed(s, radix, max) == Some(n) ==> n <= max && (text::number(s, radix) == Some(n)
            || (s.len() > 1 && s[0] == '+' && text::number(s.skip(1), radix) == Some(n))),
        s.len() > 0 && text::number(s, radix) == Some(n) && n <= max ==> text::parsed(s, radix, max)
            == Some(n),
        s.len() > 0 && text::number(s, radix) == Some(n) && n > max ==> text::parsed(
            s,
            radix,
            max,
        ) is None,
        s.len() == 0 ==> text::parsed(s, radix, max) is None,
{
    if s.len() > 0 && text::number(s, radix) is Some {
        text::number_digits(s, radix, 0);
    }
}

/// The decimal digits of a number: one digit below ten, and otherwise those of its
/// tenth with one more digit. No zero stands in front.
pub proof fn decimal_by_places(n: nat, d: nat)
    requires
        d < 10,
    ensures
        text::decimal(d).len() == 1,
        text::decimal(d)[0] as nat == 48 + d,
        n > 0 ==> text::decimal(10 * n + d) == text::decimal(n) + text::decimal(d),
        n > 0 ==> text::decimal(n)[0] as nat > 48,
    decreases n,
{
    if n > 0 {
        assert((10 * n + d) / 10 == n);
        assert((10 * n + d) % 10 == d);
        assert(text::decimal(n).push(text::digit_char(d)) =~= text::decimal(n) + text::decimal(d));
        if n >= 10 {
            decimal_by_places(n / 10, n % 10);
            text::decimal_reads_back(n / 10);
        }
    }
}

/// A plus sign in front of a number does not matter, but it is no number alone.
pub proof fn a_plus_sign_may_stand_in_front(d: Seq<char>, radix: nat, max: nat, n: nat)
    requires
        d.len() > 0,
        text::number(d, radix) == Some(n),
    ensures
        n <= max ==> text::parsed(seq!['+'] + d, radix, max) == Some(n),
        n > max ==> text::parsed(seq!['+'] + d, radix, max) is None,
        text::parsed(seq!['+'], radix, max) is None,
{
    assert((seq!['+'] + d).skip(1) =~= d);
    assert(seq!['+'].skip(1) =~= Seq::<char>::empty());
}

} // verus!
