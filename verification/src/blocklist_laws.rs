//! What the lines of a blocklist say, and which names they block, for every domain.

use vstd::prelude::*;

use crate::blocklist;
use crate::blocklist::{LineModel, HOST_NOISE};
use crate::net;
use crate::net_laws;
use crate::text;
use crate::text::Sep;
use crate::text_laws;

verus! {

// ---------------------------------------------------------------------------
// Domains
// ---------------------------------------------------------------------------

/// A letter or digit of ASCII, a dot, a hyphen or an underscore.
pub open spec fn hostname_char(c: char) -> bool {
    ||| 'a' <= c && c <= 'z'
    ||| 'A' <= c && c <= 'Z'
    ||| '0' <= c && c <= '9'
    ||| c == '.' || c == '-' || c == '_'
}

/// A text of letters, digits, dots, hyphens and underscores, with a dot in it but
/// none at either end, that is no address and not `localhost.localdomain`.
pub open spec fn hostname(d: Seq<char>) -> bool {
    &&& d.len() > 0
    &&& forall|i: int| 0 <= i < d.len() ==> hostname_char(#[trigger] d[i])
    &&& d[0] != '.'
    &&& d[d.len() - 1] != '.'
    &&& exists|i: int| 0 < i < d.len() - 1 && #[trigger] d[i] == '.'
    &&& !net::is_ip_text(d)
    &&& text::lower(d) != "localhost.localdomain"@
}

proof fn hostname_ends(d: Seq<char>)
    requires
        hostname(d),
    ensures
        !text::is_space(d[0]),
        !text::is_space(d.last()),
        text::trim(d) == d,
        text::trim_end(d, Sep::Char('.')) == d,
        forall|i: int| 0 <= i < d.len() ==> !text::is_space(#[trigger] d[i]),
        d.contains('.'),
{
    assert(hostname_char(d[0]));
    assert(hostname_char(d[d.len() - 1]));
    text_laws::trim_keeps_a_core(d);
    assert forall|i: int| 0 <= i < d.len() implies !text::is_space(#[trigger] d[i]) by {
        assert(hostname_char(d[i]));
    }
}

/// A hostname is a domain, listed in lower case.
pub proof fn a_hostname_is_a_domain(d: Seq<char>)
    requires
        hostname(d),
    ensures
        blocklist::domain(d) == Some(text::lower(d)),
{
    hostname_ends(d);
    assert forall|i: int| 0 <= i < d.len() implies blocklist::domain_char(#[trigger] d[i]) by {
        assert(hostname_char(d[i]));
    }
}

proof fn a_dot_stays_in_lower_case(s: Seq<char>)
    ensures
        text::lower(s).contains('.') <==> s.contains('.'),
{
    if s.contains('.') {
        let i = s.index_of('.');
        assert(text::lower(s)[i] == '.');
    }
    if text::lower(s).contains('.') {
        let i = text::lower(s).index_of('.');
        assert(s[i] == '.');
    }
}

proof fn noise_without_dots(i: int)
    requires
        0 <= i < 10,
        i != 1,
    ensures
        !HOST_NOISE@[i]@.contains('.'),
{
    reveal_strlit("localhost");
    reveal_strlit("local");
    reveal_strlit("ip6-localhost");
    reveal_strlit("ip6-loopback");
    reveal_strlit("ip6-localnet");
    reveal_strlit("ip6-mcastprefix");
    reveal_strlit("ip6-allnodes");
    reveal_strlit("ip6-allrouters");
    reveal_strlit("broadcasthost");
}

/// A hostname is no noise of a hosts file.
pub proof fn a_hostname_is_no_noise(d: Seq<char>)
    requires
        hostname(d),
    ensures
        !blocklist::noise(d),
{
    hostname_ends(d);
    a_dot_stays_in_lower_case(d);
    if blocklist::listed_ignore_case(HOST_NOISE@, d) {
        let i = choose|i: int|
            0 <= i < HOST_NOISE@.len() && text::lower(#[trigger] HOST_NOISE@[i]@) == text::lower(d);
        if i == 1 {
            reveal_strlit("localhost.localdomain");
            assert(text::lower("localhost.localdomain"@) =~= "localhost.localdomain"@);
        } else {
            noise_without_dots(i);
            a_dot_stays_in_lower_case(HOST_NOISE@[i]@);
        }
    }
}

// ---------------------------------------------------------------------------
// Lines
// ---------------------------------------------------------------------------

proof fn no_star(d: Seq<char>)
    requires
        hostname(d),
    ensures
        !d.contains('*'),
{
    if d.contains('*') {
        let i = d.index_of('*');
        assert(hostname_char(d[i]));
    }
}

/// A hostname alone on a line is blocked.
pub proof fn a_bare_hostname_is_blocked(d: Seq<char>)
    requires
        hostname(d),
    ensures
        blocklist::classified(d) == LineModel::Block(seq![text::lower(d)]),
{
    reveal_strlit("@@");
    reveal_strlit("||");
    hostname_ends(d);
    a_hostname_is_a_domain(d);
    a_hostname_is_no_noise(d);
    no_star(d);
    assert(hostname_char(d[0]));
    assert(!text::begins(d, "@@"@)) by {
        if text::begins(d, "@@"@) {
            assert(d.take(2)[0] == d[0]);
        }
    }
    assert(!text::begins(d, "||"@)) by {
        if text::begins(d, "||"@) {
            assert(d.take(2)[0] == d[0]);
        }
    }
    text_laws::a_word_is_a_token(d, Sep::Space);
}

/// The part of a rule that names its host ends behind a hostname.
pub proof fn rule_ends_behind_a_hostname(d: Seq<char>, rest: Seq<char>)
    requires
        forall|i: int| 0 <= i < d.len() ==> hostname_char(#[trigger] d[i]),
        rest.len() > 0 ==> blocklist::ends_rule(rest[0]),
    ensures
        blocklist::rule_domain_len(d + rest) == d.len(),
    decreases d.len(),
{
    if d.len() == 0 {
        assert(d + rest =~= rest);
    } else {
        let e = d.skip(1);
        assert forall|i: int| 0 <= i < e.len() implies hostname_char(#[trigger] e[i]) by {
            assert(e[i] == d[i + 1]);
        }
        rule_ends_behind_a_hostname(e, rest);
        assert(hostname_char(d[0]));
        assert((d + rest).skip(1) =~= e + rest);
    }
}

/// The body of an adblock rule for a hostname, with the separator or without.
pub proof fn a_rule_body_names_its_hostname(d: Seq<char>)
    requires
        hostname(d),
    ensures
        blocklist::adblock("||"@ + d.push('^')) == Some(text::lower(d)),
        blocklist::adblock("||"@ + d) == Some(text::lower(d)),
        blocklist::adblock(d.push('^')) == Some(text::lower(d)),
{
    reveal_strlit("||");
    a_hostname_is_a_domain(d);
    let sep = seq!['^'];
    let none = Seq::<char>::empty();
    rule_ends_behind_a_hostname(d, sep);
    rule_ends_behind_a_hostname(d, none);
    assert(d + sep =~= d.push('^'));
    assert(d + none =~= d);
    let a = "||"@ + d.push('^');
    assert(a.take(2) =~= "||"@);
    assert(a.skip(2) =~= d.push('^'));
    let b = "||"@ + d;
    assert(b.take(2) =~= "||"@);
    assert(b.skip(2) =~= d);
    let c = d.push('^');
    assert(hostname_char(d[0]));
    assert(!text::begins(c, "||"@)) by {
        if text::begins(c, "||"@) {
            assert(c.take(2)[0] == d[0]);
        }
    }
    assert(c.skip(d.len() as int) =~= sep);
    assert(c.take(d.len() as int) =~= d);
    assert(d.skip(d.len() as int).len() == 0);
    assert(d.take(d.len() as int) =~= d);
}

/// An adblock rule blocks its hostname.
#[verifier::spinoff_prover]
#[verifier::rlimit(60)]
pub proof fn an_adblock_rule_blocks_its_hostname(d: Seq<char>)
    requires
        hostname(d),
    ensures
        blocklist::classified("||"@ + d.push('^')) == LineModel::Block(seq![text::lower(d)]),
        blocklist::classified("||"@ + d) == LineModel::Block(seq![text::lower(d)]),
{
    reveal_strlit("@@");
    reveal_strlit("||");
    hostname_ends(d);
    a_rule_body_names_its_hostname(d);
    let a = "||"@ + d.push('^');
    let b = "||"@ + d;
    text_laws::trim_keeps_a_core(a);
    assert(b.last() == d.last());
    text_laws::trim_keeps_a_core(b);
    assert(a.take(2) =~= "||"@);
    assert(b.take(2) =~= "||"@);
    assert("||"@[0] != "@@"@[0]);
}

/// An adblock exception allows its hostname.
#[verifier::spinoff_prover]
#[verifier::rlimit(60)]
pub proof fn an_adblock_exception_allows_its_hostname(d: Seq<char>)
    requires
        hostname(d),
    ensures
        blocklist::classified("@@"@ + ("||"@ + d.push('^'))) == LineModel::Allow(text::lower(d)),
        blocklist::classified("@@"@ + ("||"@ + d)) == LineModel::Allow(text::lower(d)),
{
    reveal_strlit("@@");
    reveal_strlit("||");
    hostname_ends(d);
    a_rule_body_names_its_hostname(d);
    let x = "||"@ + d.push('^');
    let y = "||"@ + d;
    let a = "@@"@ + x;
    let b = "@@"@ + y;
    assert(a.last() == '^');
    assert(b.last() == d.last());
    text_laws::trim_keeps_a_core(a);
    text_laws::trim_keeps_a_core(b);
    assert(a.take(2) =~= "@@"@);
    assert(b.take(2) =~= "@@"@);
    assert(a.skip(2) =~= x);
    assert(b.skip(2) =~= y);
}

proof fn hosts_of_one(d: Seq<char>)
    requires
        hostname(d),
    ensures
        blocklist::host_domains(seq![d]) == seq![text::lower(d)],
{
    a_hostname_is_a_domain(d);
    a_hostname_is_no_noise(d);
    reveal_with_fuel(blocklist::host_domains, 2);
    assert(seq![d].drop_last() =~= Seq::<Seq<char>>::empty());
    assert(Seq::<Seq<char>>::empty().push(text::lower(d)) =~= seq![text::lower(d)]);
}

/// The hostnames of a hosts line that names several are those of its parts.
pub proof fn hosts_of_both(a: Seq<Seq<char>>, b: Seq<Seq<char>>)
    ensures
        blocklist::host_domains(a + b) == blocklist::host_domains(a) + blocklist::host_domains(b),
    decreases b.len(),
{
    if b.len() == 0 {
        assert(a + b =~= a);
        assert(blocklist::host_domains(a) + blocklist::host_domains(b)
            =~= blocklist::host_domains(a));
    } else {
        hosts_of_both(a, b.drop_last());
        assert((a + b).drop_last() =~= a + b.drop_last());
        assert(blocklist::host_domains(a + b) =~= blocklist::host_domains(a)
            + blocklist::host_domains(b));
    }
}

/// A hosts line blocks the hostname behind its address, whatever IPv4 address that
/// is.
#[verifier::spinoff_prover]
#[verifier::rlimit(60)]
pub proof fn a_hosts_line_blocks_its_hostname(a: nat, b: nat, c: nat, e: nat, d: Seq<char>)
    requires
        a <= 255,
        b <= 255,
        c <= 255,
        e <= 255,
        hostname(d),
    ensures
        blocklist::classified(net_laws::dotted(a, b, c, e).push(' ') + d) == LineModel::Block(
            seq![text::lower(d)],
        ),
{
    reveal_strlit("@@");
    reveal_strlit("||");
    let ip = net_laws::dotted(a, b, c, e);
    net_laws::dotted_decimal_is_read(a, b, c, e);
    assert forall|i: int| 0 <= i < ip.len() implies (#[trigger] ip[i] == '.' || ('0' <= ip[i]
        && ip[i] <= '9')) by {
        net::dotted_decimal_characters(ip, i);
    }
    text::decimal_reads_back(a);
    assert(ip.len() > 0 && ip[0] == text::decimal(a)[0]);
    text::number_digits(text::decimal(a), 10, 0);
    hostname_ends(d);
    no_star(d);
    let s = ip.push(' ') + d;
    assert(s[0] == ip[0]);
    assert(s.last() == d.last());
    text_laws::trim_keeps_a_core(s);
    assert forall|i: int| 0 <= i < s.len() implies #[trigger] s[i] != '*' by {
        if i > ip.len() {
            assert(s[i] == d[i - ip.len() - 1]);
            assert(hostname_char(d[i - ip.len() - 1]));
        } else if i < ip.len() {
            assert(s[i] == ip[i]);
        }
    }
    assert(!text::begins(s, "@@"@)) by {
        if text::begins(s, "@@"@) {
            assert(s.take(2)[0] == s[0]);
        }
    }
    assert(!text::begins(s, "||"@)) by {
        if text::begins(s, "||"@) {
            assert(s.take(2)[0] == s[0]);
        }
    }
    assert forall|i: int| 0 <= i < ip.len() implies !text::separates(
        Sep::Space,
        #[trigger] ip[i],
    ) by {}
    text_laws::a_word_is_a_token(ip, Sep::Space);
    text_laws::a_word_is_a_token(d, Sep::Space);
    text_laws::tokens_are_parted(ip, ' ', d, Sep::Space);
    let w = text::tokens(s, Sep::Space);
    assert(w =~= seq![ip, d]);
    assert(w.skip(1) =~= seq![d]);
    hosts_of_one(d);
}

/// What stands around a line does not matter: white space in front and behind is
/// left out.
pub proof fn white_space_around_a_line_is_left_out(
    head: Seq<char>,
    core: Seq<char>,
    tail: Seq<char>,
)
    requires
        core.len() > 0,
        !text::is_space(core[0]),
        !text::is_space(core.last()),
        forall|i: int| 0 <= i < head.len() ==> text::is_space(#[trigger] head[i]),
        forall|i: int| 0 <= i < tail.len() ==> text::is_space(#[trigger] tail[i]),
    ensures
        blocklist::classified(head + core + tail) == blocklist::classified(core),
{
    text_laws::trim_leaves_the_core(head, core, tail);
    text_laws::trim_keeps_a_core(core);
}

/// A line that begins as a comment or a header is ignored; one with a wildcard that
/// is none of these is counted as skipped, whatever else it says.
pub proof fn comments_are_ignored_and_wildcards_skipped(s: Seq<char>)
    requires
        s.len() > 0,
        !text::is_space(s[0]),
        !text::is_space(s.last()),
    ensures
        s[0] == '#' || s[0] == '!' || s[0] == '[' ==> blocklist::classified(s) is Ignore,
        s.contains('*') && !(s[0] == '#' || s[0] == '!' || s[0] == '[') ==> blocklist::classified(
            s,
        ) is Skip,
{
    text_laws::trim_keeps_a_core(s);
    reveal_strlit("@@");
    reveal_strlit("||");
    if s.contains('*') {
        if text::begins(s, "@@"@) {
            let t = s.skip(2);
            let i = s.index_of('*');
            assert(s.take(2)[0] == s[0] && s.take(2)[1] == s[1]);
            assert(t[i - 2] == '*');
            a_wildcard_is_no_domain(t);
        }
        if text::begins(s, "||"@) {
            a_wildcard_is_no_domain(s);
        }
    }
}

proof fn rule_domain_is_a_part(t: Seq<char>)
    ensures
        blocklist::rule_domain_len(t) <= t.len(),
        forall|i: int|
            0 <= i < blocklist::rule_domain_len(t) ==> !blocklist::ends_rule(#[trigger] t[i]),
    decreases t.len(),
{
    if t.len() > 0 && !blocklist::ends_rule(t[0]) {
        rule_domain_is_a_part(t.skip(1));
        assert forall|i: int|
            0 <= i < blocklist::rule_domain_len(t) implies !blocklist::ends_rule(
            #[trigger] t[i],
        ) by {
            if i > 0 {
                assert(t[i] == t.skip(1)[i - 1]);
            }
        }
    }
}

/// No rule with a wildcard in it names a domain.
pub proof fn a_wildcard_is_no_domain(s: Seq<char>)
    requires
        s.contains('*'),
    ensures
        blocklist::adblock(s) is None,
{
    reveal_strlit("||");
    let t = blocklist::behind(s, "||"@);
    let k = s.index_of('*');
    if text::begins(s, "||"@) {
        assert(s.take(2)[0] == s[0] && s.take(2)[1] == s[1]);
        assert(t[k - 2] == '*');
    }
    assert(t.contains('*'));
    let i = t.index_of('*');
    rule_domain_is_a_part(t);
    let n = blocklist::rule_domain_len(t) as int;
    if i < n {
        let d = t.take(n);
        assert(d[i] == '*');
        if blocklist::domain(d) is Some {
            a_domain_has_no_star(d, i);
        }
    } else {
        assert(t.skip(n)[i - n] == '*');
    }
}

proof fn trimmed_keeps(s: Seq<char>, sep: Sep, i: int)
    requires
        0 <= i < s.len(),
        !text::separates(sep, s[i]),
    ensures
        i < text::trim_end(s, sep).len(),
        text::trim_end(s, sep)[i] == s[i],
    decreases s.len(),
{
    if text::separates(sep, s.last()) {
        trimmed_keeps(s.drop_last(), sep, i);
    }
}

proof fn trimmed_start_keeps(s: Seq<char>, sep: Sep, i: int) -> (k: int)
    requires
        0 <= i < s.len(),
        !text::separates(sep, s[i]),
    ensures
        0 <= k < text::trim_start(s, sep).len(),
        text::trim_start(s, sep)[k] == s[i],
    decreases s.len(),
{
    if text::separates(sep, s[0]) {
        assert(s.skip(1)[i - 1] == s[i]);
        trimmed_start_keeps(s.skip(1), sep, i - 1)
    } else {
        i
    }
}

proof fn a_domain_has_no_star(s: Seq<char>, i: int)
    requires
        0 <= i < s.len(),
        s[i] == '*',
    ensures
        blocklist::domain(s) is None,
{
    let k = trimmed_start_keeps(s, Sep::Space, i);
    trimmed_keeps(text::trim_start(s, Sep::Space), Sep::Space, k);
    trimmed_keeps(text::trim(s), Sep::Char('.'), k);
    let t = text::trim_end(text::trim(s), Sep::Char('.'));
    assert(t[k] == '*');
    assert(!blocklist::domain_char(t[k]));
}

/// The figures of two texts in a row, line by line, are those of each: the domains
/// blocked and allowed in order, and how many lines were skipped.
pub proof fn lines_add_up(a: Seq<Seq<char>>, b: Seq<Seq<char>>)
    ensures
        blocklist::blocks_of(a + b) == blocklist::blocks_of(a) + blocklist::blocks_of(b),
        blocklist::allows_of(a + b) == blocklist::allows_of(a) + blocklist::allows_of(b),
        blocklist::skips_of(a + b) == blocklist::skips_of(a) + blocklist::skips_of(b),
    decreases b.len(),
{
    if b.len() == 0 {
        assert(a + b =~= a);
        assert(blocklist::blocks_of(a) + blocklist::blocks_of(b) =~= blocklist::blocks_of(a));
        assert(blocklist::allows_of(a) + blocklist::allows_of(b) =~= blocklist::allows_of(a));
    } else {
        lines_add_up(a, b.drop_last());
        assert((a + b).drop_last() =~= a + b.drop_last());
        assert(blocklist::blocks_of(a + b) =~= blocklist::blocks_of(a) + blocklist::blocks_of(b));
        assert(blocklist::allows_of(a + b) =~= blocklist::allows_of(a) + blocklist::allows_of(b));
    }
}

/// One line counts for what it is: what it blocks, what it allows, or once as
/// skipped.
pub proof fn one_line_counts_for_what_it_is(s: Seq<char>)
    ensures
        blocklist::classified(s) matches LineModel::Block(d) ==> blocklist::blocks_of(seq![s]) == d,
        !(blocklist::classified(s) is Block) ==> blocklist::blocks_of(seq![s]).len() == 0,
        blocklist::classified(s) matches LineModel::Allow(d) ==> blocklist::allows_of(seq![s])
            == seq![d],
        !(blocklist::classified(s) is Allow) ==> blocklist::allows_of(seq![s]).len() == 0,
        blocklist::skips_of(seq![s]) == (if blocklist::classified(s) is Skip {
            1nat
        } else {
            0nat
        }),
{
    reveal_with_fuel(blocklist::blocks_of, 2);
    reveal_with_fuel(blocklist::allows_of, 2);
    reveal_with_fuel(blocklist::skips_of, 2);
    let none = seq![s].drop_last();
    assert(none =~= Seq::<Seq<char>>::empty());
    match blocklist::classified(s) {
        LineModel::Block(d) => {
            assert(none + d =~= d);
        },
        LineModel::Allow(d) => {
            assert(none.push(d) =~= seq![d]);
        },
        _ => {},
    }
}

// ---------------------------------------------------------------------------
// Matching
// ---------------------------------------------------------------------------

/// The text of a name in lower case without the dot at its end.
proof fn match_text_of_a_name(n: Seq<char>)
    requires
        n.len() > 0,
        n.last() != '.',
    ensures
        blocklist::match_text(n) == text::lower(n),
        blocklist::match_text(n.push('.')) == text::lower(n),
{
    let dot = seq!['.'];
    text_laws::trim_end_leaves_the_core(n, dot, Sep::Char('.'));
    assert(n + dot =~= n.push('.'));
    text_laws::trim_end_leaves_the_core(n, Seq::empty(), Sep::Char('.'));
    assert(n + Seq::<char>::empty() =~= n);
}

/// A text is or has behind a dot exactly the domains of a set that one finds there.
pub proof fn a_suffix_is_the_whole_or_stands_behind_a_dot(n: Seq<char>, set: Set<Seq<char>>)
    requires
        n.len() > 0,
        n.last() != '.',
        forall|d: Seq<char>| #[trigger] set.contains(d) ==> d.len() > 0,
    ensures
        blocklist::suffix_in(n, set) <==> exists|d: Seq<char>| #[trigger]
            set.contains(d) && (n == d || exists|f: Seq<char>| n == #[trigger] (f.push('.') + d)),
{
    if blocklist::suffix_in(n, set) {
        let i = choose|i: int| #[trigger] blocklist::suffix_at(n, i) && set.contains(n.skip(i));
        let d = n.skip(i);
        if i == 0 {
            assert(d =~= n);
        } else {
            let f = n.take(i - 1);
            assert(n =~= f.push('.') + d);
        }
        assert(set.contains(d));
    }
    if exists|d: Seq<char>| #[trigger]
        set.contains(d) && (n == d || exists|f: Seq<char>| n == #[trigger] (f.push('.') + d)) {
        let d = choose|d: Seq<char>| #[trigger]
            set.contains(d) && (n == d || exists|f: Seq<char>| n == #[trigger] (f.push('.') + d));
        if n == d {
            assert(n.skip(0) =~= n);
            assert(blocklist::suffix_at(n, 0));
        } else {
            let f = choose|f: Seq<char>| n == #[trigger] (f.push('.') + d);
            let i = f.len() + 1;
            assert(n.skip(i as int) =~= d);
            assert(n[i - 1] == '.');
            assert(blocklist::suffix_at(n, i as int));
        }
    }
}

/// A name is blocked exactly where it, or what stands behind one of its dots, is
/// listed in lower case, and neither it nor any of those is allowed.
pub proof fn a_name_is_blocked_by_its_suffixes(
    n: Seq<char>,
    block: Set<Seq<char>>,
    allow: Set<Seq<char>>,
)
    requires
        n.len() > 0,
        n.last() != '.',
        forall|d: Seq<char>| #[trigger] block.contains(d) ==> d.len() > 0,
        forall|d: Seq<char>| #[trigger] allow.contains(d) ==> d.len() > 0,
    ensures
        blocklist::blocked_by(n.push('.'), block, allow) <==> {
            &&& exists|d: Seq<char>| #[trigger]
                block.contains(d) && (text::lower(n) == d || exists|f: Seq<char>|
                    text::lower(n) == #[trigger] (f.push('.') + d))
            &&& forall|d: Seq<char>| #[trigger]
                allow.contains(d) ==> text::lower(n) != d && forall|f: Seq<char>|
                    text::lower(n) != #[trigger] (f.push('.') + d)
        },
{
    match_text_of_a_name(n);
    let l = text::lower(n);
    assert(l.last() != '.');
    a_suffix_is_the_whole_or_stands_behind_a_dot(l, block);
    a_suffix_is_the_whole_or_stands_behind_a_dot(l, allow);
}

/// From line to answer: where a source has a rule for a hostname, and no line of it
/// allows anything, every name at or under the hostname is blocked, in whatever
/// case.
pub proof fn a_listed_hostname_is_blocked(d: Seq<char>, sub: Seq<char>, lines: Seq<Seq<char>>, i: int)
    requires
        hostname(d),
        0 <= i < lines.len(),
        lines[i] == "||"@ + d.push('^') || lines[i] == d,
        blocklist::allows_of(lines).len() == 0,
    ensures
        blocklist::blocked_by(
            d.push('.'),
            blocklist::set_of(blocklist::blocks_of(lines)),
            blocklist::set_of(blocklist::allows_of(lines)),
        ),
        blocklist::blocked_by(
            sub.push('.') + d.push('.'),
            blocklist::set_of(blocklist::blocks_of(lines)),
            blocklist::set_of(blocklist::allows_of(lines)),
        ),
{
    a_bare_hostname_is_blocked(d);
    an_adblock_rule_blocks_its_hostname(d);
    let l = text::lower(d);
    let v = blocklist::blocks_of(lines);
    let block = blocklist::set_of(v);
    let allow = blocklist::set_of(blocklist::allows_of(lines));
    a_line_lists_its_domain(lines, i, l);
    assert(block.contains(l));
    assert(allow =~= Set::<Seq<char>>::empty());
    listed_text_is_blocked(d, sub, block, allow);
}

#[verifier::spinoff_prover]
#[verifier::rlimit(60)]
proof fn a_line_lists_its_domain(lines: Seq<Seq<char>>, i: int, l: Seq<char>)
    requires
        0 <= i < lines.len(),
        blocklist::classified(lines[i]) == LineModel::Block(seq![l]),
    ensures
        blocklist::blocks_of(lines).contains(l),
{
    let a = lines.take(i);
    let m = seq![lines[i]];
    let b = lines.skip(i + 1);
    assert(lines =~= a + m + b);
    lines_add_up(a, m);
    lines_add_up(a + m, b);
    one_line_counts_for_what_it_is(lines[i]);
    the_middle_is_held(blocklist::blocks_of(a), l, blocklist::blocks_of(b));
}

proof fn the_middle_is_held(a: Seq<Seq<char>>, x: Seq<char>, b: Seq<Seq<char>>)
    ensures
        (a + seq![x] + b).contains(x),
{
    assert((a + seq![x] + b)[a.len() as int] == x);
}

proof fn listed_text_is_blocked(
    d: Seq<char>,
    sub: Seq<char>,
    block: Set<Seq<char>>,
    allow: Set<Seq<char>>,
)
    requires
        d.len() > 0,
        d.last() != '.',
        block.contains(text::lower(d)),
        allow == Set::<Seq<char>>::empty(),
    ensures
        blocklist::blocked_by(d.push('.'), block, allow),
        blocklist::blocked_by(sub.push('.') + d.push('.'), block, allow),
{
    let l = text::lower(d);
    match_text_of_a_name(d);
    assert(blocklist::suffix_at(l, 0));
    assert(l.skip(0) =~= l);
    let y = sub.push('.') + d;
    match_text_of_a_name(y);
    assert(y.push('.') =~= sub.push('.') + d.push('.'));
    let n = text::lower(y);
    let at = sub.len() + 1;
    assert(n[at - 1] == '.');
    assert(n.skip(at as int) =~= l);
    assert(blocklist::suffix_at(n, at as int));
}

} // verus!
