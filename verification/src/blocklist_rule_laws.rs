//! Which lines of a blocklist block nothing, and what its sources list.

use vstd::prelude::*;

use crate::blocklist;
use crate::blocklist::{LineModel, SourceStat, ELEMENT_MARKS, HOST_NOISE};
use crate::blocklist_laws;
use crate::net;
use crate::text;
use crate::text::Sep;
use crate::text_laws;

verus! {

// ---------------------------------------------------------------------------
// What names no domain
// ---------------------------------------------------------------------------

/// Of the texts without white space and dots at their ends, just those are domains that
/// are made of the characters of hostnames, have a dot and are no address. A dot behind
/// one does not matter.
pub proof fn a_domain_is_just_a_hostname(s: Seq<char>)
    requires
        s.len() > 0,
        !text::is_space(s[0]),
        !text::is_space(s.last()),
        s.last() != '.',
    ensures
        ({
            let good = (forall|i: int| 0 <= i < s.len() ==> blocklist_laws::hostname_char(#[trigger] s[i]))
                && s.contains('.') && !net::is_ip_text(s);
            &&& good ==> blocklist::domain(s) == Some(text::lower(s))
            &&& !good ==> blocklist::domain(s) is None
        }),
        blocklist::domain(s.push('.')) == blocklist::domain(s),
{
    text_laws::trim_keeps_a_core(s);
    let t = s.push('.');
    assert(!text::is_space('.'));
    text_laws::trim_keeps_a_core(t);
    let none = Seq::<char>::empty();
    text_laws::trim_end_leaves_the_core(s, none, Sep::Char('.'));
    assert(s + none =~= s);
    text_laws::trim_end_leaves_the_core(s, seq!['.'], Sep::Char('.'));
    assert(s + seq!['.'] =~= t);
    if blocklist::domain_chars(s) {
        assert forall|i: int| 0 <= i < s.len() implies blocklist_laws::hostname_char(#[trigger] s[i]) by {
            assert(blocklist::domain_char(s[i]));
        }
    }
    if forall|i: int| 0 <= i < s.len() ==> blocklist_laws::hostname_char(#[trigger] s[i]) {
        assert forall|i: int| 0 <= i < s.len() implies blocklist::domain_char(#[trigger] s[i]) by {
            assert(blocklist_laws::hostname_char(s[i]));
        }
    }
}

/// White space around a domain does not matter, and neither do more dots behind it.
pub proof fn what_stands_around_a_domain(head: Seq<char>, d: Seq<char>, dots: Seq<char>, tail: Seq<char>)
    requires
        d.len() > 0,
        !text::is_space(d[0]),
        !text::is_space(d.last()),
        d.last() != '.',
        forall|i: int| 0 <= i < head.len() ==> text::is_space(#[trigger] head[i]),
        forall|i: int| 0 <= i < dots.len() ==> #[trigger] dots[i] == '.',
        forall|i: int| 0 <= i < tail.len() ==> text::is_space(#[trigger] tail[i]),
    ensures
        blocklist::domain(head + (d + dots) + tail) == blocklist::domain(d),
{
    let core = d + dots;
    assert(!text::is_space('.'));
    assert(core[0] == d[0]);
    if dots.len() > 0 {
        assert(core.last() == dots[dots.len() - 1]);
    } else {
        assert(core =~= d);
    }
    text_laws::trim_leaves_the_core(head, core, tail);
    text_laws::trim_end_leaves_the_core(d, dots, Sep::Char('.'));
    text_laws::trim_keeps_a_core(d);
    let none = Seq::<char>::empty();
    text_laws::trim_end_leaves_the_core(d, none, Sep::Char('.'));
    assert(d + none =~= d);
}

/// What hosts files list for the machine itself.
pub open spec fn own_name(h: Seq<char>) -> bool {
    ||| h == "localhost"@
    ||| h == "localhost.localdomain"@
    ||| h == "local"@
    ||| h == "ip6-localhost"@
    ||| h == "ip6-loopback"@
    ||| h == "ip6-localnet"@
    ||| h == "ip6-mcastprefix"@
    ||| h == "ip6-allnodes"@
    ||| h == "ip6-allrouters"@
    ||| h == "broadcasthost"@
}

proof fn own_names_are_listed(h: Seq<char>)
    ensures
        blocklist::listed_ignore_case(HOST_NOISE@, h) <==> own_name(text::lower(h)),
{
    reveal_strlit("localhost");
    assert(text::lower("localhost"@) =~= "localhost"@);
    reveal_strlit("localhost.localdomain");
    assert(text::lower("localhost.localdomain"@) =~= "localhost.localdomain"@);
    reveal_strlit("local");
    assert(text::lower("local"@) =~= "local"@);
    reveal_strlit("ip6-localhost");
    assert(text::lower("ip6-localhost"@) =~= "ip6-localhost"@);
    reveal_strlit("ip6-loopback");
    assert(text::lower("ip6-loopback"@) =~= "ip6-loopback"@);
    reveal_strlit("ip6-localnet");
    assert(text::lower("ip6-localnet"@) =~= "ip6-localnet"@);
    reveal_strlit("ip6-mcastprefix");
    assert(text::lower("ip6-mcastprefix"@) =~= "ip6-mcastprefix"@);
    reveal_strlit("ip6-allnodes");
    assert(text::lower("ip6-allnodes"@) =~= "ip6-allnodes"@);
    reveal_strlit("ip6-allrouters");
    assert(text::lower("ip6-allrouters"@) =~= "ip6-allrouters"@);
    reveal_strlit("broadcasthost");
    assert(text::lower("broadcasthost"@) =~= "broadcasthost"@);
    let t = HOST_NOISE@;
    assert(t.len() == 10);
    assert(t[0]@ == "localhost"@);
    assert(t[1]@ == "localhost.localdomain"@);
    assert(t[2]@ == "local"@);
    assert(t[3]@ == "ip6-localhost"@);
    assert(t[4]@ == "ip6-loopback"@);
    assert(t[5]@ == "ip6-localnet"@);
    assert(t[6]@ == "ip6-mcastprefix"@);
    assert(t[7]@ == "ip6-allnodes"@);
    assert(t[8]@ == "ip6-allrouters"@);
    assert(t[9]@ == "broadcasthost"@);
    if blocklist::listed_ignore_case(t, h) {
        let i = choose|i: int|
            0 <= i < t.len() && text::lower(#[trigger] t[i]@) == text::lower(h);
        assert(own_name(text::lower(t[i]@)));
    }
}

/// The names of the machine itself, in whatever case, and addresses are noise; nothing
/// else is. A dot behind one does not matter.
pub proof fn own_names_and_addresses_are_noise(h: Seq<char>)
    requires
        h.len() > 0,
        h.last() != '.',
    ensures
        blocklist::noise(h) <==> own_name(text::lower(h)) || net::is_ip_text(h),
        blocklist::noise(h.push('.')) == blocklist::noise(h),
{
    let none = Seq::<char>::empty();
    text_laws::trim_end_leaves_the_core(h, none, Sep::Char('.'));
    assert(h + none =~= h);
    text_laws::trim_end_leaves_the_core(h, seq!['.'], Sep::Char('.'));
    assert(h + seq!['.'] =~= h.push('.'));
    own_names_are_listed(h);
}

proof fn more_than_a_hostname(d: Seq<char>, c: char, rest: Seq<char>)
    requires
        blocklist_laws::hostname(d),
        c == '$' || c == '/' || c == '|' || (c == '^' && rest.len() > 0),
    ensures
        blocklist::adblock("||"@ + (d.push(c) + rest)) is None,
{
    reveal_strlit("||");
    let tail = seq![c] + rest;
    let body = d.push(c) + rest;
    assert(body =~= d + tail);
    assert(tail[0] == c);
    blocklist_laws::rule_ends_behind_a_hostname(d, tail);
    let r = "||"@ + body;
    assert(r.take(2) =~= "||"@);
    assert(r.skip(2) =~= body);
    assert(body.skip(d.len() as int) =~= tail);
    assert(tail != seq!['^']) by {
        if tail == seq!['^'] {
            assert(tail.len() == 1);
            assert(tail[0] == '^');
        }
    }
}

proof fn no_rule_is_skipped(r: Seq<char>)
    requires
        r.len() > 2,
        r.take(2) == "||"@,
        !text::is_space(r.last()),
        blocklist::adblock(r) is None,
    ensures
        blocklist::classified(r) is Skip,
        blocklist::classified("@@"@ + r) is Skip,
{
    reveal_strlit("||");
    reveal_strlit("@@");
    let e = "@@"@ + r;
    assert(e.take(2) =~= "@@"@);
    assert(e.skip(2) =~= r);
    assert(r.take(2)[0] == r[0]);
    assert(e[0] == '@' && e.last() == r.last());
    assert(!text::is_space('|') && !text::is_space('@'));
    text_laws::trim_keeps_a_core(r);
    text_laws::trim_keeps_a_core(e);
    if text::begins(r, "@@"@) {
        assert(r.take(2)[0] == '@');
    }
}

/// A rule for a part of a host, or with a modifier, is skipped: nothing but a separator
/// may follow the hostname.
pub proof fn a_rule_ends_with_its_hostname(d: Seq<char>, c: char, rest: Seq<char>)
    requires
        blocklist_laws::hostname(d),
        c == '$' || c == '/' || c == '|' || (c == '^' && rest.len() > 0),
        rest.len() > 0 ==> !text::is_space(rest.last()),
    ensures
        blocklist::adblock("||"@ + (d.push(c) + rest)) is None,
        blocklist::classified("||"@ + (d.push(c) + rest)) is Skip,
        blocklist::classified("@@"@ + ("||"@ + (d.push(c) + rest))) is Skip,
{
    reveal_strlit("||");
    more_than_a_hostname(d, c, rest);
    let r = "||"@ + (d.push(c) + rest);
    assert(r.take(2) =~= "||"@);
    if rest.len() > 0 {
        assert(r.last() == rest.last());
    } else {
        assert(r.last() == c);
    }
    no_rule_is_skipped(r);
}

/// A rule that is tied to the beginning of an address, a regular expression and a single
/// `@` are skipped.
pub proof fn other_rules_are_skipped(s: Seq<char>)
    requires
        s.len() > 0,
        !text::is_space(s.last()),
    ensures
        s[0] == '|' && !(s.len() > 1 && s[1] == '|') ==> blocklist::classified(s) is Skip,
        s[0] == '/' ==> blocklist::classified(s) is Skip,
        s[0] == '@' && !(s.len() > 1 && s[1] == '@') ==> blocklist::classified(s) is Skip,
{
    reveal_strlit("||");
    reveal_strlit("@@");
    assert(!text::is_space('|') && !text::is_space('/') && !text::is_space('@'));
    if !text::is_space(s[0]) {
        text_laws::trim_keeps_a_core(s);
    }
    if text::begins(s, "@@"@) {
        assert(s.take(2)[0] == s[0] && s.take(2)[1] == s[1]);
    }
    if text::begins(s, "||"@) {
        assert(s.take(2)[0] == s[0] && s.take(2)[1] == s[1]);
    }
}

/// Whether a line begins as one of another kind.
pub open spec fn begins_otherwise(c: char) -> bool {
    c == '#' || c == '!' || c == '[' || c == '@' || c == '|' || c == '/'
}

/// A line that names no domain is skipped where it has a modifier or the mark of an
/// element rule, and ignored otherwise; a name of the machine itself is ignored.
pub proof fn a_line_without_a_domain(s: Seq<char>)
    requires
        s.len() > 0,
        !text::is_space(s[0]),
        !text::is_space(s.last()),
        !begins_otherwise(s[0]),
        !s.contains('*'),
        text::tokens(s, Sep::Space).len() == 0 || !net::is_ip_text(text::tokens(s, Sep::Space)[0]),
    ensures
        ({
            let odd = s.contains('$') || text::occurs(s, "##"@) || text::occurs(s, "#@#"@) || text::occurs(s, "#?#"@) || text::occurs(s, "#@?#"@) || text::occurs(s, "#%#"@) || text::occurs(s, "#@%#"@);
            &&& blocklist::domain(s) is None && odd ==> blocklist::classified(s) is Skip
            &&& blocklist::domain(s) is None && !odd ==> blocklist::classified(s) is Ignore
            &&& blocklist::domain(s) is Some && blocklist::noise(s) ==> blocklist::classified(
                s,
            ) is Ignore
            &&& blocklist::domain(s) is Some && !blocklist::noise(s) ==> blocklist::classified(s)
                == LineModel::Block(seq![blocklist::domain(s)->0])
        }),
{
    reveal_strlit("||");
    reveal_strlit("@@");
    text_laws::trim_keeps_a_core(s);
    if text::begins(s, "@@"@) {
        assert(s.take(2)[0] == s[0]);
    }
    if text::begins(s, "||"@) {
        assert(s.take(2)[0] == s[0]);
    }
    let t = ELEMENT_MARKS@;
    assert(t.len() == 6);
    assert(t[0]@ == "##"@);
    assert(t[1]@ == "#@#"@);
    assert(t[2]@ == "#?#"@);
    assert(t[3]@ == "#@?#"@);
    assert(t[4]@ == "#%#"@);
    assert(t[5]@ == "#@%#"@);
}

/// A line of a hosts file blocks the domains behind its address, and is ignored where
/// there are none.
pub proof fn a_hosts_line_blocks_what_follows(ip: Seq<char>, c: char, rest: Seq<char>)
    requires
        net::is_ip_text(ip),
        ip.len() > 0,
        forall|i: int| 0 <= i < ip.len() ==> !text::is_space(#[trigger] ip[i]),
        !begins_otherwise(ip[0]),
        text::is_space(c),
        rest.len() > 0,
        !text::is_space(rest.last()),
        !(ip.push(c) + rest).contains('*'),
    ensures
        ({
            let d = blocklist::host_domains(text::tokens(rest, Sep::Space));
            let r = blocklist::classified(ip.push(c) + rest);
            &&& d.len() > 0 ==> r == LineModel::Block(d)
            &&& d.len() == 0 ==> r is Ignore
        }),
{
    reveal_strlit("||");
    reveal_strlit("@@");
    let s = ip.push(c) + rest;
    assert(s[0] == ip[0] && s.last() == rest.last());
    text_laws::trim_keeps_a_core(s);
    if text::begins(s, "@@"@) {
        assert(s.take(2)[0] == s[0]);
    }
    if text::begins(s, "||"@) {
        assert(s.take(2)[0] == s[0]);
    }
    assert forall|i: int| 0 <= i < ip.len() implies !text::separates(
        Sep::Space,
        #[trigger] ip[i],
    ) by {}
    text_laws::a_word_is_a_token(ip, Sep::Space);
    text_laws::tokens_are_parted(ip, c, rest, Sep::Space);
    let w = text::tokens(s, Sep::Space);
    assert(w[0] == ip);
    assert(w.skip(1) =~= text::tokens(rest, Sep::Space));
}

/// A host of a hosts file is left out where it is noise or no domain.
pub proof fn noise_is_left_out(w: Seq<char>)
    ensures
        blocklist::noise(w) || blocklist::domain(w) is None ==> blocklist::host_domains(
            seq![w],
        ).len() == 0,
        !blocklist::noise(w) && blocklist::domain(w) is Some ==> blocklist::host_domains(seq![w])
            == seq![blocklist::domain(w)->0],
{
    reveal_with_fuel(blocklist::host_domains, 2);
    let none = Seq::<Seq<char>>::empty();
    assert(seq![w].drop_last() =~= none);
    assert(none.push(blocklist::domain(w)->0) =~= seq![blocklist::domain(w)->0]);
}

// ---------------------------------------------------------------------------
// Sources
// ---------------------------------------------------------------------------

/// A source that was fetched lists what its lines list, and its figures are how many;
/// one that was not lists nothing, and its status says why.
pub proof fn a_source_lists_its_lines(st: SourceStat, url: Seq<char>, f: Result<String, String>)
    requires
        blocklist::stat_of(st, url, f),
    ensures
        st.url@ == url,
        f is Ok ==> st.status is Loaded && blocklist::source_blocks(f) == blocklist::blocks_of(
            text::lines(f->Ok_0@),
        ) && blocklist::source_allows(f) == blocklist::allows_of(text::lines(f->Ok_0@))
            && st.blocks == blocklist::source_blocks(f).len() && st.allows
            == blocklist::source_allows(f).len() && st.skipped == blocklist::skips_of(
            text::lines(f->Ok_0@),
        ),
        f is Err ==> st.status is Failed && st.status->Failed_0@ == f->Err_0@
            && blocklist::source_blocks(f).len() == 0 && blocklist::source_allows(f).len() == 0
            && st.blocks == 0 && st.allows == 0 && st.skipped == 0,
{
}

/// A domain is listed where a source lists it, whichever.
pub proof fn sources_are_merged(f: Seq<Result<String, String>>, x: Result<String, String>, d: Seq<char>)
    ensures
        blocklist::all_blocks(f.push(x)).contains(d) <==> blocklist::all_blocks(f).contains(d)
            || blocklist::source_blocks(x).contains(d),
        blocklist::all_allows(f.push(x)).contains(d) <==> blocklist::all_allows(f).contains(d)
            || blocklist::source_allows(x).contains(d),
        !blocklist::all_blocks(Seq::empty()).contains(d),
        !blocklist::all_allows(Seq::empty()).contains(d),
{
    assert(f.push(x).drop_last() =~= f);
}

} // verus!
