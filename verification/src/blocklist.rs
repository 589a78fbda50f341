//! The optional local blocklist: domains that are answered with NXDOMAIN here
//! instead of being resolved.
//!
//! Two source syntaxes are understood, hosts (`0.0.0.0 name`) and adblock
//! (`||name^`), and bare-domain lines. Adblock `@@` rules populate an allowlist
//! that wins over a block. What cannot be represented (wildcards, regular
//! expressions, `$`-modifiers, element rules) is skipped and counted. All sources
//! merge into one block set and one allow set; matching is by domain suffix: a
//! listed name blocks itself and every subdomain.

use vstd::hash_set::StringHashSet;
use vstd::prelude::*;

use crate::dns::Name;
use crate::net;
use crate::text;
use crate::text::Sep;

verus! {

// ---------------------------------------------------------------------------
// Lines
// ---------------------------------------------------------------------------

/// The classification of one source line.
#[derive(Debug)]
pub enum Line {
    /// One or more domains to block (a hosts line may list several).
    Block(Vec<String>),
    /// An `@@` allowlist exception.
    Allow(String),
    /// A comment, blank, or noise line (not counted).
    Ignore,
    /// A rule that cannot be represented (a wildcard, a regular expression, a
    /// `$`-modifier, an element rule); counted.
    Skip,
}

/// A classification as mathematical values.
pub enum LineModel {
    Block(Seq<Seq<char>>),
    Allow(Seq<char>),
    Ignore,
    Skip,
}

impl View for Line {
    type V = LineModel;

    open spec fn view(&self) -> LineModel {
        match self {
            Line::Block(v) => LineModel::Block(text::texts(v@)),
            Line::Allow(s) => LineModel::Allow(s@),
            Line::Ignore => LineModel::Ignore,
            Line::Skip => LineModel::Skip,
        }
    }
}

/// Hostnames that appear in hosts files but are no block targets.
pub const HOST_NOISE: [&'static str; 10] = [
    "localhost",
    "localhost.localdomain",
    "local",
    "ip6-localhost",
    "ip6-loopback",
    "ip6-localnet",
    "ip6-mcastprefix",
    "ip6-allnodes",
    "ip6-allrouters",
    "broadcasthost",
];

/// Whether a text equals one of a list but for the case of ASCII letters.
pub open spec fn listed_ignore_case(list: Seq<&str>, s: Seq<char>) -> bool {
    exists|i: int| 0 <= i < list.len() && text::lower(#[trigger] list[i]@) == text::lower(s)
}

/// Whether a hostname is noise: one of the listed ones, or an address.
pub open spec fn noise(h: Seq<char>) -> bool {
    let t = text::trim_end(h, Sep::Char('.'));
    listed_ignore_case(HOST_NOISE@, t) || net::is_ip_text(t)
}

fn is_host_noise(h: &[char]) -> (r: bool)
    ensures
        r == noise(h@),
{
    let t = text::trim_end_chars(h, Sep::Char('.'));
    let s = text::from_chars(t.as_slice());
    let table: &[&'static str] = &HOST_NOISE;
    let mut i: usize = 0;
    while i < table.len()
        invariant
            table@ == HOST_NOISE@,
            s@ == t@,
            t@ == text::trim_end(h@, Sep::Char('.')),
            0 <= i <= table@.len(),
            forall|j: int| 0 <= j < i ==> text::lower(#[trigger] table@[j]@) != text::lower(t@),
        decreases table@.len() - i,
    {
        if text::same_ignore_case(table[i], s.as_str()) {
            return true;
        }
        i = i + 1;
    }
    net::chars_are_ip(t.as_slice())
}

/// Whether a character may stand in a domain.
pub open spec fn domain_char(c: char) -> bool {
    ||| 'a' <= c && c <= 'z'
    ||| 'A' <= c && c <= 'Z'
    ||| '0' <= c && c <= '9'
    ||| c == '.'
    ||| c == '-'
    ||| c == '_'
}

/// A text made of domain characters only.
pub open spec fn domain_chars(s: Seq<char>) -> bool {
    forall|i: int| 0 <= i < s.len() ==> domain_char(#[trigger] s[i])
}

/// The domain that a text writes: lower case, without dots at the end, with a dot
/// in it, made of domain characters, and no address.
pub open spec fn domain(s: Seq<char>) -> Option<Seq<char>> {
    let t = text::trim_end(text::trim(s), Sep::Char('.'));
    if t.len() == 0 || net::is_ip_text(t) || !t.contains('.') || !domain_chars(t) {
        None
    } else {
        Some(text::lower(t))
    }
}

fn normalize_domain(s: &[char]) -> (r: Option<String>)
    ensures
        match r {
            Some(d) => domain(s@) == Some(d@),
            None => domain(s@) is None,
        },
{
    let u = text::trim_chars(s);
    let t = text::trim_end_chars(u.as_slice(), Sep::Char('.'));
    if t.len() == 0 || net::chars_are_ip(t.as_slice()) {
        return None;
    }
    match text::find(t.as_slice(), '.') {
        Some(i) => {
            assert(t@[i as int] == '.');
        },
        None => {
            return None;
        },
    }
    let mut i: usize = 0;
    while i < t.len()
        invariant
            t@ == text::trim_end(text::trim(s@), Sep::Char('.')),
            0 <= i <= t@.len(),
            forall|j: int| 0 <= j < i ==> domain_char(#[trigger] t@[j]),
        decreases t@.len() - i,
    {
        let c = t[i];
        if !(('a' <= c && c <= 'z') || ('A' <= c && c <= 'Z') || ('0' <= c && c <= '9') || c == '.'
            || c == '-' || c == '_') {
            assert(!domain_char(t@[i as int]));
            return None;
        }
        i = i + 1;
    }
    let l = text::lower_chars(t.as_slice());
    Some(text::from_chars(l.as_slice()))
}

/// Whether a character ends the domain of an adblock rule.
pub open spec fn ends_rule(c: char) -> bool {
    c == '^' || c == '$' || c == '/' || c == '|'
}

/// How many characters stand before the one that ends the domain of a rule.
pub open spec fn rule_domain_len(s: Seq<char>) -> nat
    decreases s.len(),
{
    if s.len() == 0 || ends_rule(s[0]) {
        0
    } else {
        1 + rule_domain_len(s.skip(1))
    }
}

/// What follows two characters at the front, where these are `p`.
pub open spec fn behind(s: Seq<char>, p: Seq<char>) -> Seq<char> {
    if text::begins(s, p) {
        s.skip(p.len() as int)
    } else {
        s
    }
}

/// The domain of an adblock rule body: `||domain^`, `||domain` or `domain^`.
/// Nothing where anything else follows the domain.
pub open spec fn adblock(s: Seq<char>) -> Option<Seq<char>> {
    let t = behind(s, "||"@);
    let n = rule_domain_len(t) as int;
    let rest = t.skip(n);
    if rest.len() == 0 || rest == seq!['^'] {
        domain(t.take(n))
    } else {
        None
    }
}

fn adblock_domain(s: &[char]) -> (r: Option<String>)
    ensures
        match r {
            Some(d) => adblock(s@) == Some(d@),
            None => adblock(s@) is None,
        },
{
    proof {
        reveal_strlit("||");
    }
    let n: usize = s.len();
    let start: usize = if text::begins_with(s, "||") {
        2
    } else {
        0
    };
    let t = text::slice(s, start, n);
    assert(t@ =~= behind(s@, "||"@));
    let m: usize = t.len();
    let mut end: usize = 0;
    assert(t@.skip(0) =~= t@);
    while end < m && !(t[end] == '^' || t[end] == '$' || t[end] == '/' || t[end] == '|')
        invariant
            m == t@.len(),
            0 <= end <= m,
            rule_domain_len(t@) == end + rule_domain_len(t@.skip(end as int)),
        decreases m - end,
    {
        assert(t@.skip(end as int).skip(1) =~= t@.skip(end + 1));
        assert(t@.skip(end as int)[0] == t@[end as int]);
        end = end + 1;
    }
    assert(rule_domain_len(t@.skip(end as int)) == 0) by {
        if end < m {
            assert(t@.skip(end as int)[0] == t@[end as int]);
        }
    }
    if !(end == m || (end + 1 == m && t[end] == '^')) {
        proof {
            let rest = t@.skip(end as int);
            if rest == seq!['^'] {
                assert(rest.len() == 1);
                assert(rest[0] == t@[end as int]);
            }
        }
        return None;
    }
    proof {
        let rest = t@.skip(end as int);
        if end != m {
            assert(rest =~= seq!['^']);
        }
    }
    let d = text::slice(t.as_slice(), 0, end);
    assert(d@ =~= t@.take(end as int));
    normalize_domain(d.as_slice())
}

/// The domains that the hosts of a hosts line name.
pub open spec fn host_domains(w: Seq<Seq<char>>) -> Seq<Seq<char>>
    decreases w.len(),
{
    if w.len() == 0 {
        w
    } else {
        let d = host_domains(w.drop_last());
        if !noise(w.last()) && domain(w.last()) is Some {
            d.push(domain(w.last())->0)
        } else {
            d
        }
    }
}

/// What stands between the domains and the body of an element rule. Those with a
/// `$` in them are told by it.
pub const ELEMENT_MARKS: [&'static str; 6] = ["##", "#@#", "#?#", "#@?#", "#%#", "#@%#"];

/// Whether a text has the mark of an element rule in it.
pub open spec fn element_rule(t: Seq<char>) -> bool {
    exists|i: int|
        0 <= i < ELEMENT_MARKS@.len() && text::occurs(t, #[trigger] ELEMENT_MARKS@[i]@)
}

/// Whether a line that names no domain is a rule that cannot be represented: one
/// with a `$`-modifier, or an element rule.
pub open spec fn unrepresentable(t: Seq<char>) -> bool {
    t.contains('$') || element_rule(t)
}

fn is_unrepresentable(t: &[char]) -> (r: bool)
    ensures
        r == unrepresentable(t@),
{
    match text::find(t, '$') {
        Some(i) => {
            assert(t@[i as int] == '$');
            return true;
        },
        None => {},
    }
    let table: &[&'static str] = &ELEMENT_MARKS;
    let mut i: usize = 0;
    while i < table.len()
        invariant
            table@ == ELEMENT_MARKS@,
            0 <= i <= table@.len(),
            forall|j: int| 0 <= j < i ==> !text::occurs(t@, #[trigger] table@[j]@),
        decreases table@.len() - i,
    {
        if text::contains(t, table[i]) {
            return true;
        }
        i = i + 1;
    }
    false
}

/// What a line says: in order, a blank or a comment, an adblock exception, an
/// adblock block rule, another adblock construct, a hosts line, a bare domain, a
/// rule for what a bare domain cannot say.
pub open spec fn classified(raw: Seq<char>) -> LineModel {
    let t = text::trim(raw);
    if t.len() == 0 || t[0] == '#' || t[0] == '!' || t[0] == '[' {
        LineModel::Ignore
    } else if text::begins(t, "@@"@) {
        match adblock(t.skip(2)) {
            Some(d) => LineModel::Allow(d),
            None => LineModel::Skip,
        }
    } else if text::begins(t, "||"@) {
        match adblock(t) {
            Some(d) => LineModel::Block(seq![d]),
            None => LineModel::Skip,
        }
    } else if t[0] == '|' || t[0] == '/' || t[0] == '@' || t.contains('*') {
        LineModel::Skip
    } else {
        let w = text::tokens(t, Sep::Space);
        if w.len() > 0 && net::is_ip_text(w[0]) {
            let d = host_domains(w.skip(1));
            if d.len() == 0 {
                LineModel::Ignore
            } else {
                LineModel::Block(d)
            }
        } else {
            match domain(t) {
                Some(d) => if noise(t) {
                    LineModel::Ignore
                } else {
                    LineModel::Block(seq![d])
                },
                None => if unrepresentable(t) {
                    LineModel::Skip
                } else {
                    LineModel::Ignore
                },
            }
        }
    }
}

fn one(d: String) -> (r: Vec<String>)
    ensures
        text::texts(r@) == seq![d@],
{
    let mut v: Vec<String> = Vec::new();
    v.push(d);
    assert(text::texts(v@) =~= seq![d@]);
    v
}

fn hosts_line(w: &Vec<Vec<char>>) -> (r: Vec<String>)
    requires
        w@.len() >= 1,
    ensures
        text::texts(r@) == host_domains(text::lists(w@).skip(1)),
{
    let ghost all = text::lists(w@).skip(1);
    let mut out: Vec<String> = Vec::new();
    let mut i: usize = 1;
    assert(text::texts(out@) =~= host_domains(all.take(0)));
    while i < w.len()
        invariant
            all == text::lists(w@).skip(1),
            1 <= i <= w@.len(),
            text::texts(out@) == host_domains(all.take(i - 1)),
        decreases w@.len() - i,
    {
        let ghost before = text::texts(out@);
        assert(all.take(i as int).drop_last() =~= all.take(i - 1));
        assert(all.take(i as int).last() == w@[i as int]@);
        if !is_host_noise(w[i].as_slice()) {
            match normalize_domain(w[i].as_slice()) {
                Some(d) => {
                    out.push(d);
                    assert(text::texts(out@) =~= before.push(d@));
                },
                None => {},
            }
        }
        i = i + 1;
    }
    assert(all.take(w@.len() - 1) =~= all);
    out
}

/// Classifies one source line across the hosts, adblock and bare-domain syntaxes.
pub fn parse_line(raw: &str) -> (r: Line)
    ensures
        r@ == classified(raw@),
{
    let v = text::to_chars(raw);
    parse_chars(v.as_slice())
}

fn parse_chars(raw: &[char]) -> (r: Line)
    ensures
        r@ == classified(raw@),
{
    proof {
        reveal_strlit("@@");
        reveal_strlit("||");
    }
    let t = text::trim_chars(raw);
    let n: usize = t.len();
    if n == 0 {
        return Line::Ignore;
    }
    let first = t[0];
    if first == '#' || first == '!' || first == '[' {
        return Line::Ignore;
    }
    if text::begins_with(t.as_slice(), "@@") {
        let rest = text::slice(t.as_slice(), 2, n);
        assert(rest@ =~= t@.skip(2));
        return match adblock_domain(rest.as_slice()) {
            Some(d) => Line::Allow(d),
            None => Line::Skip,
        };
    }
    if text::begins_with(t.as_slice(), "||") {
        return match adblock_domain(t.as_slice()) {
            Some(d) => Line::Block(one(d)),
            None => Line::Skip,
        };
    }
    let star: bool = match text::find(t.as_slice(), '*') {
        Some(i) => {
            assert(t@[i as int] == '*');
            true
        },
        None => false,
    };
    if first == '|' || first == '/' || first == '@' || star {
        return Line::Skip;
    }
    let w = text::token_chars(t.as_slice(), Sep::Space);
    assert(text::lists(w@).len() == w@.len());
    if w.len() > 0 {
        assert(text::lists(w@)[0] == w@[0]@);
        if net::chars_are_ip(w[0].as_slice()) {
            let d = hosts_line(&w);
            assert(text::texts(d@).len() == d@.len());
            return if d.len() == 0 {
                Line::Ignore
            } else {
                Line::Block(d)
            };
        }
    }
    match normalize_domain(t.as_slice()) {
        Some(d) => if is_host_noise(t.as_slice()) {
            Line::Ignore
        } else {
            Line::Block(one(d))
        },
        None => if is_unrepresentable(t.as_slice()) {
            Line::Skip
        } else {
            Line::Ignore
        },
    }
}

// ---------------------------------------------------------------------------
// Sources
// ---------------------------------------------------------------------------

/// The domains that some lines block, in order.
pub open spec fn blocks_of(lines: Seq<Seq<char>>) -> Seq<Seq<char>>
    decreases lines.len(),
{
    if lines.len() == 0 {
        lines
    } else {
        match classified(lines.last()) {
            LineModel::Block(d) => blocks_of(lines.drop_last()) + d,
            _ => blocks_of(lines.drop_last()),
        }
    }
}

/// The domains that some lines allow, in order.
pub open spec fn allows_of(lines: Seq<Seq<char>>) -> Seq<Seq<char>>
    decreases lines.len(),
{
    if lines.len() == 0 {
        lines
    } else {
        match classified(lines.last()) {
            LineModel::Allow(d) => allows_of(lines.drop_last()).push(d),
            _ => allows_of(lines.drop_last()),
        }
    }
}

/// How many of some lines are skipped.
pub open spec fn skips_of(lines: Seq<Seq<char>>) -> nat
    decreases lines.len(),
{
    if lines.len() == 0 {
        0
    } else {
        skips_of(lines.drop_last()) + if classified(lines.last()) is Skip {
            1nat
        } else {
            0nat
        }
    }
}

/// Load status of one configured source.
#[derive(Debug)]
pub enum SourceStatus {
    /// Fetched and parsed.
    Loaded,
    /// Fetching failed; the forwarder starts without this source.
    Failed(String),
}

/// Per-source accounting, so that an operator can see whether the lists loaded.
#[derive(Debug)]
pub struct SourceStat {
    pub url: String,
    pub status: SourceStatus,
    /// Block entries contributed by this source (before merging).
    pub blocks: usize,
    /// Allowlist exceptions contributed by this source.
    pub allows: usize,
    /// Lines that could not be represented.
    pub skipped: usize,
}

/// The accounting of a source that was fetched as `fetched`, or failed.
pub open spec fn stat_of(s: SourceStat, url: Seq<char>, fetched: Result<String, String>) -> bool {
    &&& s.url@ == url
    &&& match fetched {
        Ok(t) => {
            &&& s.status is Loaded
            &&& s.blocks == blocks_of(text::lines(t@)).len()
            &&& s.allows == allows_of(text::lines(t@)).len()
            &&& s.skipped == skips_of(text::lines(t@))
        },
        Err(why) => {
            &&& s.status matches SourceStatus::Failed(w) && w@ == why@
            &&& s.blocks == 0
            &&& s.allows == 0
            &&& s.skipped == 0
        },
    }
}

/// The domains that a source blocks: none where it failed.
pub open spec fn source_blocks(fetched: Result<String, String>) -> Seq<Seq<char>> {
    match fetched {
        Ok(t) => blocks_of(text::lines(t@)),
        Err(_) => Seq::empty(),
    }
}

/// The domains that a source allows: none where it failed.
pub open spec fn source_allows(fetched: Result<String, String>) -> Seq<Seq<char>> {
    match fetched {
        Ok(t) => allows_of(text::lines(t@)),
        Err(_) => Seq::empty(),
    }
}

fn scan(source: &str) -> (r: (Vec<String>, Vec<String>, usize))
    ensures
        text::texts(r.0@) == blocks_of(text::lines(source@)),
        text::texts(r.1@) == allows_of(text::lines(source@)),
        r.2 == skips_of(text::lines(source@)),
{
    let v = text::to_chars(source);
    let lines = text::line_chars(v.as_slice());
    let ghost all = text::lists(lines@);
    let mut blocks: Vec<String> = Vec::new();
    let mut allows: Vec<String> = Vec::new();
    let mut skipped: usize = 0;
    let mut i: usize = 0;
    assert(text::texts(blocks@) =~= blocks_of(all.take(0)));
    assert(text::texts(allows@) =~= allows_of(all.take(0)));
    while i < lines.len()
        invariant
            all == text::lists(lines@),
            0 <= i <= lines@.len(),
            text::texts(blocks@) == blocks_of(all.take(i as int)),
            text::texts(allows@) == allows_of(all.take(i as int)),
            skipped == skips_of(all.take(i as int)),
            skipped <= i,
        decreases lines@.len() - i,
    {
        let ghost b = text::texts(blocks@);
        let ghost a = text::texts(allows@);
        assert(all.take(i + 1).drop_last() =~= all.take(i as int));
        assert(all.take(i + 1).last() == lines@[i as int]@);
        match parse_chars(lines[i].as_slice()) {
            Line::Block(domains) => {
                let mut domains = domains;
                let ghost d = text::texts(domains@);
                blocks.append(&mut domains);
                assert(text::texts(blocks@) =~= b + d);
            },
            Line::Allow(domain) => {
                allows.push(domain);
                assert(text::texts(allows@) =~= a.push(domain@));
            },
            Line::Skip => {
                skipped = skipped + 1;
            },
            Line::Ignore => {},
        }
        i = i + 1;
    }
    assert(all.take(lines@.len() as int) =~= all);
    (blocks, allows, skipped)
}

/// The members of a list as a set.
pub open spec fn set_of(v: Seq<Seq<char>>) -> Set<Seq<char>> {
    v.to_set()
}

fn insert_all(set: &mut StringHashSet, v: Vec<String>)
    ensures
        final(set)@ == old(set)@.union(set_of(text::texts(v@))),
{
    let ghost all = text::texts(v@);
    let mut i: usize = 0;
    assert(set@ =~= old(set)@.union(set_of(all.take(0))));
    while i < v.len()
        invariant
            all == text::texts(v@),
            0 <= i <= v@.len(),
            set@ == old(set)@.union(set_of(all.take(i as int))),
        decreases v@.len() - i,
    {
        set.insert(v[i].clone());
        proof {
            let p = all.take(i as int);
            let q = all.take(i + 1);
            assert(q =~= p.push(all[i as int]));
            assert forall|x: Seq<char>|
                set_of(q).contains(x) <==> set_of(p).contains(x) || x == all[i as int] by {
                if set_of(q).contains(x) {
                    let k = q.index_of(x);
                    if k < p.len() {
                        assert(p[k] == x);
                    }
                }
                if set_of(p).contains(x) {
                    let k = p.index_of(x);
                    assert(q[k] == x);
                }
                assert(q[i as int] == all[i as int]);
            }
            assert(set@ =~= old(set)@.union(set_of(q)));
        }
        i = i + 1;
    }
    assert(all.take(v@.len() as int) =~= all);
}

/// A loaded blocklist: a merged block set, an allow set that wins over it, and
/// per-source stats.
pub struct Blocklist {
    block: StringHashSet,
    allow: StringHashSet,
    sources: Vec<SourceStat>,
}

/// The text that a name is matched by: lower case, without dots at the end.
pub open spec fn match_text(name: Seq<char>) -> Seq<char> {
    text::lower(text::trim_end(name, Sep::Char('.')))
}

/// Whether a suffix of a text, cut at a dot, is in a set.
pub open spec fn suffix_in(d: Seq<char>, set: Set<Seq<char>>) -> bool {
    exists|i: int| #[trigger] suffix_at(d, i) && set.contains(d.skip(i))
}

/// Whether a suffix begins at place `i`: at the front, or behind a dot.
pub open spec fn suffix_at(d: Seq<char>, i: int) -> bool {
    0 <= i < d.len() && (i == 0 || d[i - 1] == '.')
}

/// Whether a name is blocked by a block set and an allow set: some suffix of it is
/// in the block set, and none in the allow set.
pub open spec fn blocked_by(
    name: Seq<char>,
    block: Set<Seq<char>>,
    allow: Set<Seq<char>>,
) -> bool {
    suffix_in(match_text(name), block) && !suffix_in(match_text(name), allow)
}

impl Blocklist {
    /// The blocked domains.
    pub closed spec fn blocks(&self) -> Set<Seq<char>> {
        self.block@
    }

    /// The allowed domains.
    pub closed spec fn allows(&self) -> Set<Seq<char>> {
        self.allow@
    }

    /// The stats of the sources.
    pub closed spec fn stats(&self) -> Seq<SourceStat> {
        self.sources@
    }

    /// A blocklist without sources.
    pub fn new() -> (r: Self)
        ensures
            r.blocks() == Set::<Seq<char>>::empty(),
            r.allows() == Set::<Seq<char>>::empty(),
            r.stats().len() == 0,
    {
        Blocklist { block: StringHashSet::new(), allow: StringHashSet::new(), sources: Vec::new() }
    }

    /// Merges one source: its text, or why it could not be fetched. A source that
    /// failed contributes nothing but its stat.
    pub fn add_source(&mut self, url: String, fetched: Result<String, String>)
        ensures
            final(self).blocks() == old(self).blocks().union(set_of(source_blocks(fetched))),
            final(self).allows() == old(self).allows().union(set_of(source_allows(fetched))),
            final(self).stats().len() == old(self).stats().len() + 1,
            final(self).stats().drop_last() == old(self).stats(),
            stat_of(final(self).stats().last(), url@, fetched),
    {
        match fetched {
            Ok(t) => {
                let (blocks, allows, skipped) = scan(t.as_str());
                assert(text::texts(blocks@).len() == blocks@.len());
                assert(text::texts(allows@).len() == allows@.len());
                let stat = SourceStat {
                    url,
                    status: SourceStatus::Loaded,
                    blocks: blocks.len(),
                    allows: allows.len(),
                    skipped,
                };
                insert_all(&mut self.block, blocks);
                insert_all(&mut self.allow, allows);
                self.sources.push(stat);
            },
            Err(why) => {
                let stat = SourceStat {
                    url,
                    status: SourceStatus::Failed(why),
                    blocks: 0,
                    allows: 0,
                    skipped: 0,
                };
                self.sources.push(stat);
                proof {
                    assert(set_of(Seq::<Seq<char>>::empty()) =~= Set::<Seq<char>>::empty());
                    assert(self.blocks() =~= old(self).blocks().union(
                        set_of(Seq::<Seq<char>>::empty()),
                    ));
                    assert(self.allows() =~= old(self).allows().union(
                        set_of(Seq::<Seq<char>>::empty()),
                    ));
                }
            },
        }
        assert(self.stats().drop_last() =~= old(self).stats());
    }

    /// Whether `name` is blocked: some suffix of it is in the block set and no
    /// suffix is in the allow set.
    pub fn is_blocked(&self, name: &Name) -> (r: bool)
        ensures
            r == blocked_by(name@, self.blocks(), self.allows()),
    {
        let v = text::to_chars(name.text.as_str());
        let t = text::trim_end_chars(v.as_slice(), Sep::Char('.'));
        let full = text::lower_chars(t.as_slice());
        let ghost d = match_text(name@);
        let n: usize = full.len();
        let mut blocked: bool = false;
        let mut i: usize = 0;
        while i < n
            invariant
                full@ == d,
                n == d.len(),
                d == match_text(name@),
                0 <= i <= n,
                blocked == exists|j: int|
                    0 <= j < i && #[trigger] suffix_at(d, j) && self.blocks().contains(d.skip(j)),
                forall|j: int|
                    0 <= j < i && #[trigger] suffix_at(d, j) ==> !self.allows().contains(d.skip(j)),
            decreases n - i,
        {
            if i == 0 || full[i - 1] == '.' {
                assert(suffix_at(d, i as int));
                let part = text::slice(full.as_slice(), i, n);
                assert(part@ =~= d.skip(i as int));
                let rest = text::from_chars(part.as_slice());
                if self.allow.contains(rest.as_str()) {
                    return false;
                }
                if self.block.contains(rest.as_str()) {
                    blocked = true;
                }
            } else {
                assert(!suffix_at(d, i as int));
            }
            i = i + 1;
        }
        blocked
    }

    /// Number of unique blocked domains.
    pub fn block_count(&self) -> (r: usize)
        ensures
            r == self.blocks().len(),
    {
        self.block.len()
    }

    /// Number of unique allowlist exceptions.
    pub fn allow_count(&self) -> (r: usize)
        ensures
            r == self.allows().len(),
    {
        self.allow.len()
    }

    /// Per-source stats.
    pub fn sources(&self) -> (r: &[SourceStat])
        ensures
            r@ == self.stats(),
    {
        self.sources.as_slice()
    }
}

/// The domains that some sources block, in order.
pub open spec fn all_blocks(f: Seq<Result<String, String>>) -> Set<Seq<char>>
    decreases f.len(),
{
    if f.len() == 0 {
        Set::empty()
    } else {
        all_blocks(f.drop_last()).union(set_of(source_blocks(f.last())))
    }
}

/// The domains that some sources allow.
pub open spec fn all_allows(f: Seq<Result<String, String>>) -> Set<Seq<char>>
    decreases f.len(),
{
    if f.len() == 0 {
        Set::empty()
    } else {
        all_allows(f.drop_last()).union(set_of(source_allows(f.last())))
    }
}

/// What was fetched, without the URLs.
pub open spec fn fetched_only(v: Seq<(String, Result<String, String>)>) -> Seq<
    Result<String, String>,
> {
    Seq::new(v.len(), |i: int| v[i].1)
}

/// Merges what was fetched from every configured URL into one blocklist. A source
/// that could not be fetched is skipped, and its stat says so.
pub fn load(fetched: Vec<(String, Result<String, String>)>) -> (r: Blocklist)
    ensures
        r.blocks() == all_blocks(fetched_only(fetched@)),
        r.allows() == all_allows(fetched_only(fetched@)),
        r.stats().len() == fetched@.len(),
        forall|i: int|
            0 <= i < fetched@.len() ==> stat_of(
                #[trigger] r.stats()[i],
                fetched@[i].0@,
                fetched@[i].1,
            ),
        r.blocks().len() <= contributed_blocks(r.stats()),
        r.allows().len() <= contributed_allows(r.stats()),
{
    let ghost f = fetched_only(fetched@);
    let mut bl = Blocklist::new();
    let mut i: usize = 0;
    while i < fetched.len()
        invariant
            f == fetched_only(fetched@),
            0 <= i <= fetched@.len(),
            bl.blocks() == all_blocks(f.take(i as int)),
            bl.allows() == all_allows(f.take(i as int)),
            bl.stats().len() == i,
            forall|j: int|
                0 <= j < i ==> stat_of(#[trigger] bl.stats()[j], fetched@[j].0@, fetched@[j].1),
        decreases fetched@.len() - i,
    {
        let url = fetched[i].0.clone();
        let got: Result<String, String> = match &fetched[i].1 {
            Ok(t) => Ok(t.clone()),
            Err(e) => Err(e.clone()),
        };
        let ghost before = bl.stats();
        bl.add_source(url, got);
        proof {
            assert(f.take(i + 1).drop_last() =~= f.take(i as int));
            assert forall|j: int| 0 <= j < i + 1 implies stat_of(
                #[trigger] bl.stats()[j],
                fetched@[j].0@,
                fetched@[j].1,
            ) by {
                if j < i {
                    assert(bl.stats().drop_last()[j] == before[j]);
                }
            }
        }
        i = i + 1;
    }
    proof {
        assert(f.take(fetched@.len() as int) =~= f);
        merging_adds_nothing(fetched@, bl.stats());
    }
    bl
}

// ---------------------------------------------------------------------------
// Laws
// ---------------------------------------------------------------------------

proof fn trim_end_keeps_last(s: Seq<char>, sep: Sep)
    ensures
        text::trim_end(s, sep).len() <= s.len(),
        text::trim_end(s, sep) == s.take(text::trim_end(s, sep).len() as int),
        text::trim_end(s, sep).len() > 0 ==> !text::separates(
            sep,
            text::trim_end(s, sep).last(),
        ),
    decreases s.len(),
{
    if s.len() > 0 && text::separates(sep, s.last()) {
        trim_end_keeps_last(s.drop_last(), sep);
        let t = text::trim_end(s.drop_last(), sep);
        assert(s.drop_last().take(t.len() as int) =~= s.take(t.len() as int));
    } else {
        assert(s.take(s.len() as int) =~= s);
    }
}

proof fn lower_commutes_with_trim(s: Seq<char>)
    ensures
        text::lower(text::trim_end(s, Sep::Char('.'))) == text::trim_end(
            text::lower(s),
            Sep::Char('.'),
        ),
    decreases s.len(),
{
    if s.len() > 0 {
        assert(text::lower(s).last() == text::lower_char(s.last()));
        assert(text::lower(s).drop_last() =~= text::lower(s.drop_last()));
        lower_commutes_with_trim(s.drop_last());
    }
}

/// A domain of the lists is in lower case, is not empty and does not end with a
/// dot, so that it is matched by its own text.
pub proof fn listed_domains_are_normal(s: Seq<char>)
    requires
        domain(s) is Some,
    ensures
        domain(s)->0.len() > 0,
        domain(s)->0.last() != '.',
        text::lower(domain(s)->0) == domain(s)->0,
        match_text(domain(s)->0) == domain(s)->0,
        match_text(domain(s)->0.push('.')) == domain(s)->0,
{
    let t = text::trim_end(text::trim(s), Sep::Char('.'));
    let d = text::lower(t);
    trim_end_keeps_last(text::trim(s), Sep::Char('.'));
    text::lower_is_idempotent(t);
    assert(d.last() == text::lower_char(t.last()));
    assert(d.push('.').drop_last() =~= d);
}

/// A domain character in lower case.
pub open spec fn normal_char(c: char) -> bool {
    domain_char(c) && !('A' <= c && c <= 'Z')
}

/// A normalized domain has a dot in it, is made of domain characters in lower case
/// and is no address, and normalizing it again gives it back.
pub proof fn normalizing_twice_changes_nothing(s: Seq<char>)
    requires
        domain(s) is Some,
    ensures
        domain(s)->0 == text::lower(text::trim_end(text::trim(s), Sep::Char('.'))),
        domain(s)->0.contains('.'),
        forall|i: int| 0 <= i < domain(s)->0.len() ==> normal_char(#[trigger] domain(s)->0[i]),
        !net::is_ip_text(domain(s)->0),
        domain(domain(s)->0) == domain(s),
{
    let t = text::trim_end(text::trim(s), Sep::Char('.'));
    let d = domain(s)->0;
    listed_domains_are_normal(s);
    assert forall|i: int| 0 <= i < d.len() implies normal_char(#[trigger] d[i]) by {
        assert(domain_char(t[i]));
    }
    let k = t.index_of('.');
    assert(d[k] == '.');
    if net::is_ip_text(d) {
        if d.contains(':') {
            let i = d.index_of(':');
            assert(normal_char(d[i]));
        }
        net::an_address_without_colons(d);
        assert forall|i: int| 0 <= i < d.len() implies d[i] == t[i] by {
            net::dotted_decimal_characters(d, i);
        }
        assert(d =~= t);
    }
    assert(normal_char(d[0]));
    assert(normal_char(d[d.len() - 1]));
    assert(text::trim(d) == d);
    assert forall|i: int| 0 <= i < d.len() implies domain_char(#[trigger] d[i]) by {
        assert(normal_char(d[i]));
    }
}

/// A listed domain blocks itself and every subdomain, unless an exception holds.
pub proof fn a_listed_domain_blocks_its_subdomains(
    d: Seq<char>,
    sub: Seq<char>,
    block: Set<Seq<char>>,
    allow: Set<Seq<char>>,
)
    requires
        block.contains(d),
        d.len() > 0,
        d.last() != '.',
        text::lower(d) == d,
    ensures
        suffix_in(match_text(d.push('.')), block),
        suffix_in(match_text(sub.push('.') + d.push('.')), block),
        !suffix_in(match_text(sub.push('.') + d.push('.')), allow) ==> blocked_by(
            sub.push('.') + d.push('.'),
            block,
            allow,
        ),
{
    reveal_with_fuel(text::trim_end, 3);
    let own = d.push('.');
    assert(own.drop_last() =~= d);
    assert(match_text(own) == d);
    assert(suffix_at(match_text(own), 0));
    assert(match_text(own).skip(0) =~= d);
    let name = sub.push('.') + own;
    let y = sub.push('.') + d;
    assert(name.drop_last() =~= y);
    assert(y.last() == d.last());
    let m = match_text(name);
    assert(m == text::lower(y));
    let i = sub.len() + 1;
    assert(m[i - 1] == '.');
    assert(suffix_at(m, i as int));
    assert(m.skip(i as int) =~= d) by {
        assert forall|k: int| 0 <= k < d.len() implies m.skip(i as int)[k] == d[k] by {
            assert(text::lower(d)[k] == text::lower_char(d[k]));
        }
    }
}

/// An exception for a name or for any of its parent domains wins over every block.
pub proof fn allow_beats_block(name: Seq<char>, block: Set<Seq<char>>, allow: Set<Seq<char>>)
    requires
        suffix_in(match_text(name), allow),
    ensures
        !blocked_by(name, block, allow),
{
}

/// An empty block set blocks nothing.
pub proof fn an_empty_blocklist_blocks_nothing(name: Seq<char>, allow: Set<Seq<char>>)
    ensures
        !blocked_by(name, Set::empty(), allow),
{
}

/// Names that differ in case alone are blocked alike.
pub proof fn blocking_ignores_case(
    a: Seq<char>,
    b: Seq<char>,
    block: Set<Seq<char>>,
    allow: Set<Seq<char>>,
)
    requires
        text::lower(a) == text::lower(b),
    ensures
        blocked_by(a, block, allow) == blocked_by(b, block, allow),
{
    lower_commutes_with_trim(a);
    lower_commutes_with_trim(b);
}

/// A source that failed changes neither set.
pub proof fn loading_fails_open(f: Seq<Result<String, String>>, why: String)
    ensures
        all_blocks(f.push(Err(why))) == all_blocks(f),
        all_allows(f.push(Err(why))) == all_allows(f),
{
    let g = f.push(Err(why));
    assert(g.drop_last() =~= f);
    let none = set_of(Seq::<Seq<char>>::empty());
    assert(none =~= Set::<Seq<char>>::empty());
    assert(all_blocks(f).union(none) =~= all_blocks(f));
    assert(all_allows(f).union(none) =~= all_allows(f));
}

/// How many block entries some sources contributed, before merging.
pub open spec fn contributed_blocks(stats: Seq<SourceStat>) -> nat
    decreases stats.len(),
{
    if stats.len() == 0 {
        0
    } else {
        contributed_blocks(stats.drop_last()) + stats.last().blocks as nat
    }
}

/// How many exceptions some sources contributed, before merging.
pub open spec fn contributed_allows(stats: Seq<SourceStat>) -> nat
    decreases stats.len(),
{
    if stats.len() == 0 {
        0
    } else {
        contributed_allows(stats.drop_last()) + stats.last().allows as nat
    }
}

proof fn a_union_is_no_longer(a: Set<Seq<char>>, v: Seq<Seq<char>>)
    requires
        a.finite(),
    ensures
        a.union(set_of(v)).finite(),
        a.union(set_of(v)).len() <= a.len() + v.len(),
    decreases v.len(),
{
    if v.len() == 0 {
        assert(a.union(set_of(v)) =~= a);
    } else {
        let d = v.drop_last();
        a_union_is_no_longer(a, d);
        let u = a.union(set_of(d));
        assert(v =~= d.push(v.last()));
        assert forall|x: Seq<char>| v.contains(x) <==> d.contains(x) || x == v.last() by {
            if d.contains(x) {
                let i = d.index_of(x);
                assert(v[i] == x);
            }
            if v.contains(x) {
                let i = v.index_of(x);
                if i < d.len() {
                    assert(d[i] == x);
                }
            }
            assert(v[v.len() - 1] == v.last());
        }
        assert(a.union(set_of(v)) =~= u.insert(v.last()));
    }
}

/// The merged sets have at most as many members as the sources contributed entries:
/// merging only ever drops repetitions. The stats are those of a load.
pub proof fn merging_adds_nothing(
    fetched: Seq<(String, Result<String, String>)>,
    stats: Seq<SourceStat>,
)
    requires
        stats.len() == fetched.len(),
        forall|i: int|
            0 <= i < fetched.len() ==> stat_of(
                #[trigger] stats[i],
                fetched[i].0@,
                fetched[i].1,
            ),
    ensures
        all_blocks(fetched_only(fetched)).finite(),
        all_blocks(fetched_only(fetched)).len() <= contributed_blocks(stats),
        all_allows(fetched_only(fetched)).finite(),
        all_allows(fetched_only(fetched)).len() <= contributed_allows(stats),
    decreases fetched.len(),
{
    if fetched.len() > 0 {
        let f = fetched_only(fetched);
        let d = fetched.drop_last();
        assert forall|i: int| 0 <= i < d.len() implies stat_of(
            #[trigger] stats.drop_last()[i],
            d[i].0@,
            d[i].1,
        ) by {
            assert(stat_of(stats[i], fetched[i].0@, fetched[i].1));
        }
        merging_adds_nothing(d, stats.drop_last());
        assert(f.drop_last() =~= fetched_only(d));
        assert(stat_of(
            stats[fetched.len() - 1],
            fetched[fetched.len() - 1].0@,
            fetched[fetched.len() - 1].1,
        ));
        a_union_is_no_longer(all_blocks(f.drop_last()), source_blocks(f.last()));
        a_union_is_no_longer(all_allows(f.drop_last()), source_allows(f.last()));
    }
}

proof fn more_sources_list_more(
    f: Seq<Result<String, String>>,
    g: Seq<Result<String, String>>,
    d: Seq<char>,
)
    requires
        forall|x: Result<String, String>| f.contains(x) ==> g.contains(x),
    ensures
        all_blocks(f).contains(d) ==> all_blocks(g).contains(d),
        all_allows(f).contains(d) ==> all_allows(g).contains(d),
{
    blocks_are_merged(f, d);
    blocks_are_merged(g, d);
    allows_are_merged(f, d);
    allows_are_merged(g, d);
    if all_blocks(f).contains(d) {
        let k = choose|k: int| 0 <= k < f.len() && source_blocks(#[trigger] f[k]).contains(d);
        assert(f.contains(f[k]));
        let m = g.index_of(f[k]);
        assert(source_blocks(g[m]).contains(d));
    }
    if all_allows(f).contains(d) {
        let k = choose|k: int| 0 <= k < f.len() && source_allows(#[trigger] f[k]).contains(d);
        assert(f.contains(f[k]));
        let m = g.index_of(f[k]);
        assert(source_allows(g[m]).contains(d));
    }
}

/// Lists of the same sources, in whatever order and however often each is listed,
/// give the same sets.
pub proof fn the_order_of_sources_does_not_matter(
    f: Seq<Result<String, String>>,
    g: Seq<Result<String, String>>,
)
    requires
        forall|x: Result<String, String>| f.contains(x) <==> g.contains(x),
    ensures
        all_blocks(f) == all_blocks(g),
        all_allows(f) == all_allows(g),
{
    assert forall|d: Seq<char>| all_blocks(f).contains(d) <==> all_blocks(g).contains(d) by {
        more_sources_list_more(f, g, d);
        more_sources_list_more(g, f, d);
    }
    assert forall|d: Seq<char>| all_allows(f).contains(d) <==> all_allows(g).contains(d) by {
        more_sources_list_more(f, g, d);
        more_sources_list_more(g, f, d);
    }
    assert(all_blocks(f) =~= all_blocks(g));
    assert(all_allows(f) =~= all_allows(g));
}

/// A source that is listed once more, wherever in the list, changes neither set.
pub proof fn a_repeated_source_changes_nothing(f: Seq<Result<String, String>>, i: int, j: int)
    requires
        0 <= i < f.len(),
        0 <= j <= f.len(),
    ensures
        all_blocks(f.insert(j, f[i])) == all_blocks(f),
        all_allows(f.insert(j, f[i])) == all_allows(f),
{
    let g = f.insert(j, f[i]);
    assert forall|x: Result<String, String>| f.contains(x) <==> g.contains(x) by {
        if f.contains(x) {
            let k = f.index_of(x);
            if k < j {
                assert(g[k] == x);
            } else {
                assert(g[k + 1] == x);
            }
        }
        if g.contains(x) {
            let k = g.index_of(x);
            if k < j {
                assert(f[k] == x);
            } else if k == j {
                assert(f[i] == x);
            } else {
                assert(f[k - 1] == x);
            }
        }
    }
    the_order_of_sources_does_not_matter(f, g);
}

/// The block set is the union of what the sources block, however often and in
/// whatever order they name a domain.
pub proof fn blocks_are_merged(f: Seq<Result<String, String>>, d: Seq<char>)
    ensures
        all_blocks(f).contains(d) <==> exists|i: int|
            0 <= i < f.len() && source_blocks(#[trigger] f[i]).contains(d),
    decreases f.len(),
{
    if f.len() > 0 {
        let g = f.drop_last();
        blocks_are_merged(g, d);
        let last = source_blocks(f.last());
        assert(set_of(last).contains(d) == last.contains(d));
        if all_blocks(g).contains(d) {
            let i = choose|i: int| 0 <= i < g.len() && source_blocks(#[trigger] g[i]).contains(d);
            assert(source_blocks(f[i]).contains(d));
        }
        if last.contains(d) {
            assert(source_blocks(f[f.len() - 1]).contains(d));
        }
        if exists|i: int| 0 <= i < f.len() && source_blocks(#[trigger] f[i]).contains(d) {
            let i = choose|i: int| 0 <= i < f.len() && source_blocks(#[trigger] f[i]).contains(d);
            if i < g.len() {
                assert(source_blocks(g[i]).contains(d));
            }
        }
    }
}

/// The allow set is the union of what the sources allow, however often and in
/// whatever order they name a domain.
pub proof fn allows_are_merged(f: Seq<Result<String, String>>, d: Seq<char>)
    ensures
        all_allows(f).contains(d) <==> exists|i: int|
            0 <= i < f.len() && source_allows(#[trigger] f[i]).contains(d),
    decreases f.len(),
{
    if f.len() > 0 {
        let g = f.drop_last();
        allows_are_merged(g, d);
        let last = source_allows(f.last());
        assert(set_of(last).contains(d) == last.contains(d));
        if all_allows(g).contains(d) {
            let i = choose|i: int| 0 <= i < g.len() && source_allows(#[trigger] g[i]).contains(d);
            assert(source_allows(f[i]).contains(d));
        }
        if last.contains(d) {
            assert(source_allows(f[f.len() - 1]).contains(d));
        }
        if exists|i: int| 0 <= i < f.len() && source_allows(#[trigger] f[i]).contains(d) {
            let i = choose|i: int| 0 <= i < f.len() && source_allows(#[trigger] f[i]).contains(d);
            if i < g.len() {
                assert(source_allows(g[i]).contains(d));
            }
        }
    }
}

} // verus!
