//! Hostname rewrites: from a CDN's hostname to its dual-stack variant.
//!
//! Each rewrite is stated on the labels of a name, in lower case and in their
//! normal order, and gives the labels of the new name where it applies.

use vstd::prelude::*;

use crate::dns;
use crate::dns::Name;
use crate::synth::{labels, tables};
use crate::text;
use crate::text::Sep;

verus! {

/// What labels a rewrite gives.
pub open spec fn gives(r: Option<Vec<String>>, l: Option<Seq<Seq<char>>>) -> bool {
    match r {
        Some(v) => l == Some(text::texts(v@)),
        None => l is None,
    }
}

/// What name a rewrite gives.
pub open spec fn names(r: Option<Name>, n: Option<Seq<char>>) -> bool {
    match r {
        Some(v) => n == Some(v@),
        None => n is None,
    }
}

fn named(l: Option<Vec<String>>) -> (r: Option<Name>)
    ensures
        l is Some ==> names(r, labels::rewritten(Some(text::texts(l->0@)))),
        l is None ==> r is None,
{
    match l {
        Some(v) => labels::name_from_labels(&v),
        None => None,
    }
}

// ---------------------------------------------------------------------------
// Akamai
// ---------------------------------------------------------------------------

/// `eXXX.akamaiedge.net` becomes `dsceXXX.akamaiedge.net`; the label `cj`
/// becomes `dscj`.
pub open spec fn akamai_form(l: Seq<Seq<char>>) -> Option<Seq<Seq<char>>> {
    let n = l.len() as int;
    if n >= 3 && l[n - 1] == "net"@ && (l[n - 2] == "akamaiedge"@ || l[n - 2] == "akamai"@) {
        Some(
            l.update(
                n - 3,
                if l[n - 3] == "cj"@ {
                    "ds"@ + l[n - 3]
                } else {
                    "dsc"@ + l[n - 3]
                },
            ),
        )
    } else {
        None
    }
}

/// The labels of the dual-stack variant of an Akamai hostname.
pub fn akamai_labels(l: Vec<String>) -> (r: Option<Vec<String>>)
    ensures
        gives(r, akamai_form(text::texts(l@))),
{
    let mut l = l;
    let n: usize = l.len();
    if n < 3 || !text::same(l[n - 1].as_str(), "net") || !(text::same(l[n - 2].as_str(), "akamaiedge") || text::same(
        l[n - 2].as_str(),
        "akamai",
    )) {
        return None;
    }
    let ghost before = text::texts(l@);
    let mut lab: String = if text::same(l[n - 3].as_str(), "cj") {
        text::copy("ds")
    } else {
        text::copy("dsc")
    };
    lab.append(l[n - 3].as_str());
    l[n - 3] = lab;
    assert(text::texts(l@) =~= akamai_form(before)->0);
    Some(l)
}

/// Akamai: the name of the dual-stack variant.
pub fn akamai_rewrite(name: &Name) -> (r: Option<Name>)
    ensures
        names(r, labels::rewritten(akamai_form(labels::name_labels(name@)))),
{
    named(akamai_labels(labels::labels(name)))
}

// ---------------------------------------------------------------------------
// AWS Global Accelerator
// ---------------------------------------------------------------------------

/// `dualstack` stands before the `awsglobalaccelerator` label.
pub open spec fn awsglb_form(l: Seq<Seq<char>>) -> Option<Seq<Seq<char>>> {
    let n = l.len() as int;
    if n < 2 || l[n - 1] != "com"@ || l[n - 2] != "awsglobalaccelerator"@ {
        None
    } else if n >= 3 && l[n - 3] == "dualstack"@ {
        Some(l)
    } else {
        Some(l.insert(n - 2, "dualstack"@))
    }
}

/// The labels of the dual-stack variant of a Global Accelerator hostname.
pub fn awsglb_labels(l: Vec<String>) -> (r: Option<Vec<String>>)
    ensures
        gives(r, awsglb_form(text::texts(l@))),
{
    let mut l = l;
    let n: usize = l.len();
    if n < 2 || !text::same(l[n - 1].as_str(), "com") || !text::same(
        l[n - 2].as_str(),
        "awsglobalaccelerator",
    ) {
        return None;
    }
    if n >= 3 && text::same(l[n - 3].as_str(), "dualstack") {
        return Some(l);
    }
    let ghost before = text::texts(l@);
    l.insert(n - 2, text::copy("dualstack"));
    assert(text::texts(l@) =~= before.insert(n - 2, "dualstack"@));
    Some(l)
}

/// AWS Global Accelerator: the name of the dual-stack variant.
pub fn awsglb_rewrite(name: &Name) -> (r: Option<Name>)
    ensures
        names(r, labels::rewritten(awsglb_form(labels::name_labels(name@)))),
{
    named(awsglb_labels(labels::labels(name)))
}

// ---------------------------------------------------------------------------
// Edgecast, Limelight, Azure Websites
// ---------------------------------------------------------------------------

/// The labels with `x` in place of the fourth from the end.
pub open spec fn fourth_last(l: Seq<Seq<char>>, x: Seq<char>) -> Seq<Seq<char>> {
    l.update(l.len() - 4, x)
}

/// `*.v0cdn.net`: the fourth label from the end becomes `cs21`.
pub open spec fn edgecast_form(l: Seq<Seq<char>>) -> Option<Seq<Seq<char>>> {
    let n = l.len() as int;
    if n >= 4 && l[n - 1] == "net"@ && l[n - 2] == "v0cdn"@ {
        Some(fourth_last(l, "cs21"@))
    } else {
        None
    }
}

/// The labels of the dual-stack variant of an Edgecast hostname.
pub fn edgecast_labels(l: Vec<String>) -> (r: Option<Vec<String>>)
    ensures
        gives(r, edgecast_form(text::texts(l@))),
{
    let mut l = l;
    let n: usize = l.len();
    if n < 4 || !text::same(l[n - 1].as_str(), "net") || !text::same(l[n - 2].as_str(), "v0cdn") {
        return None;
    }
    let ghost before = text::texts(l@);
    l[n - 4] = text::copy("cs21");
    assert(text::texts(l@) =~= fourth_last(before, "cs21"@));
    Some(l)
}

/// Edgecast: the name of the dual-stack variant.
pub fn edgecast_rewrite(name: &Name) -> (r: Option<Name>)
    ensures
        names(r, labels::rewritten(edgecast_form(labels::name_labels(name@)))),
{
    named(edgecast_labels(labels::labels(name)))
}

/// `*.llnwi.net`: the fourth label from the end becomes `msftstore`.
pub open spec fn limelight_form(l: Seq<Seq<char>>) -> Option<Seq<Seq<char>>> {
    let n = l.len() as int;
    if n >= 4 && l[n - 1] == "net"@ && l[n - 2] == "llnwi"@ {
        Some(fourth_last(l, "msftstore"@))
    } else {
        None
    }
}

/// The labels of the dual-stack variant of a Limelight hostname.
pub fn limelight_labels(l: Vec<String>) -> (r: Option<Vec<String>>)
    ensures
        gives(r, limelight_form(text::texts(l@))),
{
    let mut l = l;
    let n: usize = l.len();
    if n < 4 || !text::same(l[n - 1].as_str(), "net") || !text::same(l[n - 2].as_str(), "llnwi") {
        return None;
    }
    let ghost before = text::texts(l@);
    l[n - 4] = text::copy("msftstore");
    assert(text::texts(l@) =~= fourth_last(before, "msftstore"@));
    Some(l)
}

/// Limelight: the name of the dual-stack variant.
pub fn limelight_rewrite(name: &Name) -> (r: Option<Name>)
    ensures
        names(r, labels::rewritten(limelight_form(labels::name_labels(name@)))),
{
    named(limelight_labels(labels::labels(name)))
}

/// `*.azurewebsites.windows.net`: the fourth label from the end becomes
/// `sip-v4andv6`.
pub open spec fn azure_form(l: Seq<Seq<char>>) -> Option<Seq<Seq<char>>> {
    let n = l.len() as int;
    if n >= 4 && l[n - 1] == "net"@ && l[n - 2] == "windows"@ && l[n - 3] == "azurewebsites"@ {
        Some(fourth_last(l, "sip-v4andv6"@))
    } else {
        None
    }
}

/// The labels of the dual-stack variant of an Azure Websites hostname.
pub fn azure_labels(l: Vec<String>) -> (r: Option<Vec<String>>)
    ensures
        gives(r, azure_form(text::texts(l@))),
{
    let mut l = l;
    let n: usize = l.len();
    if n < 4 || !text::same(l[n - 1].as_str(), "net") || !text::same(l[n - 2].as_str(), "windows") || !text::same(
        l[n - 3].as_str(),
        "azurewebsites",
    ) {
        return None;
    }
    let ghost before = text::texts(l@);
    l[n - 4] = text::copy("sip-v4andv6");
    assert(text::texts(l@) =~= fourth_last(before, "sip-v4andv6"@));
    Some(l)
}

/// Azure Websites: the name of the dual-stack variant.
pub fn azure_rewrite(name: &Name) -> (r: Option<Name>)
    ensures
        names(r, labels::rewritten(azure_form(labels::name_labels(name@)))),
{
    named(azure_labels(labels::labels(name)))
}

// ---------------------------------------------------------------------------
// CacheFly
// ---------------------------------------------------------------------------

/// What follows an `r` at the front, or all of the text where there is none.
pub open spec fn behind_r(s: Seq<char>) -> Seq<char> {
    if s.len() > 0 && s[0] == 'r' {
        s.skip(1)
    } else {
        s
    }
}

/// An optional `r`, then `vip`, then one or more decimal digits.
pub open spec fn vip_label(s: Seq<char>) -> bool {
    let t = behind_r(s);
    &&& text::begins(t, "vip"@)
    &&& t.len() > "vip"@.len()
    &&& forall|i: int| "vip"@.len() <= i < t.len() ==> '0' <= #[trigger] t[i] && t[i] <= '9'
}

/// Whether a label is an optional `r`, then `vip`, then digits.
pub fn is_vip_label(s: &str) -> (r: bool)
    ensures
        r == vip_label(s@),
{
    let v = text::to_chars(s);
    let n: usize = v.len();
    let start: usize = if n > 0 && v[0] == 'r' {
        1
    } else {
        0
    };
    let t = text::slice(v.as_slice(), start, n);
    assert(t@ =~= behind_r(s@));
    proof {
        reveal_strlit("vip");
    }
    if !text::begins_with(t.as_slice(), "vip") || t.len() <= 3 {
        return false;
    }
    let mut i: usize = 3;
    while i < t.len()
        invariant
            t@ == behind_r(s@),
            "vip"@.len() == 3,
            3 <= i <= t@.len(),
            forall|j: int| 3 <= j < i ==> '0' <= #[trigger] t@[j] && t@[j] <= '9',
        decreases t@.len() - i,
    {
        if !('0' <= t[i] && t[i] <= '9') {
            assert(!('0' <= behind_r(s@)[i as int] && behind_r(s@)[i as int] <= '9'));
            return false;
        }
        i = i + 1;
    }
    true
}

/// `vipN.<middle>.cachefly.net` becomes `rvipN-dstack.<middle>.cachefly.net`,
/// with `g` for the middle `g-anycast1`.
pub open spec fn cachefly_form(l: Seq<Seq<char>>) -> Option<Seq<char>> {
    let n = l.len() as int;
    let middle = text::join(l.subrange(1, n - 2), '.');
    if n < 4 || l[n - 2] != "cachefly"@ || l[n - 1] != "net"@ || !vip_label(l[0]) || middle.len()
        == 0 {
        None
    } else {
        let first = if text::begins(l[0], "vip"@) {
            seq!['r'] + l[0]
        } else {
            l[0]
        };
        let mid = if middle == "g-anycast1"@ {
            "g"@
        } else {
            middle
        };
        Some(first + "-dstack."@ + mid + ".cachefly.net"@)
    }
}

/// The text of the dual-stack variant of a CacheFly hostname.
pub fn cachefly_text(l: &Vec<String>) -> (r: Option<String>)
    ensures
        match r {
            Some(t) => cachefly_form(text::texts(l@)) == Some(t@),
            None => cachefly_form(text::texts(l@)) is None,
        },
{
    let n: usize = l.len();
    if n < 4 || !text::same(l[n - 2].as_str(), "cachefly") || !text::same(l[n - 1].as_str(), "net") {
        return None;
    }
    assert(text::texts(l@)[0] == l@[0]@);
    if !is_vip_label(l[0].as_str()) {
        return None;
    }
    let between = labels::part(l, 1, n - 2);
    let middle = text::join_texts(&between, '.');
    if middle.as_str().is_empty() {
        return None;
    }
    let mut s: String = String::new();
    let head = text::to_chars(l[0].as_str());
    if text::begins_with(head.as_slice(), "vip") {
        s.push('r');
    }
    s.append(l[0].as_str());
    s.append("-dstack.");
    if text::same(middle.as_str(), "g-anycast1") {
        s.append("g");
    } else {
        s.append(middle.as_str());
    }
    s.append(".cachefly.net");
    assert(s@ =~= cachefly_form(text::texts(l@))->0);
    Some(s)
}

/// The name of a rewritten text, where there is one and it makes a name.
pub open spec fn renamed(t: Option<Seq<char>>) -> Option<Seq<char>> {
    match t {
        Some(s) => dns::ascii_name(labels::absolute(s)),
        None => None,
    }
}

/// CacheFly: the name of the dual-stack variant.
pub fn cachefly_rewrite(name: &Name) -> (r: Option<Name>)
    ensures
        names(r, renamed(cachefly_form(labels::name_labels(name@)))),
{
    let l = labels::labels(name);
    match cachefly_text(&l) {
        Some(t) => labels::parse_name(t.as_str()),
        None => None,
    }
}

// ---------------------------------------------------------------------------
// AWS S3
// ---------------------------------------------------------------------------

/// The labels of an S3 hostname from the last to the first, without a leading
/// `cn`.
pub open spec fn s3_reversed(l: Seq<Seq<char>>) -> Seq<Seq<char>> {
    if s3_china(l) {
        l.reverse().remove(0)
    } else {
        l.reverse()
    }
}

/// Whether the last label is `cn`.
pub open spec fn s3_china(l: Seq<Seq<char>>) -> bool {
    l.len() > 0 && l.last() == "cn"@
}

/// The reversed labels with the fifth one doubled where there are five.
pub open spec fn s3_padded(s: Seq<Seq<char>>) -> Seq<Seq<char>> {
    if s.len() == 5 {
        s.push(s[4])
    } else {
        s
    }
}

/// The middle of the S3 rewrite: from the reversed labels `s` of an endpoint to
/// those of its regional form, and whether a `cn` label is put back.
pub open spec fn s3_region(s: Seq<Seq<char>>, china: bool) -> Option<(Seq<Seq<char>>, bool)> {
    let p = s3_padded(s);
    let parts = text::split(s[2], Sep::Char('-'));
    if labels::index_of(s, "s3-accelerate"@) == 2 {
        Some((labels::put_in(p, 2, "dualstack"@), false))
    } else if labels::index_of(s, "s3-accesspoint"@) == 3 {
        Some((labels::left_out(p, 4), china))
    } else if labels::index_of(s, "s3-website"@) == 3 {
        Some((labels::left_out(p, 4), false))
    } else if labels::index_of(s, "console-l"@) == 2 {
        None
    } else if parts[0] == "s3"@ && (parts.len() == 3 || parts.len() == 2) && !china {
        if parts[1] == "1"@ {
            Some((labels::put_in(p, 2, "us-east-1"@).update(3, "s3-r-w"@), china))
        } else {
            Some((labels::put_in(p, 2, "us-east-1"@), china))
        }
    } else if labels::index_of(s, "s3"@) == 3 || labels::index_of(s, "s3-control"@) == 3 {
        Some((labels::left_out(p, 4), china))
    } else if parts[0] == "s3"@ && parts.len() > 1 && parts[1] == "website"@ {
        Some((labels::replaced(labels::replaced(p, 2, "us-east-1"@), 3, "s3-website"@), china))
    } else if parts.len() > 1 {
        if parts[0] != "s3"@ {
            None
        } else {
            let region = if parts.len() == 4 && !china {
                parts.remove(0)
            } else {
                parts
            };
            let q = labels::put_in(labels::left_out(p, 2), 2, text::join(region, '-'));
            if labels::index_of(s, "s3"@) == -1 {
                Some((labels::put_in(q, 3, "s3"@), china))
            } else {
                Some((q, china))
            }
        }
    } else if labels::index_of(s, "s3"@) == 2 && !china {
        Some((labels::put_in(p, 2, "us-east-1"@), china))
    } else {
        None
    }
}

/// The dual-stack variant of an S3 endpoint: `dualstack` behind the region, the
/// region `us-east-1` where the endpoint names none.
pub open spec fn s3_form(l: Seq<Seq<char>>) -> Option<Seq<Seq<char>>> {
    let s = s3_reversed(l);
    if labels::index_of(s, "amazonaws"@) != 1 || s.len() <= 2 || labels::index_of(s, "dualstack"@)
        == 3 {
        None
    } else {
        match s3_region(s, s3_china(l)) {
            Some((p, china)) => {
                let d = if p.len() > 2 && p[2] == "dualstack"@ {
                    p
                } else {
                    labels::put_in(p, 3, "dualstack"@)
                };
                let e = if china {
                    labels::put_in(d, 0, "cn"@)
                } else {
                    d
                };
                Some(e.reverse())
            },
            None => None,
        }
    }
}

/// What a list of strings and a flag say of the middle of the S3 rewrite.
pub open spec fn gives_region(
    r: Option<(Vec<String>, bool)>,
    l: Option<(Seq<Seq<char>>, bool)>,
) -> bool {
    match r {
        Some((v, china)) => l == Some((text::texts(v@), china)),
        None => l is None,
    }
}

fn s3_regional(s: Vec<String>, china: bool) -> (r: Option<(Vec<String>, bool)>)
    requires
        s@.len() > 2,
    ensures
        gives_region(r, s3_region(text::texts(s@), china)),
{
    let ghost before = text::texts(s@);
    let mut s = s;
    let s3 = labels::position(&s, "s3");
    let control = labels::first_at(&s, "s3-control", 3);
    let accelerate = labels::first_at(&s, "s3-accelerate", 2);
    let accesspoint = labels::first_at(&s, "s3-accesspoint", 3);
    let website = labels::first_at(&s, "s3-website", 3);
    let console = labels::first_at(&s, "console-l", 2);
    let parts = labels::hyphen_parts(s[2].as_str());
    assert(text::texts(parts@).len() == parts@.len());
    let k: usize = parts.len();
    if s.len() == 5 {
        let v = s[4].clone();
        s.push(v);
    }
    assert(text::texts(s@) =~= s3_padded(before));
    let s3_first = same_at(&parts, 0, "s3");
    if accelerate {
        labels::splice_insert(&mut s, 2, "dualstack");
        Some((s, false))
    } else if accesspoint {
        labels::splice_remove(&mut s, 4);
        Some((s, china))
    } else if website {
        labels::splice_remove(&mut s, 4);
        Some((s, false))
    } else if console {
        None
    } else if s3_first && (k == 3 || k == 2) && !china {
        labels::splice_insert(&mut s, 2, "us-east-1");
        assert(text::texts(s@).len() == s@.len());
        if same_at(&parts, 1, "1") {
            let ghost mid = text::texts(s@);
            s[3] = text::copy("s3-r-w");
            assert(text::texts(s@) =~= mid.update(3, "s3-r-w"@));
        }
        Some((s, china))
    } else if s3 == Some(3usize) || control {
        labels::splice_remove(&mut s, 4);
        Some((s, china))
    } else if s3_first && same_at(&parts, 1, "website") {
        labels::splice_replace(&mut s, 2, "us-east-1");
        labels::splice_replace(&mut s, 3, "s3-website");
        Some((s, china))
    } else if k > 1 {
        if !s3_first {
            return None;
        }
        labels::splice_remove(&mut s, 2);
        let mut region = parts;
        if k == 4 && !china {
            region.remove(0);
            assert(text::texts(region@) =~= text::texts(parts@).remove(0));
        }
        let joined = text::join_texts(&region, '-');
        labels::splice_insert(&mut s, 2, joined.as_str());
        if s3.is_none() {
            labels::splice_insert(&mut s, 3, "s3");
        }
        Some((s, china))
    } else if s3 == Some(2usize) && !china {
        labels::splice_insert(&mut s, 2, "us-east-1");
        Some((s, china))
    } else {
        None
    }
}

/// Whether the list has the text `t` at place `i`.
fn same_at(v: &Vec<String>, i: usize, t: &str) -> (r: bool)
    ensures
        r == (i < v@.len() && text::texts(v@)[i as int] == t@),
{
    i < v.len() && text::same(v[i].as_str(), t)
}

/// The labels of the dual-stack variant of an S3 hostname.
pub fn s3_labels(l: &Vec<String>) -> (r: Option<Vec<String>>)
    ensures
        gives(r, s3_form(text::texts(l@))),
{
    let n: usize = l.len();
    let china: bool = n > 0 && text::same(l[n - 1].as_str(), "cn");
    let mut s = labels::reversed(l);
    let ghost whole = text::texts(s@);
    assert(whole.len() == s@.len());
    if china {
        s.remove(0);
    }
    assert(text::texts(s@) =~= s3_reversed(text::texts(l@)));
    if !labels::first_at(&s, "amazonaws", 1) || s.len() <= 2 || labels::first_at(
        &s,
        "dualstack",
        3,
    ) {
        return None;
    }
    match s3_regional(s, china) {
        Some((p, back)) => {
            let mut p = p;
            if !same_at(&p, 2, "dualstack") {
                labels::splice_insert(&mut p, 3, "dualstack");
            }
            if back {
                labels::splice_insert(&mut p, 0, "cn");
            }
            Some(labels::reversed(&p))
        },
        None => None,
    }
}

/// AWS S3: the name of the dual-stack variant.
pub fn s3_rewrite(name: &Name) -> (r: Option<Name>)
    ensures
        names(r, labels::rewritten(s3_form(labels::name_labels(name@)))),
{
    let l = labels::labels(name);
    named(s3_labels(&l))
}

// ---------------------------------------------------------------------------
// Alibaba OSS
// ---------------------------------------------------------------------------

/// Whether reversed labels are those of an Alibaba endpoint: a name under one of
/// the two zones, not the zone itself.
pub open spec fn oss_endpoint(s: Seq<Seq<char>>) -> bool {
    s.len() > 2 && labels::index_of(s, "com"@) == 0 && (labels::index_of(s, "aliyuncs"@) == 1 || labels::index_of(
        s,
        "aliyun-inc"@,
    ) == 1)
}

/// The reversed labels with the zone `aliyun-inc` written `aliyuncs`.
pub open spec fn oss_zone(s: Seq<Seq<char>>) -> Seq<Seq<char>> {
    if labels::index_of(s, "aliyun-inc"@) == 1 {
        s.update(1, "aliyuncs"@)
    } else {
        s
    }
}

/// The place of the label that names the region.
pub open spec fn oss_place(s: Seq<Seq<char>>) -> int {
    if labels::index_of(s, "oss"@) == 2 && s.len() > 3 {
        3
    } else {
        2
    }
}

/// The hyphenated parts of the region, from the parts of its label.
pub open spec fn oss_parts(s: Seq<Seq<char>>) -> Seq<Seq<char>> {
    let parts = text::split(s[oss_place(s)], Sep::Char('-'));
    let bare = if labels::index_of(parts, "oss"@) == 0 {
        parts.remove(0)
    } else {
        parts
    };
    if labels::index_of(s, "oss"@) == 2 && !tables::listed(
        tables::OSS_REGIONS@,
        text::join(bare, '-'),
    ) {
        labels::set_at(labels::set_at(bare, 0, "cn"@), 1, "hangzhou"@)
    } else {
        bare
    }
}

/// The region-prefixed `*.oss.aliyuncs.com` form of an Alibaba endpoint.
pub open spec fn oss_form(l: Seq<Seq<char>>) -> Option<Seq<Seq<char>>> {
    if !oss_endpoint(l.reverse()) {
        None
    } else {
        let s = oss_zone(l.reverse());
        let place = oss_place(s);
        let parts = oss_parts(s);
        let t = if s.len() == 4 && labels::index_of(s, "oss"@) < 0 {
            labels::left_out(s, 3)
        } else {
            s
        };
        let u = if parts.len() > 0 {
            labels::replaced(t, place, text::join(parts, '-'))
        } else {
            labels::left_out(t, 2)
        };
        let v = if labels::index_of(text::split(s[place], Sep::Char('-')), "oss"@) == 0 {
            labels::put_in(u, 2, "oss"@)
        } else {
            u
        };
        Some(v.reverse())
    }
}

/// The labels of the region-prefixed form of an Alibaba hostname.
pub fn oss_labels(l: &Vec<String>) -> (r: Option<Vec<String>>)
    ensures
        gives(r, oss_form(text::texts(l@))),
{
    let mut s = labels::reversed(l);
    let ghost whole = text::texts(s@);
    let com = labels::first_at(&s, "com", 0);
    let aliyuncs = labels::first_at(&s, "aliyuncs", 1);
    let inc = labels::first_at(&s, "aliyun-inc", 1);
    proof {
        labels::index_of_is_first(whole, "com"@);
        labels::index_of_is_first(whole, "aliyuncs"@);
        labels::index_of_is_first(whole, "aliyun-inc"@);
        assert(whole.len() == s@.len());
        assert(whole.len() == text::texts(l@).len());
    }
    if !(s.len() > 2 && com && (aliyuncs || inc)) {
        return None;
    }
    if inc {
        s[1] = text::copy("aliyuncs");
    }
    let ghost z = oss_zone(whole);
    assert(text::texts(s@) =~= z);
    let n: usize = s.len();
    let oss = labels::position(&s, "oss");
    let place: usize = if oss == Some(2usize) && n > 3 {
        3
    } else {
        2
    };
    assert(z[place as int] == s@[place as int]@);
    let mut parts = labels::hyphen_parts(s[place].as_str());
    let ghost raw = text::texts(parts@);
    let bare = labels::first_at(&parts, "oss", 0);
    if n == 4 && oss.is_none() {
        labels::splice_remove(&mut s, 3);
    }
    if bare {
        parts.remove(0);
        assert(text::texts(parts@) =~= raw.remove(0));
    }
    let region = text::join_texts(&parts, '-');
    if oss == Some(2usize) && !tables::oss_region(region.as_str()) {
        labels::set_ext(&mut parts, 0, "cn");
        labels::set_ext(&mut parts, 1, "hangzhou");
    }
    assert(text::texts(parts@) == oss_parts(z));
    assert(text::texts(parts@).len() == parts@.len());
    if parts.len() > 0 {
        let joined = text::join_texts(&parts, '-');
        labels::splice_replace(&mut s, place, joined.as_str());
    } else {
        labels::splice_remove(&mut s, 2);
    }
    if bare {
        labels::splice_insert(&mut s, 2, "oss");
    }
    Some(labels::reversed(&s))
}

/// Alibaba OSS: the name of the region-prefixed form.
pub fn oss_rewrite(name: &Name) -> (r: Option<Name>)
    ensures
        names(r, labels::rewritten(oss_form(labels::name_labels(name@)))),
{
    let l = labels::labels(name);
    named(oss_labels(&l))
}

// ---------------------------------------------------------------------------
// Oracle Object Storage
// ---------------------------------------------------------------------------

/// The two zones of Oracle's endpoints.
pub enum OracleZone {
    /// `oraclecloud.com`
    Cloud,
    /// `oci.customer-oci.com`
    Customer,
}

/// The labels of a zone.
pub open spec fn zone_labels(z: OracleZone) -> Seq<Seq<char>> {
    match z {
        OracleZone::Cloud => seq!["oraclecloud"@, "com"@],
        OracleZone::Customer => seq!["oci"@, "customer-oci"@, "com"@],
    }
}

/// The zone that labels end with, if it is one of the two.
pub open spec fn oracle_zone(l: Seq<Seq<char>>) -> Option<OracleZone> {
    if labels::ends(l, zone_labels(OracleZone::Cloud)) {
        Some(OracleZone::Cloud)
    } else if labels::ends(l, zone_labels(OracleZone::Customer)) {
        Some(OracleZone::Customer)
    } else {
        None
    }
}

/// Whether a label is one of the storage services.
pub open spec fn oracle_service(s: Seq<char>) -> bool {
    s == "objectstorage"@ || s == "swiftobjectstorage"@
}

/// The labels in front of `ds` and the zone, from those in front of the zone
/// without a `ds`; and whether the zone becomes the customer one whatever it was.
pub open spec fn oracle_body(b: Seq<Seq<char>>) -> Option<(Seq<Seq<char>>, bool)> {
    if b.len() == 2 && oracle_service(b[0]) {
        Some((b, false))
    } else if b.len() == 3 && b[0] == "compat"@ && b[1] == "objectstorage"@ {
        Some((b.skip(1), true))
    } else if b.len() == 3 && oracle_service(b[1]) {
        Some((b, false))
    } else if b.len() == 4 && b[1] == "compat"@ && b[2] == "objectstorage"@ {
        Some((b, false))
    } else {
        None
    }
}

/// The `ds` form of an Oracle Object Storage endpoint: native, S3-compatible or
/// Swift, in either zone.
pub open spec fn oracle_form(l: Seq<Seq<char>>) -> Option<Seq<Seq<char>>> {
    match oracle_zone(l) {
        Some(z) => {
            let front = l.take(l.len() - zone_labels(z).len());
            let ds = front.len() > 0 && front.last() == "ds"@;
            let body = if ds {
                front.drop_last()
            } else {
                front
            };
            if front.len() < 2 {
                None
            } else {
                match oracle_body(body) {
                    Some((b, customer)) => {
                        let zone = if customer || (z is Cloud && !ds) {
                            zone_labels(OracleZone::Customer)
                        } else {
                            zone_labels(z)
                        };
                        Some(b.push("ds"@) + zone)
                    },
                    None => None,
                }
            }
        },
        None => None,
    }
}

fn is_oracle_service(s: &str) -> (r: bool)
    ensures
        r == oracle_service(s@),
{
    text::same(s, "objectstorage") || text::same(s, "swiftobjectstorage")
}

fn push_zone(v: &mut Vec<String>, customer: bool)
    ensures
        text::texts(final(v)@) == text::texts(old(v)@) + zone_labels(
            if customer {
                OracleZone::Customer
            } else {
                OracleZone::Cloud
            },
        ),
{
    if customer {
        v.push(text::copy("oci"));
        v.push(text::copy("customer-oci"));
        v.push(text::copy("com"));
        assert(text::texts(v@) =~= text::texts(old(v)@) + zone_labels(OracleZone::Customer));
    } else {
        v.push(text::copy("oraclecloud"));
        v.push(text::copy("com"));
        assert(text::texts(v@) =~= text::texts(old(v)@) + zone_labels(OracleZone::Cloud));
    }
}

/// The labels of the `ds` form of an Oracle Object Storage hostname.
pub fn oracle_labels(l: &Vec<String>) -> (r: Option<Vec<String>>)
    ensures
        gives(r, oracle_form(text::texts(l@))),
{
    let n: usize = l.len();
    let cloud = labels::labels_end_with(l.as_slice(), &["oraclecloud", "com"]);
    let customer = labels::labels_end_with(l.as_slice(), &["oci", "customer-oci", "com"]);
    let ghost t = text::texts(l@);
    proof {
        assert(labels::strs(["oraclecloud", "com"]@) =~= zone_labels(OracleZone::Cloud));
        assert(labels::strs(["oci", "customer-oci", "com"]@) =~= zone_labels(OracleZone::Customer));
    }
    if !cloud && !customer {
        return None;
    }
    let k: usize = if cloud {
        n - 2
    } else {
        n - 3
    };
    let mut b = labels::part(l, 0, k);
    assert(text::texts(b@) =~= t.take(k as int));
    let ghost front = t.take(k as int);
    assert(front.len() == b@.len());
    if b.len() < 2 {
        return None;
    }
    let ds = text::same(b[b.len() - 1].as_str(), "ds");
    if ds {
        b.pop();
        assert(text::texts(b@) =~= front.drop_last());
    }
    let ghost body = text::texts(b@);
    assert(body.len() == b@.len());
    let m: usize = b.len();
    let mut to_customer: bool = !cloud || !ds;
    if m == 2 && is_oracle_service(b[0].as_str()) {
    } else if m == 3 && text::same(b[0].as_str(), "compat") && text::same(
        b[1].as_str(),
        "objectstorage",
    ) {
        b.remove(0);
        assert(text::texts(b@) =~= body.skip(1));
        to_customer = true;
    } else if m == 3 && is_oracle_service(b[1].as_str()) {
    } else if m == 4 && text::same(b[1].as_str(), "compat") && text::same(
        b[2].as_str(),
        "objectstorage",
    ) {
    } else {
        return None;
    }
    let ghost kept = text::texts(b@);
    b.push(text::copy("ds"));
    assert(text::texts(b@) =~= kept.push("ds"@));
    push_zone(&mut b, to_customer);
    Some(b)
}

/// The text of the `ds` form of an Oracle Object Storage endpoint.
pub open spec fn oracle_text(l: Seq<Seq<char>>) -> Option<Seq<char>> {
    match oracle_form(l) {
        Some(p) => Some(text::join(p, '.')),
        None => None,
    }
}

/// Labels that are all plain.
pub open spec fn all_plain(l: Seq<Seq<char>>) -> bool {
    forall|i: int| 0 <= i < l.len() ==> dns::plain_label(#[trigger] l[i])
}

proof fn oracle_form_is_plain(l: Seq<Seq<char>>)
    requires
        all_plain(l),
        text::lower_each(l) == l,
        oracle_form(l) is Some,
    ensures
        all_plain(oracle_form(l)->0),
        text::lower_each(oracle_form(l)->0) == oracle_form(l)->0,
{
    reveal_strlit("ds");
    reveal_strlit("oci");
    reveal_strlit("customer-oci");
    reveal_strlit("com");
    reveal_strlit("oraclecloud");
    assert(dns::plain_label("ds"@) && text::lower("ds"@) =~= "ds"@);
    assert(dns::plain_label("oci"@) && text::lower("oci"@) =~= "oci"@);
    assert(dns::plain_label("customer-oci"@) && text::lower("customer-oci"@) =~= "customer-oci"@);
    assert(dns::plain_label("com"@) && text::lower("com"@) =~= "com"@);
    assert(dns::plain_label("oraclecloud"@) && text::lower("oraclecloud"@) =~= "oraclecloud"@);
    let e = oracle_form(l)->0;
    let (b, _) = oracle_body(oracle_front(l))->0;
    assert forall|i: int| 0 <= i < e.len() implies dns::plain_label(#[trigger] e[i])
        && text::lower(e[i]) == e[i] by {
        if i < b.len() {
            assert(e[i] == b[i]);
            let j = if b == oracle_front(l) {
                i
            } else {
                i + 1
            };
            assert(b[i] == l[j]);
            assert(text::lower_each(l)[j] == text::lower(l[j]));
        }
    }
    assert(text::lower_each(e) =~= e);
}

proof fn nonempty_keeps_all(p: Seq<Seq<char>>)
    requires
        forall|i: int| 0 <= i < p.len() ==> (#[trigger] p[i]).len() > 0,
    ensures
        text::nonempty(p) == p,
    decreases p.len(),
{
    if p.len() > 0 {
        let d = p.drop_last();
        assert forall|i: int| 0 <= i < d.len() implies (#[trigger] d[i]).len() > 0 by {
            assert(d[i] == p[i]);
        }
        nonempty_keeps_all(d);
        assert(p[p.len() - 1].len() > 0);
        assert(d.push(p.last()) =~= p);
    }
}

/// The labels of the name that plain labels in lower case make are these labels.
pub proof fn plain_labels_come_back(l: Seq<Seq<char>>)
    requires
        l.len() >= 1,
        all_plain(l),
        text::lower_each(l) == l,
        text::join(l, '.').len() <= 253,
    ensures
        labels::absolute(text::join(l, '.')) == labels::joined(l),
        dns::plain_name(labels::joined(l)),
        labels::name_labels(labels::joined(l)) == l,
{
    let s = text::join(l, '.');
    labels::plain_labels_make_a_name(s, l);
    assert forall|i: int, j: int| 0 <= i < l.len() && 0 <= j < l[i].len() implies l[i][j]
        != '.' by {
        assert(dns::plain_label(l[i]));
        assert(dns::label_char(l[i][j], j == 0));
    }
    text::split_undoes_join(l, '.');
    let t = text::trim_end(s, Sep::Char('.'));
    assert(t.push('.').drop_last() =~= t);
    assert(s.push('.').drop_last() =~= s);
    assert(t == s);
    assert forall|i: int| 0 <= i < l.len() implies (#[trigger] l[i]).len() > 0 by {
        assert(dns::plain_label(l[i]));
    }
    nonempty_keeps_all(l);
}

/// Oracle Object Storage: the name of the `ds` form. For plain labels, within the
/// length of a name, it is the form as it stands, and its own `ds` form.
pub fn oracle_rewrite(name: &Name) -> (r: Option<Name>)
    ensures
        names(r, renamed(oracle_text(labels::name_labels(name@)))),
        oracle_form(labels::name_labels(name@)) is Some && all_plain(labels::name_labels(name@))
            && oracle_text(labels::name_labels(name@))->0.len() <= 253 ==> {
            &&& r matches Some(m)
            &&& labels::name_labels(m@) == oracle_form(labels::name_labels(name@))->0
            &&& m@ == labels::joined(oracle_form(labels::name_labels(name@))->0)
            &&& renamed(oracle_text(labels::name_labels(m@))) == Some(m@)
        },
{
    let l = labels::labels(name);
    proof {
        let t = labels::name_labels(name@);
        if oracle_form(t) is Some && all_plain(t) && oracle_text(t)->0.len() <= 253 {
            let p = text::tokens(text::trim_end(name@, Sep::Char('.')), Sep::Char('.'));
            assert(text::lower_each(t) =~= t) by {
                assert forall|i: int| 0 <= i < t.len() implies text::lower(t[i]) == t[i] by {
                    text::lower_is_idempotent(p[i]);
                }
            }
            oracle_form_is_plain(t);
            plain_labels_come_back(oracle_form(t)->0);
            an_oracle_variant_is_final(t);
        }
    }
    match oracle_labels(&l) {
        Some(p) => {
            let t = text::join_texts(&p, '.');
            labels::parse_name(t.as_str())
        },
        None => None,
    }
}

// ---------------------------------------------------------------------------
// All rewrites
// ---------------------------------------------------------------------------

/// The rewrites that need no more than a hostname.
#[derive(Debug, Clone, Copy, PartialEq, Eq, Structural)]
pub enum Rewrite {
    Akamai,
    S3,
    Oss,
    Oracle,
    Awsglb,
    Edgecast,
    Limelight,
    Azure,
}

/// The name that a rewrite gives for a hostname.
pub open spec fn target(k: Rewrite, name: Seq<char>) -> Option<Seq<char>> {
    let l = labels::name_labels(name);
    match k {
        Rewrite::Akamai => labels::rewritten(akamai_form(l)),
        Rewrite::S3 => labels::rewritten(s3_form(l)),
        Rewrite::Oss => labels::rewritten(oss_form(l)),
        Rewrite::Oracle => renamed(oracle_text(l)),
        Rewrite::Awsglb => labels::rewritten(awsglb_form(l)),
        Rewrite::Edgecast => labels::rewritten(edgecast_form(l)),
        Rewrite::Limelight => labels::rewritten(limelight_form(l)),
        Rewrite::Azure => labels::rewritten(azure_form(l)),
    }
}

impl Rewrite {
    /// The name that this rewrite gives for a hostname.
    pub fn apply(&self, name: &Name) -> (r: Option<Name>)
        ensures
            names(r, target(*self, name@)),
    {
        match self {
            Rewrite::Akamai => akamai_rewrite(name),
            Rewrite::S3 => s3_rewrite(name),
            Rewrite::Oss => oss_rewrite(name),
            Rewrite::Oracle => oracle_rewrite(name),
            Rewrite::Awsglb => awsglb_rewrite(name),
            Rewrite::Edgecast => edgecast_rewrite(name),
            Rewrite::Limelight => limelight_rewrite(name),
            Rewrite::Azure => azure_rewrite(name),
        }
    }
}

/// The variants of Global Accelerator, Edgecast, Limelight and Azure Websites are
/// final: rewriting one again changes nothing.
pub proof fn a_variant_is_final(l: Seq<Seq<char>>)
    ensures
        awsglb_form(l) matches Some(e) ==> awsglb_form(e) == Some(e),
        edgecast_form(l) matches Some(e) ==> edgecast_form(e) == Some(e),
        limelight_form(l) matches Some(e) ==> limelight_form(e) == Some(e),
        azure_form(l) matches Some(e) ==> azure_form(e) == Some(e),
{
    if edgecast_form(l) is Some {
        let e = edgecast_form(l)->0;
        assert(fourth_last(e, "cs21"@) =~= e);
    }
    if limelight_form(l) is Some {
        let e = limelight_form(l)->0;
        assert(fourth_last(e, "msftstore"@) =~= e);
    }
    if azure_form(l) is Some {
        let e = azure_form(l)->0;
        assert(fourth_last(e, "sip-v4andv6"@) =~= e);
    }
}

/// The labels of an Oracle hostname in front of its zone, without a `ds` there.
pub open spec fn oracle_front(l: Seq<Seq<char>>) -> Seq<Seq<char>> {
    let front = l.take(l.len() - zone_labels(oracle_zone(l)->0).len());
    if front.len() > 0 && front.last() == "ds"@ {
        front.drop_last()
    } else {
        front
    }
}

/// A zone with `ds` in front of it.
pub open spec fn ds_zone(z: OracleZone) -> Seq<Seq<char>> {
    seq!["ds"@] + zone_labels(z)
}

/// The variant of an Oracle endpoint is final: rewriting it again changes nothing.
/// It ends with a zone that has `ds` in front, which is `oraclecloud.com` only where
/// the endpoint ended so already. The labels in front of that, the service and the
/// region, are those of the endpoint.
pub proof fn an_oracle_variant_is_final(l: Seq<Seq<char>>)
    requires
        oracle_form(l) is Some,
    ensures
        oracle_form(oracle_form(l)->0) == oracle_form(l),
        labels::ends(oracle_form(l)->0, ds_zone(OracleZone::Customer)) || labels::ends(
            oracle_form(l)->0,
            ds_zone(OracleZone::Cloud),
        ),
        labels::ends(oracle_form(l)->0, ds_zone(OracleZone::Cloud)) ==> labels::ends(
            l,
            ds_zone(OracleZone::Cloud),
        ),
        2 <= oracle_front(oracle_form(l)->0).len() <= oracle_front(l).len(),
        labels::ends(
            oracle_front(l),
            oracle_front(oracle_form(l)->0).skip(oracle_front(oracle_form(l)->0).len() - 2),
        ),
{
    reveal_strlit("oraclecloud");
    reveal_strlit("customer-oci");
    assert("customer-oci"@.len() != "oraclecloud"@.len());
    let e = oracle_form(l)->0;
    let z = oracle_zone(l)->0;
    let body = oracle_front(l);
    let (b, customer) = oracle_body(body)->0;
    let front = l.take(l.len() - zone_labels(z).len());
    let ds = front.len() > 0 && front.last() == "ds"@;
    let to = if customer || (z is Cloud && !ds) {
        OracleZone::Customer
    } else {
        z
    };
    let n = e.len() as int;
    let k = zone_labels(to).len() as int;
    assert(e == b.push("ds"@) + zone_labels(to));
    assert(e.skip(n - k) =~= zone_labels(to));
    assert(e.skip(n - k - 1) =~= ds_zone(to));
    assert(e.take(n - k) =~= b.push("ds"@));
    assert(b.push("ds"@).drop_last() =~= b);
    if to is Customer {
        assert(e[n - 2] == "customer-oci"@);
        assert(!labels::ends(e, zone_labels(OracleZone::Cloud))) by {
            let cloud = zone_labels(OracleZone::Cloud);
            assert(cloud.len() == 2 && cloud[0] == "oraclecloud"@);
            assert(e.skip(n - 2)[0] == e[n - 2]);
            assert(e.skip(e.len() - cloud.len())[0] != cloud[0]);
        }
        assert(!labels::ends(e, ds_zone(OracleZone::Cloud))) by {
            let cloud = ds_zone(OracleZone::Cloud);
            assert(cloud.len() == 3 && cloud[1] == "oraclecloud"@);
            assert(e.skip(n - 3)[1] == e[n - 2]);
        }
    } else {
        assert(ds);
        assert(l.skip(l.len() - 3) =~= ds_zone(OracleZone::Cloud)) by {
            assert(l.skip(l.len() - 2) == zone_labels(OracleZone::Cloud));
            assert(l[l.len() - 2] == l.skip(l.len() - 2)[0]);
            assert(l[l.len() - 1] == l.skip(l.len() - 2)[1]);
            assert(front.last() == l[l.len() - 3]);
        }
    }
    assert(oracle_zone(e) == Some(to));
    assert(oracle_front(e) == b);
    assert(oracle_body(b) == Some((b, false)));
    assert(b.skip(b.len() - 2) =~= body.skip(body.len() - 2));
}

/// An S3 endpoint that has `dualstack` behind its region is left alone.
pub proof fn a_dual_stack_endpoint_is_left_alone(l: Seq<Seq<char>>)
    requires
        labels::index_of(s3_reversed(l), "dualstack"@) == 3,
    ensures
        s3_form(l) is None,
{
}

} // verus!
