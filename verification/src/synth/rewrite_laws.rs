//! What the hostname rewrites make of the endpoints of each provider, label by
//! label, for all the labels in front.

use vstd::prelude::*;

use crate::dns;
use crate::synth::{labels, rewrite, tables};
use crate::synth::rewrite::Rewrite;
use crate::text;
use crate::text::Sep;
use crate::text_laws;

verus! {

// ---------------------------------------------------------------------------
// Labels
// ---------------------------------------------------------------------------

proof fn tokens_without_trailing_dots(s: Seq<char>)
    ensures
        text::tokens(text::trim_end(s, Sep::Char('.')), Sep::Char('.')) == text::tokens(
            s,
            Sep::Char('.'),
        ),
    decreases s.len(),
{
    let sep = Sep::Char('.');
    if s.len() > 0 && s.last() == '.' {
        let d = s.drop_last();
        tokens_without_trailing_dots(d);
        let none = Seq::<char>::empty();
        text_laws::tokens_are_parted(d, '.', none, sep);
        text_laws::a_word_is_a_token(none, sep);
        assert(d.push('.') + none =~= s);
        assert(text::tokens(s, sep) =~= text::tokens(d, sep));
    }
}

/// The labels of a name are those in front of a dot, then those behind it, each in
/// lower case; a text without a dot is one label.
pub proof fn labels_are_parted_by_dots(a: Seq<char>, b: Seq<char>, x: Seq<char>)
    requires
        x.len() > 0,
        !x.contains('.'),
    ensures
        labels::name_labels(a.push('.') + b) == labels::name_labels(a) + labels::name_labels(b),
        labels::name_labels(x) == seq![text::lower(x)],
        labels::name_labels(Seq::empty()).len() == 0,
{
    let sep = Sep::Char('.');
    let s = a.push('.') + b;
    tokens_without_trailing_dots(s);
    tokens_without_trailing_dots(a);
    tokens_without_trailing_dots(b);
    tokens_without_trailing_dots(x);
    tokens_without_trailing_dots(Seq::empty());
    text_laws::tokens_are_parted(a, '.', b, sep);
    assert forall|i: int| 0 <= i < x.len() implies !text::separates(sep, #[trigger] x[i]) by {
        assert(x.contains(x[i]));
    }
    text_laws::a_word_is_a_token(x, sep);
    text_laws::a_word_is_a_token(Seq::empty(), sep);
    assert(labels::name_labels(s) =~= labels::name_labels(a) + labels::name_labels(b));
    assert(labels::name_labels(x) =~= seq![text::lower(x)]);
}

/// The name of some labels has each of them with a dot behind it.
pub proof fn a_name_is_its_labels_with_dots(x: Seq<char>, l: Seq<Seq<char>>)
    ensures
        labels::joined(seq![x]) == x.push('.'),
        l.len() > 0 ==> labels::joined(seq![x] + l) == x.push('.') + labels::joined(l),
{
    text_laws::join_from_the_front(x, l, '.');
    if l.len() > 0 {
        assert(labels::joined(seq![x] + l) =~= x.push('.') + labels::joined(l));
    }
}

/// Labels end with others exactly where these stand behind some labels.
pub proof fn ending_means_something_in_front(a: Seq<Seq<char>>, b: Seq<Seq<char>>)
    ensures
        labels::ends(a, b) <==> exists|f: Seq<Seq<char>>| a == #[trigger] (f + b),
{
    if labels::ends(a, b) {
        let f = a.take(a.len() - b.len());
        assert(a =~= f + b);
    }
    if exists|f: Seq<Seq<char>>| a == #[trigger] (f + b) {
        let f = choose|f: Seq<Seq<char>>| a == #[trigger] (f + b);
        assert(a.skip(a.len() - b.len()) =~= b);
    }
}

/// The absolute form of a text has exactly one dot at its end.
pub proof fn an_absolute_text_ends_with_one_dot(s: Seq<char>, dots: Seq<char>)
    requires
        s.len() > 0,
        s.last() != '.',
        forall|i: int| 0 <= i < dots.len() ==> #[trigger] dots[i] == '.',
    ensures
        labels::absolute(s + dots) == s.push('.'),
{
    text_laws::trim_end_leaves_the_core(s, dots, Sep::Char('.'));
}

// ---------------------------------------------------------------------------
// Akamai
// ---------------------------------------------------------------------------

/// The label next to an Akamai zone gets the prefix `dsc`, or `ds` where it is `cj`;
/// all labels in front of it are kept.
pub proof fn akamai_prefixes_the_label_next_to_the_zone(
    f: Seq<Seq<char>>,
    x: Seq<char>,
    z: Seq<char>,
)
    requires
        z == "akamaiedge"@ || z == "akamai"@,
    ensures
        x != "cj"@ ==> rewrite::akamai_form(f + seq![x, z, "net"@]) == Some(
            f + seq!["dsc"@ + x, z, "net"@],
        ),
        x == "cj"@ ==> rewrite::akamai_form(f + seq![x, z, "net"@]) == Some(
            f + seq!["ds"@ + x, z, "net"@],
        ),
{
    let l = f + seq![x, z, "net"@];
    let p = if x == "cj"@ {
        "ds"@ + x
    } else {
        "dsc"@ + x
    };
    assert(rewrite::akamai_form(l)->0 =~= f + seq![p, z, "net"@]);
}

/// Akamai rewrites nothing but names under its two zones.
pub proof fn akamai_rewrites_its_zones_only(l: Seq<Seq<char>>)
    requires
        rewrite::akamai_form(l) is Some,
    ensures
        l.len() >= 3,
        labels::ends(l, seq!["akamaiedge"@, "net"@]) || labels::ends(l, seq!["akamai"@, "net"@]),
{
    let n = l.len() as int;
    assert(l.skip(n - 2) =~= seq![l[n - 2], "net"@]);
}

// ---------------------------------------------------------------------------
// Global Accelerator, Edgecast, Limelight, Azure
// ---------------------------------------------------------------------------

/// `dualstack` is put between the labels in front and the Global Accelerator zone,
/// unless it stands there.
pub proof fn awsglb_puts_dualstack_before_the_zone(f: Seq<Seq<char>>)
    ensures
        !(f.len() > 0 && f.last() == "dualstack"@) ==> rewrite::awsglb_form(
            f + seq!["awsglobalaccelerator"@, "com"@],
        ) == Some(f + seq!["dualstack"@, "awsglobalaccelerator"@, "com"@]),
        f.len() > 0 && f.last() == "dualstack"@ ==> rewrite::awsglb_form(
            f + seq!["awsglobalaccelerator"@, "com"@],
        ) == Some(f + seq!["awsglobalaccelerator"@, "com"@]),
{
    let l = f + seq!["awsglobalaccelerator"@, "com"@];
    let n = l.len() as int;
    assert(l[n - 1] == "com"@ && l[n - 2] == "awsglobalaccelerator"@);
    if f.len() > 0 {
        assert(l[n - 3] == f.last());
    }
    assert(l.insert(n - 2, "dualstack"@) =~= f + seq![
        "dualstack"@,
        "awsglobalaccelerator"@,
        "com"@,
    ]);
}

/// Edgecast and Limelight replace the second label in front of the zone, and Azure
/// the label in front of its zone; every other label is kept.
pub proof fn one_label_is_replaced(f: Seq<Seq<char>>, a: Seq<char>, b: Seq<char>)
    ensures
        rewrite::edgecast_form(f + seq![a, b, "v0cdn"@, "net"@]) == Some(
            f + seq!["cs21"@, b, "v0cdn"@, "net"@],
        ),
        rewrite::limelight_form(f + seq![a, b, "llnwi"@, "net"@]) == Some(
            f + seq!["msftstore"@, b, "llnwi"@, "net"@],
        ),
        rewrite::azure_form(f + seq![a, "azurewebsites"@, "windows"@, "net"@]) == Some(
            f + seq!["sip-v4andv6"@, "azurewebsites"@, "windows"@, "net"@],
        ),
{
    let e = f + seq![a, b, "v0cdn"@, "net"@];
    assert(rewrite::edgecast_form(e)->0 =~= f + seq!["cs21"@, b, "v0cdn"@, "net"@]);
    let m = f + seq![a, b, "llnwi"@, "net"@];
    assert(rewrite::limelight_form(m)->0 =~= f + seq!["msftstore"@, b, "llnwi"@, "net"@]);
    let z = f + seq![a, "azurewebsites"@, "windows"@, "net"@];
    assert(rewrite::azure_form(z)->0 =~= f + seq![
        "sip-v4andv6"@,
        "azurewebsites"@,
        "windows"@,
        "net"@,
    ]);
}

/// These rewrites apply under their zones only.
pub proof fn zones_are_required(l: Seq<Seq<char>>)
    ensures
        rewrite::awsglb_form(l) is Some ==> labels::ends(
            l,
            seq!["awsglobalaccelerator"@, "com"@],
        ),
        rewrite::edgecast_form(l) is Some ==> labels::ends(l, seq!["v0cdn"@, "net"@]),
        rewrite::limelight_form(l) is Some ==> labels::ends(l, seq!["llnwi"@, "net"@]),
        rewrite::azure_form(l) is Some ==> labels::ends(
            l,
            seq!["azurewebsites"@, "windows"@, "net"@],
        ),
        rewrite::s3_form(l) is Some ==> l.contains("amazonaws"@),
        rewrite::oracle_form(l) is Some ==> labels::ends(l, seq!["oraclecloud"@, "com"@])
            || labels::ends(l, seq!["oci"@, "customer-oci"@, "com"@]),
{
    let n = l.len() as int;
    if rewrite::awsglb_form(l) is Some {
        assert(l.skip(n - 2) =~= seq!["awsglobalaccelerator"@, "com"@]);
    }
    if rewrite::edgecast_form(l) is Some {
        assert(l.skip(n - 2) =~= seq!["v0cdn"@, "net"@]);
    }
    if rewrite::limelight_form(l) is Some {
        assert(l.skip(n - 2) =~= seq!["llnwi"@, "net"@]);
    }
    if rewrite::azure_form(l) is Some {
        assert(l.skip(n - 3) =~= seq!["azurewebsites"@, "windows"@, "net"@]);
    }
    if rewrite::s3_form(l) is Some {
        let s = rewrite::s3_reversed(l);
        labels::index_of_is_first(s, "amazonaws"@);
        let r = l.reverse();
        if rewrite::s3_china(l) {
            assert(s[1] == r[2]);
            assert(l[n - 3] == "amazonaws"@);
        } else {
            assert(s[1] == r[1]);
            assert(l[n - 2] == "amazonaws"@);
        }
    }
}

// ---------------------------------------------------------------------------
// CacheFly
// ---------------------------------------------------------------------------

/// A text of one or more decimal digits.
pub open spec fn digits(d: Seq<char>) -> bool {
    d.len() > 0 && forall|i: int| 0 <= i < d.len() ==> '0' <= #[trigger] d[i] && d[i] <= '9'
}

/// `vipN` and `rvipN` in front of some labels and the CacheFly zone become
/// `rvipN-dstack` in front of these labels, where `g-anycast1` alone becomes `g`.
pub proof fn cachefly_gets_dstack(d: Seq<char>, m: Seq<Seq<char>>)
    requires
        digits(d),
        m.len() > 0,
        text::join(m, '.').len() > 0,
    ensures
        ({
            let middle = if text::join(m, '.') == "g-anycast1"@ {
                "g"@
            } else {
                text::join(m, '.')
            };
            let to = "rvip"@ + d + "-dstack."@ + middle + ".cachefly.net"@;
            &&& rewrite::cachefly_form(seq!["vip"@ + d] + m + seq!["cachefly"@, "net"@]) == Some(to)
            &&& rewrite::cachefly_form(seq!["rvip"@ + d] + m + seq!["cachefly"@, "net"@]) == Some(
                to,
            )
        }),
{
    reveal_strlit("vip");
    reveal_strlit("rvip");
    let v = "vip"@ + d;
    let r = "rvip"@ + d;
    let a = seq![v] + m + seq!["cachefly"@, "net"@];
    let b = seq![r] + m + seq!["cachefly"@, "net"@];
    assert(a.subrange(1, a.len() - 2) =~= m);
    assert(b.subrange(1, b.len() - 2) =~= m);
    assert(v.take(3) =~= "vip"@);
    assert(r.skip(1) =~= v);
    assert(seq!['r'] + v =~= r);
    assert(!text::begins(r, "vip"@)) by {
        if text::begins(r, "vip"@) {
            assert(r.take(3)[0] == r[0]);
        }
    }
    assert forall|i: int| 3 <= i < v.len() implies '0' <= #[trigger] v[i] && v[i] <= '9' by {
        assert(v[i] == d[i - 3]);
    }
    assert(rewrite::vip_label(v));
    assert(rewrite::vip_label(r));
}

// ---------------------------------------------------------------------------
// First places
// ---------------------------------------------------------------------------

/// The place of a text with none of it in front.
pub proof fn place_is(s: Seq<Seq<char>>, t: Seq<char>, k: int)
    requires
        0 <= k < s.len(),
        s[k] == t,
        forall|j: int| 0 <= j < k ==> s[j] != t,
    ensures
        labels::index_of(s, t) == k,
{
    labels::index_of_is_first(s, t);
}

/// A text that a list does not have has no place in it.
pub proof fn place_is_none(s: Seq<Seq<char>>, t: Seq<char>)
    requires
        forall|j: int| 0 <= j < s.len() ==> s[j] != t,
    ensures
        labels::index_of(s, t) == -1,
{
    labels::index_of_is_first(s, t);
}

/// The first place of a text in a list is where it stands with none of it in front.
pub proof fn the_first_place_has_none_in_front(
    a: Seq<Seq<char>>,
    t: Seq<char>,
    b: Seq<Seq<char>>,
)
    requires
        !a.contains(t),
    ensures
        labels::index_of(a.push(t) + b, t) == a.len(),
        labels::index_of(a, t) == -1,
{
    let s = a.push(t) + b;
    assert forall|j: int| 0 <= j < a.len() implies s[j] != t && a[j] != t by {
        assert(a.contains(a[j]));
    }
    place_is(s, t, a.len() as int);
    place_is_none(a, t);
}

// ---------------------------------------------------------------------------
// S3
// ---------------------------------------------------------------------------

/// A label that is none of those that tell the kind of an S3 endpoint.
pub open spec fn ordinary(x: Seq<char>) -> bool {
    &&& x != "s3"@
    &&& x != "s3-control"@
    &&& x != "s3-accelerate"@
    &&& x != "s3-accesspoint"@
    &&& x != "s3-website"@
    &&& x != "console-l"@
    &&& x != "dualstack"@
    &&& x != "amazonaws"@
}

/// The words of S3 endpoints differ from one another.
pub proof fn s3_words_differ()
    ensures
        ordinary("com"@),
        ordinary("cn"@),
        ordinary("us-east-1"@),
        "s3"@ != "s3-control"@,
        "s3"@ != "s3-accelerate"@,
        "s3"@ != "s3-accesspoint"@,
        "s3"@ != "s3-website"@,
        "s3"@ != "console-l"@,
        "s3"@ != "dualstack"@,
        "s3"@ != "amazonaws"@,
        "amazonaws"@ != "s3-control"@,
        "amazonaws"@ != "s3-accelerate"@,
        "amazonaws"@ != "s3-accesspoint"@,
        "amazonaws"@ != "s3-website"@,
        "amazonaws"@ != "console-l"@,
        "amazonaws"@ != "dualstack"@,
        "s3-accelerate"@ != "s3-control"@,
        "s3-accelerate"@ != "s3-accesspoint"@,
        "s3-accelerate"@ != "s3-website"@,
        "s3-accelerate"@ != "dualstack"@,
        "s3-accelerate"@ != "console-l"@,
        "s3-accesspoint"@ != "s3-website"@,
        "s3-accesspoint"@ != "s3-accelerate"@,
        "s3-accesspoint"@ != "dualstack"@,
        "s3-control"@ != "s3-website"@,
        "s3-control"@ != "s3-accesspoint"@,
        "s3-control"@ != "dualstack"@,
        "s3-website"@ != "dualstack"@,
        "cn"@ != "com"@,
{
    reveal_strlit("com");
    reveal_strlit("cn");
    reveal_strlit("us-east-1");
    reveal_strlit("s3");
    reveal_strlit("s3-control");
    reveal_strlit("s3-accelerate");
    reveal_strlit("s3-accesspoint");
    reveal_strlit("s3-website");
    reveal_strlit("console-l");
    reveal_strlit("dualstack");
    reveal_strlit("amazonaws");
    assert("s3"@.len() != "s3-control"@.len());
    assert("s3"@.len() != "s3-accelerate"@.len());
    assert("s3"@.len() != "s3-accesspoint"@.len());
    assert("s3"@.len() != "s3-website"@.len());
    assert("s3"@.len() != "console-l"@.len());
    assert("s3"@.len() != "dualstack"@.len());
    assert("s3"@.len() != "amazonaws"@.len());
    assert("amazonaws"@.len() != "s3-control"@.len());
    assert("amazonaws"@.len() != "s3-accelerate"@.len());
    assert("amazonaws"@.len() != "s3-accesspoint"@.len());
    assert("amazonaws"@.len() != "s3-website"@.len());
    assert("amazonaws"@[0] != "console-l"@[0]);
    assert("amazonaws"@[0] != "dualstack"@[0]);
    assert("s3-accelerate"@.len() != "s3-control"@.len());
    assert("s3-accelerate"@.len() != "s3-accesspoint"@.len());
    assert("s3-accelerate"@.len() != "s3-website"@.len());
    assert("s3-accelerate"@.len() != "dualstack"@.len());
    assert("s3-accesspoint"@.len() != "s3-website"@.len());
    assert("s3-accesspoint"@.len() != "s3-accelerate"@.len());
    assert("s3-accesspoint"@.len() != "dualstack"@.len());
    assert("s3-control"@[3] != "s3-website"@[3]);
    assert("s3-control"@.len() != "s3-accesspoint"@.len());
    assert("s3-control"@.len() != "dualstack"@.len());
    assert("s3-website"@.len() != "dualstack"@.len());
    assert("cn"@.len() != "com"@.len());
    assert("com"@.len() != "s3"@.len());
    assert("com"@.len() != "s3-control"@.len());
    assert("com"@.len() != "s3-accelerate"@.len());
    assert("com"@.len() != "s3-accesspoint"@.len());
    assert("com"@.len() != "s3-website"@.len());
    assert("com"@.len() != "console-l"@.len());
    assert("com"@.len() != "dualstack"@.len());
    assert("com"@.len() != "amazonaws"@.len());
    assert("cn"@[0] != "s3"@[0]);
    assert("cn"@.len() != "s3-control"@.len());
    assert("cn"@.len() != "s3-accelerate"@.len());
    assert("cn"@.len() != "s3-accesspoint"@.len());
    assert("cn"@.len() != "s3-website"@.len());
    assert("cn"@.len() != "console-l"@.len());
    assert("cn"@.len() != "dualstack"@.len());
    assert("cn"@.len() != "amazonaws"@.len());
    assert("us-east-1"@.len() != "s3"@.len());
    assert("us-east-1"@.len() != "s3-control"@.len());
    assert("us-east-1"@.len() != "s3-accelerate"@.len());
    assert("us-east-1"@.len() != "s3-accesspoint"@.len());
    assert("us-east-1"@.len() != "s3-website"@.len());
    assert("us-east-1"@[0] != "console-l"@[0]);
    assert("us-east-1"@[0] != "dualstack"@[0]);
    assert("us-east-1"@[0] != "amazonaws"@[0]);
    assert("s3-accelerate"@.len() != "console-l"@.len());
}

/// A regional S3 endpoint, with a bucket of one label or without, gets `dualstack`
/// between `s3` and its region; in China too.
pub proof fn a_regional_s3_endpoint(bucket: Seq<char>, region: Seq<char>)
    requires
        ordinary(bucket),
        ordinary(region),
        text::split(region, Sep::Char('-'))[0] != "s3"@,
    ensures
        rewrite::s3_form(seq!["s3"@, region, "amazonaws"@, "com"@]) == Some(
            seq!["s3"@, "dualstack"@, region, "amazonaws"@, "com"@],
        ),
        rewrite::s3_form(seq![bucket, "s3"@, region, "amazonaws"@, "com"@]) == Some(
            seq![bucket, "s3"@, "dualstack"@, region, "amazonaws"@, "com"@],
        ),
        rewrite::s3_form(seq![bucket, "s3"@, region, "amazonaws"@, "com"@, "cn"@]) == Some(
            seq![bucket, "s3"@, "dualstack"@, region, "amazonaws"@, "com"@, "cn"@],
        ),
{
    s3_words_differ();
    text_laws::split_is_not_empty(region, Sep::Char('-'));
    let a = seq!["s3"@, region, "amazonaws"@, "com"@];
    let ra = seq!["com"@, "amazonaws"@, region, "s3"@];
    assert(a.reverse() =~= ra);
    kinds_of_regional(ra);
    let pa = seq!["com"@, "amazonaws"@, region, "dualstack"@, "s3"@];
    assert(labels::put_in(ra, 3, "dualstack"@) =~= pa);
    assert(pa.reverse() =~= seq!["s3"@, "dualstack"@, region, "amazonaws"@, "com"@]);
    let b = seq![bucket, "s3"@, region, "amazonaws"@, "com"@];
    let rb = seq!["com"@, "amazonaws"@, region, "s3"@, bucket];
    assert(b.reverse() =~= rb);
    kinds_of_regional(rb);
    assert(labels::left_out(rewrite::s3_padded(rb), 4) =~= rb);
    let pb = seq!["com"@, "amazonaws"@, region, "dualstack"@, "s3"@, bucket];
    assert(labels::put_in(rb, 3, "dualstack"@) =~= pb);
    assert(pb.reverse() =~= seq![bucket, "s3"@, "dualstack"@, region, "amazonaws"@, "com"@]);
    let c = seq![bucket, "s3"@, region, "amazonaws"@, "com"@, "cn"@];
    assert(c.reverse().remove(0) =~= rb);
    let pc = seq!["cn"@, "com"@, "amazonaws"@, region, "dualstack"@, "s3"@, bucket];
    assert(labels::put_in(pb, 0, "cn"@) =~= pc);
    assert(pc.reverse() =~= seq![
        bucket,
        "s3"@,
        "dualstack"@,
        region,
        "amazonaws"@,
        "com"@,
        "cn"@,
    ]);
}

proof fn kinds_of_regional(s: Seq<Seq<char>>)
    requires
        s.len() == 4 || s.len() == 5 && ordinary(s[4]),
        s[0] == "com"@,
        s[1] == "amazonaws"@,
        ordinary(s[2]),
        s[3] == "s3"@,
    ensures
        labels::index_of(s, "amazonaws"@) == 1,
        labels::index_of(s, "s3"@) == 3,
        labels::index_of(s, "dualstack"@) == -1,
        labels::index_of(s, "s3-accelerate"@) == -1,
        labels::index_of(s, "s3-accesspoint"@) == -1,
        labels::index_of(s, "s3-website"@) == -1,
        labels::index_of(s, "s3-control"@) == -1,
        labels::index_of(s, "console-l"@) == -1,
{
    s3_words_differ();
    place_is(s, "amazonaws"@, 1);
    place_is(s, "s3"@, 3);
    place_is_none(s, "dualstack"@);
    place_is_none(s, "s3-accelerate"@);
    place_is_none(s, "s3-accesspoint"@);
    place_is_none(s, "s3-website"@);
    place_is_none(s, "s3-control"@);
    place_is_none(s, "console-l"@);
}

/// What an endpoint is by its third label from the end.
pub proof fn kinds_by_the_third(s: Seq<Seq<char>>, x: Seq<char>)
    requires
        s.len() == 3 || s.len() == 4 && ordinary(s[3]),
        s[0] == "com"@,
        s[1] == "amazonaws"@,
        s[2] == x,
        x == "s3"@ || x == "s3-accelerate"@ || ordinary(x),
    ensures
        labels::index_of(s, "amazonaws"@) == 1,
        labels::index_of(s, "s3"@) == (if x == "s3"@ { 2int } else { -1int }),
        labels::index_of(s, "dualstack"@) == -1,
        labels::index_of(s, "s3-accelerate"@) == (if x == "s3-accelerate"@ { 2int } else { -1int }),
        labels::index_of(s, "s3-accesspoint"@) == -1,
        labels::index_of(s, "s3-website"@) == -1,
        labels::index_of(s, "s3-control"@) == -1,
        labels::index_of(s, "console-l"@) == -1,
{
    s3_words_differ();
    place_is(s, "amazonaws"@, 1);
    if x == "s3"@ {
        place_is(s, "s3"@, 2);
    } else {
        place_is_none(s, "s3"@);
    }
    if x == "s3-accelerate"@ {
        place_is(s, "s3-accelerate"@, 2);
    } else {
        place_is_none(s, "s3-accelerate"@);
    }
    place_is_none(s, "dualstack"@);
    place_is_none(s, "s3-accesspoint"@);
    place_is_none(s, "s3-website"@);
    place_is_none(s, "s3-control"@);
    place_is_none(s, "console-l"@);
}

/// An S3 endpoint that names no region is one of `us-east-1`.
pub proof fn a_global_s3_endpoint(bucket: Seq<char>)
    requires
        ordinary(bucket),
    ensures
        rewrite::s3_form(seq!["s3"@, "amazonaws"@, "com"@]) == Some(
            seq!["s3"@, "dualstack"@, "us-east-1"@, "amazonaws"@, "com"@],
        ),
        rewrite::s3_form(seq![bucket, "s3"@, "amazonaws"@, "com"@]) == Some(
            seq![bucket, "s3"@, "dualstack"@, "us-east-1"@, "amazonaws"@, "com"@],
        ),
{
    s3_words_differ();
    let sep = Sep::Char('-');
    reveal_strlit("s3");
    assert forall|i: int| 0 <= i < "s3"@.len() implies !text::separates(
        sep,
        #[trigger] "s3"@[i],
    ) by {}
    text_laws::split_of_a_piece("s3"@, sep);
    let a = seq!["s3"@, "amazonaws"@, "com"@];
    let ra = seq!["com"@, "amazonaws"@, "s3"@];
    assert(a.reverse() =~= ra);
    kinds_by_the_third(ra, "s3"@);
    let qa = seq!["com"@, "amazonaws"@, "us-east-1"@, "s3"@];
    assert(labels::put_in(ra, 2, "us-east-1"@) =~= qa);
    let pa = seq!["com"@, "amazonaws"@, "us-east-1"@, "dualstack"@, "s3"@];
    assert(labels::put_in(qa, 3, "dualstack"@) =~= pa);
    assert(pa.reverse() =~= seq!["s3"@, "dualstack"@, "us-east-1"@, "amazonaws"@, "com"@]);
    let b = seq![bucket, "s3"@, "amazonaws"@, "com"@];
    let rb = seq!["com"@, "amazonaws"@, "s3"@, bucket];
    assert(b.reverse() =~= rb);
    kinds_by_the_third(rb, "s3"@);
    let qb = seq!["com"@, "amazonaws"@, "us-east-1"@, "s3"@, bucket];
    assert(labels::put_in(rb, 2, "us-east-1"@) =~= qb);
    let pb = seq!["com"@, "amazonaws"@, "us-east-1"@, "dualstack"@, "s3"@, bucket];
    assert(labels::put_in(qb, 3, "dualstack"@) =~= pb);
    assert(pb.reverse() =~= seq![
        bucket,
        "s3"@,
        "dualstack"@,
        "us-east-1"@,
        "amazonaws"@,
        "com"@,
    ]);
}

/// The accelerate endpoint of a bucket gets `dualstack` behind it.
pub proof fn an_accelerate_s3_endpoint(bucket: Seq<char>)
    requires
        ordinary(bucket),
    ensures
        rewrite::s3_form(seq![bucket, "s3-accelerate"@, "amazonaws"@, "com"@]) == Some(
            seq![bucket, "s3-accelerate"@, "dualstack"@, "amazonaws"@, "com"@],
        ),
{
    s3_words_differ();
    let b = seq![bucket, "s3-accelerate"@, "amazonaws"@, "com"@];
    let rb = seq!["com"@, "amazonaws"@, "s3-accelerate"@, bucket];
    assert(b.reverse() =~= rb);
    kinds_by_the_third(rb, "s3-accelerate"@);
    let qb = seq!["com"@, "amazonaws"@, "dualstack"@, "s3-accelerate"@, bucket];
    assert(labels::put_in(rb, 2, "dualstack"@) =~= qb);
    assert(qb.reverse() =~= seq![bucket, "s3-accelerate"@, "dualstack"@, "amazonaws"@, "com"@]);
}

/// A text without a hyphen.
pub open spec fn unhyphened(x: Seq<char>) -> bool {
    forall|i: int| 0 <= i < x.len() ==> #[trigger] x[i] != '-'
}

/// The parts of a text between hyphens, and the text again.
pub proof fn parts_of_three(a: Seq<char>, b: Seq<char>, c: Seq<char>)
    requires
        unhyphened(a),
        unhyphened(b),
        unhyphened(c),
    ensures
        text::split(a.push('-') + (b.push('-') + c), Sep::Char('-')) == seq![a, b, c],
        text::join(seq![a, b, c], '-') == a.push('-') + (b.push('-') + c),
        text::split(a.push('-') + b, Sep::Char('-')) == seq![a, b],
        text::join(seq![a, b], '-') == a.push('-') + b,
{
    let sep = Sep::Char('-');
    text_laws::split_of_a_piece(a, sep);
    text_laws::split_of_a_piece(b, sep);
    text_laws::split_of_a_piece(c, sep);
    text_laws::split_cuts_at_a_separator(b, '-', c, sep);
    text_laws::split_cuts_at_a_separator(a, '-', b, sep);
    text_laws::split_cuts_at_a_separator(a, '-', b.push('-') + c, sep);
    assert(seq![b] + seq![c] =~= seq![b, c]);
    assert(seq![a] + seq![b] =~= seq![a, b]);
    assert(seq![a] + seq![b, c] =~= seq![a, b, c]);
    text_laws::join_from_the_front(c, Seq::empty(), '-');
    text_laws::join_from_the_front(b, seq![c], '-');
    text_laws::join_from_the_front(b, Seq::empty(), '-');
    text_laws::join_from_the_front(a, seq![b], '-');
    text_laws::join_from_the_front(a, seq![b, c], '-');
}

/// An S3 endpoint that names its region behind a hyphen, such as
/// `bucket.s3-eu-west-1.amazonaws.com`, becomes the regional one.
pub proof fn a_hyphened_s3_endpoint(
    bucket: Seq<char>,
    a: Seq<char>,
    b: Seq<char>,
    c: Seq<char>,
)
    requires
        ordinary(bucket),
        unhyphened(a),
        unhyphened(b),
        unhyphened(c),
        a != "website"@,
        ordinary("s3-"@ + (a.push('-') + (b.push('-') + c))),
        a.push('-') + (b.push('-') + c) != "dualstack"@,
    ensures
        rewrite::s3_form(
            seq![bucket, "s3-"@ + (a.push('-') + (b.push('-') + c)), "amazonaws"@, "com"@],
        ) == Some(
            seq![
                bucket,
                "s3"@,
                "dualstack"@,
                a.push('-') + (b.push('-') + c),
                "amazonaws"@,
                "com"@,
            ],
        ),
{
    s3_words_differ();
    reveal_strlit("s3");
    reveal_strlit("s3-");
    let sep = Sep::Char('-');
    let region = a.push('-') + (b.push('-') + c);
    let x = "s3-"@ + region;
    parts_of_three(a, b, c);
    assert forall|i: int| 0 <= i < "s3"@.len() implies !text::separates(
        sep,
        #[trigger] "s3"@[i],
    ) by {}
    text_laws::split_of_a_piece("s3"@, sep);
    text_laws::split_cuts_at_a_separator("s3"@, '-', region, sep);
    assert("s3"@.push('-') + region =~= x);
    let parts = seq!["s3"@, a, b, c];
    assert(seq!["s3"@] + seq![a, b, c] =~= parts);
    assert(parts.remove(0) =~= seq![a, b, c]);
    let l = seq![bucket, x, "amazonaws"@, "com"@];
    let s = seq!["com"@, "amazonaws"@, x, bucket];
    assert(l.reverse() =~= s);
    kinds_by_the_third(s, x);
    assert(labels::left_out(s, 2) =~= seq!["com"@, "amazonaws"@, bucket]);
    let q = seq!["com"@, "amazonaws"@, region, bucket];
    assert(labels::put_in(seq!["com"@, "amazonaws"@, bucket], 2, region) =~= q);
    let r = seq!["com"@, "amazonaws"@, region, "s3"@, bucket];
    assert(labels::put_in(q, 3, "s3"@) =~= r);
    let p = seq!["com"@, "amazonaws"@, region, "dualstack"@, "s3"@, bucket];
    assert(labels::put_in(r, 3, "dualstack"@) =~= p);
    assert(p.reverse() =~= seq![bucket, "s3"@, "dualstack"@, region, "amazonaws"@, "com"@]);
}

// ---------------------------------------------------------------------------
// Alibaba OSS
// ---------------------------------------------------------------------------

/// The words of OSS endpoints differ from one another.
pub proof fn oss_words_differ()
    ensures
        "com"@ != "aliyuncs"@,
        "com"@ != "aliyun-inc"@,
        "com"@ != "oss"@,
        "aliyuncs"@ != "oss"@,
        "aliyun-inc"@ != "oss"@,
        "aliyuncs"@ != "aliyun-inc"@,
{
    reveal_strlit("com");
    reveal_strlit("aliyuncs");
    reveal_strlit("aliyun-inc");
    reveal_strlit("oss");
    assert("com"@.len() != "aliyuncs"@.len());
    assert("com"@.len() != "aliyun-inc"@.len());
    assert("com"@[0] != "oss"@[0]);
    assert("aliyuncs"@.len() != "oss"@.len());
    assert("aliyun-inc"@.len() != "oss"@.len());
    assert("aliyuncs"@.len() != "aliyun-inc"@.len());
}

/// An Alibaba zone.
pub open spec fn alibaba(z: Seq<char>) -> bool {
    z == "aliyuncs"@ || z == "aliyun-inc"@
}

/// A label that is none of those that tell an Alibaba endpoint.
pub open spec fn plain_oss(x: Seq<char>) -> bool {
    x != "com"@ && x != "aliyuncs"@ && x != "aliyun-inc"@ && x != "oss"@
}

/// The places in an OSS endpoint, from its end.
pub proof fn oss_places(s: Seq<Seq<char>>, z: Seq<char>)
    requires
        s.len() >= 3,
        s[0] == "com"@,
        s[1] == z,
        alibaba(z),
        forall|i: int| 2 <= i < s.len() ==> plain_oss(#[trigger] s[i]) || (s[i] == "oss"@ && i == 2),
    ensures
        rewrite::oss_endpoint(s),
        rewrite::oss_zone(s) == s.update(1, "aliyuncs"@),
        labels::index_of(rewrite::oss_zone(s), "oss"@) == (if s[2] == "oss"@ {
            2int
        } else {
            -1int
        }),
{
    oss_words_differ();
    place_is(s, "com"@, 0);
    if z == "aliyuncs"@ {
        place_is(s, "aliyuncs"@, 1);
        assert forall|j: int| 0 <= j < s.len() implies s[j] != "aliyun-inc"@ by {
            if j >= 2 {
                assert(plain_oss(s[j]) || s[j] == "oss"@);
            }
        }
        place_is_none(s, "aliyun-inc"@);
        assert(s.update(1, "aliyuncs"@) =~= s);
    } else {
        place_is(s, "aliyun-inc"@, 1);
    }
    let t = rewrite::oss_zone(s);
    if s[2] == "oss"@ {
        place_is(t, "oss"@, 2);
    } else {
        assert forall|j: int| 0 <= j < t.len() implies t[j] != "oss"@ by {
            if j >= 2 {
                assert(t[j] == s[j]);
                assert(plain_oss(s[j]) || s[j] == "oss"@);
            }
        }
        place_is_none(t, "oss"@);
    }
}

/// `oss-<region>` in front of an Alibaba zone, with a bucket or without, becomes
/// the region in front of `oss.aliyuncs.com`.
pub proof fn a_hyphened_oss_endpoint(
    bucket: Seq<char>,
    a: Seq<char>,
    b: Seq<char>,
    z: Seq<char>,
)
    requires
        alibaba(z),
        plain_oss(bucket),
        unhyphened(a),
        unhyphened(b),
        plain_oss("oss-"@ + (a.push('-') + b)),
    ensures
        rewrite::oss_form(seq!["oss-"@ + (a.push('-') + b), z, "com"@]) == Some(
            seq![a.push('-') + b, "oss"@, "aliyuncs"@, "com"@],
        ),
        rewrite::oss_form(seq![bucket, "oss-"@ + (a.push('-') + b), z, "com"@]) == Some(
            seq![a.push('-') + b, "oss"@, "aliyuncs"@, "com"@],
        ),
{
    oss_words_differ();
    reveal_strlit("oss");
    reveal_strlit("oss-");
    let region = a.push('-') + b;
    let x = "oss-"@ + region;
    oss_label_parts(a, b);
    let s = seq!["com"@, z, x];
    let l = seq![x, z, "com"@];
    assert(l.reverse() =~= s);
    oss_places(s, z);
    let t = seq!["com"@, "aliyuncs"@, x];
    assert(rewrite::oss_zone(s) =~= t);
    let u = seq!["com"@, "aliyuncs"@, region];
    assert(labels::replaced(t, 2, region) =~= u);
    let v = seq!["com"@, "aliyuncs"@, "oss"@, region];
    assert(labels::put_in(u, 2, "oss"@) =~= v);
    assert(v.reverse() =~= seq![region, "oss"@, "aliyuncs"@, "com"@]);
    let s2 = seq!["com"@, z, x, bucket];
    let l2 = seq![bucket, x, z, "com"@];
    assert(l2.reverse() =~= s2);
    oss_places(s2, z);
    let t2 = seq!["com"@, "aliyuncs"@, x, bucket];
    assert(rewrite::oss_zone(s2) =~= t2);
    assert(labels::left_out(t2, 3) =~= t);
}

proof fn oss_label_parts(a: Seq<char>, b: Seq<char>)
    requires
        unhyphened(a),
        unhyphened(b),
    ensures
        text::split("oss-"@ + (a.push('-') + b), Sep::Char('-')) == seq!["oss"@, a, b],
        labels::index_of(seq!["oss"@, a, b], "oss"@) == 0,
        seq!["oss"@, a, b].remove(0) == seq![a, b],
        text::join(seq![a, b], '-') == a.push('-') + b,
{
    reveal_strlit("oss");
    reveal_strlit("oss-");
    let sep = Sep::Char('-');
    parts_of_three(a, b, b);
    assert forall|i: int| 0 <= i < "oss"@.len() implies !text::separates(
        sep,
        #[trigger] "oss"@[i],
    ) by {}
    text_laws::split_of_a_piece("oss"@, sep);
    text_laws::split_cuts_at_a_separator("oss"@, '-', a.push('-') + b, sep);
    assert("oss"@.push('-') + (a.push('-') + b) =~= "oss-"@ + (a.push('-') + b));
    assert(seq!["oss"@] + seq![a, b] =~= seq!["oss"@, a, b]);
    place_is(seq!["oss"@, a, b], "oss"@, 0);
    assert(seq!["oss"@, a, b].remove(0) =~= seq![a, b]);
}

/// A region that is listed, in front of `oss` and an Alibaba zone, stays, and so do
/// the labels in front of it; the zone becomes `aliyuncs.com`.
pub proof fn a_regional_oss_endpoint(
    bucket: Seq<char>,
    a: Seq<char>,
    b: Seq<char>,
    z: Seq<char>,
)
    requires
        alibaba(z),
        plain_oss(bucket),
        unhyphened(a),
        unhyphened(b),
        a != "oss"@,
        b != "oss"@,
        plain_oss(a.push('-') + b),
        tables::listed(tables::OSS_REGIONS@, a.push('-') + b),
    ensures
        rewrite::oss_form(seq![bucket, a.push('-') + b, "oss"@, z, "com"@]) == Some(
            seq![bucket, a.push('-') + b, "oss"@, "aliyuncs"@, "com"@],
        ),
{
    oss_words_differ();
    let region = a.push('-') + b;
    parts_of_three(a, b, b);
    let s = seq!["com"@, z, "oss"@, region, bucket];
    let l = seq![bucket, region, "oss"@, z, "com"@];
    assert(l.reverse() =~= s);
    oss_places(s, z);
    let t = seq!["com"@, "aliyuncs"@, "oss"@, region, bucket];
    assert(rewrite::oss_zone(s) =~= t);
    place_is_none(seq![a, b], "oss"@);
    assert(labels::replaced(t, 3, region) =~= t);
    assert(t.reverse() =~= seq![bucket, region, "oss"@, "aliyuncs"@, "com"@]);
}

// ---------------------------------------------------------------------------
// Oracle
// ---------------------------------------------------------------------------

/// A storage service of Oracle.
pub open spec fn oracle_store(s: Seq<char>) -> bool {
    s == "objectstorage"@ || s == "swiftobjectstorage"@
}

/// The words of Oracle endpoints differ from one another.
pub proof fn oracle_words_differ()
    ensures
        "objectstorage"@ != "compat"@,
        "swiftobjectstorage"@ != "compat"@,
        "objectstorage"@ != "swiftobjectstorage"@,
        "objectstorage"@ != "ds"@,
        "swiftobjectstorage"@ != "ds"@,
        "compat"@ != "ds"@,
        "oraclecloud"@ != "customer-oci"@,
{
    reveal_strlit("objectstorage");
    reveal_strlit("swiftobjectstorage");
    reveal_strlit("compat");
    reveal_strlit("ds");
    reveal_strlit("oraclecloud");
    reveal_strlit("customer-oci");
    assert("objectstorage"@.len() != "compat"@.len());
    assert("swiftobjectstorage"@.len() != "compat"@.len());
    assert("objectstorage"@.len() != "swiftobjectstorage"@.len());
    assert("objectstorage"@.len() != "ds"@.len());
    assert("swiftobjectstorage"@.len() != "ds"@.len());
    assert("compat"@.len() != "ds"@.len());
    assert("oraclecloud"@.len() != "customer-oci"@.len());
}

proof fn oracle_by_parts(b: Seq<Seq<char>>, ds: bool, cloud: bool)
    requires
        b.len() >= 2,
        b.last() != "ds"@,
    ensures
        ({
            let zone = if cloud {
                seq!["oraclecloud"@, "com"@]
            } else {
                seq!["oci"@, "customer-oci"@, "com"@]
            };
            let mid = if ds {
                seq!["ds"@]
            } else {
                Seq::<Seq<char>>::empty()
            };
            let l = b + mid + zone;
            rewrite::oracle_form(l) == match rewrite::oracle_body(b) {
                Some((c, customer)) => Some(
                    c.push("ds"@) + if cloud && ds && !customer {
                        seq!["oraclecloud"@, "com"@]
                    } else {
                        seq!["oci"@, "customer-oci"@, "com"@]
                    },
                ),
                None => None,
            }
        }),
{
    oracle_words_differ();
    let zone = if cloud {
        seq!["oraclecloud"@, "com"@]
    } else {
        seq!["oci"@, "customer-oci"@, "com"@]
    };
    let mid = if ds {
        seq!["ds"@]
    } else {
        Seq::<Seq<char>>::empty()
    };
    let l = b + mid + zone;
    let n = l.len() as int;
    assert(l.skip(n - zone.len()) =~= zone);
    assert(l.take(n - zone.len()) =~= b + mid);
    if !cloud {
        let z = rewrite::zone_labels(rewrite::OracleZone::Cloud);
        assert(z.len() == 2 && z[0] == "oraclecloud"@);
        assert(l.skip(n - 2)[0] == l[n - 2]);
        assert(l[n - 2] == "customer-oci"@);
        assert(l.skip(l.len() - z.len())[0] != z[0]);
    }
    if ds {
        assert((b + mid).last() == "ds"@);
        assert((b + mid).drop_last() =~= b);
    } else {
        assert(b + mid =~= b);
    }
}

/// The Oracle endpoints with a service and a region, with a namespace in front or
/// not, get `ds` behind the region; the zone becomes the customer one, unless the
/// endpoint is a `ds` one of `oraclecloud.com`.
pub proof fn an_oracle_endpoint_gets_ds(
    ns: Seq<char>,
    svc: Seq<char>,
    region: Seq<char>,
    ds: bool,
    cloud: bool,
)
    requires
        oracle_store(svc),
        region != "ds"@,
        ns != "compat"@,
        !oracle_store(ns),
    ensures
        ({
            let zone = if cloud {
                seq!["oraclecloud"@, "com"@]
            } else {
                seq!["oci"@, "customer-oci"@, "com"@]
            };
            let to = if cloud && ds {
                seq!["oraclecloud"@, "com"@]
            } else {
                seq!["oci"@, "customer-oci"@, "com"@]
            };
            let mid = if ds {
                seq!["ds"@]
            } else {
                Seq::<Seq<char>>::empty()
            };
            &&& rewrite::oracle_form(seq![svc, region] + mid + zone) == Some(
                seq![svc, region, "ds"@] + to,
            )
            &&& rewrite::oracle_form(seq![ns, svc, region] + mid + zone) == Some(
                seq![ns, svc, region, "ds"@] + to,
            )
            &&& rewrite::oracle_form(
                seq![ns, "compat"@, "objectstorage"@, region] + mid + zone,
            ) == Some(seq![ns, "compat"@, "objectstorage"@, region, "ds"@] + to)
            &&& rewrite::oracle_form(seq!["compat"@, "objectstorage"@, region] + mid + zone)
                == Some(
                seq!["objectstorage"@, region, "ds"@] + seq!["oci"@, "customer-oci"@, "com"@],
            )
        }),
{
    oracle_words_differ();
    let a = seq![svc, region];
    let b = seq![ns, svc, region];
    let c = seq![ns, "compat"@, "objectstorage"@, region];
    let d = seq!["compat"@, "objectstorage"@, region];
    oracle_by_parts(a, ds, cloud);
    oracle_by_parts(b, ds, cloud);
    oracle_by_parts(c, ds, cloud);
    oracle_by_parts(d, ds, cloud);
    assert(a.push("ds"@) =~= seq![svc, region, "ds"@]);
    assert(b.push("ds"@) =~= seq![ns, svc, region, "ds"@]);
    assert(c.push("ds"@) =~= seq![ns, "compat"@, "objectstorage"@, region, "ds"@]);
    assert(d.skip(1) =~= seq!["objectstorage"@, region]);
    assert(d.skip(1).push("ds"@) =~= seq!["objectstorage"@, region, "ds"@]);
}

// ---------------------------------------------------------------------------
// Names
// ---------------------------------------------------------------------------

/// What each rewrite gives for a name, by the labels of the name.
pub proof fn a_rewrite_goes_by_the_labels_of_a_name(
    name: Seq<char>,
    f: Seq<Seq<char>>,
    x: Seq<char>,
    y: Seq<char>,
)
    ensures
        ({
            let l = labels::name_labels(name);
            &&& l == f + seq![x, "akamaiedge"@, "net"@] && x != "cj"@ ==> rewrite::target(
                Rewrite::Akamai,
                name,
            ) == dns::ascii_name(labels::joined(f + seq!["dsc"@ + x, "akamaiedge"@, "net"@]))
            &&& l == f + seq![x, y, "v0cdn"@, "net"@] ==> rewrite::target(Rewrite::Edgecast, name)
                == dns::ascii_name(labels::joined(f + seq!["cs21"@, y, "v0cdn"@, "net"@]))
            &&& l == f + seq![x, y, "llnwi"@, "net"@] ==> rewrite::target(Rewrite::Limelight, name)
                == dns::ascii_name(labels::joined(f + seq!["msftstore"@, y, "llnwi"@, "net"@]))
            &&& l == f + seq![x, "azurewebsites"@, "windows"@, "net"@] ==> rewrite::target(
                Rewrite::Azure,
                name,
            ) == dns::ascii_name(
                labels::joined(f + seq!["sip-v4andv6"@, "azurewebsites"@, "windows"@, "net"@]),
            )
            &&& l == f + seq!["awsglobalaccelerator"@, "com"@] && !(f.len() > 0 && f.last()
                == "dualstack"@) ==> rewrite::target(Rewrite::Awsglb, name) == dns::ascii_name(
                labels::joined(f + seq!["dualstack"@, "awsglobalaccelerator"@, "com"@]),
            )
            &&& rewrite::target(Rewrite::S3, name) == labels::rewritten(rewrite::s3_form(l))
            &&& rewrite::target(Rewrite::Oss, name) == labels::rewritten(rewrite::oss_form(l))
        }),
{
    akamai_prefixes_the_label_next_to_the_zone(f, x, "akamaiedge"@);
    one_label_is_replaced(f, x, y);
    awsglb_puts_dualstack_before_the_zone(f);
}

} // verus!
