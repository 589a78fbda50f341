//! The endpoints of object stores and content networks that have a variant with IPv6,
//! and those that have none.

use vstd::prelude::*;

use crate::dns;
use crate::synth::{labels, rewrite, rewrite_laws, tables};
use crate::synth::rewrite::Rewrite;
use crate::text;
use crate::text::Sep;
use crate::text_laws;

verus! {

// ---------------------------------------------------------------------------
// S3
// ---------------------------------------------------------------------------

proof fn kinds_by_the_fourth(s: Seq<Seq<char>>, x: Seq<char>)
    requires
        s.len() == 5,
        s[0] == "com"@,
        s[1] == "amazonaws"@,
        rewrite_laws::ordinary(s[2]),
        s[3] == x,
        rewrite_laws::ordinary(s[4]),
        x == "s3-accesspoint"@ || x == "s3-website"@ || x == "s3-control"@,
    ensures
        labels::index_of(s, "amazonaws"@) == 1,
        labels::index_of(s, "s3"@) == -1,
        labels::index_of(s, "dualstack"@) == -1,
        labels::index_of(s, "s3-accelerate"@) == -1,
        labels::index_of(s, "console-l"@) == -1,
        labels::index_of(s, "s3-accesspoint"@) == (if x == "s3-accesspoint"@ {
            3int
        } else {
            -1int
        }),
        labels::index_of(s, "s3-website"@) == (if x == "s3-website"@ {
            3int
        } else {
            -1int
        }),
        labels::index_of(s, "s3-control"@) == (if x == "s3-control"@ {
            3int
        } else {
            -1int
        }),
{
    rewrite_laws::s3_words_differ();
    reveal_strlit("console-l");
    reveal_strlit("s3-accesspoint");
    reveal_strlit("s3-website");
    reveal_strlit("s3-control");
    reveal_strlit("s3-accelerate");
    reveal_strlit("s3");
    reveal_strlit("dualstack");
    reveal_strlit("amazonaws");
    assert("console-l"@[0] != "s3-accesspoint"@[0]);
    assert("console-l"@[0] != "s3-website"@[0]);
    assert("console-l"@[0] != "s3-control"@[0]);
    assert("s3-accelerate"@.len() != "s3-website"@.len());
    assert("s3-accelerate"@.len() != "s3-control"@.len());
    assert("s3-accelerate"@.len() != "s3-accesspoint"@.len());
    rewrite_laws::place_is(s, "amazonaws"@, 1);
    rewrite_laws::place_is_none(s, "s3"@);
    rewrite_laws::place_is_none(s, "dualstack"@);
    rewrite_laws::place_is_none(s, "s3-accelerate"@);
    rewrite_laws::place_is_none(s, "console-l"@);
    if x == "s3-accesspoint"@ {
        rewrite_laws::place_is(s, "s3-accesspoint"@, 3);
    } else {
        rewrite_laws::place_is_none(s, "s3-accesspoint"@);
    }
    if x == "s3-website"@ {
        rewrite_laws::place_is(s, "s3-website"@, 3);
    } else {
        rewrite_laws::place_is_none(s, "s3-website"@);
    }
    if x == "s3-control"@ {
        rewrite_laws::place_is(s, "s3-control"@, 3);
    } else {
        rewrite_laws::place_is_none(s, "s3-control"@);
    }
}

/// The endpoint of an access point, of a website and of an account in a region gets
/// `dualstack` behind its kind.
pub proof fn an_s3_endpoint_with_a_kind(bucket: Seq<char>, kind: Seq<char>, region: Seq<char>)
    requires
        rewrite_laws::ordinary(bucket),
        rewrite_laws::ordinary(region),
        kind == "s3-accesspoint"@ || kind == "s3-website"@ || kind == "s3-control"@,
        text::split(region, Sep::Char('-'))[0] != "s3"@,
    ensures
        rewrite::s3_form(seq![bucket, kind, region, "amazonaws"@, "com"@]) == Some(
            seq![bucket, kind, "dualstack"@, region, "amazonaws"@, "com"@],
        ),
{
    rewrite_laws::s3_words_differ();
    let l = seq![bucket, kind, region, "amazonaws"@, "com"@];
    let s = seq!["com"@, "amazonaws"@, region, kind, bucket];
    assert(l.last() == "com"@);
    assert(l.reverse() =~= s);
    assert(rewrite::s3_reversed(l) == s);
    kinds_by_the_fourth(s, kind);
    let p = s.push(bucket);
    assert(rewrite::s3_padded(s) == p);
    assert(labels::left_out(p, 4) =~= s);
    let d = seq!["com"@, "amazonaws"@, region, "dualstack"@, kind, bucket];
    assert(labels::put_in(s, 3, "dualstack"@) =~= d);
    assert(d.reverse() =~= seq![bucket, kind, "dualstack"@, region, "amazonaws"@, "com"@]);
}

/// An S3 endpoint with a short suffix, such as `s3-external-1`, is one of `us-east-1`;
/// `s3-1` is called `s3-r-w` there.
pub proof fn an_s3_endpoint_with_a_suffix(bucket: Seq<char>, b: Seq<char>, c: Seq<char>)
    requires
        rewrite_laws::ordinary(bucket),
        rewrite_laws::unhyphened(b),
        rewrite_laws::unhyphened(c),
        rewrite_laws::ordinary("s3-"@ + b),
        rewrite_laws::ordinary("s3-"@ + (b.push('-') + c)),
    ensures
        b != "1"@ ==> rewrite::s3_form(seq![bucket, "s3-"@ + b, "amazonaws"@, "com"@]) == Some(
            seq![bucket, "s3-"@ + b, "dualstack"@, "us-east-1"@, "amazonaws"@, "com"@],
        ),
        b == "1"@ ==> rewrite::s3_form(seq![bucket, "s3-"@ + b, "amazonaws"@, "com"@]) == Some(
            seq![bucket, "s3-r-w"@, "dualstack"@, "us-east-1"@, "amazonaws"@, "com"@],
        ),
        b != "1"@ ==> rewrite::s3_form(
            seq![bucket, "s3-"@ + (b.push('-') + c), "amazonaws"@, "com"@],
        ) == Some(
            seq![
                bucket,
                "s3-"@ + (b.push('-') + c),
                "dualstack"@,
                "us-east-1"@,
                "amazonaws"@,
                "com"@,
            ],
        ),
{
    reveal_strlit("s3");
    reveal_strlit("s3-");
    assert(rewrite_laws::unhyphened("s3"@));
    rewrite_laws::parts_of_three("s3"@, b, c);
    let x = "s3-"@ + b;
    let y = "s3-"@ + (b.push('-') + c);
    assert(x =~= "s3"@.push('-') + b);
    assert(y =~= "s3"@.push('-') + (b.push('-') + c));
    a_suffix_means_us_east(bucket, x);
    a_suffix_means_us_east(bucket, y);
}

proof fn a_suffix_means_us_east(bucket: Seq<char>, x: Seq<char>)
    requires
        rewrite_laws::ordinary(bucket),
        rewrite_laws::ordinary(x),
        2 <= text::split(x, Sep::Char('-')).len() <= 3,
        text::split(x, Sep::Char('-'))[0] == "s3"@,
    ensures
        ({
            let name = if text::split(x, Sep::Char('-'))[1] == "1"@ {
                "s3-r-w"@
            } else {
                x
            };
            rewrite::s3_form(seq![bucket, x, "amazonaws"@, "com"@]) == Some(
                seq![bucket, name, "dualstack"@, "us-east-1"@, "amazonaws"@, "com"@],
            )
        }),
{
    rewrite_laws::s3_words_differ();
    let name = if text::split(x, Sep::Char('-'))[1] == "1"@ {
        "s3-r-w"@
    } else {
        x
    };
    let l = seq![bucket, x, "amazonaws"@, "com"@];
    let s = seq!["com"@, "amazonaws"@, x, bucket];
    assert(l.last() == "com"@);
    assert(l.reverse() =~= s);
    assert(rewrite::s3_reversed(l) == s);
    rewrite_laws::kinds_by_the_third(s, x);
    let q = seq!["com"@, "amazonaws"@, "us-east-1"@, x, bucket];
    assert(labels::put_in(s, 2, "us-east-1"@) =~= q);
    let r = seq!["com"@, "amazonaws"@, "us-east-1"@, name, bucket];
    assert(name != x ==> q.update(3, "s3-r-w"@) =~= r);
    assert(name == x ==> q =~= r);
    let d = seq!["com"@, "amazonaws"@, "us-east-1"@, "dualstack"@, name, bucket];
    assert(labels::put_in(r, 3, "dualstack"@) =~= d);
    assert(d.reverse() =~= seq![
        bucket,
        name,
        "dualstack"@,
        "us-east-1"@,
        "amazonaws"@,
        "com"@,
    ]);
    assert(rewrite::s3_region(s, false) == Some((r, false)));
}

/// A website endpoint with its region behind a hyphen, such as
/// `s3-website-eu-west-1`, becomes the one of `us-east-1`.
pub proof fn a_hyphened_website_endpoint(bucket: Seq<char>, x: Seq<char>)
    requires
        rewrite_laws::ordinary(bucket),
        rewrite_laws::ordinary(x),
        text::split(x, Sep::Char('-')).len() >= 4,
        text::split(x, Sep::Char('-'))[0] == "s3"@,
        text::split(x, Sep::Char('-'))[1] == "website"@,
    ensures
        rewrite::s3_form(seq![bucket, x, "amazonaws"@, "com"@]) == Some(
            seq!["s3-website"@, "dualstack"@, "us-east-1"@, "amazonaws"@, "com"@],
        ),
{
    rewrite_laws::s3_words_differ();
    let l = seq![bucket, x, "amazonaws"@, "com"@];
    let s = seq!["com"@, "amazonaws"@, x, bucket];
    assert(l.last() == "com"@);
    assert(l.reverse() =~= s);
    assert(rewrite::s3_reversed(l) == s);
    rewrite_laws::kinds_by_the_third(s, x);
    let r = seq!["com"@, "amazonaws"@, "us-east-1"@, "s3-website"@];
    assert(labels::replaced(labels::replaced(s, 2, "us-east-1"@), 3, "s3-website"@) =~= r);
    let d = seq!["com"@, "amazonaws"@, "us-east-1"@, "dualstack"@, "s3-website"@];
    assert(labels::put_in(r, 3, "dualstack"@) =~= d);
    assert(d.reverse() =~= seq!["s3-website"@, "dualstack"@, "us-east-1"@, "amazonaws"@, "com"@]);
    assert(rewrite::s3_region(s, false) == Some((r, false)));
}

/// A hyphened endpoint in China keeps its label, behind `s3` and `dualstack`.
pub proof fn a_hyphened_endpoint_in_china(bucket: Seq<char>, x: Seq<char>)
    requires
        rewrite_laws::ordinary(bucket),
        rewrite_laws::ordinary(x),
        text::split(x, Sep::Char('-')).len() >= 2,
        text::split(x, Sep::Char('-'))[0] == "s3"@,
        text::split(x, Sep::Char('-'))[1] != "website"@,
    ensures
        rewrite::s3_form(seq![bucket, x, "amazonaws"@, "com"@, "cn"@]) == Some(
            seq![bucket, "s3"@, "dualstack"@, x, "amazonaws"@, "com"@, "cn"@],
        ),
{
    rewrite_laws::s3_words_differ();
    let l = seq![bucket, x, "amazonaws"@, "com"@, "cn"@];
    let s = seq!["com"@, "amazonaws"@, x, bucket];
    assert(l.last() == "cn"@);
    assert(l.reverse() =~= seq!["cn"@, "com"@, "amazonaws"@, x, bucket]);
    assert(l.reverse().remove(0) =~= s);
    assert(rewrite::s3_reversed(l) == s);
    rewrite_laws::kinds_by_the_third(s, x);
    text::join_undoes_split(x, '-');
    let q = seq!["com"@, "amazonaws"@, x, bucket];
    assert(labels::put_in(labels::left_out(s, 2), 2, x) =~= q);
    let r = seq!["com"@, "amazonaws"@, x, "s3"@, bucket];
    assert(labels::put_in(q, 3, "s3"@) =~= r);
    assert(rewrite::s3_region(s, true) == Some((r, true)));
    let d = seq!["com"@, "amazonaws"@, x, "dualstack"@, "s3"@, bucket];
    assert(labels::put_in(r, 3, "dualstack"@) =~= d);
    let e = seq!["cn"@, "com"@, "amazonaws"@, x, "dualstack"@, "s3"@, bucket];
    assert(labels::put_in(d, 0, "cn"@) =~= e);
    assert(e.reverse() =~= seq![bucket, "s3"@, "dualstack"@, x, "amazonaws"@, "com"@, "cn"@]);
}

/// The hosts of the console have no variant.
pub proof fn console_hosts_are_left_alone(host: Seq<char>)
    requires
        rewrite_laws::ordinary(host),
    ensures
        rewrite::s3_form(seq![host, "console-l"@, "amazonaws"@, "com"@]) is None,
{
    rewrite_laws::s3_words_differ();
    let x = "console-l"@;
    reveal_strlit("console-l");
    reveal_strlit("dualstack");
    reveal_strlit("s3-accelerate");
    reveal_strlit("s3-accesspoint");
    reveal_strlit("s3-website");
    reveal_strlit("com");
    reveal_strlit("amazonaws");
    assert("console-l"@[0] != "dualstack"@[0]);
    assert("console-l"@[0] != "s3-accelerate"@[0]);
    assert("console-l"@[0] != "s3-accesspoint"@[0]);
    assert("console-l"@[0] != "s3-website"@[0]);
    assert("console-l"@.len() != "com"@.len());
    assert("console-l"@[0] != "amazonaws"@[0]);
    let l = seq![host, x, "amazonaws"@, "com"@];
    let s = seq!["com"@, "amazonaws"@, x, host];
    assert(l.last() == "com"@);
    assert(l.reverse() =~= s);
    rewrite_laws::place_is(s, "amazonaws"@, 1);
    rewrite_laws::place_is(s, "console-l"@, 2);
    rewrite_laws::place_is_none(s, "dualstack"@);
    rewrite_laws::place_is_none(s, "s3-accelerate"@);
    rewrite_laws::place_is_none(s, "s3-accesspoint"@);
    rewrite_laws::place_is_none(s, "s3-website"@);
}

/// An Amazon host whose third label from the end is neither S3 nor hyphened, and which
/// names no kind of S3 endpoint, has no variant.
pub proof fn other_amazon_hosts_are_left_alone(host: Seq<char>, x: Seq<char>)
    requires
        rewrite_laws::ordinary(host),
        rewrite_laws::ordinary(x),
        rewrite_laws::unhyphened(x),
    ensures
        rewrite::s3_form(seq![host, x, "amazonaws"@, "com"@]) is None,
        rewrite::s3_form(seq![x, "amazonaws"@, "com"@]) is None,
{
    rewrite_laws::s3_words_differ();
    let sep = Sep::Char('-');
    assert forall|i: int| 0 <= i < x.len() implies !text::separates(sep, #[trigger] x[i]) by {}
    text_laws::split_of_a_piece(x, sep);
    let l = seq![host, x, "amazonaws"@, "com"@];
    let s = seq!["com"@, "amazonaws"@, x, host];
    assert(l.last() == "com"@);
    assert(l.reverse() =~= s);
    rewrite_laws::kinds_by_the_third(s, x);
    let k = seq![x, "amazonaws"@, "com"@];
    let t = seq!["com"@, "amazonaws"@, x];
    assert(k.last() == "com"@);
    assert(k.reverse() =~= t);
    rewrite_laws::kinds_by_the_third(t, x);
}

// ---------------------------------------------------------------------------
// OSS
// ---------------------------------------------------------------------------

/// The regions of OSS.
pub open spec fn oss_region(x: Seq<char>) -> bool {
    ||| x == "cn-hangzhou"@
    ||| x == "cn-shanghai"@
    ||| x == "cn-nanjing"@
    ||| x == "cn-qingdao"@
    ||| x == "cn-beijing"@
    ||| x == "cn-zhangjiakou"@
    ||| x == "cn-huhehaote"@
    ||| x == "cn-wulanchabu"@
    ||| x == "cn-shenzhen"@
    ||| x == "cn-heyuan"@
    ||| x == "cn-guangzhou"@
    ||| x == "cn-chengdu"@
    ||| x == "cn-hongkong"@
    ||| x == "us-west-1"@
    ||| x == "us-east-1"@
    ||| x == "ap-southeast-1"@
    ||| x == "ap-southeast-2"@
    ||| x == "ap-southeast-3"@
    ||| x == "ap-southeast-4"@
    ||| x == "ap-southeast-5"@
    ||| x == "ap-southeast-6"@
    ||| x == "ap-southeast-7"@
    ||| x == "ap-northeast-1"@
    ||| x == "ap-northeast-2"@
    ||| x == "ap-south-1"@
    ||| x == "eu-central-1"@
    ||| x == "eu-west-1"@
    ||| x == "me-east-1"@
    ||| x == "me-central-1"@
    ||| x == "cn-hangzhou-finance"@
    ||| x == "cn-shanghai-finance"@
    ||| x == "cn-shenzhen-finance"@
    ||| x == "cn-beijing-finance-1"@
    ||| x == "cn-beijing-finance-2"@
}

/// The table of regions lists just these.
pub proof fn the_regions_of_oss(x: Seq<char>)
    ensures
        tables::listed(tables::OSS_REGIONS@, x) <==> oss_region(x),
{
    let t = tables::OSS_REGIONS@;
    assert(t.len() == 34);
    assert(t[0]@ == "cn-hangzhou"@);
    assert(t[1]@ == "cn-shanghai"@);
    assert(t[2]@ == "cn-nanjing"@);
    assert(t[3]@ == "cn-qingdao"@);
    assert(t[4]@ == "cn-beijing"@);
    assert(t[5]@ == "cn-zhangjiakou"@);
    assert(t[6]@ == "cn-huhehaote"@);
    assert(t[7]@ == "cn-wulanchabu"@);
    assert(t[8]@ == "cn-shenzhen"@);
    assert(t[9]@ == "cn-heyuan"@);
    assert(t[10]@ == "cn-guangzhou"@);
    assert(t[11]@ == "cn-chengdu"@);
    assert(t[12]@ == "cn-hongkong"@);
    assert(t[13]@ == "us-west-1"@);
    assert(t[14]@ == "us-east-1"@);
    assert(t[15]@ == "ap-southeast-1"@);
    assert(t[16]@ == "ap-southeast-2"@);
    assert(t[17]@ == "ap-southeast-3"@);
    assert(t[18]@ == "ap-southeast-4"@);
    assert(t[19]@ == "ap-southeast-5"@);
    assert(t[20]@ == "ap-southeast-6"@);
    assert(t[21]@ == "ap-southeast-7"@);
    assert(t[22]@ == "ap-northeast-1"@);
    assert(t[23]@ == "ap-northeast-2"@);
    assert(t[24]@ == "ap-south-1"@);
    assert(t[25]@ == "eu-central-1"@);
    assert(t[26]@ == "eu-west-1"@);
    assert(t[27]@ == "me-east-1"@);
    assert(t[28]@ == "me-central-1"@);
    assert(t[29]@ == "cn-hangzhou-finance"@);
    assert(t[30]@ == "cn-shanghai-finance"@);
    assert(t[31]@ == "cn-shenzhen-finance"@);
    assert(t[32]@ == "cn-beijing-finance-1"@);
    assert(t[33]@ == "cn-beijing-finance-2"@);
    if tables::listed(t, x) {
        let i = choose|i: int| 0 <= i < t.len() && (#[trigger] t[i])@ == x;
        assert(oss_region(t[i]@));
    }
}

/// Just the hosts below `aliyuncs.com` and `aliyun-inc.com` have a variant.
pub proof fn oss_hosts_are_alibaba_hosts(f: Seq<Seq<char>>, z: Seq<char>, y: Seq<char>)
    ensures
        rewrite::oss_form(f + seq![z, y]) is Some <==> f.len() > 0 && rewrite_laws::alibaba(z) && y
            == "com"@,
{
    rewrite_laws::oss_words_differ();
    let l = f + seq![z, y];
    let s = l.reverse();
    assert(s[0] == y && s[1] == z);
    labels::index_of_is_first(s, "com"@);
    labels::index_of_is_first(s, "aliyuncs"@);
    labels::index_of_is_first(s, "aliyun-inc"@);
}

/// A host of OSS without a region that is known is one of `cn-hangzhou`.
pub proof fn an_oss_endpoint_without_a_region(f: Seq<char>, x: Seq<char>, z: Seq<char>)
    requires
        rewrite_laws::alibaba(z),
        rewrite_laws::plain_oss(f),
        rewrite_laws::plain_oss(x),
        rewrite_laws::unhyphened(x),
        !oss_region(x),
    ensures
        rewrite::oss_form(seq![x, "oss"@, z, "com"@]) == Some(
            seq!["cn-hangzhou"@, "oss"@, "aliyuncs"@, "com"@],
        ),
        rewrite::oss_form(seq![f, x, "oss"@, z, "com"@]) == Some(
            seq![f, "cn-hangzhou"@, "oss"@, "aliyuncs"@, "com"@],
        ),
{
    rewrite_laws::oss_words_differ();
    the_regions_of_oss(x);
    let sep = Sep::Char('-');
    assert forall|i: int| 0 <= i < x.len() implies !text::separates(sep, #[trigger] x[i]) by {}
    text_laws::split_of_a_piece(x, sep);
    text_laws::join_from_the_front(x, Seq::empty(), '-');
    rewrite_laws::place_is_none(seq![x], "oss"@);
    reveal_strlit("cn");
    reveal_strlit("hangzhou");
    reveal_strlit("cn-hangzhou");
    assert(rewrite_laws::unhyphened("cn"@));
    assert(rewrite_laws::unhyphened("hangzhou"@));
    rewrite_laws::parts_of_three("cn"@, "hangzhou"@, "cn"@);
    assert("cn"@.push('-') + "hangzhou"@ =~= "cn-hangzhou"@);
    let parts = labels::set_at(labels::set_at(seq![x], 0, "cn"@), 1, "hangzhou"@);
    assert(parts =~= seq!["cn"@, "hangzhou"@]);
    let s = seq!["com"@, z, "oss"@, x];
    assert(seq![x, "oss"@, z, "com"@].reverse() =~= s);
    rewrite_laws::oss_places(s, z);
    let t = seq!["com"@, "aliyuncs"@, "oss"@, x];
    assert(rewrite::oss_zone(s) =~= t);
    let u = seq!["com"@, "aliyuncs"@, "oss"@, "cn-hangzhou"@];
    assert(labels::replaced(t, 3, "cn-hangzhou"@) =~= u);
    assert(u.reverse() =~= seq!["cn-hangzhou"@, "oss"@, "aliyuncs"@, "com"@]);
    let s2 = seq!["com"@, z, "oss"@, x, f];
    assert(seq![f, x, "oss"@, z, "com"@].reverse() =~= s2);
    rewrite_laws::oss_places(s2, z);
    let t2 = seq!["com"@, "aliyuncs"@, "oss"@, x, f];
    assert(rewrite::oss_zone(s2) =~= t2);
    let u2 = seq!["com"@, "aliyuncs"@, "oss"@, "cn-hangzhou"@, f];
    assert(labels::replaced(t2, 3, "cn-hangzhou"@) =~= u2);
    assert(u2.reverse() =~= seq![f, "cn-hangzhou"@, "oss"@, "aliyuncs"@, "com"@]);
}

// ---------------------------------------------------------------------------
// The others
// ---------------------------------------------------------------------------

/// A host of Oracle without a storage service has no variant.
pub proof fn other_oracle_hosts_are_left_alone(l: Seq<Seq<char>>)
    requires
        rewrite::oracle_form(l) is Some,
    ensures
        l.contains("objectstorage"@) || l.contains("swiftobjectstorage"@),
        l.len() >= 4,
{
    let z = rewrite::oracle_zone(l)->0;
    let n = l.len() - rewrite::zone_labels(z).len();
    let front = l.take(n);
    let body = if front.len() > 0 && front.last() == "ds"@ {
        front.drop_last()
    } else {
        front
    };
    assert(rewrite::oracle_body(body) is Some);
    assert(body[0] == l[0] && body[1] == l[1]);
    if body.len() > 2 {
        assert(body[2] == l[2]);
        assert(l.contains(l[2]));
    }
    assert(l.contains(l[0]) && l.contains(l[1]));
}

/// What a rewrite takes has as many labels as it needs.
pub proof fn rewrites_need_their_labels(l: Seq<Seq<char>>)
    ensures
        rewrite::edgecast_form(l) is Some ==> l.len() >= 4,
        rewrite::limelight_form(l) is Some ==> l.len() >= 4,
        rewrite::azure_form(l) is Some ==> l.len() >= 4,
        rewrite::awsglb_form(l) is Some ==> l.len() >= 2,
        rewrite::s3_form(l) is Some ==> l.len() >= 3,
        rewrite::oss_form(l) is Some ==> l.len() >= 3,
{
}

/// CacheFly gives a variant of the hosts `vip` and `rvip` with a number only.
pub proof fn cachefly_knows_its_hosts(l: Seq<Seq<char>>)
    requires
        rewrite::cachefly_form(l) is Some,
    ensures
        l.len() >= 4,
        labels::ends(l, seq!["cachefly"@, "net"@]),
        exists|d: Seq<char>| rewrite_laws::digits(d) && (l[0] == "vip"@ + d || l[0] == #[trigger] (
        "rvip"@ + d)),
{
    reveal_strlit("vip");
    reveal_strlit("rvip");
    let n = l.len() as int;
    let f = l.take(n - 2);
    assert(l =~= f + seq!["cachefly"@, "net"@]);
    rewrite_laws::ending_means_something_in_front(l, seq!["cachefly"@, "net"@]);
    let s = l[0];
    let t = rewrite::behind_r(s);
    let d = t.skip(3);
    assert(t =~= "vip"@ + d) by {
        assert(t.take(3) == "vip"@);
        assert(t =~= t.take(3) + d);
    }
    assert(rewrite_laws::digits(d)) by {
        assert forall|i: int| 0 <= i < d.len() implies '0' <= #[trigger] d[i] && d[i] <= '9' by {
            assert(d[i] == t[i + 3]);
        }
    }
    if s.len() > 0 && s[0] == 'r' {
        assert(s =~= "rvip"@ + d) by {
            assert(s =~= seq!['r'] + t);
            assert("rvip"@ =~= seq!['r'] + "vip"@);
        }
    } else {
        assert(s == "vip"@ + d);
        let w = "rvip"@ + d;
    }
}

/// The host of each variant is looked up under its name.
pub proof fn a_variant_is_looked_up(name: Seq<char>, p: Seq<Seq<char>>)
    ensures
        ({
            let l = labels::name_labels(name);
            let n = dns::ascii_name(labels::joined(p));
            &&& rewrite::akamai_form(l) == Some(p) ==> rewrite::target(Rewrite::Akamai, name) == n
            &&& rewrite::s3_form(l) == Some(p) ==> rewrite::target(Rewrite::S3, name) == n
            &&& rewrite::oss_form(l) == Some(p) ==> rewrite::target(Rewrite::Oss, name) == n
            &&& rewrite::awsglb_form(l) == Some(p) ==> rewrite::target(Rewrite::Awsglb, name) == n
            &&& rewrite::edgecast_form(l) == Some(p) ==> rewrite::target(Rewrite::Edgecast, name)
                == n
            &&& rewrite::limelight_form(l) == Some(p) ==> rewrite::target(Rewrite::Limelight, name)
                == n
            &&& rewrite::azure_form(l) == Some(p) ==> rewrite::target(Rewrite::Azure, name) == n
            &&& rewrite::oracle_form(l) == Some(p) ==> rewrite::target(Rewrite::Oracle, name)
                == dns::ascii_name(labels::absolute(text::join(p, '.')))
            &&& rewrite::akamai_form(l) is None ==> rewrite::target(Rewrite::Akamai, name) is None
            &&& rewrite::s3_form(l) is None ==> rewrite::target(Rewrite::S3, name) is None
            &&& rewrite::oss_form(l) is None ==> rewrite::target(Rewrite::Oss, name) is None
            &&& rewrite::awsglb_form(l) is None ==> rewrite::target(Rewrite::Awsglb, name) is None
            &&& rewrite::edgecast_form(l) is None ==> rewrite::target(Rewrite::Edgecast, name) is None
            &&& rewrite::limelight_form(l) is None ==> rewrite::target(
                Rewrite::Limelight,
                name,
            ) is None
            &&& rewrite::azure_form(l) is None ==> rewrite::target(Rewrite::Azure, name) is None
            &&& rewrite::oracle_form(l) is None ==> rewrite::target(Rewrite::Oracle, name) is None
        }),
{
}

} // verus!
