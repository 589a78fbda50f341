use dnsix::dns::Name;
use dnsix::net::{Ipv4Addr, Ipv6Addr};
use dnsix::synth::cdn::{make, Wpvip};
use dnsix::synth::combine::{cachefly_v4to6, fastly_fuse, fastly_v6hex};
use dnsix::synth::rewrite::{
    akamai_rewrite, awsglb_rewrite, azure_rewrite, cachefly_rewrite, edgecast_rewrite,
    limelight_rewrite, oracle_rewrite, oss_rewrite, s3_rewrite,
};
use dnsix::synth::{SynthContext, Synthesizer, KNOWN_IDS};

fn v4(s: &str) -> Ipv4Addr {
    Ipv4Addr::parse(s).unwrap()
}

fn v6(s: &str) -> Ipv6Addr {
    Ipv6Addr::parse(s).unwrap()
}

fn rw(f: fn(&Name) -> Option<Name>, s: &str) -> Option<String> {
    f(&Name::from_ascii(&format!("{s}.")).unwrap())
        .map(|n| n.text.trim_end_matches('.').to_string())
}

#[test]
fn akamai() {
    assert_eq!(
        rw(akamai_rewrite, "e123.akamaiedge.net").unwrap(),
        "dsce123.akamaiedge.net"
    );
    assert_eq!(
        rw(akamai_rewrite, "cj.akamai.net").unwrap(),
        "dscj.akamai.net"
    );
    assert!(rw(akamai_rewrite, "www.example.com").is_none());
}

#[test]
fn awsglb() {
    assert_eq!(
        rw(awsglb_rewrite, "abc.awsglobalaccelerator.com").unwrap(),
        "abc.dualstack.awsglobalaccelerator.com"
    );
}

#[test]
fn edgecast_limelight_azure() {
    assert_eq!(
        rw(edgecast_rewrite, "foo.bar.v0cdn.net").unwrap(),
        "cs21.bar.v0cdn.net"
    );
    assert_eq!(
        rw(limelight_rewrite, "a.b.llnwi.net").unwrap(),
        "msftstore.b.llnwi.net"
    );
    assert_eq!(
        rw(azure_rewrite, "site.azurewebsites.windows.net").unwrap(),
        "sip-v4andv6.azurewebsites.windows.net"
    );
}

#[test]
fn cachefly_hostname() {
    assert_eq!(
        rw(cachefly_rewrite, "rvip1.g.cachefly.net").unwrap(),
        "rvip1-dstack.g.cachefly.net"
    );
    assert_eq!(
        rw(cachefly_rewrite, "vip1.g-anycast1.cachefly.net").unwrap(),
        "rvip1-dstack.g.cachefly.net"
    );
    assert_eq!(
        rw(cachefly_rewrite, "rvip33.g.cachefly.net").unwrap(),
        "rvip33-dstack.g.cachefly.net"
    );
    assert_eq!(
        rw(cachefly_rewrite, "vip9.eu-west.cachefly.net").unwrap(),
        "rvip9-dstack.eu-west.cachefly.net"
    );
    assert!(rw(cachefly_rewrite, "cachefly.cachefly.net").is_none());
    assert!(rw(cachefly_rewrite, "www.cachefly.com").is_none());
}

#[test]
fn cachefly_ip() {
    assert_eq!(
        cachefly_v4to6(v4("205.234.175.136")).unwrap(),
        v6("2605:4c40::175:136")
    );
}

#[test]
fn s3() {
    let cases = [
        ("s3.amazonaws.com", "s3.dualstack.us-east-1.amazonaws.com"),
        (
            "s3-1-w.amazonaws.com",
            "s3-r-w.dualstack.us-east-1.amazonaws.com",
        ),
        (
            "s3-r-w.amazonaws.com",
            "s3-r-w.dualstack.us-east-1.amazonaws.com",
        ),
        (
            "s3-w.amazonaws.com",
            "s3-w.dualstack.us-east-1.amazonaws.com",
        ),
        (
            "redditstatic.s3.amazonaws.com",
            "redditstatic.s3.dualstack.us-east-1.amazonaws.com",
        ),
        (
            "github-production-release-asset-2e65be.s3.amazonaws.com",
            "github-production-release-asset-2e65be.s3.dualstack.us-east-1.amazonaws.com",
        ),
        (
            "2020awsreinvent.s3-us-west-2.amazonaws.com",
            "2020awsreinvent.s3.dualstack.us-west-2.amazonaws.com",
        ),
        (
            "s3-accesspoint.us-east-2.amazonaws.com",
            "s3-accesspoint.dualstack.us-east-2.amazonaws.com",
        ),
        (
            "s3-accelerate-speedtest.s3-accelerate.amazonaws.com",
            "s3-accelerate-speedtest.s3-accelerate.dualstack.amazonaws.com",
        ),
        (
            "cheetah-test-us-east-1-02.s3-accelerate.amazonaws.com",
            "cheetah-test-us-east-1-02.s3-accelerate.dualstack.amazonaws.com",
        ),
        (
            "s3.eu-central-1.amazonaws.com",
            "s3.dualstack.eu-central-1.amazonaws.com",
        ),
        (
            "account-id.s3-control.eu-central-1.amazonaws.com",
            "account-id.s3-control.dualstack.eu-central-1.amazonaws.com",
        ),
        (
            "s3-accesspoint.eu-central-1.amazonaws.com",
            "s3-accesspoint.dualstack.eu-central-1.amazonaws.com",
        ),
        (
            "web.s3-accesspoint.eu-central-1.amazonaws.com",
            "web.s3-accesspoint.dualstack.eu-central-1.amazonaws.com",
        ),
        (
            "s3.cn-north-1.amazonaws.com.cn",
            "s3.dualstack.cn-north-1.amazonaws.com.cn",
        ),
        (
            "account-id.s3-control.cn-north-1.amazonaws.com.cn",
            "account-id.s3-control.dualstack.cn-north-1.amazonaws.com.cn",
        ),
        (
            "web.s3-accesspoint.cn-north-1.amazonaws.com.cn",
            "web.s3-accesspoint.dualstack.cn-north-1.amazonaws.com.cn",
        ),
        (
            "s3.ap-southeast-1.amazonaws.com",
            "s3.dualstack.ap-southeast-1.amazonaws.com",
        ),
        (
            "download.opencontent.netflix.com.s3.amazonaws.com",
            "download.opencontent.netflix.com.s3.dualstack.us-east-1.amazonaws.com",
        ),
        (
            "s3-website-us-east-1.amazonaws.com",
            "s3-website.dualstack.us-east-1.amazonaws.com",
        ),
        (
            "s3-website.ap-southeast-3.amazonaws.com",
            "s3-website.dualstack.ap-southeast-3.amazonaws.com",
        ),
    ];
    for (input, want) in cases {
        assert_eq!(rw(s3_rewrite, input).as_deref(), Some(want), "s3 {input}");
    }
    for none in [
        "s3.dualstack.us-east-1.amazonaws.com",
        "download.opencontent.netflix.com.s3.dualstack.us-east-1.amazonaws.com",
        "s3.dualstack.cn-north-1.amazonaws.com.cn",
        "pub-web-4b45fc8aac32a800.elb.eu-central-1.amazonaws.com",
        "cdn.assets.as2.amazonaws.com",
        "dynamodb.us-east-2.amazonaws.com",
        "lbr-optimized.s3.console-l.amazonaws.com",
        "amazonaws.com",
    ] {
        assert_eq!(rw(s3_rewrite, none), None, "s3 none {none}");
    }
    // China regions have no dualstack endpoint for these forms: the result
    // must not be the naive dualstack-with-.cn rewrite (dp1 = -1 suppresses
    // re-adding the cn TLD).
    for (input, naive) in [
        (
            "2020awsreinvent.s3-us-west-2.amazonaws.com.cn",
            "2020awsreinvent.s3.dualstack.us-west-2.amazonaws.com.cn",
        ),
        (
            "s3-accelerate.amazonaws.com.cn",
            "s3-accelerate.dualstack.amazonaws.com.cn",
        ),
        (
            "s3-website.cn-northwest-1.amazonaws.com.cn",
            "s3-website.dualstack.cn-northwest-1.amazonaws.com.cn",
        ),
    ] {
        assert_ne!(
            rw(s3_rewrite, input).as_deref(),
            Some(naive),
            "s3 cn {input}"
        );
    }
}

#[test]
fn oss() {
    let cases = [
        ("oss.aliyuncs.com", "cn-hangzhou.oss.aliyuncs.com"),
        (
            "examplebucket.oss.aliyuncs.com",
            "cn-hangzhou.oss.aliyuncs.com",
        ),
        (
            "example-bucket.oss.aliyuncs.com",
            "cn-hangzhou.oss.aliyuncs.com",
        ),
        (
            "oss-cn-hangzhou.aliyuncs.com",
            "cn-hangzhou.oss.aliyuncs.com",
        ),
        ("oss-cn-beijing.aliyuncs.com", "cn-beijing.oss.aliyuncs.com"),
        (
            "oss-ap-southeast-1.aliyuncs.com",
            "ap-southeast-1.oss.aliyuncs.com",
        ),
        (
            "oss-eu-central-1.aliyuncs.com",
            "eu-central-1.oss.aliyuncs.com",
        ),
        (
            "examplebucket.oss-cn-hangzhou.aliyuncs.com",
            "cn-hangzhou.oss.aliyuncs.com",
        ),
        (
            "examplebucket.cn-hangzhou.oss.aliyun-inc.com",
            "examplebucket.cn-hangzhou.oss.aliyuncs.com",
        ),
        (
            "examplebucket.ap-southeast-1.oss.aliyun-inc.com",
            "examplebucket.ap-southeast-1.oss.aliyuncs.com",
        ),
        (
            "cn-hangzhou.oss.aliyuncs.com",
            "cn-hangzhou.oss.aliyuncs.com",
        ),
        (
            "examplebucket.cn-hangzhou.oss.aliyuncs.com",
            "examplebucket.cn-hangzhou.oss.aliyuncs.com",
        ),
        (
            "examplebucket.eu-central-1.oss.aliyuncs.com",
            "examplebucket.eu-central-1.oss.aliyuncs.com",
        ),
        (
            "alicloud-common.oss-ap-southeast-1.aliyuncs.com",
            "ap-southeast-1.oss.aliyuncs.com",
        ),
    ];
    for (input, want) in cases {
        assert_eq!(rw(oss_rewrite, input).as_deref(), Some(want), "oss {input}");
    }
}

#[test]
fn oracle() {
    let cases = [
        (
            "objectstorage.us-ashburn-1.oci.customer-oci.com",
            "objectstorage.us-ashburn-1.ds.oci.customer-oci.com",
        ),
        (
            "adwc4pm.objectstorage.us-ashburn-1.oci.customer-oci.com",
            "adwc4pm.objectstorage.us-ashburn-1.ds.oci.customer-oci.com",
        ),
        (
            "objectstorage.us-phoenix-1.oraclecloud.com",
            "objectstorage.us-phoenix-1.ds.oci.customer-oci.com",
        ),
        (
            "objectstorage.us-phoenix-1.ds.oraclecloud.com",
            "objectstorage.us-phoenix-1.ds.oraclecloud.com",
        ),
        (
            "compat.objectstorage.ap-mumbai-1.oraclecloud.com",
            "objectstorage.ap-mumbai-1.ds.oci.customer-oci.com",
        ),
        (
            "bmkltsly13vb.compat.objectstorage.ap-mumbai-1.oraclecloud.com",
            "bmkltsly13vb.compat.objectstorage.ap-mumbai-1.ds.oci.customer-oci.com",
        ),
        (
            "namespace.compat.objectstorage.us-phoenix-1.oci.customer-oci.com",
            "namespace.compat.objectstorage.us-phoenix-1.ds.oci.customer-oci.com",
        ),
        (
            "swiftobjectstorage.us-ashburn-1.oci.customer-oci.com",
            "swiftobjectstorage.us-ashburn-1.ds.oci.customer-oci.com",
        ),
        (
            "namespace.swiftobjectstorage.us-ashburn-1.oci.customer-oci.com",
            "namespace.swiftobjectstorage.us-ashburn-1.ds.oci.customer-oci.com",
        ),
    ];
    for (input, want) in cases {
        assert_eq!(
            rw(oracle_rewrite, input).as_deref(),
            Some(want),
            "oracle {input}"
        );
    }
    assert_eq!(rw(oracle_rewrite, "www.oracle.com"), None);
    assert_eq!(rw(oracle_rewrite, "oraclecloud.com"), None);
}

#[test]
fn fastly_hostid() {
    assert_eq!(fastly_v6hex(v4("151.101.1.140"), false), 396);
    assert_eq!(fastly_v6hex(v4("199.232.192.204"), false), 204);
    assert_eq!(fastly_v6hex(v4("199.232.39.52"), false), 820);
    assert_eq!(fastly_v6hex(v4("146.75.43.7"), false), 775);
    assert_eq!(fastly_v6hex(v4("146.75.93.188"), false), 444);
    assert_eq!(fastly_v6hex(v4("185.199.111.133"), true), 133);
}

#[test]
fn fastly_fuse_places_low_bits() {
    let p: Ipv6Addr = v6("2a04:4e42::");
    assert_eq!(
        fastly_fuse(p, 396).unwrap(),
        v6("2a04:4e42::396")
    );
}

#[test]
fn wpvip_embed() {
    let s = Wpvip;
    let ctx = SynthContext {
        name: Name::from_ascii("wpvip.com.").unwrap(),
        cname_targets: vec![],
        a_records: vec![(v4("192.0.66.5"), 300)],
        authority: Default::default(),
    };
    let plan = s.detect(&ctx).unwrap();
    let out = plan.combine.apply(&[], &ctx.a_addrs());
    assert_eq!(
        out,
        vec![v6("2a04:fa87:fffd::c000:4205")]
    );
}

fn ctx(name: &str, cnames: &[&str], a: &[&str]) -> SynthContext {
    SynthContext::new(
        Name::from_ascii(name).unwrap(),
        cnames.iter().map(|c| Name::from_ascii(c).unwrap()).collect(),
        a.iter().map(|ip| (v4(ip), 300)).collect(),
        Default::default(),
    )
}

fn plan(id: &str, c: &SynthContext) -> Option<(Vec<String>, Vec<Ipv6Addr>)> {
    let rule = make(id).unwrap().rule;
    assert_eq!(rule.id(), id);
    rule.detect(c).map(|p| {
        let names = p.resolve.iter().map(|n| n.text.clone()).collect();
        (names, p.combine.apply(&[], &c.a_addrs()))
    })
}

#[test]
fn every_known_provider_is_made() {
    for id in KNOWN_IDS {
        assert_eq!(make(id).is_some(), id != "nat64", "{id}");
    }
    assert!(make("nope").is_none());
}

#[test]
fn a_constant_matches_by_suffix_or_range() {
    let want = Some((vec![], vec![v6("2620:127:f00f::")]));
    assert_eq!(plan("shopify", &ctx("www.shop.test.", &["x.myshopify.com."], &[])), want);
    assert_eq!(plan("shopify", &ctx("shop.test.", &[], &["23.227.38.10"])), want);
    assert_eq!(plan("shopify", &ctx("shop.test.", &[], &["23.227.36.10"])), None);
}

#[test]
fn a_reference_is_resolved_with_its_fallback() {
    assert_eq!(
        plan("bunnycdn", &ctx("z.b-cdn.net.", &[], &[])),
        Some((vec!["bunnyfonts.b-cdn.net.".to_string()], vec![v6("2400:52e0:1e01::883:1")]))
    );
    assert_eq!(
        plan("cloudfront", &ctx("x.test.", &[], &["44.234.90.253"])),
        Some((vec!["static.twitchcdn.net.".to_string()], vec![]))
    );
    assert_eq!(plan("cloudfront", &ctx("x.test.", &[], &["44.234.91.0"])), None);
}

#[test]
fn an_admin_mailbox_is_a_signal() {
    let mut c = ctx("x.test.", &[], &[]);
    assert_eq!(plan("cdn77", &c), None);
    c.authority.soa_admin = Some(Name::from_ascii("admin.cdn77.com.").unwrap());
    assert_eq!(plan("cdn77", &c), Some((vec!["www.cdn77.com.".to_string()], vec![])));
}

#[test]
fn a_rewritten_name_is_resolved() {
    assert_eq!(
        plan("akamai", &ctx("www.x.test.", &["e123.akamaiedge.net."], &[])),
        Some((vec!["dsce123.akamaiedge.net.".to_string()], vec![]))
    );
    assert_eq!(plan("akamai", &ctx("www.x.test.", &[], &[])), None);
}

#[test]
fn the_oss_apex_is_passed_over() {
    assert_eq!(plan("oss", &ctx("aliyuncs.com.", &[], &[])), None);
    assert_eq!(rw(oss_rewrite, "aliyuncs.com"), None);
    assert_eq!(rw(oss_rewrite, "aliyun-inc.com"), None);
}

#[test]
fn fastly_fuses_the_host_id() {
    let c = ctx("www.x.test.", &[], &["151.101.1.140"]);
    let p = make("fastly").unwrap().rule.detect(&c).unwrap();
    assert_eq!(p.resolve.len(), 1);
    assert_eq!(p.resolve[0].text, "dualstack.g.shared.global.fastly.net.");
    assert_eq!(
        p.combine.apply(&[v6("2a04:4e42::")], &c.a_addrs()),
        vec![v6("2a04:4e42::396")]
    );
}

#[test]
fn edge_prefixes_take_the_last_octet() {
    let mut c = ctx("www.x.test.", &["A-0001.a-msedge.net."], &["13.107.4.52"]);
    assert_eq!(plan("msedge", &c), None);
    c.authority.soa_zone = Some(Name::from_ascii("a-MSedge.net.").unwrap());
    assert_eq!(plan("msedge", &c), Some((vec![], vec![v6("2620:1ec:c11::52")])));
    c.cname_targets = vec![Name::from_ascii("spo-0004.spo-msedge.net.").unwrap()];
    c.a_records = vec![(v4("13.107.136.9"), 60)];
    assert_eq!(plan("msedge", &c), Some((vec![], vec![v6("2620:1ec:8f8::8")])));
}

#[test]
fn cachefly_goes_by_name_then_by_address() {
    assert_eq!(
        plan("cachefly", &ctx("rvip1.g.cachefly.net.", &[], &[])),
        Some((vec!["rvip1-dstack.g.cachefly.net.".to_string()], vec![]))
    );
    assert_eq!(
        plan("cachefly", &ctx("x.test.", &[], &["205.234.175.136"])),
        Some((vec![], vec![v6("2605:4c40::175:136")]))
    );
}

#[test]
fn a_variant_is_not_changed_again() {
    for (f, input) in [
        (awsglb_rewrite as fn(&Name) -> Option<Name>, "abc.awsglobalaccelerator.com"),
        (edgecast_rewrite, "foo.bar.v0cdn.net"),
        (limelight_rewrite, "a.b.llnwi.net"),
        (azure_rewrite, "site.azurewebsites.windows.net"),
    ] {
        let once = rw(f, input).unwrap();
        assert_eq!(rw(f, &once), Some(once));
    }
}

#[test]
fn an_oracle_variant_is_not_changed_again() {
    for input in [
        "objectstorage.us-phoenix-1.oraclecloud.com",
        "objectstorage.us-phoenix-1.ds.oraclecloud.com",
        "compat.objectstorage.ap-mumbai-1.oraclecloud.com",
        "ns.compat.objectstorage.ap-mumbai-1.oci.customer-oci.com",
        "ns.swiftobjectstorage.eu-zurich-1.oraclecloud.com",
    ] {
        let once = rw(oracle_rewrite, input).unwrap();
        assert_eq!(rw(oracle_rewrite, &once), Some(once.clone()), "{input}");
        assert_eq!(
            once.contains(".ds.oraclecloud.com"),
            input.contains(".ds.oraclecloud.com"),
            "{input}"
        );
    }
}
