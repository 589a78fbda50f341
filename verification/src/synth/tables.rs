//! Static data of the providers.

use vstd::prelude::*;

use crate::text;

verus! {

/// An IPv4 network: four octets and a prefix length.
pub type Cidr = (u8, u8, u8, u8, u8);

/// Cloudflare, with Zendesk, WP Engine, Servd and Laravel Cloud behind it.
pub const CLOUDFLARE_RANGES: [Cidr; 7] = [
    (104, 16, 0, 0, 12),
    (162, 159, 128, 0, 17),
    (216, 198, 53, 0, 24),
    (216, 198, 54, 0, 24),
    (141, 193, 213, 0, 24),
    (94, 247, 142, 0, 24),
    (103, 133, 1, 0, 24),
];

/// Shopify.
pub const SHOPIFY_RANGES: [Cidr; 4] = [
    (23, 227, 37, 0, 24),
    (23, 227, 38, 0, 23),
    (23, 227, 60, 0, 24),
    (185, 146, 172, 0, 23),
];

/// Webflow.
pub const WEBFLOW_RANGES: [Cidr; 3] = [
    (198, 202, 211, 0, 24),
    (75, 2, 70, 75, 32),
    (99, 83, 190, 102, 32),
];

/// Weebly.
pub const WEEBLY_RANGES: [Cidr; 1] = [
    (199, 34, 228, 0, 22),
];

/// Sucuri.
pub const SUCURI_RANGES: [Cidr; 1] = [
    (192, 124, 249, 0, 24),
];

/// Netlify.
pub const NETLIFY_RANGES: [Cidr; 2] = [
    (75, 2, 60, 5, 32),
    (99, 83, 231, 61, 32),
];

/// Bear Blog.
pub const BEARBLOG_RANGES: [Cidr; 1] = [
    (159, 223, 204, 176, 32),
];

/// Fastly.
pub const FASTLY_RANGES: [Cidr; 3] = [
    (151, 101, 0, 0, 16),
    (199, 232, 0, 0, 16),
    (146, 75, 0, 0, 17),
];

/// GitHub Pages.
pub const GITHUB_PAGES_RANGES: [Cidr; 1] = [
    (185, 199, 108, 0, 22),
];

/// WordPress VIP.
pub const WPVIP_RANGES: [Cidr; 1] = [
    (192, 0, 66, 0, 24),
];

/// CacheFly.
pub const CACHEFLY_RANGES: [Cidr; 1] = [
    (205, 234, 175, 0, 24),
];

/// CloudFront's global and regional edges.
pub const CLOUDFRONT_RANGES: [Cidr; 150] = [
    (120, 52, 22, 96, 27),
    (205, 251, 249, 0, 24),
    (180, 163, 57, 128, 26),
    (204, 246, 168, 0, 22),
    (111, 13, 171, 128, 26),
    (18, 160, 0, 0, 15),
    (205, 251, 252, 0, 23),
    (54, 192, 0, 0, 16),
    (204, 246, 173, 0, 24),
    (54, 230, 200, 0, 21),
    (120, 253, 240, 192, 26),
    (116, 129, 226, 128, 26),
    (130, 176, 0, 0, 17),
    (108, 156, 0, 0, 14),
    (99, 86, 0, 0, 16),
    (13, 32, 0, 0, 15),
    (120, 253, 245, 128, 26),
    (13, 224, 0, 0, 14),
    (70, 132, 0, 0, 18),
    (15, 158, 0, 0, 16),
    (111, 13, 171, 192, 26),
    (13, 249, 0, 0, 16),
    (18, 238, 0, 0, 15),
    (18, 244, 0, 0, 15),
    (205, 251, 208, 0, 20),
    (65, 9, 128, 0, 18),
    (130, 176, 128, 0, 18),
    (58, 254, 138, 0, 25),
    (205, 251, 201, 0, 24),
    (205, 251, 206, 0, 23),
    (54, 230, 208, 0, 20),
    (3, 160, 0, 0, 14),
    (116, 129, 226, 0, 25),
    (52, 222, 128, 0, 17),
    (18, 164, 0, 0, 15),
    (111, 13, 185, 32, 27),
    (64, 252, 128, 0, 18),
    (205, 251, 254, 0, 24),
    (54, 230, 224, 0, 19),
    (71, 152, 0, 0, 17),
    (216, 137, 32, 0, 19),
    (204, 246, 172, 0, 24),
    (205, 251, 202, 0, 23),
    (18, 172, 0, 0, 15),
    (120, 52, 39, 128, 27),
    (118, 193, 97, 64, 26),
    (3, 164, 64, 0, 18),
    (18, 154, 0, 0, 15),
    (54, 240, 128, 0, 18),
    (205, 251, 250, 0, 23),
    (180, 163, 57, 0, 25),
    (52, 46, 0, 0, 18),
    (52, 82, 128, 0, 19),
    (54, 230, 0, 0, 17),
    (54, 230, 128, 0, 18),
    (54, 239, 128, 0, 18),
    (130, 176, 224, 0, 20),
    (36, 103, 232, 128, 26),
    (52, 84, 0, 0, 15),
    (143, 204, 0, 0, 16),
    (144, 220, 0, 0, 16),
    (120, 52, 153, 192, 26),
    (119, 147, 182, 0, 25),
    (120, 232, 236, 0, 25),
    (111, 13, 185, 64, 27),
    (3, 164, 0, 0, 18),
    (54, 182, 0, 0, 16),
    (58, 254, 138, 128, 26),
    (120, 253, 245, 192, 27),
    (54, 239, 192, 0, 19),
    (18, 68, 0, 0, 16),
    (18, 64, 0, 0, 14),
    (120, 52, 12, 64, 26),
    (99, 84, 0, 0, 16),
    (205, 251, 204, 0, 23),
    (130, 176, 192, 0, 19),
    (52, 124, 128, 0, 17),
    (205, 251, 200, 0, 24),
    (204, 246, 164, 0, 22),
    (13, 35, 0, 0, 16),
    (204, 246, 174, 0, 23),
    (3, 164, 128, 0, 17),
    (3, 172, 0, 0, 18),
    (36, 103, 232, 0, 25),
    (119, 147, 182, 128, 26),
    (118, 193, 97, 128, 25),
    (120, 232, 236, 128, 26),
    (204, 246, 176, 0, 20),
    (65, 8, 0, 0, 16),
    (65, 9, 0, 0, 17),
    (108, 138, 0, 0, 15),
    (120, 253, 241, 160, 27),
    (64, 252, 64, 0, 18),
    (13, 113, 196, 64, 26),
    (13, 113, 203, 0, 24),
    (52, 199, 127, 192, 26),
    (13, 124, 199, 0, 24),
    (3, 35, 130, 128, 25),
    (52, 78, 247, 128, 26),
    (13, 233, 177, 192, 26),
    (15, 207, 13, 128, 25),
    (15, 207, 213, 128, 25),
    (52, 66, 194, 128, 26),
    (13, 228, 69, 0, 24),
    (52, 220, 191, 0, 26),
    (13, 210, 67, 128, 26),
    (13, 54, 63, 128, 26),
    (43, 218, 56, 128, 26),
    (43, 218, 56, 192, 26),
    (43, 218, 56, 64, 26),
    (43, 218, 71, 0, 26),
    (99, 79, 169, 0, 24),
    (18, 192, 142, 0, 23),
    (35, 158, 136, 0, 24),
    (52, 57, 254, 0, 24),
    (13, 48, 32, 0, 24),
    (18, 200, 212, 0, 23),
    (52, 212, 248, 0, 26),
    (3, 10, 17, 128, 25),
    (3, 11, 53, 0, 24),
    (52, 56, 127, 0, 25),
    (15, 188, 184, 0, 24),
    (52, 47, 139, 0, 24),
    (3, 29, 40, 128, 26),
    (3, 29, 40, 192, 26),
    (3, 29, 40, 64, 26),
    (3, 29, 57, 0, 26),
    (18, 229, 220, 192, 26),
    (54, 233, 255, 128, 26),
    (3, 231, 2, 0, 25),
    (3, 234, 232, 224, 27),
    (3, 236, 169, 192, 26),
    (3, 236, 48, 0, 23),
    (34, 195, 252, 0, 24),
    (34, 226, 14, 0, 24),
    (13, 59, 250, 0, 26),
    (18, 216, 170, 128, 25),
    (3, 128, 93, 0, 24),
    (3, 134, 215, 0, 24),
    (52, 15, 127, 128, 26),
    (3, 101, 158, 0, 23),
    (52, 52, 191, 128, 26),
    (34, 216, 51, 0, 25),
    (34, 223, 12, 224, 27),
    (34, 223, 80, 192, 26),
    (35, 162, 63, 192, 26),
    (35, 167, 191, 128, 26),
    (44, 227, 178, 0, 24),
    (44, 234, 108, 128, 25),
    (44, 234, 90, 252, 30),
];

/// The OSS regions.
pub const OSS_REGIONS: [&'static str; 34] = [
    "cn-hangzhou",
    "cn-shanghai",
    "cn-nanjing",
    "cn-qingdao",
    "cn-beijing",
    "cn-zhangjiakou",
    "cn-huhehaote",
    "cn-wulanchabu",
    "cn-shenzhen",
    "cn-heyuan",
    "cn-guangzhou",
    "cn-chengdu",
    "cn-hongkong",
    "us-west-1",
    "us-east-1",
    "ap-southeast-1",
    "ap-southeast-2",
    "ap-southeast-3",
    "ap-southeast-4",
    "ap-southeast-5",
    "ap-southeast-6",
    "ap-southeast-7",
    "ap-northeast-1",
    "ap-northeast-2",
    "ap-south-1",
    "eu-central-1",
    "eu-west-1",
    "me-east-1",
    "me-central-1",
    "cn-hangzhou-finance",
    "cn-shanghai-finance",
    "cn-shenzhen-finance",
    "cn-beijing-finance-1",
    "cn-beijing-finance-2",
];

/// Whether a text is one of a list.
pub open spec fn listed(list: Seq<&str>, s: Seq<char>) -> bool {
    exists|i: int| 0 <= i < list.len() && #[trigger] list[i]@ == s
}

/// Whether a text is one of a list.
pub fn is_listed(list: &[&str], s: &str) -> (r: bool)
    ensures
        r == listed(list@, s@),
{
    let mut i: usize = 0;
    while i < list.len()
        invariant
            0 <= i <= list@.len(),
            forall|j: int| 0 <= j < i ==> #[trigger] list@[j]@ != s@,
        decreases list@.len() - i,
    {
        if text::same(list[i], s) {
            assert(list@[i as int]@ == s@);
            return true;
        }
        i = i + 1;
    }
    false
}

/// Whether a text is the name of an OSS region.
pub fn oss_region(s: &str) -> (r: bool)
    ensures
        r == listed(OSS_REGIONS@, s@),
{
    is_listed(&OSS_REGIONS, s)
}

} // verus!
