use dnsix::blocklist::{load, parse_line, Blocklist, Line, SourceStatus};
use dnsix::dns::Name;

fn blocklist(block: &[&str], allow: &[&str]) -> Blocklist {
    let mut text = String::new();
    for b in block {
        text.push_str(&format!("||{b}^\n"));
    }
    for a in allow {
        text.push_str(&format!("@@||{a}^\n"));
    }
    let mut bl = Blocklist::new();
    bl.add_source("https://example.com/list".to_string(), Ok(text));
    bl
}

fn blocks(line: &str) -> Vec<String> {
    match parse_line(line) {
        Line::Block(d) => d,
        other => panic!("expected Block for {line:?}, got {}", kind(&other)),
    }
}

fn kind(l: &Line) -> &'static str {
    match l {
        Line::Block(_) => "Block",
        Line::Allow(_) => "Allow",
        Line::Ignore => "Ignore",
        Line::Skip => "Skip",
    }
}

#[test]
fn parses_hosts_format() {
    assert_eq!(blocks("0.0.0.0 doubleclick.net"), vec!["doubleclick.net"]);
    assert_eq!(blocks("127.0.0.1 Ads.Example.COM"), vec!["ads.example.com"]);
}

#[test]
fn parses_adblock_block_rules() {
    assert_eq!(blocks("||doubleclick.net^"), vec!["doubleclick.net"]);
    assert_eq!(blocks("||ads.example.com"), vec!["ads.example.com"]);
}

#[test]
fn parses_bare_domain() {
    assert_eq!(blocks("doubleclick.net"), vec!["doubleclick.net"]);
}

#[test]
fn adblock_exception_is_allow() {
    match parse_line("@@||good.example.com^") {
        Line::Allow(d) => assert_eq!(d, "good.example.com"),
        other => panic!("expected Allow, got {}", kind(&other)),
    }
}

#[test]
fn comments_and_headers_are_ignored() {
    for line in [
        "",
        "  ",
        "# a comment",
        "! adblock comment",
        "[Adblock Plus 2.0]",
    ] {
        assert!(matches!(parse_line(line), Line::Ignore), "{line:?}");
    }
}

#[test]
fn host_noise_is_ignored() {
    for line in [
        "0.0.0.0 0.0.0.0",
        "127.0.0.1 localhost",
        "255.255.255.255 broadcasthost",
    ] {
        assert!(matches!(parse_line(line), Line::Ignore), "{line:?}");
    }
}

#[test]
fn unrepresentable_rules_are_skipped() {
    for line in [
        "||example.*^",
        "||example.com^$third-party",
        "||example.com$important",
        "/banner\\d+/",
        "||ads.example.com/path",
        "*.example.com",
    ] {
        assert!(matches!(parse_line(line), Line::Skip), "{line:?}");
    }
}

#[test]
fn multi_host_line_yields_all_domains() {
    assert_eq!(
        blocks("0.0.0.0 a.example.com b.example.com"),
        vec!["a.example.com", "b.example.com"]
    );
}

fn name(s: &str) -> Name {
    Name::from_ascii(s).unwrap()
}

#[test]
fn suffix_match_blocks_subdomains() {
    let bl = blocklist(&["doubleclick.net"], &[]);
    assert!(bl.is_blocked(&name("doubleclick.net.")));
    assert!(bl.is_blocked(&name("ad.doubleclick.net.")));
    assert!(bl.is_blocked(&name("stats.g.doubleclick.net.")));
    assert!(!bl.is_blocked(&name("doubleclick.net.evil.com.")));
    assert!(!bl.is_blocked(&name("example.com.")));
}

#[test]
fn match_is_case_insensitive() {
    let bl = blocklist(&["doubleclick.net"], &[]);
    assert!(bl.is_blocked(&name("AD.DoubleClick.NET.")));
}

#[test]
fn allow_beats_block_for_name_and_subdomains() {
    let bl = blocklist(&["example.com"], &["good.example.com"]);
    assert!(bl.is_blocked(&name("ads.example.com.")));
    assert!(!bl.is_blocked(&name("good.example.com.")));
    assert!(!bl.is_blocked(&name("api.good.example.com.")));
}

#[test]
fn empty_blocklist_blocks_nothing() {
    let bl = blocklist(&[], &[]);
    assert!(!bl.is_blocked(&name("doubleclick.net.")));
}

#[test]
fn a_name_that_only_ends_alike_is_not_blocked() {
    let bl = blocklist(&["click.net"], &[]);
    assert!(!bl.is_blocked(&name("doubleclick.net.")));
    assert!(bl.is_blocked(&name("double.click.net.")));
}

#[test]
fn lists_are_merged_and_failures_are_skipped() {
    let bl = load(vec![
        (
            "https://a.example/hosts".to_string(),
            Ok("0.0.0.0 ads.example\n0.0.0.0 ads.example x.test\r\n*.bad\n# note\n".to_string()),
        ),
        ("https://b.example/pro".to_string(), Err("timed out".to_string())),
        (
            "https://c.example/pro".to_string(),
            Ok("||x.test^\n@@||ok.x.test^".to_string()),
        ),
    ]);
    assert_eq!(bl.block_count(), 2);
    assert_eq!(bl.allow_count(), 1);
    assert!(bl.is_blocked(&name("ads.example.")));
    assert!(bl.is_blocked(&name("a.x.test.")));
    assert!(!bl.is_blocked(&name("a.ok.x.test.")));
    let s = bl.sources();
    assert_eq!(s.len(), 3);
    assert_eq!(s[0].url, "https://a.example/hosts");
    assert!(matches!(s[0].status, SourceStatus::Loaded));
    assert_eq!((s[0].blocks, s[0].allows, s[0].skipped), (3, 0, 1));
    match &s[1].status {
        SourceStatus::Failed(why) => assert_eq!(why, "timed out"),
        SourceStatus::Loaded => panic!("expected a failure"),
    }
    assert_eq!((s[1].blocks, s[1].allows, s[1].skipped), (0, 0, 0));
    assert_eq!((s[2].blocks, s[2].allows, s[2].skipped), (1, 1, 0));
}

#[test]
fn odd_lines_fall_where_they_should() {
    assert!(matches!(parse_line("@@||bad*^"), Line::Skip));
    assert!(matches!(parse_line("@x"), Line::Skip));
    assert!(matches!(parse_line("|x.test|"), Line::Skip));
    assert!(matches!(parse_line("localhost"), Line::Ignore));
    assert!(matches!(parse_line("no dots here"), Line::Ignore));
    assert!(matches!(parse_line("10.1.2.3"), Line::Ignore));
    assert_eq!(blocks("  Trailing.Dot.Example.  "), vec!["trailing.dot.example"]);
    assert_eq!(blocks("::1 under_score.example"), vec!["under_score.example"]);
}

#[test]
fn bare_rules_that_a_domain_cannot_say_are_skipped() {
    for line in [
        "example.com$important",
        "example.com^$third-party",
        "example.com##.ad",
        "a.example,b.example#@#.ad",
        "example.com#?#div:has(.ad)",
        "example.com#$#body { margin: 0; }",
        "example.com#%#window.x = 1;",
        "example.com#@%#window.x = 1;",
        "example.com#@?#div",
        "example.com$$script",
    ] {
        assert!(matches!(parse_line(line), Line::Skip), "{line:?}");
    }
    for line in ["example.com # a comment", "example.com^", "no_dots"] {
        assert!(matches!(parse_line(line), Line::Ignore), "{line:?}");
    }
    let bl = load(vec![(
        "https://a.example/list".to_string(),
        Ok("example.com$important\nexample.com##.ad\nx.test\n".to_string()),
    )]);
    let s = bl.sources();
    assert_eq!((s[0].blocks, s[0].allows, s[0].skipped), (1, 0, 2));
}

#[test]
fn a_source_listed_twice_changes_no_count() {
    let text = "||x.test^\n||y.test^\n||x.test^\n@@||ok.x.test^\n";
    let source = || ("https://a.example/list".to_string(), Ok(text.to_string()));
    let once = load(vec![source()]);
    let twice = load(vec![source(), source()]);
    assert_eq!(once.block_count(), 2);
    assert_eq!(twice.block_count(), 2);
    assert_eq!(once.allow_count(), 1);
    assert_eq!(twice.allow_count(), 1);
    assert_eq!(once.sources().iter().map(|s| s.blocks).sum::<usize>(), 3);
    assert_eq!(twice.sources().iter().map(|s| s.blocks).sum::<usize>(), 6);
}

#[test]
fn a_normal_domain_stays_as_it_is() {
    let once = blocks("  WWW.Ex-ample_1.COM..  ");
    assert_eq!(once, vec!["www.ex-ample_1.com"]);
    assert_eq!(blocks(&once[0]), once);
}
