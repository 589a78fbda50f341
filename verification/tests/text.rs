use dnsix::text::{
    begins_with, contains, decimal_text, find, from_chars, join_texts, line_chars, lower_chars,
    parse_number, same, same_ignore_case, slice, split_chars, to_chars, token_chars,
    trim_chars, trim_end_chars, trim_start_chars, Sep,
};

fn chars(s: &str) -> Vec<char> {
    s.chars().collect()
}

fn strings(v: Vec<Vec<char>>) -> Vec<String> {
    v.iter().map(|p| p.iter().collect()).collect()
}

#[test]
fn pieces_are_split_as_std_splits_them() {
    for s in ["", "a", "a.b", ".a.", "..", "a..b", "ä.ö"] {
        let want: Vec<String> = s.split('.').map(String::from).collect();
        assert_eq!(strings(split_chars(&chars(s), Sep::Char('.'))), want, "{s:?}");
    }
    for s in ["", " ", "a b", "\ta\u{2009}b \n", "\u{a0}x\u{3000}", "a\u{85}b"] {
        let want: Vec<String> = s.split_whitespace().map(String::from).collect();
        assert_eq!(strings(token_chars(&chars(s), Sep::Space)), want, "{s:?}");
    }
}

#[test]
fn joining_undoes_splitting() {
    for s in ["", "a", "a.b", ".a.", ".."] {
        let parts: Vec<String> = strings(split_chars(&chars(s), Sep::Char('.')));
        assert_eq!(join_texts(&parts, '.'), s);
    }
}

#[test]
fn ends_are_trimmed_as_std_trims_them() {
    for s in ["", "  ", " a ", "a b", "\r\na\t", "\u{2028}x\u{1680}", "\u{200b}x"] {
        assert_eq!(from_chars(&trim_chars(&chars(s))), s.trim(), "{s:?}");
    }
    assert_eq!(from_chars(&trim_end_chars(&chars("a.."), Sep::Char('.'))), "a");
    assert_eq!(from_chars(&trim_start_chars(&chars("..a."), Sep::Char('.'))), "a.");
}

#[test]
fn lines_are_cut_as_std_cuts_them() {
    for s in ["", "\n", "a\nb", "a\r\nb\n", "a\rb", "\r\n\r\n", "a\n\nb\r"] {
        let want: Vec<String> = s.lines().map(String::from).collect();
        assert_eq!(strings(line_chars(&chars(s))), want, "{s:?}");
    }
}

#[test]
fn numbers_are_read_as_std_reads_them() {
    for s in ["", "+", "-", "0", "+7", "-1", "007", "65535", "65536", "1a", " 1", "99999999999999999999999"] {
        let want = s.parse::<u16>().ok().map(u64::from);
        assert_eq!(parse_number(&chars(s), 10, 65535), want, "{s:?}");
    }
    for s in ["", "ff", "FF", "+a", "g", "ffffffff", "100000000", "fffffffffffffffff"] {
        let want = u32::from_str_radix(s, 16).ok().map(u64::from);
        assert_eq!(parse_number(&chars(s), 16, u64::from(u32::MAX)), want, "{s:?}");
    }
}

#[test]
fn numbers_are_written_and_read_back() {
    for n in [0, 9, 10, 4096, u64::MAX] {
        assert_eq!(decimal_text(n), n.to_string());
        assert_eq!(parse_number(&chars(&decimal_text(n)), 10, u64::MAX), Some(n));
    }
}

#[test]
fn texts_are_compared_and_searched() {
    assert!(same("abc", "abc") && !same("abc", "abd") && !same("abc", "ab"));
    assert!(same_ignore_case("LocalHost", "localhost") && !same_ignore_case("Ä", "ä"));
    assert_eq!(from_chars(&lower_chars(&chars("AbÄ"))), "abÄ");
    assert_eq!(find(&chars("a:b:c"), ':'), Some(1));
    assert_eq!(find(&chars("abc"), ':'), None);
    assert!(begins_with(&chars("https://x"), "https://") && !begins_with(&chars("htt"), "http"));
    assert!(contains(&chars("a.msedge.net"), "msedge") && !contains(&chars("ms"), "msedge"));
    assert_eq!(slice(&to_chars("abcd"), 1, 3), chars("bc"));
}
