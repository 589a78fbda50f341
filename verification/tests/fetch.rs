use dnsix::dns::{Name, RData, Record, RecordType, Response, ResponseCode};
use dnsix::fetch::{
    absolutize, check_size, dechunk, find_subslice, host_query, http_request, parse_http,
    split_https_url, target, ChunkError, Fetch, FetchError, HttpError, HttpResult, MAX_BODY,
};
use dnsix::net::{Ipv4Addr, Ipv6Addr};

fn body(raw: &[u8]) -> Vec<u8> {
    match parse_http(raw) {
        Ok(HttpResult::Body(b)) => b,
        other => panic!("expected a body, got {other:?}"),
    }
}

fn http_fault(raw: &[u8]) -> String {
    match parse_http(raw) {
        Err(e) => e.message(),
        Ok(other) => panic!("expected an error, got {other:?}"),
    }
}

#[test]
fn a_needle_is_found_first() {
    assert_eq!(find_subslice(b"abcabc", b"bc"), Some(1));
    assert_eq!(find_subslice(b"abc", b"abcd"), None);
    assert_eq!(find_subslice(b"", b"a"), None);
    assert_eq!(find_subslice(b"aab", b"ab"), Some(1));
}

#[test]
fn chunks_are_joined() {
    assert_eq!(dechunk(b"3\r\nabc\r\n2;x=y\r\nde\r\n0\r\n\r\n").unwrap(), b"abcde");
    assert_eq!(dechunk(b" a \r\n0123456789\r\n0\r\nrest").unwrap(), b"0123456789");
    assert_eq!(dechunk(b"0\r\n").unwrap(), b"");
    // A line end inside a chunk belongs to it.
    assert_eq!(dechunk(b"4\r\n\r\n\r\n\r\n0\r\n\r\n").unwrap(), b"\r\n\r\n");
}

#[test]
fn faulty_chunks_are_told_apart() {
    let fault = |b: &[u8]| dechunk(b).unwrap_err();
    assert!(matches!(fault(b"3"), ChunkError::Header));
    assert!(matches!(fault(b"\xff\r\n"), ChunkError::NotUtf8(_)));
    assert!(matches!(fault(b"xyz\r\n"), ChunkError::Size(_)));
    assert!(matches!(fault(b"\r\n"), ChunkError::Size(_)));
    assert!(matches!(fault(b"ffffffffffffffffff\r\n"), ChunkError::Size(_)));
    assert!(matches!(fault(b"5\r\nabc"), ChunkError::Truncated));
    assert!(matches!(fault(b"3\r\nabcX\r\n0\r\n"), ChunkError::NoCrlf));
    assert_eq!(fault(b"3").message(), "malformed chunk header");
    assert_eq!(
        fault(b"xyz\r\n").message(),
        "bad chunk size: invalid digit found in string"
    );
    assert_eq!(
        fault(b"\r\n").message(),
        "bad chunk size: cannot parse integer from empty string"
    );
    assert!(fault(b"\xff\r\n").message().starts_with("non-UTF8 chunk size: "));
    assert_eq!(fault(b"5\r\nabc").message(), "truncated chunk body");
    assert_eq!(fault(b"3\r\nabcX\r\n0\r\n").message(), "missing CRLF after chunk");
}

#[test]
fn a_success_has_a_body() {
    assert_eq!(body(b"HTTP/1.1 200 OK\r\nX: y\r\n\r\nhello\r\n\r\n"), b"hello\r\n\r\n");
    assert_eq!(body(b"HTTP/1.1 204 No Content\r\n\r\n"), b"");
    assert_eq!(
        body(b"HTTP/1.1 200 OK\r\nTransfer-Encoding:  CHUNKED \r\n\r\n2\r\nhi\r\n0\r\n\r\n"),
        b"hi"
    );
    assert_eq!(body(b"HTTP/1.1 200\r\ntransfer-encoding: gzip\r\n\r\n2\r\nhi"), b"2\r\nhi");
}

#[test]
fn a_redirect_has_a_location() {
    let to = |raw: &[u8]| match parse_http(raw) {
        Ok(HttpResult::Redirect(l)) => l,
        other => panic!("expected a redirect, got {other:?}"),
    };
    assert_eq!(to(b"HTTP/1.1 301 M\r\nLOCATION: /x \r\n\r\n"), "/x");
    // The last of several counts, and a value may hold colons.
    assert_eq!(
        to(b"HTTP/1.1 302\r\nlocation: /a\r\nno header\r\nLocation: https://h.example/b\r\n\r\n"),
        "https://h.example/b"
    );
}

#[test]
fn faulty_responses_are_told_apart() {
    assert_eq!(
        http_fault(b"HTTP/1.1 200 OK\r\n"),
        "malformed HTTP response (no header terminator)"
    );
    assert!(http_fault(b"\xff\r\n\r\n").starts_with("non-UTF8 HTTP headers: "));
    assert_eq!(http_fault(b"HTTP/1.1 abc\r\n\r\n"), "malformed status line \"HTTP/1.1 abc\"");
    assert_eq!(http_fault(b"x\r\n\r\n"), "malformed status line \"x\"");
    assert_eq!(http_fault(b"HTTP/1.1 304 NM\r\n\r\n"), "HTTP 304 redirect without Location");
    assert_eq!(http_fault(b"HTTP/1.1 404 NF\r\n\r\n"), "unexpected HTTP status 404");
    assert_eq!(http_fault(b"HTTP/1.1 199\r\n\r\n"), "unexpected HTTP status 199");
    assert_eq!(http_fault(b"HTTP/1.1 400\r\nLocation: /\r\n\r\n"), "unexpected HTTP status 400");
    assert_eq!(
        http_fault(b"HTTP/1.1 200\r\ntransfer-encoding: chunked\r\n\r\n9\r\nx"),
        "truncated chunk body"
    );
    assert!(matches!(
        parse_http(b"HTTP/1.1 200\r\ntransfer-encoding: chunked\r\n\r\n"),
        Err(HttpError::Chunk(ChunkError::Header))
    ));
}

#[test]
fn urls_are_split() {
    let split = |u: &str| split_https_url(u).unwrap();
    assert_eq!(split("https://h.example"), ("h.example".to_string(), "/".to_string()));
    assert_eq!(split("https://h.example:8443/a/b?c"), ("h.example".to_string(), "/a/b?c".to_string()));
    assert_eq!(split("https://h.example/x:y"), ("h.example".to_string(), "/x:y".to_string()));
    assert_eq!(
        split_https_url("http://h.example/").unwrap_err().message(),
        "blocklist URL must be https://: http://h.example/"
    );
    assert_eq!(
        split_https_url("https:///x").unwrap_err().message(),
        "empty host in URL https:///x"
    );
    assert!(matches!(split_https_url("https://:1/"), Err(FetchError::EmptyHost(_))));
}

#[test]
fn locations_are_made_absolute() {
    assert_eq!(absolutize("h.example", "https://o.example/x"), "https://o.example/x");
    assert_eq!(absolutize("h.example", "http://o.example/x"), "http://o.example/x");
    assert_eq!(absolutize("h.example", "/x"), "https://h.example/x");
    assert_eq!(absolutize("h.example", "x"), "https://h.example/x");
}

#[test]
fn a_fetch_follows_redirects() {
    let mut f = Fetch::new("https://a.example/list");
    let (host, path) = f.request().unwrap();
    assert_eq!((host.as_str(), path.as_str()), ("a.example", "/list"));
    assert_eq!(f.answered(&host, HttpResult::Redirect("/moved".to_string())), None);
    let (host, path) = f.request().unwrap();
    assert_eq!((host.as_str(), path.as_str()), ("a.example", "/moved"));
    assert_eq!(
        f.answered(&host, HttpResult::Body(b"x.test\xff\n".to_vec())),
        Some("x.test\u{fffd}\n".to_string())
    );
}

#[test]
fn a_fetch_gives_up_on_the_fourth_redirect() {
    let mut f = Fetch::new("https://a.example/0");
    for i in 0..4 {
        let (host, path) = f.request().unwrap();
        assert_eq!(path, format!("/{i}"));
        assert_eq!(f.answered(&host, HttpResult::Redirect(format!("/{}", i + 1))), None);
    }
    assert_eq!(
        f.request().unwrap_err().message(),
        "too many redirects fetching https://a.example/0"
    );
}

#[test]
fn a_fetch_never_leaves_https() {
    let mut f = Fetch::new("https://a.example/");
    f.answered("a.example", HttpResult::Redirect("http://a.example/".to_string()));
    assert!(matches!(f.request(), Err(FetchError::NotHttps(u)) if u == "http://a.example/"));
}

#[test]
fn the_request_is_written() {
    assert_eq!(
        http_request("h.example", "/x"),
        "GET /x HTTP/1.1\r\nHost: h.example\r\nUser-Agent: dnsix/0.1.0\r\nAccept: text/plain, */*\r\nAccept-Encoding: identity\r\nConnection: close\r\n\r\n"
    );
}

#[test]
fn a_response_is_capped() {
    assert!(check_size("h.example", MAX_BODY).is_ok());
    assert_eq!(
        check_size("h.example", MAX_BODY + 1).unwrap_err().message(),
        "response from h.example exceeds 67108864 bytes"
    );
    assert_eq!(
        FetchError::TimedOut("https://h.example/".to_string()).message(),
        "timed out fetching https://h.example/"
    );
}

#[test]
fn a_host_is_looked_up() {
    let m = host_query("h.example..").unwrap();
    assert_eq!(m.queries.len(), 1);
    assert_eq!(m.queries[0].name.text, "h.example.");
    assert_eq!(m.queries[0].qtype, RecordType::A);
    assert!(m.edns.is_none());
    let long = "a".repeat(64);
    let err = host_query(&long).unwrap_err().message();
    assert!(err.starts_with(&format!("invalid host name {long}: ")));
    assert!(err.len() > format!("invalid host name {long}: ").len());
}

fn reply(ips: &[[u8; 4]]) -> Response {
    Response {
        rcode: ResponseCode::NoError,
        authentic: false,
        answers: ips
            .iter()
            .map(|ip| Record {
                name: Name::from_ascii("h.example.").unwrap(),
                rtype: RecordType::A,
                ttl: 1,
                data: RData::A(Ipv4Addr::new(ip[0], ip[1], ip[2], ip[3])),
                wire: vec![],
            })
            .collect(),
        authority: vec![],
        additionals: vec![],
    }
}

#[test]
fn a_host_is_reached_through_nat64() {
    let prefix = Ipv6Addr::parse("64:ff9b::").unwrap();
    let name = Name::from_ascii("h.example.").unwrap();
    let at = target(
        "h.example",
        &name,
        &Some(reply(&[[10, 0, 0, 1], [93, 184, 216, 34], [1, 1, 1, 1]])),
        prefix,
    )
    .unwrap();
    assert_eq!(at.text(), "[64:ff9b::5db8:d822]:443");
    assert_eq!(
        target("h.example", &name, &None, prefix).unwrap_err().message(),
        "A lookup for h.example failed (every upstream down)"
    );
    assert_eq!(
        target("h.example", &name, &Some(reply(&[[10, 0, 0, 1]])), prefix)
            .unwrap_err()
            .message(),
        "no globally-routable A record for h.example"
    );
}
