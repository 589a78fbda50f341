//! URLs, requests, responses and redirects, from their parts.

use vstd::prelude::*;

use crate::dns::{Record, Response};
use crate::fetch;
use crate::fetch::{ChunkFault, FetchFault, FetchModel, HeadersModel, HttpFault, HttpModel};
use crate::net::{IpAddr, Ipv4Addr, Ipv6Addr};
use crate::synth::nat64;
use crate::text;
use crate::text::Sep;
use crate::text_laws;

verus! {

// ---------------------------------------------------------------------------
// Searching
// ---------------------------------------------------------------------------

proof fn first_place_from_is_first(hay: Seq<u8>, needle: Seq<u8>, i: int)
    requires
        0 <= i,
    ensures
        ({
            let p = fetch::first_place_from(hay, needle, i);
            &&& p >= 0 ==> i <= p && p + needle.len() <= hay.len() && hay.subrange(
                p,
                p + needle.len(),
            ) == needle && forall|j: int| i <= j < p ==> !fetch::stands_at(hay, needle, j)
            &&& p < 0 ==> forall|j: int| i <= j ==> !fetch::stands_at(hay, needle, j)
        }),
    decreases hay.len() + 1 - i,
{
    if i + needle.len() <= hay.len() && !fetch::stands_at(hay, needle, i) {
        first_place_from_is_first(hay, needle, i + 1);
    }
}

/// The place that is found is one where the bytes stand, and none in front of it is;
/// where none is found, they stand nowhere.
pub proof fn the_first_place_is_found(hay: Seq<u8>, needle: Seq<u8>)
    ensures
        ({
            let p = fetch::first_place(hay, needle);
            &&& p >= 0 ==> p + needle.len() <= hay.len() && hay.subrange(p, p + needle.len())
                == needle && forall|j: int|
                0 <= j < p ==> #[trigger] hay.subrange(j, j + needle.len()) != needle
            &&& p < 0 ==> forall|j: int|
                0 <= j && j + needle.len() <= hay.len() ==> #[trigger] hay.subrange(
                    j,
                    j + needle.len(),
                ) != needle
        }),
{
    first_place_from_is_first(hay, needle, 0);
    let p = fetch::first_place(hay, needle);
    assert forall|j: int| 0 <= j && j + needle.len() <= hay.len() && (p < 0 || j < p) implies
        #[trigger] hay.subrange(j, j + needle.len()) != needle by {
        assert(!fetch::stands_at(hay, needle, j));
    }
}

// ---------------------------------------------------------------------------
// Chunks
// ---------------------------------------------------------------------------

/// The size of a chunk is its hexadecimal digits, whatever extension follows a
/// semicolon.
pub proof fn a_chunk_size_is_hexadecimal(t: Seq<char>, ext: Seq<char>, n: nat)
    requires
        t.len() > 0,
        text::number(t, 16) == Some(n),
        n <= 0xffff_ffff,
    ensures
        fetch::chunk_size(t) == Some(n),
        fetch::chunk_size(t.push(';') + ext) == Some(n),
{
    let sep = Sep::Char(';');
    assert forall|i: int| 0 <= i < t.len() implies !text::separates(sep, #[trigger] t[i])
        && !text::is_space(t[i]) && t[i] != '+' by {
        text::number_digits(t, 16, i);
    }
    text_laws::split_of_a_piece(t, sep);
    text_laws::split_cuts_at_a_separator(t, ';', ext, sep);
    text_laws::trim_keeps_a_core(t);
    assert(text::split(t.push(';') + ext, sep)[0] == t);
    text_laws::a_limit_bounds_what_is_read(t, 16, usize::MAX as nat, n);
}

/// White space around the size of a chunk does not matter.
pub proof fn white_space_around_a_size_is_left_out(
    head: Seq<char>,
    t: Seq<char>,
    tail: Seq<char>,
    ext: Seq<char>,
    n: nat,
)
    requires
        t.len() > 0,
        text::number(t, 16) == Some(n),
        n <= 0xffff_ffff,
        forall|i: int| 0 <= i < head.len() ==> text::is_space(#[trigger] head[i]),
        forall|i: int| 0 <= i < tail.len() ==> text::is_space(#[trigger] tail[i]),
    ensures
        fetch::chunk_size(head + t + tail) == Some(n),
        fetch::chunk_size((head + t + tail).push(';') + ext) == Some(n),
{
    let sep = Sep::Char(';');
    let s = head + t + tail;
    assert forall|i: int| 0 <= i < t.len() implies !text::is_space(#[trigger] t[i]) && t[i] != '+'
        && t[i] != ';' by {
        text::number_digits(t, 16, i);
    }
    assert forall|i: int| 0 <= i < s.len() implies !text::separates(sep, #[trigger] s[i]) by {
        if i < head.len() {
            assert(s[i] == head[i]);
        } else if i < head.len() + t.len() {
            assert(s[i] == t[i - head.len()]);
        } else {
            assert(s[i] == tail[i - head.len() - t.len()]);
        }
    }
    text_laws::split_of_a_piece(s, sep);
    text_laws::split_cuts_at_a_separator(s, ';', ext, sep);
    text_laws::trim_leaves_the_core(head, t, tail);
    assert(text::split(s.push(';') + ext, sep)[0] == s);
    text_laws::a_limit_bounds_what_is_read(t, 16, usize::MAX as nat, n);
}

/// A size that is no text, or no hexadecimal number, is a fault.
pub proof fn a_chunk_needs_a_size(line: Seq<u8>, rest: Seq<u8>)
    requires
        forall|j: int|
            !fetch::stands_at(line + fetch::crlf(), fetch::crlf(), j) || j == line.len(),
    ensures
        ({
            let r = fetch::unchunked(line + fetch::crlf() + rest);
            &&& !vstd::utf8::valid_utf8(line) ==> r is Err && r->Err_0 is NotUtf8
            &&& vstd::utf8::valid_utf8(line) && fetch::chunk_size(
                vstd::utf8::decode_utf8(line),
            ) is None ==> r is Err && r->Err_0 is Size
        }),
{
    fetch::line_stands_first(line, rest);
}

/// A body without a line end is no chunked one.
pub proof fn a_chunk_needs_a_line_end(data: Seq<u8>)
    requires
        forall|j: int| 0 <= j && j + 2 <= data.len() ==> #[trigger] data.subrange(j, j + 2) != seq![
            13u8,
            10u8,
        ],
    ensures
        fetch::unchunked(data) == Err::<Seq<u8>, ChunkFault>(ChunkFault::Header),
{
    the_first_place_is_found(data, fetch::crlf());
    let p = fetch::first_place(data, fetch::crlf());
    if p >= 0 {
        assert(data.subrange(p, p + 2) == seq![13u8, 10u8]);
    }
}

/// A chunk is as long as its size says, and a line end follows it.
pub proof fn a_chunk_is_whole(line: Seq<u8>, rest: Seq<u8>, n: nat)
    requires
        n > 0,
        vstd::utf8::valid_utf8(line),
        fetch::chunk_size(vstd::utf8::decode_utf8(line)) == Some(n),
        forall|j: int|
            !fetch::stands_at(line + fetch::crlf(), fetch::crlf(), j) || j == line.len(),
    ensures
        rest.len() < n ==> fetch::unchunked(line + fetch::crlf() + rest) == Err::<
            Seq<u8>,
            ChunkFault,
        >(ChunkFault::Truncated),
        rest.len() >= n && (rest.len() < n + 2 || rest[n as int] != 13 || rest[n as int + 1] != 10)
            ==> fetch::unchunked(line + fetch::crlf() + rest) == Err::<Seq<u8>, ChunkFault>(
            ChunkFault::NoCrlf,
        ),
{
    fetch::line_stands_first(line, rest);
    if rest.len() >= n {
        let after = rest.skip(n as int);
        if fetch::stands_at(after, fetch::crlf(), 0) {
            assert(after.subrange(0, 2)[0] == 13 && after.subrange(0, 2)[1] == 10);
            assert(after[0] == rest[n as int] && after[1] == rest[n as int + 1]);
        }
    }
}

// ---------------------------------------------------------------------------
// Heads
// ---------------------------------------------------------------------------

proof fn line_end_is_found(a: Seq<char>, b: Seq<char>, i: int)
    requires
        0 <= i <= a.len(),
        forall|j: int| 0 <= j < a.len() ==> #[trigger] a[j] != '\r',
    ensures
        fetch::line_end(a + seq!['\r', '\n'] + b, i) == a.len(),
    decreases a.len() - i,
{
    let s = a + seq!['\r', '\n'] + b;
    if i < a.len() {
        assert(s[i] == a[i]);
        line_end_is_found(a, b, i + 1);
    } else {
        assert(s[i] == '\r' && s[i + 1] == '\n');
    }
}

proof fn no_line_end(a: Seq<char>, i: int)
    requires
        0 <= i,
        forall|j: int| 0 <= j < a.len() ==> #[trigger] a[j] != '\r',
    ensures
        fetch::line_end(a, i) < 0,
    decreases a.len() - i,
{
    if i + 2 <= a.len() {
        no_line_end(a, i + 1);
    }
}

/// The lines of a head are what stands between its line ends.
pub proof fn a_head_is_its_lines(a: Seq<char>, b: Seq<char>)
    requires
        forall|j: int| 0 <= j < a.len() ==> #[trigger] a[j] != '\r',
    ensures
        fetch::head_lines(a + seq!['\r', '\n'] + b) == seq![a] + fetch::head_lines(b),
        fetch::head_lines(a) == seq![a],
{
    let s = a + seq!['\r', '\n'] + b;
    line_end_is_found(a, b, 0);
    no_line_end(a, 0);
    assert(s.take(a.len() as int) =~= a);
    assert(s.skip(a.len() as int + 2) =~= b);
}

/// A status line holds a word and then its code.
pub proof fn a_status_is_the_second_word(w: Seq<char>, n: nat, rest: Seq<char>)
    requires
        w.len() > 0,
        forall|i: int| 0 <= i < w.len() ==> !text::is_space(#[trigger] w[i]),
        n <= 65_535,
        rest.len() > 0 ==> text::is_space(rest[0]),
    ensures
        fetch::status_code(w.push(' ') + (text::decimal(n) + rest)) == Some(n),
        fetch::status_code(w) is None,
{
    let d = text::decimal(n);
    let sep = Sep::Space;
    text::decimal_reads_back(n);
    assert forall|i: int| 0 <= i < d.len() implies !text::separates(sep, #[trigger] d[i]) by {
        text::number_digits(d, 10, i);
    }
    assert forall|i: int| 0 <= i < w.len() implies !text::separates(sep, #[trigger] w[i]) by {}
    text_laws::a_word_is_a_token(d, sep);
    text_laws::a_word_is_a_token(w, sep);
    text_laws::tokens_are_parted(w, ' ', d + rest, sep);
    if rest.len() > 0 {
        let more = rest.skip(1);
        text_laws::tokens_are_parted(d, rest[0], more, sep);
        assert(d + rest =~= d.push(rest[0]) + more);
    } else {
        assert(d + rest =~= d);
    }
    assert(text::tokens(d + rest, sep)[0] == d);
    assert(text::tokens(w.push(' ') + (d + rest), sep)[1] == d);
    text_laws::a_limit_bounds_what_is_read(d, 10, 65_535, n);
}

/// A header is a name in whatever case, a colon and a value, with white space around
/// either. A location says where, and a transfer encoding of `chunked` that the body
/// is chunked; nothing else says anything.
pub proof fn a_header_says_what_its_name_says(
    h: HeadersModel,
    k: Seq<char>,
    v: Seq<char>,
)
    requires
        forall|i: int| 0 <= i < k.len() ==> #[trigger] k[i] != ':',
    ensures
        ({
            let key = text::lower(text::trim(k));
            let r = fetch::header(h, k.push(':') + v);
            &&& key == "location"@ ==> r.location == Some(text::trim(v)) && r.chunked == h.chunked
            &&& key != "location"@ ==> r.location == h.location
            &&& key == "transfer-encoding"@ && text::lower(text::trim(v)) == "chunked"@
                ==> r.chunked
            &&& key != "transfer-encoding"@ || text::lower(text::trim(v)) != "chunked"@
                ==> r.chunked == h.chunked
        }),
        fetch::header(h, k) == h,
{
    let line = k.push(':') + v;
    line.index_of_first_ensures(':');
    k.index_of_first_ensures(':');
    let n = k.len() as int;
    assert(line[n] == ':');
    assert(line.contains(':'));
    let i = line.index_of_first(':')->0;
    if i < n {
        assert(line[i] == k[i]);
    }
    if n < i {
        assert(line[n] != ':');
    }
    assert(i == n);
    assert(line.take(n) =~= k);
    assert(line.skip(n + 1) =~= v);
    reveal_strlit("location");
    reveal_strlit("transfer-encoding");
    reveal_strlit("chunked");
    assert("location"@.len() != "transfer-encoding"@.len());
    assert(text::lower("chunked"@) =~= "chunked"@);
}

/// Headers are read one after the other, so that a later location counts.
pub proof fn headers_are_read_in_order(lines: Seq<Seq<char>>, line: Seq<char>)
    ensures
        fetch::headers(lines.push(line)) == fetch::header(fetch::headers(lines), line),
        fetch::headers(Seq::empty()).location is None,
        !fetch::headers(Seq::empty()).chunked,
{
    assert(lines.push(line).drop_last() =~= lines);
}

// ---------------------------------------------------------------------------
// Responses
// ---------------------------------------------------------------------------

/// A code from 200 to 299 gives the body, one from 300 to 399 leads on, and any other
/// is a fault.
pub proof fn a_code_decides(code: nat, h: HeadersModel, body: Seq<u8>)
    ensures
        ({
            let r = fetch::http_outcome(code, h, body);
            &&& 200 <= code <= 299 && !h.chunked ==> r == Ok::<HttpModel, HttpFault>(
                HttpModel::Body(body),
            )
            &&& 200 <= code <= 299 && h.chunked && fetch::unchunked(body) is Ok ==> r == Ok::<
                HttpModel,
                HttpFault,
            >(HttpModel::Body(fetch::unchunked(body)->Ok_0))
            &&& 200 <= code <= 299 && h.chunked && fetch::unchunked(body) is Err ==> r == Err::<
                HttpModel,
                HttpFault,
            >(HttpFault::Chunk(fetch::unchunked(body)->Err_0))
            &&& 300 <= code <= 399 && h.location is Some ==> r == Ok::<HttpModel, HttpFault>(
                HttpModel::Redirect(h.location->0),
            )
            &&& 300 <= code <= 399 && h.location is None ==> r == Err::<HttpModel, HttpFault>(
                HttpFault::NoLocation(code as u16),
            )
            &&& code < 200 || code > 399 ==> r == Err::<HttpModel, HttpFault>(
                HttpFault::Status(code as u16),
            )
        }),
{
}

/// A response is its head, a blank line and its body.
pub proof fn a_response_is_a_head_and_a_body(
    head: Seq<u8>,
    blank: Seq<u8>,
    body: Seq<u8>,
    status: Seq<char>,
    lines: Seq<Seq<char>>,
    code: nat,
)
    requires
        vstd::utf8::valid_utf8(head),
        fetch::head_lines(vstd::utf8::decode_utf8(head)) == seq![status] + lines,
        blank == seq![13u8, 10, 13, 10],
        forall|j: int|
            0 <= j < head.len() ==> #[trigger] (head + blank).subrange(j, j + 4) != blank,
    ensures
        ({
            let r = fetch::http_read(head + blank + body);
            &&& fetch::status_code(status) is None ==> r == Err::<HttpModel, HttpFault>(
                HttpFault::StatusLine(status),
            )
            &&& fetch::status_code(status) == Some(code) ==> r == fetch::http_outcome(
                code,
                fetch::headers(lines),
                body,
            )
        }),
{
    let raw = head + blank + body;
    let n = head.len() as int;
    assert(fetch::blank_line() =~= blank);
    assert(raw.subrange(n, n + 4) =~= blank);
    assert(fetch::stands_at(raw, blank, n));
    assert forall|j: int| 0 <= j < n implies !fetch::stands_at(raw, blank, j) by {
        assert(raw.subrange(j, j + 4) =~= (head + blank).subrange(j, j + 4));
    }
    fetch::first_place_is_first(raw, blank, 0, n);
    assert(raw.take(n) =~= head);
    assert(raw.skip(n + 4) =~= body);
    let l = seq![status] + lines;
    assert(l[0] == status);
    assert(l.skip(1) =~= lines);
}

/// A head that is no text is a fault.
pub proof fn a_head_is_text(head: Seq<u8>, blank: Seq<u8>, body: Seq<u8>)
    requires
        !vstd::utf8::valid_utf8(head),
        blank == seq![13u8, 10, 13, 10],
        forall|j: int|
            0 <= j < head.len() ==> #[trigger] (head + blank).subrange(j, j + 4) != blank,
    ensures
        fetch::http_read(head + blank + body) is Err,
        fetch::http_read(head + blank + body)->Err_0 is HeadUtf8,
{
    let raw = head + blank + body;
    let n = head.len() as int;
    assert(fetch::blank_line() =~= blank);
    assert(raw.subrange(n, n + 4) =~= blank);
    assert(fetch::stands_at(raw, blank, n));
    assert forall|j: int| 0 <= j < n implies !fetch::stands_at(raw, blank, j) by {
        assert(raw.subrange(j, j + 4) =~= (head + blank).subrange(j, j + 4));
    }
    fetch::first_place_is_first(raw, blank, 0, n);
    assert(raw.take(n) =~= head);
}

/// A response without a blank line has no head.
pub proof fn a_response_needs_a_blank_line(raw: Seq<u8>)
    requires
        forall|j: int|
            0 <= j && j + 4 <= raw.len() ==> #[trigger] raw.subrange(j, j + 4) != seq![
                13u8,
                10,
                13,
                10,
            ],
    ensures
        fetch::http_read(raw) == Err::<HttpModel, HttpFault>(HttpFault::NoHead),
{
    the_first_place_is_found(raw, fetch::blank_line());
    assert(fetch::blank_line() =~= seq![13u8, 10, 13, 10]);
    let p = fetch::first_place(raw, fetch::blank_line());
    if p >= 0 {
        assert(raw.subrange(p, p + 4) == seq![13u8, 10, 13, 10]);
    }
}

// ---------------------------------------------------------------------------
// URLs
// ---------------------------------------------------------------------------

/// The parts of an `https://` URL are its host, without a port, and its path, which is
/// the root where there is none.
pub proof fn a_url_is_a_host_and_a_path(host: Seq<char>, port: Seq<char>, path: Seq<char>)
    requires
        host.len() > 0,
        !host.contains('/'),
        !host.contains(':'),
        !port.contains('/'),
        path.len() > 0 ==> path[0] == '/',
    ensures
        ({
            let want = Ok::<(Seq<char>, Seq<char>), FetchFault>(
                (
                    host,
                    if path.len() == 0 {
                        seq!['/']
                    } else {
                        path
                    },
                ),
            );
            &&& fetch::https_parts("https://"@ + host + path) == want
            &&& fetch::https_parts("https://"@ + (host.push(':') + port) + path) == want
        }),
{
    let none = Seq::<char>::empty();
    assert(host + none =~= host);
    authority_and_path(host, path);
    let hp = host.push(':') + port;
    assert forall|i: int| 0 <= i < hp.len() implies hp[i] != '/' by {
        if i < host.len() {
            assert(hp[i] == host[i]);
        } else if i > host.len() {
            assert(hp[i] == port[i - host.len() - 1]);
        }
    }
    authority_and_path(hp, path);
    let sep = Sep::Char(':');
    assert forall|i: int| 0 <= i < host.len() implies !text::separates(sep, #[trigger] host[i]) by {
        assert(host.contains(host[i]));
    }
    text_laws::split_of_a_piece(host, sep);
    text_laws::split_cuts_at_a_separator(host, ':', port, sep);
    assert(text::split(hp, sep)[0] == host);
}

proof fn authority_and_path(hp: Seq<char>, path: Seq<char>)
    requires
        !hp.contains('/'),
        path.len() > 0 ==> path[0] == '/',
    ensures
        ({
            let host = text::split(hp, Sep::Char(':'))[0];
            let url = "https://"@ + hp + path;
            &&& host.len() > 0 ==> fetch::https_parts(url) == Ok::<
                (Seq<char>, Seq<char>),
                FetchFault,
            >(
                (
                    host,
                    if path.len() == 0 {
                        seq!['/']
                    } else {
                        path
                    },
                ),
            )
            &&& host.len() == 0 ==> fetch::https_parts(url) == Err::<
                (Seq<char>, Seq<char>),
                FetchFault,
            >(FetchFault::EmptyHost(url))
        }),
{
    reveal_strlit("/");
    reveal_strlit("https://");
    let scheme = "https://"@;
    let url = scheme + hp + path;
    assert(url.take(scheme.len() as int) =~= scheme);
    let rest = url.skip(scheme.len() as int);
    assert(rest =~= hp + path);
    assert("/"@ =~= seq!['/']);
    rest.index_of_first_ensures('/');
    if path.len() > 0 {
        assert(rest[hp.len() as int] == '/');
        assert(rest.contains('/'));
        let i = rest.index_of_first('/')->0;
        if i < hp.len() {
            assert(hp[i] == '/');
        }
        assert(i == hp.len());
        assert(rest.take(i) =~= hp);
        assert(rest.skip(i) =~= path);
    } else {
        assert(rest =~= hp);
    }
}

/// A URL of another scheme is refused, and so is one that names no host.
pub proof fn a_url_needs_its_scheme_and_a_host(url: Seq<char>, path: Seq<char>)
    requires
        path.len() > 0 ==> path[0] == '/',
    ensures
        !(exists|r: Seq<char>| url == #[trigger] ("https://"@ + r)) ==> fetch::https_parts(url)
            == Err::<(Seq<char>, Seq<char>), FetchFault>(FetchFault::NotHttps(url)),
        fetch::https_parts("https://"@ + path) == Err::<(Seq<char>, Seq<char>), FetchFault>(
            FetchFault::EmptyHost("https://"@ + path),
        ),
{
    text_laws::begins_means_something_follows(url, "https://"@);
    let none = Seq::<char>::empty();
    text_laws::split_of_a_piece(none, Sep::Char(':'));
    authority_and_path(none, path);
    assert("https://"@ + none + path =~= "https://"@ + path);
}

/// A location with a scheme is taken as it is; one that begins with a slash is a path
/// of the host, and any other a path below its root.
pub proof fn a_location_is_made_absolute(host: Seq<char>, r: Seq<char>, loc: Seq<char>)
    ensures
        fetch::absolute_url(host, "https://"@ + r) == "https://"@ + r,
        fetch::absolute_url(host, "http://"@ + r) == "http://"@ + r,
        fetch::absolute_url(host, seq!['/'] + r) == "https://"@ + host + seq!['/'] + r,
        loc.len() > 0 && loc[0] != '/' && loc[0] != 'h' ==> fetch::absolute_url(host, loc)
            == "https://"@ + host + seq!['/'] + loc,
{
    reveal_strlit("/");
    reveal_strlit("https://");
    reveal_strlit("http://");
    text_laws::begins_means_something_follows("https://"@ + r, "https://"@);
    text_laws::begins_means_something_follows("http://"@ + r, "http://"@);
    let s = seq!['/'] + r;
    assert("/"@ =~= seq!['/']);
    text_laws::begins_means_something_follows(s, "/"@);
    assert(s == "/"@ + r);
    if text::begins(s, "https://"@) {
        assert(s.take("https://"@.len() as int)[0] == 'h');
    }
    if text::begins(s, "http://"@) {
        assert(s.take("http://"@.len() as int)[0] == 'h');
    }
    assert("https://"@ + host + s =~= "https://"@ + host + seq!['/'] + r);
    if loc.len() > 0 && loc[0] != '/' && loc[0] != 'h' {
        if text::begins(loc, "https://"@) {
            assert(loc.take("https://"@.len() as int)[0] == 'h');
        }
        if text::begins(loc, "http://"@) {
            assert(loc.take("http://"@.len() as int)[0] == 'h');
        }
        if text::begins(loc, "/"@) {
            assert(loc.take("/"@.len() as int)[0] == '/');
        }
    }
}

/// A request asks for its path, of its host, in plain text, over a connection that is
/// then closed.
pub proof fn a_request_has_its_lines(host: Seq<char>, path: Seq<char>)
    ensures
        fetch::request_text(host, path) == "GET "@ + path + " HTTP/1.1"@ + "\r\n"@ + "Host: "@
            + host + "\r\n"@ + "User-Agent: dnsix/0.1.0"@ + "\r\n"@ + "Accept: text/plain, */*"@
            + "\r\n"@ + "Accept-Encoding: identity"@ + "\r\n"@ + "Connection: close"@ + "\r\n"@
            + "\r\n"@,
{
    reveal_strlit(" HTTP/1.1\r\nHost: ");
    reveal_strlit(" HTTP/1.1");
    reveal_strlit("\r\n");
    reveal_strlit("Host: ");
    reveal_strlit(
        "\r\nUser-Agent: dnsix/0.1.0\r\nAccept: text/plain, */*\r\nAccept-Encoding: identity\r\nConnection: close\r\n\r\n",
    );
    reveal_strlit("User-Agent: dnsix/0.1.0");
    reveal_strlit("Accept: text/plain, */*");
    reveal_strlit("Accept-Encoding: identity");
    reveal_strlit("Connection: close");
    let e = "\r\n"@;
    assert(" HTTP/1.1\r\nHost: "@ =~= " HTTP/1.1"@ + e + "Host: "@);
    let tail = e + "User-Agent: dnsix/0.1.0"@ + e + "Accept: text/plain, */*"@ + e
        + "Accept-Encoding: identity"@ + e + "Connection: close"@ + e + e;
    assert("\r\nUser-Agent: dnsix/0.1.0\r\nAccept: text/plain, */*\r\nAccept-Encoding: identity\r\nConnection: close\r\n\r\n"@
        =~= tail);
    let front = "GET "@ + path + " HTTP/1.1"@ + e + "Host: "@ + host;
    assert("GET "@ + path + " HTTP/1.1\r\nHost: "@ + host =~= front);
    assert(front + tail =~= front + e + "User-Agent: dnsix/0.1.0"@ + e
        + "Accept: text/plain, */*"@ + e + "Accept-Encoding: identity"@ + e + "Connection: close"@
        + e + e);
}

// ---------------------------------------------------------------------------
// Redirects and limits
// ---------------------------------------------------------------------------

/// A fetch follows three redirects and refuses the fourth; each leads on from where
/// the last one led.
pub proof fn three_redirects_are_followed(f: FetchModel, host: Seq<char>, loc: Seq<char>)
    ensures
        f.made <= 3 ==> fetch::next_request(f) == fetch::https_parts(f.current),
        f.made >= 4 ==> fetch::next_request(f) == Err::<(Seq<char>, Seq<char>), FetchFault>(
            FetchFault::Redirects(f.url),
        ),
        fetch::redirected(f, host, loc).made == f.made + 1,
        fetch::redirected(f, host, loc).url == f.url,
        fetch::redirected(f, host, loc).current == fetch::absolute_url(host, loc),
        fetch::after_redirects(f.url, Seq::empty()).made == 0,
        fetch::after_redirects(f.url, Seq::empty()).current == f.url,
{
}

/// The limits on a fetch: sixty seconds, and 64 mebibytes.
pub proof fn the_limits_of_a_fetch()
    ensures
        fetch::FETCH_TIMEOUT_SECS == 60,
        fetch::MAX_BODY == 64 * 1024 * 1024,
{
}

// ---------------------------------------------------------------------------
// Addresses
// ---------------------------------------------------------------------------

/// The addresses of some records and of some more are those of both, in order.
pub proof fn addresses_add_up(v: Seq<Record>, w: Seq<Record>)
    ensures
        fetch::addresses_of(v + w) == fetch::addresses_of(v) + fetch::addresses_of(w),
    decreases w.len(),
{
    if w.len() == 0 {
        assert(v + w =~= v);
        assert(fetch::addresses_of(v) + fetch::addresses_of(w) =~= fetch::addresses_of(v));
    } else {
        addresses_add_up(v, w.drop_last());
        assert((v + w).drop_last() =~= v + w.drop_last());
        assert(fetch::addresses_of(v + w) =~= fetch::addresses_of(v) + fetch::addresses_of(w));
    }
}

/// An A record has its address, and no other record has one.
pub proof fn one_record_has_one_address(r: Record)
    ensures
        r.data is A ==> fetch::addresses_of(seq![r]) == seq![r.data->A_0],
        !(r.data is A) ==> fetch::addresses_of(seq![r]).len() == 0,
{
    reveal_with_fuel(fetch::addresses_of, 2);
    assert(seq![r].drop_last() =~= Seq::<Record>::empty());
    assert(Seq::<Ipv4Addr>::empty().push(r.data->A_0) =~= seq![r.data->A_0]);
}

/// A host is reached at port 443 of the first of its eligible addresses, embedded in
/// the prefix; without a reply, and without such an address, it is not.
pub proof fn a_host_is_reached_at_its_first_address(
    host: Seq<char>,
    name: Seq<char>,
    reply: Option<Response>,
    prefix: Ipv6Addr,
)
    ensures
        ({
            let t = fetch::host_target(host, name, reply, prefix);
            let v = nat64::eligible(name, fetch::addresses_of(reply->0.answers@));
            &&& reply is None ==> t is Err && t->Err_0 == FetchFault::Lookup(host)
            &&& reply is Some && v.len() == 0 ==> t is Err && t->Err_0 == FetchFault::NoAddress(
                host,
            )
            &&& reply is Some && v.len() > 0 ==> t is Ok && t->Ok_0.port == 443 && t->Ok_0.scope
                == 0 && t->Ok_0.ip == IpAddr::V6(nat64::embedded(prefix, v[0]))
        }),
{
}

} // verus!
