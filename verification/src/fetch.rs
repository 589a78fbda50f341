//! Fetching a blocklist over HTTPS: URLs, redirects, and HTTP/1.1 responses.
//!
//! The list hosts are reached the way clients are served: a host's A record is
//! looked up at the configured upstreams and embedded into the NAT64 prefix.

use vstd::prelude::*;

use crate::dns;
use crate::dns::{Message, Name, Query, RData, Record, RecordType, Response};
use crate::net::{IpAddr, Ipv4Addr, Ipv6Addr, SocketAddr};
use crate::synth::labels;
use crate::synth::nat64;
use crate::text;
use crate::text::Sep;

verus! {

/// Overall timeout for fetching one list, in seconds.
pub const FETCH_TIMEOUT_SECS: u64 = 60;

/// Hard cap on a fetched response, in bytes.
pub const MAX_BODY: usize = 67_108_864;

/// How many redirects are followed before giving up.
pub const MAX_REDIRECTS: usize = 3;

// ---------------------------------------------------------------------------
// Bytes
// ---------------------------------------------------------------------------

/// Whether `needle` stands at place `i`.
pub open spec fn stands_at(hay: Seq<u8>, needle: Seq<u8>, i: int) -> bool {
    0 <= i && i + needle.len() <= hay.len() && hay.subrange(i, i + needle.len()) == needle
}

/// The first place of `needle`, or -1.
pub open spec fn first_place(hay: Seq<u8>, needle: Seq<u8>) -> int {
    first_place_from(hay, needle, 0)
}

/// The first place of `needle` from `i` on, or -1.
pub open spec fn first_place_from(hay: Seq<u8>, needle: Seq<u8>, i: int) -> int
    decreases hay.len() + 1 - i,
{
    if i + needle.len() > hay.len() {
        -1
    } else if stands_at(hay, needle, i) {
        i
    } else {
        first_place_from(hay, needle, i + 1)
    }
}

fn same_bytes_at(hay: &[u8], needle: &[u8], at: usize) -> (r: bool)
    requires
        at + needle@.len() <= hay@.len(),
    ensures
        r == stands_at(hay@, needle@, at as int),
{
    let n: usize = hay.len();
    let k: usize = needle.len();
    let mut j: usize = 0;
    while j < k
        invariant
            n == hay@.len(),
            k == needle@.len(),
            at + k <= n,
            0 <= j <= k,
            forall|x: int| 0 <= x < j ==> hay@[at + x] == needle@[x],
        decreases k - j,
    {
        if hay[at + j] != needle[j] {
            proof {
                let s = hay@.subrange(at as int, at + k);
                assert(s[j as int] == hay@[at + j]);
            }
            return false;
        }
        j = j + 1;
    }
    assert(hay@.subrange(at as int, at + k) =~= needle@);
    true
}

/// First index of `needle` in `haystack`.
pub fn find_subslice(haystack: &[u8], needle: &[u8]) -> (r: Option<usize>)
    requires
        needle@.len() > 0,
    ensures
        match r {
            Some(i) => first_place(haystack@, needle@) == i && stands_at(
                haystack@,
                needle@,
                i as int,
            ),
            None => first_place(haystack@, needle@) == -1,
        },
{
    let n: usize = haystack.len();
    let k: usize = needle.len();
    let mut i: usize = 0;
    while i < n && k <= n - i
        invariant
            n == haystack@.len(),
            k == needle@.len(),
            k > 0,
            0 <= i <= n,
            first_place(haystack@, needle@) == first_place_from(haystack@, needle@, i as int),
        decreases n - i,
    {
        if same_bytes_at(haystack, needle, i) {
            return Some(i);
        }
        i = i + 1;
    }
    None
}

fn byte_slice(v: &[u8], from: usize, to: usize) -> (r: Vec<u8>)
    requires
        from <= to <= v@.len(),
    ensures
        r@ == v@.subrange(from as int, to as int),
{
    let mut out: Vec<u8> = Vec::new();
    let mut i: usize = from;
    while i < to
        invariant
            from <= i <= to <= v@.len(),
            out@ == v@.subrange(from as int, i as int),
        decreases to - i,
    {
        out.push(v[i]);
        assert(v@.subrange(from as int, i + 1) =~= v@.subrange(from as int, i as int).push(
            v@[i as int],
        ));
        i = i + 1;
    }
    out
}

// ---------------------------------------------------------------------------
// Chunked bodies
// ---------------------------------------------------------------------------

/// What is wrong with a chunked body.
#[derive(Debug)]
pub enum ChunkError {
    /// No line end behind a chunk size.
    Header,
    /// The chunk size is no UTF-8; the fault in words.
    NotUtf8(String),
    /// The chunk size is no hexadecimal number; the fault in words.
    Size(String),
    /// The body ends inside a chunk.
    Truncated,
    /// No line end behind a chunk.
    NoCrlf,
}

/// A [`ChunkError`], with texts for its strings.
pub enum ChunkFault {
    Header,
    NotUtf8(Seq<char>),
    Size(Seq<char>),
    Truncated,
    NoCrlf,
}

impl View for ChunkError {
    type V = ChunkFault;

    open spec fn view(&self) -> ChunkFault {
        match *self {
            ChunkError::Header => ChunkFault::Header,
            ChunkError::NotUtf8(c) => ChunkFault::NotUtf8(c@),
            ChunkError::Size(c) => ChunkFault::Size(c@),
            ChunkError::Truncated => ChunkFault::Truncated,
            ChunkError::NoCrlf => ChunkFault::NoCrlf,
        }
    }
}

/// A chunk error in words.
pub open spec fn chunk_text(e: ChunkFault) -> Seq<char> {
    match e {
        ChunkFault::Header => "malformed chunk header"@,
        ChunkFault::NotUtf8(c) => "non-UTF8 chunk size: "@ + c,
        ChunkFault::Size(c) => "bad chunk size: "@ + c,
        ChunkFault::Truncated => "truncated chunk body"@,
        ChunkFault::NoCrlf => "missing CRLF after chunk"@,
    }
}

impl ChunkError {
    /// The error in words, with its cause.
    pub fn message(&self) -> (r: String)
        ensures
            r@ == chunk_text(self@),
    {
        let mut m: String = String::new();
        match self {
            ChunkError::Header => {
                m.append("malformed chunk header");
            },
            ChunkError::NotUtf8(c) => {
                m.append("non-UTF8 chunk size: ");
                m.append(c.as_str());
            },
            ChunkError::Size(c) => {
                m.append("bad chunk size: ");
                m.append(c.as_str());
            },
            ChunkError::Truncated => {
                m.append("truncated chunk body");
            },
            ChunkError::NoCrlf => {
                m.append("missing CRLF after chunk");
            },
        }
        assert(m@ =~= chunk_text(self@));
        m
    }
}

/// A carriage return and a line feed.
pub open spec fn crlf() -> Seq<u8> {
    seq![13u8, 10u8]
}

/// The size that a chunk's first line writes, before any extension.
pub open spec fn size_text(line: Seq<char>) -> Seq<char> {
    text::trim(text::split(line, Sep::Char(';'))[0])
}

/// The number that the size is, in hexadecimal.
pub open spec fn chunk_size(line: Seq<char>) -> Option<nat> {
    text::parsed(size_text(line), 16, usize::MAX as nat)
}

/// The bytes that a chunked body holds.
pub open spec fn unchunked(data: Seq<u8>) -> Result<Seq<u8>, ChunkFault>
    decreases data.len(),
{
    let nl = first_place(data, crlf());
    if nl < 0 || nl + 2 > data.len() {
        Err(ChunkFault::Header)
    } else if !vstd::utf8::valid_utf8(data.take(nl)) {
        Err(ChunkFault::NotUtf8(text::utf8_fault(data.take(nl))))
    } else {
        match chunk_size(vstd::utf8::decode_utf8(data.take(nl))) {
            None => Err(
                ChunkFault::Size(
                    text::hex_fault(size_text(vstd::utf8::decode_utf8(data.take(nl)))),
                ),
            ),
            Some(n) => {
                let rest = data.skip(nl + 2);
                if n == 0 {
                    Ok(Seq::empty())
                } else if rest.len() < n {
                    Err(ChunkFault::Truncated)
                } else {
                    let after = rest.skip(n as int);
                    if !stands_at(after, crlf(), 0) {
                        Err(ChunkFault::NoCrlf)
                    } else {
                        match unchunked(after.skip(2)) {
                            Ok(more) => Ok(rest.take(n as int) + more),
                            Err(e) => Err(e),
                        }
                    }
                }
            },
        }
    }
}

/// A result of bytes and its mathematical value.
pub open spec fn same_bytes(
    r: Result<Vec<u8>, ChunkError>,
    m: Result<Seq<u8>, ChunkFault>,
) -> bool {
    match (r, m) {
        (Ok(v), Ok(s)) => v@ == s,
        (Err(e), Err(f)) => e@ == f,
        _ => false,
    }
}

fn read_chunk_size(line: &str) -> (r: Result<usize, String>)
    ensures
        match r {
            Ok(n) => chunk_size(line@) == Some(n as nat),
            Err(e) => chunk_size(line@) is None && e@ == text::hex_fault(size_text(line@)),
        },
{
    let v = text::to_chars(line);
    let parts = text::split_chars(v.as_slice(), Sep::Char(';'));
    assert(text::lists(parts@)[0] == parts@[0]@);
    let t = text::trim_chars(parts[0].as_slice());
    match text::parse_number(t.as_slice(), 16, usize::MAX as u64) {
        Some(n) => Ok(n as usize),
        None => {
            let s = text::from_chars(t.as_slice());
            match text::hex_error(s.as_str()) {
                Some(e) => Err(e),
                None => Err(String::new()),
            }
        },
    }
}

/// What goes before the bytes of the remaining chunks.
pub open spec fn prepend(
    head: Seq<u8>,
    r: Result<Seq<u8>, ChunkFault>,
) -> Result<Seq<u8>, ChunkFault> {
    match r {
        Ok(s) => Ok(head + s),
        Err(e) => Err(e),
    }
}

/// Decodes an HTTP/1.1 chunked transfer body.
pub fn dechunk(data: &[u8]) -> (r: Result<Vec<u8>, ChunkError>)
    ensures
        same_bytes(r, unchunked(data@)),
{
    let n: usize = data.len();
    let mut out: Vec<u8> = Vec::new();
    let mut at: usize = 0;
    let eol: [u8; 2] = [13, 10];
    assert(eol@ =~= crlf());
    assert(data@.skip(0) =~= data@);
    proof {
        match unchunked(data@) {
            Ok(s) => {
                assert(out@ + s =~= s);
            },
            Err(_) => {},
        }
    }
    loop
        invariant
            n == data@.len(),
            0 <= at <= n,
            eol@ == crlf(),
            unchunked(data@) == prepend(out@, unchunked(data@.skip(at as int))),
        decreases n - at,
    {
        let rest = byte_slice(data, at, n);
        assert(rest@ =~= data@.skip(at as int));
        let nl: usize = match find_subslice(rest.as_slice(), &eol) {
            Some(i) => i,
            None => {
                return Err(ChunkError::Header);
            },
        };
        let head = byte_slice(rest.as_slice(), 0, nl);
        assert(head@ =~= rest@.take(nl as int));
        let line = match text::decode_utf8(head.as_slice()) {
            Ok(s) => s,
            Err(c) => {
                return Err(ChunkError::NotUtf8(c));
            },
        };
        let size: usize = match read_chunk_size(line.as_str()) {
            Ok(k) => k,
            Err(c) => {
                return Err(ChunkError::Size(c));
            },
        };
        let m: usize = rest.len();
        let start: usize = nl + 2;
        if size == 0 {
            assert(out@ + Seq::<u8>::empty() =~= out@);
            return Ok(out);
        }
        if m - start < size {
            return Err(ChunkError::Truncated);
        }
        let end: usize = start + size;
        let ghost body = rest@.skip(start as int);
        let ghost after = body.skip(size as int);
        assert(after =~= rest@.skip(end as int));
        if m - end < 2 || !same_bytes_at(rest.as_slice(), &eol, end) {
            proof {
                if stands_at(after, crlf(), 0) {
                    assert(after.subrange(0, 2) =~= rest@.subrange(end as int, end + 2));
                }
            }
            return Err(ChunkError::NoCrlf);
        }
        proof {
            assert(after.subrange(0, 2) =~= rest@.subrange(end as int, end + 2));
            assert(stands_at(after, crlf(), 0));
            assert(after.skip(2) =~= data@.skip(at + end + 2));
        }
        let part = byte_slice(rest.as_slice(), start, end);
        assert(part@ =~= body.take(size as int));
        let ghost before = out@;
        out.extend_from_slice(part.as_slice());
        assert(out@ =~= before + part@);
        proof {
            match unchunked(after.skip(2)) {
                Ok(more) => {
                    assert(before + (part@ + more) =~= out@ + more);
                },
                Err(_) => {},
            }
        }
        at = at + end + 2;
    }
}

// ---------------------------------------------------------------------------
// HTTP/1.1 responses
// ---------------------------------------------------------------------------

/// The two outcomes of a response that matter here.
#[derive(Debug)]
pub enum HttpResult {
    /// The body, de-chunked.
    Body(Vec<u8>),
    /// Where a redirect leads.
    Redirect(String),
}

/// An [`HttpResult`], with its bytes and its text.
pub enum HttpModel {
    Body(Seq<u8>),
    Redirect(Seq<char>),
}

impl View for HttpResult {
    type V = HttpModel;

    open spec fn view(&self) -> HttpModel {
        match *self {
            HttpResult::Body(b) => HttpModel::Body(b@),
            HttpResult::Redirect(l) => HttpModel::Redirect(l@),
        }
    }
}

/// What is wrong with a response.
#[derive(Debug)]
pub enum HttpError {
    /// No blank line ends the headers.
    NoHead,
    /// The headers are no UTF-8; the fault in words.
    HeadUtf8(String),
    /// The status line has no code.
    StatusLine(String),
    /// A redirect with this code does not say where.
    NoLocation(u16),
    /// A code that is neither a success nor a redirect.
    Status(u16),
    /// The body is not chunked as it should be.
    Chunk(ChunkError),
}

/// An [`HttpError`], with texts for its strings.
pub enum HttpFault {
    NoHead,
    HeadUtf8(Seq<char>),
    StatusLine(Seq<char>),
    NoLocation(u16),
    Status(u16),
    Chunk(ChunkFault),
}

impl View for HttpError {
    type V = HttpFault;

    open spec fn view(&self) -> HttpFault {
        match *self {
            HttpError::NoHead => HttpFault::NoHead,
            HttpError::HeadUtf8(c) => HttpFault::HeadUtf8(c@),
            HttpError::StatusLine(l) => HttpFault::StatusLine(l@),
            HttpError::NoLocation(n) => HttpFault::NoLocation(n),
            HttpError::Status(n) => HttpFault::Status(n),
            HttpError::Chunk(e) => HttpFault::Chunk(e@),
        }
    }
}

/// A response error in words.
pub open spec fn http_text(e: HttpFault) -> Seq<char> {
    match e {
        HttpFault::NoHead => "malformed HTTP response (no header terminator)"@,
        HttpFault::HeadUtf8(c) => "non-UTF8 HTTP headers: "@ + c,
        HttpFault::StatusLine(l) => "malformed status line "@ + text::quoted(l),
        HttpFault::NoLocation(n) => "HTTP "@ + text::decimal(n as nat)
            + " redirect without Location"@,
        HttpFault::Status(n) => "unexpected HTTP status "@ + text::decimal(n as nat),
        HttpFault::Chunk(e) => chunk_text(e),
    }
}

impl HttpError {
    /// The error in words, with its cause.
    pub fn message(&self) -> (r: String)
        ensures
            r@ == http_text(self@),
    {
        let mut m: String = String::new();
        match self {
            HttpError::NoHead => {
                m.append("malformed HTTP response (no header terminator)");
            },
            HttpError::HeadUtf8(c) => {
                m.append("non-UTF8 HTTP headers: ");
                m.append(c.as_str());
            },
            HttpError::StatusLine(l) => {
                m.append("malformed status line ");
                m.append(text::quote(l.as_str()).as_str());
            },
            HttpError::NoLocation(n) => {
                m.append("HTTP ");
                text::push_decimal(&mut m, *n as u64);
                m.append(" redirect without Location");
            },
            HttpError::Status(n) => {
                m.append("unexpected HTTP status ");
                text::push_decimal(&mut m, *n as u64);
            },
            HttpError::Chunk(e) => {
                m.append(e.message().as_str());
            },
        }
        assert(m@ =~= http_text(self@));
        m
    }
}

/// The first place from `i` on where a carriage return and a line feed stand, or
/// -1.
pub open spec fn line_end(s: Seq<char>, i: int) -> int
    decreases s.len() - i,
{
    if i + 2 > s.len() {
        -1
    } else if s[i] == '\r' && s[i + 1] == '\n' {
        i
    } else {
        line_end(s, i + 1)
    }
}

/// The lines of a text whose lines end in a carriage return and a line feed.
pub open spec fn head_lines(s: Seq<char>) -> Seq<Seq<char>>
    decreases s.len(),
{
    let i = line_end(s, 0);
    if i < 0 || i + 2 > s.len() {
        seq![s]
    } else {
        seq![s.take(i)] + head_lines(s.skip(i + 2))
    }
}

fn find_line_end(v: &[char]) -> (r: Option<usize>)
    ensures
        match r {
            Some(i) => line_end(v@, 0) == i && i + 2 <= v@.len(),
            None => line_end(v@, 0) == -1,
        },
{
    let n: usize = v.len();
    let mut i: usize = 0;
    while i < n && n - i >= 2
        invariant
            n == v@.len(),
            0 <= i <= n,
            line_end(v@, 0) == line_end(v@, i as int),
        decreases n - i,
    {
        if v[i] == '\r' && v[i + 1] == '\n' {
            return Some(i);
        }
        i = i + 1;
    }
    None
}

fn split_head(v: &[char]) -> (r: Vec<Vec<char>>)
    ensures
        text::lists(r@) == head_lines(v@),
        r@.len() > 0,
{
    let n: usize = v.len();
    let mut out: Vec<Vec<char>> = Vec::new();
    let mut at: usize = 0;
    assert(v@.skip(0) =~= v@);
    assert(text::lists(out@) + head_lines(v@) =~= head_lines(v@));
    loop
        invariant
            n == v@.len(),
            0 <= at <= n,
            head_lines(v@) == text::lists(out@) + head_lines(v@.skip(at as int)),
        decreases n - at,
    {
        let rest = text::slice(v, at, n);
        assert(rest@ =~= v@.skip(at as int));
        let ghost before = out@;
        match find_line_end(rest.as_slice()) {
            Some(i) => {
                let line = text::slice(rest.as_slice(), 0, i);
                assert(line@ =~= rest@.take(i as int));
                out.push(line);
                proof {
                    let more = head_lines(rest@.skip(i + 2));
                    assert(rest@.skip(i + 2) =~= v@.skip(at + i + 2));
                    assert(text::lists(out@) =~= text::lists(before).push(line@));
                    assert(text::lists(before) + (seq![line@] + more) =~= text::lists(out@)
                        + more);
                }
                at = at + i + 2;
            },
            None => {
                out.push(rest);
                assert(text::lists(out@) =~= text::lists(before) + seq![rest@]);
                return out;
            },
        }
    }
}

/// What the headers say that matters here.
pub struct Headers {
    /// Where a redirect leads.
    pub location: Option<String>,
    /// Whether the body is chunked.
    pub chunked: bool,
}

/// [`Headers`], with a text for the location.
pub struct HeadersModel {
    pub location: Option<Seq<char>>,
    pub chunked: bool,
}

impl View for Headers {
    type V = HeadersModel;

    open spec fn view(&self) -> HeadersModel {
        HeadersModel {
            location: match self.location {
                Some(l) => Some(l@),
                None => None,
            },
            chunked: self.chunked,
        }
    }
}

/// What one more header line makes of the headers: a name, in any case, a colon,
/// and a value.
pub open spec fn header(h: HeadersModel, line: Seq<char>) -> HeadersModel {
    match line.index_of_first(':') {
        None => h,
        Some(i) => {
            let key = text::lower(text::trim(line.take(i)));
            let value = text::trim(line.skip(i + 1));
            if key == "location"@ {
                HeadersModel { location: Some(value), ..h }
            } else if key == "transfer-encoding"@ && text::lower(value) == text::lower(
                "chunked"@,
            ) {
                HeadersModel { chunked: true, ..h }
            } else {
                h
            }
        },
    }
}

/// What some header lines say.
pub open spec fn headers(lines: Seq<Seq<char>>) -> HeadersModel
    decreases lines.len(),
{
    if lines.len() == 0 {
        HeadersModel { location: None, chunked: false }
    } else {
        header(headers(lines.drop_last()), lines.last())
    }
}

fn add_header(h: Headers, line: &[char]) -> (r: Headers)
    ensures
        r@ == header(h@, line@),
{
    proof {
        line@.index_of_first_ensures(':');
    }
    match text::find(line, ':') {
        None => h,
        Some(i) => {
            assert(line@.contains(':'));
            assert(line@.index_of_first(':') == Some(i as int));
            let k = text::slice(line, 0, i);
            assert(k@ =~= line@.take(i as int));
            let n: usize = line.len();
            let v = text::slice(line, i + 1, n);
            assert(v@ =~= line@.skip(i + 1));
            let key = text::from_chars(
                text::lower_chars(text::trim_chars(k.as_slice()).as_slice()).as_slice(),
            );
            let value = text::from_chars(text::trim_chars(v.as_slice()).as_slice());
            if text::same(key.as_str(), "location") {
                Headers { location: Some(value), chunked: h.chunked }
            } else if text::same(key.as_str(), "transfer-encoding") && text::same_ignore_case(
                value.as_str(),
                "chunked",
            ) {
                Headers { location: h.location, chunked: true }
            } else {
                h
            }
        },
    }
}

fn read_headers(lines: &Vec<Vec<char>>) -> (r: Headers)
    requires
        lines@.len() > 0,
    ensures
        r@ == headers(text::lists(lines@).skip(1)),
{
    let mut h = Headers { location: None, chunked: false };
    let ghost all = text::lists(lines@).skip(1);
    let mut i: usize = 1;
    while i < lines.len()
        invariant
            1 <= i <= lines@.len(),
            all == text::lists(lines@).skip(1),
            h@ == headers(all.take(i - 1)),
        decreases lines@.len() - i,
    {
        proof {
            assert(all.take(i as int).drop_last() =~= all.take(i - 1));
            assert(all.take(i as int).last() == lines@[i as int]@);
        }
        h = add_header(h, lines[i].as_slice());
        i = i + 1;
    }
    assert(all.take(i - 1) =~= all);
    h
}

/// The code of a status line: its second word.
pub open spec fn status_code(line: Seq<char>) -> Option<nat> {
    let words = text::tokens(line, Sep::Space);
    if words.len() < 2 {
        None
    } else {
        text::parsed(words[1], 10, 65535)
    }
}

fn read_status(line: &[char]) -> (r: Option<u16>)
    ensures
        match r {
            Some(n) => status_code(line@) == Some(n as nat),
            None => status_code(line@) is None,
        },
{
    let words = text::token_chars(line, Sep::Space);
    assert(text::lists(words@).len() == words@.len());
    if words.len() < 2 {
        return None;
    }
    assert(text::lists(words@)[1] == words@[1]@);
    match text::parse_number(words[1].as_slice(), 10, 65535) {
        Some(n) => Some(n as u16),
        None => None,
    }
}

/// The bytes that end the headers.
pub open spec fn blank_line() -> Seq<u8> {
    seq![13u8, 10u8, 13u8, 10u8]
}

/// What a response is, its status code and headers being read: a success gives
/// its body, a redirect its location.
pub open spec fn http_outcome(code: nat, h: HeadersModel, body: Seq<u8>) -> Result<
    HttpModel,
    HttpFault,
> {
    if 300 <= code < 400 {
        match h.location {
            Some(l) => Ok(HttpModel::Redirect(l)),
            None => Err(HttpFault::NoLocation(code as u16)),
        }
    } else if !(200 <= code < 300) {
        Err(HttpFault::Status(code as u16))
    } else if h.chunked {
        match unchunked(body) {
            Ok(b) => Ok(HttpModel::Body(b)),
            Err(e) => Err(HttpFault::Chunk(e)),
        }
    } else {
        Ok(HttpModel::Body(body))
    }
}

/// What the bytes of a response say.
pub open spec fn http_read(raw: Seq<u8>) -> Result<HttpModel, HttpFault> {
    let sep = first_place(raw, blank_line());
    if sep < 0 {
        Err(HttpFault::NoHead)
    } else if !vstd::utf8::valid_utf8(raw.take(sep)) {
        Err(HttpFault::HeadUtf8(text::utf8_fault(raw.take(sep))))
    } else {
        let lines = head_lines(vstd::utf8::decode_utf8(raw.take(sep)));
        match status_code(lines[0]) {
            None => Err(HttpFault::StatusLine(lines[0])),
            Some(code) => http_outcome(code, headers(lines.skip(1)), raw.skip(sep + 4)),
        }
    }
}

/// A result of a response and its mathematical value.
pub open spec fn same_http(
    r: Result<HttpResult, HttpError>,
    m: Result<HttpModel, HttpFault>,
) -> bool {
    match (r, m) {
        (Ok(v), Ok(s)) => v@ == s,
        (Err(e), Err(f)) => e@ == f,
        _ => false,
    }
}

/// Parses an HTTP/1.1 response: 2xx gives the body (de-chunked if needed), 3xx its
/// Location, anything else an error.
pub fn parse_http(raw: &[u8]) -> (r: Result<HttpResult, HttpError>)
    ensures
        same_http(r, http_read(raw@)),
{
    let blank: [u8; 4] = [13, 10, 13, 10];
    assert(blank@ =~= blank_line());
    let sep: usize = match find_subslice(raw, &blank) {
        Some(i) => i,
        None => {
            return Err(HttpError::NoHead);
        },
    };
    let head = byte_slice(raw, 0, sep);
    assert(head@ =~= raw@.take(sep as int));
    let head = match text::decode_utf8(head.as_slice()) {
        Ok(s) => s,
        Err(c) => {
            return Err(HttpError::HeadUtf8(c));
        },
    };
    let n: usize = raw.len();
    let body = byte_slice(raw, sep + 4, n);
    assert(body@ =~= raw@.skip(sep + 4));
    let lines = split_head(text::to_chars(head.as_str()).as_slice());
    assert(text::lists(lines@)[0] == lines@[0]@);
    let code: u16 = match read_status(lines[0].as_slice()) {
        Some(n) => n,
        None => {
            return Err(HttpError::StatusLine(text::from_chars(lines[0].as_slice())));
        },
    };
    let h = read_headers(&lines);
    if 300 <= code && code < 400 {
        return match h.location {
            Some(l) => Ok(HttpResult::Redirect(l)),
            None => Err(HttpError::NoLocation(code)),
        };
    }
    if !(200 <= code && code < 300) {
        return Err(HttpError::Status(code));
    }
    if h.chunked {
        match dechunk(body.as_slice()) {
            Ok(b) => Ok(HttpResult::Body(b)),
            Err(e) => Err(HttpError::Chunk(e)),
        }
    } else {
        Ok(HttpResult::Body(body))
    }
}

// ---------------------------------------------------------------------------
// URLs
// ---------------------------------------------------------------------------

/// Why a list could not be fetched.
#[derive(Debug)]
pub enum FetchError {
    /// The URL is not an `https://` one.
    NotHttps(String),
    /// The URL names no host.
    EmptyHost(String),
    /// The host is no domain name; the fault in words.
    Host(String, String),
    /// No upstream answered the lookup of the host.
    Lookup(String),
    /// The host has no globally-routable A record.
    NoAddress(String),
    /// The response is not as it should be.
    Http(HttpError),
    /// The response of this host is over the cap.
    Oversize(String),
    /// The URL took too long.
    TimedOut(String),
    /// The URL redirects too often.
    Redirects(String),
}

/// A [`FetchError`], with texts for its strings.
pub enum FetchFault {
    NotHttps(Seq<char>),
    EmptyHost(Seq<char>),
    Host(Seq<char>, Seq<char>),
    Lookup(Seq<char>),
    NoAddress(Seq<char>),
    Http(HttpFault),
    Oversize(Seq<char>),
    TimedOut(Seq<char>),
    Redirects(Seq<char>),
}

impl View for FetchError {
    type V = FetchFault;

    open spec fn view(&self) -> FetchFault {
        match *self {
            FetchError::NotHttps(u) => FetchFault::NotHttps(u@),
            FetchError::EmptyHost(u) => FetchFault::EmptyHost(u@),
            FetchError::Host(h, c) => FetchFault::Host(h@, c@),
            FetchError::Lookup(h) => FetchFault::Lookup(h@),
            FetchError::NoAddress(h) => FetchFault::NoAddress(h@),
            FetchError::Http(e) => FetchFault::Http(e@),
            FetchError::Oversize(h) => FetchFault::Oversize(h@),
            FetchError::TimedOut(u) => FetchFault::TimedOut(u@),
            FetchError::Redirects(u) => FetchFault::Redirects(u@),
        }
    }
}

/// A fetch error in words.
pub open spec fn error_text(e: FetchFault) -> Seq<char> {
    match e {
        FetchFault::NotHttps(u) => "blocklist URL must be https://: "@ + u,
        FetchFault::EmptyHost(u) => "empty host in URL "@ + u,
        FetchFault::Host(h, c) => "invalid host name "@ + h + ": "@ + c,
        FetchFault::Lookup(h) => "A lookup for "@ + h + " failed (every upstream down)"@,
        FetchFault::NoAddress(h) => "no globally-routable A record for "@ + h,
        FetchFault::Http(e) => http_text(e),
        FetchFault::Oversize(h) => "response from "@ + h + " exceeds "@ + text::decimal(
            MAX_BODY as nat,
        ) + " bytes"@,
        FetchFault::TimedOut(u) => "timed out fetching "@ + u,
        FetchFault::Redirects(u) => "too many redirects fetching "@ + u,
    }
}

impl FetchError {
    /// The error in words, with its cause.
    pub fn message(&self) -> (r: String)
        ensures
            r@ == error_text(self@),
    {
        let mut m: String = String::new();
        match self {
            FetchError::NotHttps(u) => {
                m.append("blocklist URL must be https://: ");
                m.append(u.as_str());
            },
            FetchError::EmptyHost(u) => {
                m.append("empty host in URL ");
                m.append(u.as_str());
            },
            FetchError::Host(h, c) => {
                m.append("invalid host name ");
                m.append(h.as_str());
                m.append(": ");
                m.append(c.as_str());
            },
            FetchError::Lookup(h) => {
                m.append("A lookup for ");
                m.append(h.as_str());
                m.append(" failed (every upstream down)");
            },
            FetchError::NoAddress(h) => {
                m.append("no globally-routable A record for ");
                m.append(h.as_str());
            },
            FetchError::Http(e) => {
                m.append(e.message().as_str());
            },
            FetchError::Oversize(h) => {
                m.append("response from ");
                m.append(h.as_str());
                m.append(" exceeds ");
                text::push_decimal(&mut m, MAX_BODY as u64);
                m.append(" bytes");
            },
            FetchError::TimedOut(u) => {
                m.append("timed out fetching ");
                m.append(u.as_str());
            },
            FetchError::Redirects(u) => {
                m.append("too many redirects fetching ");
                m.append(u.as_str());
            },
        }
        assert(m@ =~= error_text(self@));
        m
    }
}

/// Checks how much of a response from `host` has come.
pub fn check_size(host: &str, len: usize) -> (r: Result<(), FetchError>)
    ensures
        match r {
            Ok(_) => len <= MAX_BODY,
            Err(e) => len > MAX_BODY && e@ == FetchFault::Oversize(host@),
        },
{
    if len > MAX_BODY {
        Err(FetchError::Oversize(text::copy(host)))
    } else {
        Ok(())
    }
}

/// The host and the path of an `https://` URL. A port is passed over.
pub open spec fn https_parts(url: Seq<char>) -> Result<(Seq<char>, Seq<char>), FetchFault> {
    if !text::begins(url, "https://"@) {
        Err(FetchFault::NotHttps(url))
    } else {
        let rest = url.skip("https://"@.len() as int);
        let host_port = match rest.index_of_first('/') {
            Some(i) => rest.take(i),
            None => rest,
        };
        let path = match rest.index_of_first('/') {
            Some(i) => rest.skip(i),
            None => "/"@,
        };
        let host = text::split(host_port, Sep::Char(':'))[0];
        if host.len() == 0 {
            Err(FetchFault::EmptyHost(url))
        } else {
            Ok((host, path))
        }
    }
}

/// Splits an `https://host[:port]/path` URL into its host and its path; the port
/// is ignored (the connection is always to 443). Other URLs are rejected.
pub fn split_https_url(url: &str) -> (r: Result<(String, String), FetchError>)
    ensures
        match r {
            Ok(p) => https_parts(url@) == Ok::<(Seq<char>, Seq<char>), FetchFault>(
                (p.0@, p.1@),
            ),
            Err(e) => https_parts(url@) == Err::<(Seq<char>, Seq<char>), FetchFault>(e@),
        },
{
    let v = text::to_chars(url);
    if !text::begins_with(v.as_slice(), "https://") {
        return Err(FetchError::NotHttps(text::copy(url)));
    }
    proof {
        reveal_strlit("https://");
    }
    let rest = text::slice(v.as_slice(), 8, v.len());
    assert(rest@ =~= url@.skip("https://"@.len() as int));
    proof {
        rest@.index_of_first_ensures('/');
    }
    let n: usize = rest.len();
    let end: usize = match text::find(rest.as_slice(), '/') {
        Some(i) => i,
        None => n,
    };
    let host_port = text::slice(rest.as_slice(), 0, end);
    let path = if end < n {
        assert(rest@.contains('/'));
        assert(rest@.index_of_first('/') == Some(end as int));
        assert(host_port@ =~= rest@.take(end as int));
        let p = text::slice(rest.as_slice(), end, n);
        assert(p@ =~= rest@.skip(end as int));
        text::from_chars(p.as_slice())
    } else {
        assert(host_port@ =~= rest@);
        text::copy("/")
    };
    let parts = text::split_chars(host_port.as_slice(), Sep::Char(':'));
    assert(text::lists(parts@)[0] == parts@[0]@);
    if parts[0].len() == 0 {
        return Err(FetchError::EmptyHost(text::copy(url)));
    }
    Ok((text::from_chars(parts[0].as_slice()), path))
}

/// The URL that a redirect's location means, seen from `host`.
pub open spec fn absolute_url(host: Seq<char>, loc: Seq<char>) -> Seq<char> {
    if text::begins(loc, "https://"@) || text::begins(loc, "http://"@) {
        loc
    } else if text::begins(loc, "/"@) {
        "https://"@ + host + loc
    } else {
        "https://"@ + host + "/"@ + loc
    }
}

/// Resolves a redirect's location against the current host. Absolute URLs pass
/// through (one that is not `https://` fails on the next hop).
pub fn absolutize(host: &str, loc: &str) -> (r: String)
    ensures
        r@ == absolute_url(host@, loc@),
{
    let v = text::to_chars(loc);
    if text::begins_with(v.as_slice(), "https://") || text::begins_with(v.as_slice(), "http://") {
        return text::copy(loc);
    }
    let mut u: String = text::copy("https://");
    u.append(host);
    if !text::begins_with(v.as_slice(), "/") {
        u.append("/");
    }
    u.append(loc);
    assert(u@ =~= absolute_url(host@, loc@));
    u
}

// ---------------------------------------------------------------------------
// The course of a fetch
// ---------------------------------------------------------------------------

/// A fetch under way: the URL asked for, the one it has come to, and how many
/// requests were made on the way.
#[derive(Debug)]
pub struct Fetch {
    pub url: String,
    pub current: String,
    pub made: usize,
}

/// A [`Fetch`], with texts for its strings.
pub struct FetchModel {
    pub url: Seq<char>,
    pub current: Seq<char>,
    pub made: nat,
}

impl View for Fetch {
    type V = FetchModel;

    open spec fn view(&self) -> FetchModel {
        FetchModel { url: self.url@, current: self.current@, made: self.made as nat }
    }
}

/// The next request of a fetch: the host and the path of the URL that it has come
/// to, as long as it was not sent on too often.
pub open spec fn next_request(f: FetchModel) -> Result<(Seq<char>, Seq<char>), FetchFault> {
    if f.made > MAX_REDIRECTS {
        Err(FetchFault::Redirects(f.url))
    } else {
        https_parts(f.current)
    }
}

/// What a fetch is after a redirect of `host` to `loc`.
pub open spec fn redirected(f: FetchModel, host: Seq<char>, loc: Seq<char>) -> FetchModel {
    FetchModel { url: f.url, current: absolute_url(host, loc), made: f.made + 1 }
}

impl Fetch {
    /// A fetch that has made no request yet.
    pub fn new(url: &str) -> (r: Self)
        ensures
            r@ == (FetchModel { url: url@, current: url@, made: 0 }),
    {
        Fetch { url: text::copy(url), current: text::copy(url), made: 0 }
    }

    /// The host and the path to ask for next.
    pub fn request(&self) -> (r: Result<(String, String), FetchError>)
        ensures
            match r {
                Ok(p) => next_request(self@) == Ok::<(Seq<char>, Seq<char>), FetchFault>(
                    (p.0@, p.1@),
                ),
                Err(e) => next_request(self@) == Err::<(Seq<char>, Seq<char>), FetchFault>(e@),
            },
    {
        if self.made > MAX_REDIRECTS {
            return Err(FetchError::Redirects(text::copy(self.url.as_str())));
        }
        split_https_url(self.current.as_str())
    }

    /// Takes a response of `host` in: a body ends the fetch with its text, and a
    /// redirect leads on.
    pub fn answered(&mut self, host: &str, result: HttpResult) -> (r: Option<String>)
        requires
            old(self).made <= MAX_REDIRECTS,
        ensures
            match result@ {
                HttpModel::Body(b) => r is Some && r->0@ == text::lossy_text(b) && final(self)@
                    == old(self)@,
                HttpModel::Redirect(l) => r is None && final(self)@ == redirected(
                    old(self)@,
                    host@,
                    l,
                ),
            },
            result matches HttpResult::Body(b) ==> vstd::utf8::valid_utf8(b@) ==> (r matches Some(
                t,
            ) && t@ == vstd::utf8::decode_utf8(b@)),
    {
        match result {
            HttpResult::Body(b) => Some(text::decode_lossy(b.as_slice())),
            HttpResult::Redirect(l) => {
                self.current = absolutize(host, l.as_str());
                self.made = self.made + 1;
                None
            },
        }
    }
}

/// The request for a path of a host.
pub open spec fn request_text(host: Seq<char>, path: Seq<char>) -> Seq<char> {
    "GET "@ + path + " HTTP/1.1\r\nHost: "@ + host
        + "\r\nUser-Agent: dnsix/0.1.0\r\nAccept: text/plain, */*\r\nAccept-Encoding: identity\r\nConnection: close\r\n\r\n"@
}

/// Writes the request for a path of a host.
pub fn http_request(host: &str, path: &str) -> (r: String)
    ensures
        r@ == request_text(host@, path@),
{
    let mut m: String = text::copy("GET ");
    m.append(path);
    m.append(" HTTP/1.1\r\nHost: ");
    m.append(host);
    m.append(
        "\r\nUser-Agent: dnsix/0.1.0\r\nAccept: text/plain, */*\r\nAccept-Encoding: identity\r\nConnection: close\r\n\r\n",
    );
    m
}

// ---------------------------------------------------------------------------
// Reaching a host through NAT64
// ---------------------------------------------------------------------------

/// The lookup of a host's A records.
pub fn host_query(host: &str) -> (r: Result<Message, FetchError>)
    ensures
        match dns::ascii_read(labels::absolute(host@)) {
            Ok(n) => r matches Ok(m) && m.queries@.len() == 1 && m.queries@[0].name@ == n
                && m.queries@[0].qtype == RecordType::A && m.queries@[0].qclass == dns::CLASS_IN
                && !m.checking_disabled && m.edns is None,
            Err(c) => r matches Err(e) && e@ == FetchFault::Host(host@, c),
        },
        dns::plain_name(labels::absolute(host@)) ==> (r matches Ok(m) && m.queries@[0].name@
            == labels::absolute(host@)),
{
    let v = text::to_chars(host);
    let t = text::trim_end_chars(v.as_slice(), Sep::Char('.'));
    let mut a = text::from_chars(t.as_slice());
    a.push('.');
    match Name::read(a.as_str()) {
        Ok(name) => {
            let q = Query { name, qtype: RecordType::A, qclass: dns::CLASS_IN };
            Ok(Message::one(q, false, None))
        },
        Err(c) => Err(FetchError::Host(text::copy(host), c)),
    }
}

/// The IPv4 addresses of some records, in order.
pub open spec fn addresses_of(v: Seq<Record>) -> Seq<Ipv4Addr>
    decreases v.len(),
{
    if v.len() == 0 {
        Seq::empty()
    } else {
        let rest = addresses_of(v.drop_last());
        match v.last().data {
            RData::A(a) => rest.push(a),
            _ => rest,
        }
    }
}

/// The IPv4 addresses of some records, in order.
pub fn addresses(v: &Vec<Record>) -> (r: Vec<Ipv4Addr>)
    ensures
        r@ == addresses_of(v@),
{
    let mut out: Vec<Ipv4Addr> = Vec::new();
    let mut i: usize = 0;
    while i < v.len()
        invariant
            0 <= i <= v@.len(),
            out@ == addresses_of(v@.take(i as int)),
        decreases v@.len() - i,
    {
        proof {
            assert(v@.take(i + 1).drop_last() =~= v@.take(i as int));
        }
        match &v[i].data {
            RData::A(a) => {
                out.push(*a);
            },
            _ => {},
        }
        i = i + 1;
    }
    assert(v@.take(v@.len() as int) =~= v@);
    out
}

/// Where to reach a host: the first eligible address of the reply to its lookup,
/// embedded into the prefix, at port 443.
pub open spec fn host_target(
    host: Seq<char>,
    name: Seq<char>,
    reply: Option<Response>,
    prefix: Ipv6Addr,
) -> Result<SocketAddr, FetchFault> {
    match reply {
        None => Err(FetchFault::Lookup(host)),
        Some(resp) => {
            let v = nat64::eligible(name, addresses_of(resp.answers@));
            if v.len() == 0 {
                Err(FetchFault::NoAddress(host))
            } else {
                Ok(
                    SocketAddr {
                        ip: IpAddr::V6(nat64::embedded(prefix, v[0])),
                        port: 443,
                        scope: 0,
                    },
                )
            }
        },
    }
}

/// Where to reach `host`, whose lookup under `name` had this reply.
pub fn target(host: &str, name: &Name, reply: &Option<Response>, prefix: Ipv6Addr) -> (r: Result<
    SocketAddr,
    FetchError,
>)
    ensures
        match r {
            Ok(a) => host_target(host@, name@, *reply, prefix) == Ok::<SocketAddr, FetchFault>(a),
            Err(e) => host_target(host@, name@, *reply, prefix) == Err::<SocketAddr, FetchFault>(
                e@,
            ),
        },
{
    match reply {
        None => Err(FetchError::Lookup(text::copy(host))),
        Some(resp) => {
            let a = addresses(&resp.answers);
            let v = nat64::eligible_addresses(name, a.as_slice());
            if v.len() == 0 {
                Err(FetchError::NoAddress(text::copy(host)))
            } else {
                Ok(SocketAddr::new(IpAddr::V6(nat64::embed(prefix, v[0])), 443))
            }
        },
    }
}

// ---------------------------------------------------------------------------
// Laws
// ---------------------------------------------------------------------------

/// A place where something stands, with none in front of it, is the first one.
pub proof fn first_place_is_first(hay: Seq<u8>, needle: Seq<u8>, i: int, p: int)
    requires
        0 <= i <= p,
        stands_at(hay, needle, p),
        forall|j: int| i <= j < p ==> !stands_at(hay, needle, j),
    ensures
        first_place_from(hay, needle, i) == p,
    decreases p - i,
{
    if i < p {
        first_place_is_first(hay, needle, i + 1, p);
    }
}

/// The first line of some bytes is what stands in front of the first line end.
pub proof fn line_stands_first(line: Seq<u8>, tail: Seq<u8>)
    requires
        forall|j: int| !stands_at(line + crlf(), crlf(), j) || j == line.len(),
    ensures
        first_place(line + crlf() + tail, crlf()) == line.len(),
        (line + crlf() + tail).take(line.len() as int) == line,
        (line + crlf() + tail).skip(line.len() as int + 2) == tail,
{
    let data = line + crlf() + tail;
    assert(data.subrange(line.len() as int, line.len() as int + 2) =~= crlf());
    assert(stands_at(data, crlf(), line.len() as int));
    assert forall|j: int| 0 <= j < line.len() implies !stands_at(data, crlf(), j) by {
        assert(data.subrange(j, j + 2) =~= (line + crlf()).subrange(j, j + 2));
        assert(!stands_at(line + crlf(), crlf(), j));
    }
    first_place_is_first(data, crlf(), 0, line.len() as int);
    assert(data.take(line.len() as int) =~= line);
    assert(data.skip(line.len() as int + 2) =~= tail);
}

/// A chunk written with its size, as any line that reads as that size, comes back
/// before what the rest of the body holds.
pub proof fn a_chunk_is_read_back(line: Seq<u8>, chunk: Seq<u8>, rest: Seq<u8>)
    requires
        chunk.len() > 0,
        vstd::utf8::valid_utf8(line),
        chunk_size(vstd::utf8::decode_utf8(line)) == Some(chunk.len()),
        forall|j: int| !stands_at(line + crlf(), crlf(), j) || j == line.len(),
    ensures
        unchunked(line + crlf() + (chunk + crlf() + rest)) == prepend(chunk, unchunked(rest)),
{
    let tail = chunk + crlf() + rest;
    line_stands_first(line, tail);
    assert(tail.take(chunk.len() as int) =~= chunk);
    let after = tail.skip(chunk.len() as int);
    assert(after.subrange(0, 2) =~= crlf());
    assert(after.skip(2) =~= rest);
}

/// A chunk of size zero ends the body, whatever follows it.
pub proof fn the_last_chunk_ends_the_body(line: Seq<u8>, rest: Seq<u8>)
    requires
        vstd::utf8::valid_utf8(line),
        chunk_size(vstd::utf8::decode_utf8(line)) == Some(0nat),
        forall|j: int| !stands_at(line + crlf(), crlf(), j) || j == line.len(),
    ensures
        unchunked(line + crlf() + rest) == Ok::<Seq<u8>, ChunkFault>(Seq::empty()),
{
    line_stands_first(line, rest);
}

/// A fetch after some redirects: of which host, and to where.
pub open spec fn after_redirects(url: Seq<char>, hops: Seq<(Seq<char>, Seq<char>)>) -> FetchModel
    decreases hops.len(),
{
    if hops.len() == 0 {
        FetchModel { url, current: url, made: 0 }
    } else {
        redirected(after_redirects(url, hops.drop_last()), hops.last().0, hops.last().1)
    }
}

/// A fetch follows no more than the allowed redirects, and then fails naming the
/// URL that it began with.
pub proof fn a_fetch_is_bounded(url: Seq<char>, hops: Seq<(Seq<char>, Seq<char>)>)
    ensures
        after_redirects(url, hops).made == hops.len(),
        after_redirects(url, hops).url == url,
        hops.len() > MAX_REDIRECTS ==> next_request(after_redirects(url, hops)) == Err::<
            (Seq<char>, Seq<char>),
            FetchFault,
        >(FetchFault::Redirects(url)),
        hops.len() <= MAX_REDIRECTS ==> next_request(after_redirects(url, hops)) == https_parts(
            after_redirects(url, hops).current,
        ),
    decreases hops.len(),
{
    if hops.len() > 0 {
        a_fetch_is_bounded(url, hops.drop_last());
    }
}

/// Nothing but an `https://` URL is ever asked for.
pub proof fn only_https_is_asked(f: FetchModel)
    requires
        next_request(f) is Ok,
    ensures
        text::begins(f.current, "https://"@),
{
}

/// A redirect to an `http://` URL fails on the next hop.
pub proof fn a_plain_redirect_is_refused(host: Seq<char>, loc: Seq<char>)
    requires
        text::begins(loc, "http://"@),
    ensures
        https_parts(absolute_url(host, loc)) == Err::<(Seq<char>, Seq<char>), FetchFault>(
            FetchFault::NotHttps(loc),
        ),
{
    reveal_strlit("http://");
    reveal_strlit("https://");
    assert(loc.take("http://"@.len() as int)[4] == ':');
    if text::begins(loc, "https://"@) {
        assert(loc.take("https://"@.len() as int)[4] == 's');
    }
}

/// A redirect without a scheme stays on its host.
pub proof fn a_relative_redirect_stays_on_its_host(host: Seq<char>, loc: Seq<char>)
    requires
        host.len() > 0,
        !host.contains('/'),
        !host.contains(':'),
        !text::begins(loc, "https://"@),
        !text::begins(loc, "http://"@),
    ensures
        https_parts(absolute_url(host, loc)) == Ok::<(Seq<char>, Seq<char>), FetchFault>(
            (
                host,
                if text::begins(loc, "/"@) {
                    loc
                } else {
                    "/"@ + loc
                },
            ),
        ),
{
    reveal_strlit("/");
    reveal_strlit("https://");
    let scheme = "https://"@;
    let path = if text::begins(loc, "/"@) {
        loc
    } else {
        "/"@ + loc
    };
    let url = absolute_url(host, loc);
    assert(url =~= scheme + host + path);
    assert(url.take(scheme.len() as int) =~= scheme);
    let rest = url.skip(scheme.len() as int);
    assert(rest =~= host + path);
    if text::begins(loc, "/"@) {
        assert(loc.take(1)[0] == '/');
    }
    assert(rest[host.len() as int] == '/');
    assert(rest.contains('/'));
    rest.index_of_first_ensures('/');
    let i = rest.index_of_first('/')->0;
    if i < host.len() {
        assert(host[i] == '/');
    }
    assert(i == host.len());
    assert(rest.take(i) =~= host);
    assert(rest.skip(i) =~= path);
    text::split_without_separator(host, ':');
}

/// A host is reached at port 443, at an address in the prefix that stands for one
/// of its A records; but for `ipv4only.arpa.`, that record is globally routable.
pub proof fn a_host_is_reached_through_the_prefix(
    host: Seq<char>,
    name: Seq<char>,
    resp: Response,
    prefix: Ipv6Addr,
)
    requires
        host_target(host, name, Some(resp), prefix) is Ok,
    ensures
        host_target(host, name, Some(resp), prefix)->Ok_0.port == 443,
        exists|ip: Ipv4Addr|
            addresses_of(resp.answers@).contains(ip) && (nat64::arpa(name) || nat64::routable(
                ip.bits,
            )) && host_target(host, name, Some(resp), prefix)->Ok_0.ip == IpAddr::V6(
                #[trigger] nat64::embedded(prefix, ip),
            ),
{
    let all = addresses_of(resp.answers@);
    let v = nat64::eligible(name, all);
    let ip = v[0];
    assert(v.contains(ip));
    if !nat64::arpa(name) {
        nat64::only_routable_are_eligible(name, all, ip);
    }
    assert(host_target(host, name, Some(resp), prefix)->Ok_0.ip == IpAddr::V6(
        nat64::embedded(prefix, ip),
    ));
}

} // verus!
