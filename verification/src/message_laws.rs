//! Each fault in words, and each outside value as what it stands for.

use vstd::prelude::*;

use crate::acl;
use crate::acl::AclError;
use crate::blocklist::{Line, LineModel};
use crate::config;
use crate::config::ConfigError;
use crate::fetch;
use crate::fetch::{
    ChunkError,
    ChunkFault,
    FetchError,
    FetchFault,
    HttpError,
    HttpFault,
    HttpModel,
    HttpResult,
};
use crate::net;
use crate::synth;
use crate::synth::{ChainError, Combine, CombineModel, SynthContext};
use crate::text;

verus! {

/// The faults of client networks in words; each quotes its entry.
pub proof fn network_faults_in_words(e: AclError)
    ensures
        e matches AclError::Prefix(s) ==> acl::error_text(e)
            == "client_networks: invalid prefix length in "@ + text::quoted(s@),
        e matches AclError::Oversize(p, s) ==> acl::error_text(e) == "client_networks: prefix /"@
            + text::decimal(p as nat) + " exceeds 128 in "@ + text::quoted(s@),
        e matches AclError::Ipv4(s) ==> acl::error_text(e) == "client_networks entry "@
            + text::quoted(s@)
            + " is IPv4; the listener is IPv6-only, so only IPv6 networks can match clients"@,
        e matches AclError::Invalid(s) ==> acl::error_text(e) == "client_networks: "@
            + text::quoted(s@) + " is not a valid IPv6 network"@,
{
}

/// The faults of a configuration in words; each shows the address that is at fault.
pub proof fn configuration_faults_in_words(e: ConfigError)
    ensures
        e matches ConfigError::Listen(a) ==> config::error_text(e) == "listen address "@
            + net::socket_display(a)
            + " is not IPv6; the Forwarder serves clients over IPv6 only"@,
        e is Upstreams ==> config::error_text(e)
            == "at least one upstream resolver must be configured"@,
        e matches ConfigError::Prefix(p) ==> config::error_text(e) == "nat64_prefix "@
            + net::ipv6_display(p.bits)
            + " has non-zero low 32 bits; only /96 prefixes are supported"@,
        e matches ConfigError::NotGlobal(p) ==> config::error_text(e) == "nat64_prefix "@
            + net::ipv6_display(p.bits)
            + " is not globally-routable IPv6; embedded addresses would be unservable (synthesis drops loopback/link-local/ULA/multicast)"@,
        e matches ConfigError::Clients(a) ==> config::error_text(e) == acl::error_text(a),
{
}

/// The faults of a chain in words.
pub proof fn chain_faults_in_words(e: ChainError)
    ensures
        e matches ChainError::Order(a, b) ==> synth::error_text(e) == "synthesizer order: "@
            + text::quoted(a@) + " must precede "@ + text::quoted(b@)
            + " (a specific provider cannot follow the generic one that shadows it)"@,
        e matches ChainError::Unknown(id) ==> synth::error_text(e) == "unknown synthesizer "@
            + text::quoted(id@) + "; known ids: "@ + synth::comma_list(synth::KNOWN_IDS@),
{
}

/// The faults of a chunked body in words.
pub proof fn chunk_faults_in_words(e: ChunkFault)
    ensures
        e is Header ==> fetch::chunk_text(e) == "malformed chunk header"@,
        e matches ChunkFault::NotUtf8(c) ==> fetch::chunk_text(e) == "non-UTF8 chunk size: "@ + c,
        e matches ChunkFault::Size(c) ==> fetch::chunk_text(e) == "bad chunk size: "@ + c,
        e is Truncated ==> fetch::chunk_text(e) == "truncated chunk body"@,
        e is NoCrlf ==> fetch::chunk_text(e) == "missing CRLF after chunk"@,
{
}

/// The faults of a response in words.
pub proof fn response_faults_in_words(e: HttpFault)
    ensures
        e is NoHead ==> fetch::http_text(e) == "malformed HTTP response (no header terminator)"@,
        e matches HttpFault::HeadUtf8(c) ==> fetch::http_text(e) == "non-UTF8 HTTP headers: "@ + c,
        e matches HttpFault::StatusLine(l) ==> fetch::http_text(e) == "malformed status line "@
            + text::quoted(l),
        e matches HttpFault::NoLocation(n) ==> fetch::http_text(e) == "HTTP "@ + text::decimal(
            n as nat,
        ) + " redirect without Location"@,
        e matches HttpFault::Status(n) ==> fetch::http_text(e) == "unexpected HTTP status "@
            + text::decimal(n as nat),
        e matches HttpFault::Chunk(c) ==> fetch::http_text(e) == fetch::chunk_text(c),
{
}

/// The faults of a fetch in words.
pub proof fn fetch_faults_in_words(e: FetchFault)
    ensures
        e matches FetchFault::NotHttps(u) ==> fetch::error_text(e)
            == "blocklist URL must be https://: "@ + u,
        e matches FetchFault::EmptyHost(u) ==> fetch::error_text(e) == "empty host in URL "@ + u,
        e matches FetchFault::Host(h, c) ==> fetch::error_text(e) == "invalid host name "@ + h
            + ": "@ + c,
        e matches FetchFault::Lookup(h) ==> fetch::error_text(e) == "A lookup for "@ + h
            + " failed (every upstream down)"@,
        e matches FetchFault::NoAddress(h) ==> fetch::error_text(e)
            == "no globally-routable A record for "@ + h,
        e matches FetchFault::Http(c) ==> fetch::error_text(e) == fetch::http_text(c),
        e matches FetchFault::Oversize(h) ==> fetch::error_text(e) == "response from "@ + h
            + " exceeds "@ + text::decimal(67_108_864) + " bytes"@,
        e matches FetchFault::TimedOut(u) ==> fetch::error_text(e) == "timed out fetching "@ + u,
        e matches FetchFault::Redirects(u) ==> fetch::error_text(e)
            == "too many redirects fetching "@ + u,
{
}

/// Each error of a fetch is the fault of its name, with what it carries.
pub proof fn errors_are_their_faults(c: ChunkError, h: HttpError, f: FetchError)
    ensures
        c is Header <==> c@ is Header,
        c matches ChunkError::NotUtf8(x) ==> c@ == ChunkFault::NotUtf8(x@),
        c matches ChunkError::Size(x) ==> c@ == ChunkFault::Size(x@),
        c is Truncated <==> c@ is Truncated,
        c is NoCrlf <==> c@ is NoCrlf,
        h is NoHead <==> h@ is NoHead,
        h matches HttpError::HeadUtf8(x) ==> h@ == HttpFault::HeadUtf8(x@),
        h matches HttpError::StatusLine(x) ==> h@ == HttpFault::StatusLine(x@),
        h matches HttpError::NoLocation(n) ==> h@ == HttpFault::NoLocation(n),
        h matches HttpError::Status(n) ==> h@ == HttpFault::Status(n),
        h matches HttpError::Chunk(x) ==> h@ == HttpFault::Chunk(x@),
        f matches FetchError::NotHttps(x) ==> f@ == FetchFault::NotHttps(x@),
        f matches FetchError::EmptyHost(x) ==> f@ == FetchFault::EmptyHost(x@),
        f matches FetchError::Host(x, y) ==> f@ == FetchFault::Host(x@, y@),
        f matches FetchError::Lookup(x) ==> f@ == FetchFault::Lookup(x@),
        f matches FetchError::NoAddress(x) ==> f@ == FetchFault::NoAddress(x@),
        f matches FetchError::Http(x) ==> f@ == FetchFault::Http(x@),
        f matches FetchError::Oversize(x) ==> f@ == FetchFault::Oversize(x@),
        f matches FetchError::TimedOut(x) ==> f@ == FetchFault::TimedOut(x@),
        f matches FetchError::Redirects(x) ==> f@ == FetchFault::Redirects(x@),
{
}

/// A result of a fetch and a line of a blocklist are what their names say.
pub proof fn results_are_what_they_say(r: HttpResult, l: Line)
    ensures
        r matches HttpResult::Body(b) ==> r@ == HttpModel::Body(b@),
        r matches HttpResult::Redirect(x) ==> r@ == HttpModel::Redirect(x@),
        l matches Line::Block(v) ==> l@ == LineModel::Block(text::texts(v@)),
        l matches Line::Allow(x) ==> l@ == LineModel::Allow(x@),
        l is Ignore <==> l@ is Ignore,
        l is Skip <==> l@ is Skip,
{
}

/// A context and a way to combine are seen with every field.
pub proof fn contexts_are_seen_whole(c: SynthContext, m: Combine)
    ensures
        c@.name == c.name@,
        c@.cnames.len() == c.cname_targets@.len(),
        forall|i: int|
            0 <= i < c.cname_targets@.len() ==> c@.cnames[i] == (#[trigger] c.cname_targets@[i])@,
        c@.a == c.a_records@,
        c@.admin is Some <==> c.authority.soa_admin is Some,
        c@.admin is Some ==> c@.admin->0 == c.authority.soa_admin->0@,
        c@.zone is Some <==> c.authority.soa_zone is Some,
        c@.zone is Some ==> c@.zone->0 == c.authority.soa_zone->0@,
        m is Verbatim <==> m@ is Verbatim,
        m matches Combine::BorrowOr(f) ==> m@ == CombineModel::BorrowOr(f),
        m matches Combine::Constant(a) ==> m@ == CombineModel::Constant(a),
        m matches Combine::Fuse(n) ==> m@ == CombineModel::Fuse(n),
        m matches Combine::Msedge(p, spo) ==> m@ == CombineModel::Msedge(p, spo),
        m is Wpvip <==> m@ is Wpvip,
        m is Cachefly <==> m@ is Cachefly,
        m matches Combine::Nat64 { prefix, name } ==> m@ == CombineModel::Nat64(prefix, name@),
{
}

} // verus!
