//! The numbers of record types and response codes.

use vstd::prelude::*;

use crate::dns;
use crate::dns::{RecordType, ResponseCode};
use crate::text;

verus! {

/// The code of each record type.
pub proof fn record_types_by_code(code: u16)
    ensures
        RecordType::A.code_of() == 1,
        RecordType::Ns.code_of() == 2,
        RecordType::Cname.code_of() == 5,
        RecordType::Soa.code_of() == 6,
        RecordType::Ptr.code_of() == 12,
        RecordType::Mx.code_of() == 15,
        RecordType::Txt.code_of() == 16,
        RecordType::Aaaa.code_of() == 28,
        RecordType::Srv.code_of() == 33,
        RecordType::Naptr.code_of() == 35,
        RecordType::Ds.code_of() == 43,
        RecordType::Dnskey.code_of() == 48,
        RecordType::Svcb.code_of() == 64,
        RecordType::Https.code_of() == 65,
        RecordType::Any.code_of() == 255,
        RecordType::Caa.code_of() == 257,
        RecordType::Other(code).code_of() == code,
        dns::type_of_code(code).code_of() == code,
        dns::type_of_code(code) is Other <==> !(code == 1 || code == 2 || code == 5 || code == 6
            || code == 12 || code == 15 || code == 16 || code == 28 || code == 33 || code == 35
            || code == 43 || code == 48 || code == 64 || code == 65 || code == 255 || code == 257),
{
}

/// The number of each response code.
pub proof fn response_codes_by_number(n: u16)
    ensures
        ResponseCode::NoError.number_of() == 0,
        ResponseCode::FormErr.number_of() == 1,
        ResponseCode::ServFail.number_of() == 2,
        ResponseCode::NXDomain.number_of() == 3,
        ResponseCode::NotImp.number_of() == 4,
        ResponseCode::Refused.number_of() == 5,
        ResponseCode::Other(n).number_of() == n,
        dns::rcode_of_number(n).number_of() == n,
        dns::rcode_of_number(n) is Other <==> n > 5,
{
}

/// The class of the Internet.
pub proof fn the_class_of_the_internet()
    ensures
        dns::CLASS_IN == 1,
{
}

/// A copy of records keeps every record, in order.
pub proof fn a_copy_keeps_every_field(a: Seq<dns::Record>, b: Seq<dns::Record>, i: int)
    requires
        dns::same_records(a, b),
        0 <= i < a.len(),
    ensures
        b.len() == a.len(),
        b[i].name == a[i].name,
        b[i].rtype == a[i].rtype,
        b[i].ttl == a[i].ttl,
        b[i].data == a[i].data,
        b[i].wire@ == a[i].wire@,
{
    assert(dns::same_record(a[i], b[i]));
}

/// A copy of a response keeps its code, its AD bit and its records.
pub proof fn a_copied_response_is_the_same(a: dns::Response, b: dns::Response)
    requires
        dns::same_response(a, b),
    ensures
        b.rcode == a.rcode,
        b.authentic == a.authentic,
        b.answers@.len() == a.answers@.len(),
        b.authority@.len() == a.authority@.len(),
        b.additionals@.len() == a.additionals@.len(),
        forall|i: int| 0 <= i < a.answers@.len() ==> dns::same_record(#[trigger] a.answers@[i], b.answers@[i]),
        forall|i: int|
            0 <= i < a.authority@.len() ==> dns::same_record(#[trigger] a.authority@[i], b.authority@[i]),
        forall|i: int|
            0 <= i < a.additionals@.len() ==> dns::same_record(
                #[trigger] a.additionals@[i],
                b.additionals@[i],
            ),
{
}

/// A letter, a digit, a hyphen or an underscore.
pub open spec fn plain_char(c: char) -> bool {
    ||| 'a' <= c && c <= 'z'
    ||| 'A' <= c && c <= 'Z'
    ||| '0' <= c && c <= '9'
    ||| c == '_' || c == '-'
}

/// A plain label is one to 63 letters, digits, hyphens and underscores, and has no
/// hyphen in front.
pub proof fn plain_labels_by_code(s: Seq<char>)
    ensures
        dns::plain_label(s) <==> 1 <= s.len() <= 63 && s[0] != '-' && forall|i: int|
            0 <= i < s.len() ==> plain_char(#[trigger] s[i]),
{
    if dns::plain_label(s) {
        assert forall|i: int| 0 <= i < s.len() implies plain_char(#[trigger] s[i]) by {
            assert(dns::label_char(s[i], i == 0));
        }
        assert(dns::label_char(s[0], true));
    }
    if 1 <= s.len() <= 63 && s[0] != '-' && forall|i: int|
        0 <= i < s.len() ==> plain_char(#[trigger] s[i]) {
        assert forall|i: int| 0 <= i < s.len() implies dns::label_char(#[trigger] s[i], i == 0) by {
            assert(plain_char(s[i]));
        }
    }
}

/// Each plain label with a dot behind it, 254 characters at most: that is a plain name.
pub proof fn a_plain_name_is_plain_labels(p: Seq<Seq<char>>, s: Seq<char>)
    requires
        s.len() >= 1,
        s.last() == '.',
        p == text::split(s.drop_last(), text::Sep::Char('.')),
    ensures
        dns::plain_name(s) <==> 2 <= s.len() <= 254 && forall|i: int|
            0 <= i < p.len() ==> dns::plain_label(#[trigger] p[i]),
{
}

} // verus!
