//! The parts of DNS messages that decisions are made on: names, record types,
//! response codes, records and responses.

use vstd::prelude::*;

use crate::net::{Ipv4Addr, Ipv6Addr};
use crate::text;

verus! {

// ---------------------------------------------------------------------------
// Names
// ---------------------------------------------------------------------------

/// A domain name, held as its ASCII presentation text (`www.example.com.`).
#[derive(Debug)]
pub struct Name {
    pub text: String,
}

impl View for Name {
    type V = Seq<char>;

    open spec fn view(&self) -> Seq<char> {
        self.text@
    }
}

/// The texts of some names.
pub open spec fn name_texts(v: Seq<Name>) -> Seq<Seq<char>> {
    Seq::new(v.len(), |i: int| v[i]@)
}

/// What `Name::from_ascii` of hickory_proto makes of a text: the name that it
/// writes, as `Name::to_ascii` presents it, or the fault in words.
pub uninterp spec fn ascii_read(s: Seq<char>) -> Result<Seq<char>, Seq<char>>;

/// The presentation text of the name that an ASCII text writes, where it writes
/// one.
pub open spec fn ascii_name(s: Seq<char>) -> Option<Seq<char>> {
    match ascii_read(s) {
        Ok(n) => Some(n),
        Err(_) => None,
    }
}

/// A letter, a digit, an underscore, or a hyphen that is not first.
pub open spec fn label_char(c: char, first: bool) -> bool {
    ||| 'a' <= c && c <= 'z'
    ||| 'A' <= c && c <= 'Z'
    ||| '0' <= c && c <= '9'
    ||| c == '_'
    ||| c == '-' && !first
}

/// A label of one to 63 plain characters.
pub open spec fn plain_label(s: Seq<char>) -> bool {
    &&& 1 <= s.len() <= 63
    &&& forall|i: int| 0 <= i < s.len() ==> label_char(#[trigger] s[i], i == 0)
}

/// The text of an absolute name whose labels are all plain.
pub open spec fn plain_name(s: Seq<char>) -> bool {
    &&& 2 <= s.len() <= 254
    &&& s.last() == '.'
    &&& forall|i: int|
        0 <= i < text::split(s.drop_last(), text::Sep::Char('.')).len() ==> plain_label(
            #[trigger] text::split(s.drop_last(), text::Sep::Char('.'))[i],
        )
}

/// `Name::from_ascii` of hickory_proto reads a name, and `Name::to_ascii` writes
/// it back. A name of plain labels, each with its dot, is read and comes back as
/// it was; what other texts give is left to the name of the result.
#[verifier::external_body]
fn read_ascii_name(s: &str) -> (r: Result<String, String>)
    ensures
        r is Ok <==> ascii_read(s@) is Ok,
        r is Ok ==> ascii_read(s@) == Ok::<Seq<char>, Seq<char>>(r->Ok_0@),
        r is Err ==> ascii_read(s@) == Err::<Seq<char>, Seq<char>>(r->Err_0@),
        plain_name(s@) ==> r is Ok && r->Ok_0@ == s@,
{
    match hickory_proto::rr::Name::from_ascii(s) {
        Ok(n) => Ok(n.to_ascii()),
        Err(e) => Err(e.to_string()),
    }
}

impl Name {
    /// The name that an ASCII text writes, if it writes one.
    pub fn from_ascii(s: &str) -> (r: Option<Self>)
        ensures
            match r {
                Some(n) => ascii_name(s@) == Some(n@),
                None => ascii_name(s@) is None,
            },
            plain_name(s@) ==> (r matches Some(n) && n@ == s@),
    {
        match read_ascii_name(s) {
            Ok(text) => Some(Name { text }),
            Err(_) => None,
        }
    }

    /// The name that an ASCII text writes, or the fault in words.
    pub fn read(s: &str) -> (r: Result<Self, String>)
        ensures
            match r {
                Ok(n) => ascii_read(s@) == Ok::<Seq<char>, Seq<char>>(n@),
                Err(e) => ascii_read(s@) == Err::<Seq<char>, Seq<char>>(e@),
            },
            plain_name(s@) ==> (r matches Ok(n) && n@ == s@),
    {
        match read_ascii_name(s) {
            Ok(text) => Ok(Name { text }),
            Err(e) => Err(e),
        }
    }

    /// A name with the given presentation text.
    pub fn of_text(text: String) -> (r: Self)
        ensures
            r@ == text@,
    {
        Name { text }
    }
}

impl Clone for Name {
    fn clone(&self) -> (r: Self)
        ensures
            r == *self,
    {
        Name { text: self.text.clone() }
    }
}

// ---------------------------------------------------------------------------
// Types and codes
// ---------------------------------------------------------------------------

/// A record type.
#[derive(Debug, Clone, Copy, PartialEq, Eq, Structural)]
pub enum RecordType {
    A,
    Aaaa,
    Cname,
    Mx,
    Txt,
    Ns,
    Ptr,
    Soa,
    Srv,
    Caa,
    Https,
    Svcb,
    Ds,
    Dnskey,
    Naptr,
    Any,
    /// Any other type, by its code.
    Other(u16),
}

/// The record type of a code.
pub open spec fn type_of_code(code: u16) -> RecordType {
    if code == 1 {
        RecordType::A
    } else if code == 28 {
        RecordType::Aaaa
    } else if code == 5 {
        RecordType::Cname
    } else if code == 15 {
        RecordType::Mx
    } else if code == 16 {
        RecordType::Txt
    } else if code == 2 {
        RecordType::Ns
    } else if code == 12 {
        RecordType::Ptr
    } else if code == 6 {
        RecordType::Soa
    } else if code == 33 {
        RecordType::Srv
    } else if code == 257 {
        RecordType::Caa
    } else if code == 65 {
        RecordType::Https
    } else if code == 64 {
        RecordType::Svcb
    } else if code == 43 {
        RecordType::Ds
    } else if code == 48 {
        RecordType::Dnskey
    } else if code == 35 {
        RecordType::Naptr
    } else if code == 255 {
        RecordType::Any
    } else {
        RecordType::Other(code)
    }
}

impl RecordType {
    /// The record type of a code.
    pub fn from_code(code: u16) -> (r: Self)
        ensures
            r == type_of_code(code),
    {
        match code {
            1 => RecordType::A,
            28 => RecordType::Aaaa,
            5 => RecordType::Cname,
            15 => RecordType::Mx,
            16 => RecordType::Txt,
            2 => RecordType::Ns,
            12 => RecordType::Ptr,
            6 => RecordType::Soa,
            33 => RecordType::Srv,
            257 => RecordType::Caa,
            65 => RecordType::Https,
            64 => RecordType::Svcb,
            43 => RecordType::Ds,
            48 => RecordType::Dnskey,
            35 => RecordType::Naptr,
            255 => RecordType::Any,
            _ => RecordType::Other(code),
        }
    }

    /// The code of a record type.
    pub open spec fn code_of(self) -> u16 {
        match self {
            RecordType::A => 1,
            RecordType::Aaaa => 28,
            RecordType::Cname => 5,
            RecordType::Mx => 15,
            RecordType::Txt => 16,
            RecordType::Ns => 2,
            RecordType::Ptr => 12,
            RecordType::Soa => 6,
            RecordType::Srv => 33,
            RecordType::Caa => 257,
            RecordType::Https => 65,
            RecordType::Svcb => 64,
            RecordType::Ds => 43,
            RecordType::Dnskey => 48,
            RecordType::Naptr => 35,
            RecordType::Any => 255,
            RecordType::Other(code) => code,
        }
    }

    /// The code of this record type.
    pub fn code(&self) -> (r: u16)
        ensures
            r == self.code_of(),
    {
        match self {
            RecordType::A => 1,
            RecordType::Aaaa => 28,
            RecordType::Cname => 5,
            RecordType::Mx => 15,
            RecordType::Txt => 16,
            RecordType::Ns => 2,
            RecordType::Ptr => 12,
            RecordType::Soa => 6,
            RecordType::Srv => 33,
            RecordType::Caa => 257,
            RecordType::Https => 65,
            RecordType::Svcb => 64,
            RecordType::Ds => 43,
            RecordType::Dnskey => 48,
            RecordType::Naptr => 35,
            RecordType::Any => 255,
            RecordType::Other(code) => *code,
        }
    }
}

/// The code of the record type of a code is that code.
pub proof fn type_codes_round_trip(code: u16)
    ensures
        type_of_code(code).code_of() == code,
{
}

/// A response code.
#[derive(Debug, Clone, Copy, PartialEq, Eq, Structural)]
pub enum ResponseCode {
    NoError,
    FormErr,
    ServFail,
    NXDomain,
    NotImp,
    Refused,
    /// Any other response code, by its number.
    Other(u16),
}

/// The response code of a number.
pub open spec fn rcode_of_number(n: u16) -> ResponseCode {
    if n == 0 {
        ResponseCode::NoError
    } else if n == 1 {
        ResponseCode::FormErr
    } else if n == 2 {
        ResponseCode::ServFail
    } else if n == 3 {
        ResponseCode::NXDomain
    } else if n == 4 {
        ResponseCode::NotImp
    } else if n == 5 {
        ResponseCode::Refused
    } else {
        ResponseCode::Other(n)
    }
}

impl ResponseCode {
    /// The response code of a number.
    pub fn from_number(n: u16) -> (r: Self)
        ensures
            r == rcode_of_number(n),
    {
        match n {
            0 => ResponseCode::NoError,
            1 => ResponseCode::FormErr,
            2 => ResponseCode::ServFail,
            3 => ResponseCode::NXDomain,
            4 => ResponseCode::NotImp,
            5 => ResponseCode::Refused,
            _ => ResponseCode::Other(n),
        }
    }

    /// The number of a response code.
    pub open spec fn number_of(self) -> u16 {
        match self {
            ResponseCode::NoError => 0,
            ResponseCode::FormErr => 1,
            ResponseCode::ServFail => 2,
            ResponseCode::NXDomain => 3,
            ResponseCode::NotImp => 4,
            ResponseCode::Refused => 5,
            ResponseCode::Other(n) => n,
        }
    }

    /// The number of this response code.
    pub fn number(&self) -> (r: u16)
        ensures
            r == self.number_of(),
    {
        match self {
            ResponseCode::NoError => 0,
            ResponseCode::FormErr => 1,
            ResponseCode::ServFail => 2,
            ResponseCode::NXDomain => 3,
            ResponseCode::NotImp => 4,
            ResponseCode::Refused => 5,
            ResponseCode::Other(n) => *n,
        }
    }
}

// ---------------------------------------------------------------------------
// Records
// ---------------------------------------------------------------------------

/// What a record says, as far as decisions read it.
#[derive(Debug)]
pub enum RData {
    A(Ipv4Addr),
    Aaaa(Ipv6Addr),
    Cname(Name),
    Soa {
        /// The mailbox of the zone's administrator.
        rname: Name,
        /// The MINIMUM field.
        minimum: u32,
    },
    Other,
}

impl Clone for RData {
    fn clone(&self) -> (r: Self)
        ensures
            r == *self,
    {
        match self {
            RData::A(a) => RData::A(*a),
            RData::Aaaa(a) => RData::Aaaa(*a),
            RData::Cname(n) => RData::Cname(n.clone()),
            RData::Soa { rname, minimum } => RData::Soa {
                rname: rname.clone(),
                minimum: *minimum,
            },
            RData::Other => RData::Other,
        }
    }
}

/// A resource record.
#[derive(Debug)]
pub struct Record {
    pub name: Name,
    pub rtype: RecordType,
    pub ttl: u32,
    pub data: RData,
    /// The record's bytes as its message carried them; empty for a record that
    /// was made here.
    pub wire: Vec<u8>,
}

fn copy_bytes(v: &Vec<u8>) -> (r: Vec<u8>)
    ensures
        r@ == v@,
{
    let mut out: Vec<u8> = Vec::new();
    out.extend_from_slice(v.as_slice());
    assert(out@ =~= v@);
    out
}

/// Two records that agree in all that they hold.
pub open spec fn same_record(a: Record, b: Record) -> bool {
    &&& a.name == b.name
    &&& a.rtype == b.rtype
    &&& a.ttl == b.ttl
    &&& a.data == b.data
    &&& a.wire@ == b.wire@
}

/// Two lists of records that agree record by record.
pub open spec fn same_records(a: Seq<Record>, b: Seq<Record>) -> bool {
    &&& a.len() == b.len()
    &&& forall|i: int| 0 <= i < a.len() ==> same_record(#[trigger] a[i], b[i])
}

impl Clone for Record {
    fn clone(&self) -> (r: Self)
        ensures
            same_record(r, *self),
    {
        Record {
            name: self.name.clone(),
            rtype: self.rtype,
            ttl: self.ttl,
            data: self.data.clone(),
            wire: copy_bytes(&self.wire),
        }
    }
}

/// A copy of a list of records.
pub fn copy_records(v: &Vec<Record>) -> (r: Vec<Record>)
    ensures
        same_records(r@, v@),
{
    let mut out: Vec<Record> = Vec::new();
    let mut i: usize = 0;
    while i < v.len()
        invariant
            0 <= i <= v@.len(),
            out@.len() == i,
            forall|j: int| 0 <= j < i ==> same_record(#[trigger] out@[j], v@[j]),
        decreases v@.len() - i,
    {
        out.push(v[i].clone());
        i = i + 1;
    }
    out
}

/// A question.
#[derive(Debug)]
pub struct Query {
    pub name: Name,
    pub qtype: RecordType,
    pub qclass: u16,
}

/// The Internet class.
pub const CLASS_IN: u16 = 1;

impl Clone for Query {
    fn clone(&self) -> (r: Self)
        ensures
            r == *self,
    {
        Query { name: self.name.clone(), qtype: self.qtype, qclass: self.qclass }
    }
}

/// The EDNS part of a query.
#[derive(Debug, Clone, Copy, PartialEq, Eq, Structural)]
pub struct Edns {
    /// The payload size that is advertised.
    pub payload: u16,
    /// The DO bit.
    pub dnssec_ok: bool,
}

/// A query message to an upstream resolver: a standard query, recursion desired.
#[derive(Debug)]
pub struct Message {
    pub queries: Vec<Query>,
    /// The CD bit.
    pub checking_disabled: bool,
    pub edns: Option<Edns>,
}

impl Message {
    /// A message with one question.
    pub fn one(query: Query, checking_disabled: bool, edns: Option<Edns>) -> (r: Self)
        ensures
            r.queries@ == seq![query],
            r.checking_disabled == checking_disabled,
            r.edns == edns,
    {
        let mut queries: Vec<Query> = Vec::new();
        queries.push(query);
        assert(queries@ =~= seq![query]);
        Message { queries, checking_disabled, edns }
    }
}

/// A response from an upstream resolver or from the cache.
#[derive(Debug)]
pub struct Response {
    pub rcode: ResponseCode,
    /// The AD bit.
    pub authentic: bool,
    pub answers: Vec<Record>,
    pub authority: Vec<Record>,
    pub additionals: Vec<Record>,
}

/// Two responses that agree in all that they hold.
pub open spec fn same_response(a: Response, b: Response) -> bool {
    &&& a.rcode == b.rcode
    &&& a.authentic == b.authentic
    &&& same_records(a.answers@, b.answers@)
    &&& same_records(a.authority@, b.authority@)
    &&& same_records(a.additionals@, b.additionals@)
}

impl Clone for Response {
    fn clone(&self) -> (r: Self)
        ensures
            same_response(r, *self),
    {
        Response {
            rcode: self.rcode,
            authentic: self.authentic,
            answers: copy_records(&self.answers),
            authority: copy_records(&self.authority),
            additionals: copy_records(&self.additionals),
        }
    }
}

} // verus!
