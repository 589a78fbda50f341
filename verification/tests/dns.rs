use dnsix::dns::{copy_records, Name, RData, Record, RecordType, ResponseCode};
use dnsix::net::Ipv4Addr;

#[test]
fn type_codes_round_trip() {
    for code in 0..=u16::MAX {
        assert_eq!(RecordType::from_code(code).code(), code);
    }
    assert_eq!(RecordType::from_code(1), RecordType::A);
    assert_eq!(RecordType::from_code(28), RecordType::Aaaa);
    assert_eq!(RecordType::from_code(5), RecordType::Cname);
}

#[test]
fn response_codes_round_trip() {
    for n in 0..=u16::MAX {
        assert_eq!(ResponseCode::from_number(n).number(), n);
    }
    assert_eq!(ResponseCode::from_number(3), ResponseCode::NXDomain);
    assert_eq!(ResponseCode::from_number(5), ResponseCode::Refused);
}

#[test]
fn names_are_read_as_they_are_written() {
    for s in ["example.com.", "WWW.Example.COM.", "_dns.a-b.example.", "a."] {
        assert_eq!(Name::from_ascii(s).unwrap().text, s);
    }
    assert!(Name::from_ascii("a..b.").is_none());
    assert!(Name::read("a..b.").is_err());
    assert_eq!(Name::of_text("x.".to_string()).text, "x.");
}

#[test]
fn records_are_copied_whole() {
    let r = Record {
        name: Name::from_ascii("x.example.").unwrap(),
        rtype: RecordType::A,
        ttl: 5,
        data: RData::A(Ipv4Addr::new(1, 2, 3, 4)),
        wire: vec![9, 8],
    };
    let v = copy_records(&vec![r]);
    assert_eq!(v.len(), 1);
    assert_eq!(v[0].name.text, "x.example.");
    assert_eq!((v[0].ttl, v[0].wire.as_slice()), (5, &[9u8, 8][..]));
    assert!(matches!(v[0].data, RData::A(a) if a == Ipv4Addr::new(1, 2, 3, 4)));
}
