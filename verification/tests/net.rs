use dnsix::net::{IpAddr, Ipv4Addr, Ipv6Addr, SocketAddr};

#[test]
fn ipv4_addresses_are_read_and_written() {
    for s in ["0.0.0.0", "1.2.3.4", "255.255.255.255", "10.0.0.1"] {
        assert_eq!(Ipv4Addr::parse(s).unwrap().text(), s);
    }
    for s in ["", "1.2.3", "1.2.3.4.5", "256.1.1.1", "01.2.3.4", "1.2.3.+4", "1.2.3.4 ", "a.b.c.d"] {
        assert!(Ipv4Addr::parse(s).is_none(), "{s}");
    }
    assert_eq!(Ipv4Addr::new(1, 2, 3, 4).octets(), (1, 2, 3, 4));
}

#[test]
fn ipv6_addresses_are_read_and_written() {
    let cases = [
        ("::", "::"),
        ("::1", "::1"),
        ("1::", "1::"),
        ("2001:DB8::1", "2001:db8::1"),
        ("2001:db8:0:0:1:0:0:1", "2001:db8::1:0:0:1"),
        ("1:0:2:3:4:5:6:7", "1:0:2:3:4:5:6:7"),
        ("::ffff:1.2.3.4", "::ffff:1.2.3.4"),
        ("64:ff9b::1.2.3.4", "64:ff9b::102:304"),
        ("0:0:0:0:0:0:0:0", "::"),
        ("fe80::0001", "fe80::1"),
    ];
    for (s, want) in cases {
        assert_eq!(Ipv6Addr::parse(s).unwrap().text(), want, "{s}");
    }
    for s in ["", ":", ":::", "1:2:3:4:5:6:7", "1:2:3:4:5:6:7:8:9", "1::2::3", "12345::", "g::", "[::1]", "::1%1", "1.2.3.4"] {
        assert!(Ipv6Addr::parse(s).is_none(), "{s}");
    }
    assert_eq!(
        Ipv6Addr::from_segments(0x2001, 0xdb8, 0, 0, 0, 0, 0, 1).segments(),
        [0x2001, 0xdb8, 0, 0, 0, 0, 0, 1]
    );
}

#[test]
fn sockets_are_written() {
    let v6 = SocketAddr::new(IpAddr::parse("::1").unwrap(), 53);
    assert!(v6.is_ipv6());
    assert_eq!(v6.text(), "[::1]:53");
    let v4 = SocketAddr::new(IpAddr::parse("1.2.3.4").unwrap(), 853);
    assert!(!v4.is_ipv6());
    assert_eq!(v4.text(), "1.2.3.4:853");
    let scoped = SocketAddr { scope: 2, ..v6 };
    assert_eq!(scoped.text(), "[::1%2]:53");
}
