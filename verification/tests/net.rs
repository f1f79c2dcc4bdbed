use pkg_registry::net::SocketAddr;
use pkg_registry::numeral::{decimal_string, hex_string};
use pkg_registry::text::white_space;

#[test]
fn white_space_is_the_unicode_property() {
    for n in 0..=0x10ffffu32 {
        if let Some(c) = char::from_u32(n) {
            assert_eq!(white_space(c), c.is_whitespace(), "U+{:04X}", n);
        }
    }
}

#[test]
fn numbers_in_text() {
    assert_eq!(decimal_string(0), "0");
    assert_eq!(decimal_string(10), "10");
    assert_eq!(decimal_string(4294967295), "4294967295");
    assert_eq!(hex_string(0), "0");
    assert_eq!(hex_string(0xabc), "abc");
    assert_eq!(hex_string(0xffff), "ffff");
}

#[test]
fn ipv4_socket_addresses() {
    assert_eq!(SocketAddr::parse("127.0.0.1:5000"), Some(SocketAddr::V4 { octets: [127, 0, 0, 1], port: 5000 }));
    assert_eq!(SocketAddr::parse("0.0.0.0:0"), Some(SocketAddr::V4 { octets: [0, 0, 0, 0], port: 0 }));
    assert_eq!(
        SocketAddr::parse("255.255.255.255:65535"),
        Some(SocketAddr::V4 { octets: [255, 255, 255, 255], port: 65535 })
    );
    assert_eq!(SocketAddr::parse("1.2.3.4:00080"), Some(SocketAddr::V4 { octets: [1, 2, 3, 4], port: 80 }));
    for bad in [
        "", "1.2.3.4", "1.2.3.4:", "1.2.3:80", "1.2.3.4.5:80", "256.1.1.1:80", "01.2.3.4:80", "1.2.3.4:65536",
        "1.2.3.4:-1", "1.2.3.4:+1", " 1.2.3.4:80", "1.2.3.4:80 ", "1.2.3.4 :80", "1..3.4:80", "a.b.c.d:80",
        "localhost:80", "1.2.3.1234:80", "1.2.3.4:8x",
    ] {
        assert_eq!(SocketAddr::parse(bad), None, "{}", bad);
    }
}

#[test]
fn ipv6_socket_addresses() {
    let cases: Vec<(&str, [u16; 8], u32, u16)> = vec![
        ("[::]:0", [0; 8], 0, 0),
        ("[::1]:80", [0, 0, 0, 0, 0, 0, 0, 1], 0, 80),
        ("[1::]:80", [1, 0, 0, 0, 0, 0, 0, 0], 0, 80),
        ("[1:2:3:4:5:6:7:8]:9", [1, 2, 3, 4, 5, 6, 7, 8], 0, 9),
        ("[1:2:3:4:5:6:7::]:9", [1, 2, 3, 4, 5, 6, 7, 0], 0, 9),
        ("[::2:3:4:5:6:7:8]:9", [0, 2, 3, 4, 5, 6, 7, 8], 0, 9),
        ("[2001:DB8::aBcD]:443", [0x2001, 0xdb8, 0, 0, 0, 0, 0, 0xabcd], 0, 443),
        ("[0001:002:03:4::]:1", [1, 2, 3, 4, 0, 0, 0, 0], 0, 1),
        ("[::ffff:1.2.3.4]:1", [0, 0, 0, 0, 0, 0xffff, 0x0102, 0x0304], 0, 1),
        ("[1:2:3:4:5:6:1.2.3.4]:1", [1, 2, 3, 4, 5, 6, 0x0102, 0x0304], 0, 1),
        ("[::1.2.3.4]:1", [0, 0, 0, 0, 0, 0, 0x0102, 0x0304], 0, 1),
        ("[fe80::1%3]:22", [0xfe80, 0, 0, 0, 0, 0, 0, 1], 3, 22),
        ("[fe80::1%0]:22", [0xfe80, 0, 0, 0, 0, 0, 0, 1], 0, 22),
        ("[fe80::1%4294967295]:22", [0xfe80, 0, 0, 0, 0, 0, 0, 1], u32::MAX, 22),
    ];
    for (text, segments, scope_id, port) in cases {
        assert_eq!(SocketAddr::parse(text), Some(SocketAddr::V6 { segments, scope_id, port }), "{}", text);
    }
    for bad in [
        "::1:80", "[::1]", "[::1]:", "[::1]80", "[::1]:65536", "[:::]:1", "[1:2:3:4:5:6:7:8:9]:1", "[1:2:3:4:5:6:7]:1",
        "[1::2::3]:1", "[12345::]:1", "[g::]:1", "[1.2.3.4::]:1", "[1:2:3:4:5:6:7:1.2.3.4]:1", "[::1:2:3:4:5:6:7:8]:1",
        "[1:2:3:4:5:6:7:8::]:1", "[::1%]:1", "[::1%eth0]:1", "[::1%4294967296]:1", "[::01.2.3.4]:1", "[::1.2.3]:1",
        "[::1] :1", "[[::1]]:1", "[]:1", "[:1]:1", "[1:]:1", "[::1.2.3.4:5]:1",
    ] {
        assert_eq!(SocketAddr::parse(bad), None, "{}", bad);
    }
}

#[test]
fn socket_addresses_in_text() {
    assert_eq!(SocketAddr::V4 { octets: [127, 0, 0, 1], port: 5000 }.to_string(), "127.0.0.1:5000");
    assert_eq!(SocketAddr::V4 { octets: [10, 200, 0, 255], port: 0 }.ip_string(), "10.200.0.255");
    let cases: Vec<([u16; 8], &str)> = vec![
        ([0; 8], "::"),
        ([0, 0, 0, 0, 0, 0, 0, 1], "::1"),
        ([1, 0, 0, 0, 0, 0, 0, 0], "1::"),
        ([1, 2, 3, 4, 5, 6, 7, 8], "1:2:3:4:5:6:7:8"),
        ([1, 0, 3, 4, 5, 6, 7, 8], "1:0:3:4:5:6:7:8"),
        ([1, 0, 0, 4, 5, 6, 7, 8], "1::4:5:6:7:8"),
        ([1, 0, 0, 4, 0, 0, 7, 8], "1::4:0:0:7:8"),
        ([1, 0, 0, 4, 0, 0, 0, 8], "1:0:0:4::8"),
        ([0x2001, 0xdb8, 0, 0, 0, 0, 0, 0xabcd], "2001:db8::abcd"),
        ([0, 0, 0, 0, 0, 0xffff, 0x0102, 0x0304], "::ffff:1.2.3.4"),
        ([0, 0, 0, 0, 0, 0, 0x0102, 0x0304], "::102:304"),
        ([0, 0, 0, 0, 0, 0xffff, 0, 0], "::ffff:0.0.0.0"),
    ];
    for (segments, text) in cases {
        let a = SocketAddr::V6 { segments, scope_id: 0, port: 8080 };
        assert_eq!(a.ip_string(), text);
        assert_eq!(a.to_string(), format!("[{}]:8080", text));
        assert_eq!(SocketAddr::parse(&a.to_string()), Some(a));
    }
    let scoped = SocketAddr::V6 { segments: [0xfe80, 0, 0, 0, 0, 0, 0, 1], scope_id: 12, port: 1 };
    assert_eq!(scoped.to_string(), "[fe80::1%12]:1");
    assert_eq!(scoped.port(), 1);
}
