use iot_gateway::address::{socket_addr_from_host_port, SocketAddress};

fn v4(host: &str, port: u16) -> Option<(Vec<u8>, u16)> {
    match socket_addr_from_host_port(host, port)? {
        SocketAddress::V4 { octets, port } => Some((octets, port)),
        SocketAddress::V6 { .. } => None,
    }
}

fn v6(host: &str, port: u16) -> Option<(Vec<u16>, u32, u16)> {
    match socket_addr_from_host_port(host, port)? {
        SocketAddress::V6 { segments, scope_id, port } => Some((segments, scope_id, port)),
        SocketAddress::V4 { .. } => None,
    }
}

#[test]
fn ipv4_literals_are_read_back() {
    assert_eq!(v4("127.0.0.1", 1883), Some((vec![127, 0, 0, 1], 1883)));
    assert_eq!(v4("0.0.0.0", 0), Some((vec![0, 0, 0, 0], 0)));
    assert_eq!(v4("255.255.255.255", 65535), Some((vec![255, 255, 255, 255], 65535)));
    assert_eq!(v4("10.0.0.1", 5020), Some((vec![10, 0, 0, 1], 5020)));
}

#[test]
fn malformed_ipv4_is_refused() {
    for host in [
        "256.0.0.1", "01.2.3.4", "1.2.3", "1.2.3.4.5", "1..2.3", " 1.2.3.4", "1.2.3.4 ",
        "1.2.3.0004", "localhost", "a.b.c.d", "1.2.3.4:80", "", "１.2.3.4",
    ] {
        assert!(socket_addr_from_host_port(host, 80).is_none(), "{host:?} must be refused");
    }
}

#[test]
fn ipv6_literals_are_read_back() {
    assert_eq!(v6("[::1]", 1883), Some((vec![0, 0, 0, 0, 0, 0, 0, 1], 0, 1883)));
    assert_eq!(v6("[::]", 1), Some((vec![0; 8], 0, 1)));
    assert_eq!(
        v6("[2001:db8::8a2e:370:7334]", 443),
        Some((vec![0x2001, 0xdb8, 0, 0, 0, 0x8a2e, 0x370, 0x7334], 0, 443))
    );
    assert_eq!(v6("[1:2:3:4:5:6:7:8]", 9), Some((vec![1, 2, 3, 4, 5, 6, 7, 8], 0, 9)));
    assert_eq!(v6("[1:2:3:4:5:6:7::]", 9), Some((vec![1, 2, 3, 4, 5, 6, 7, 0], 0, 9)));
    assert_eq!(v6("[::ffff:1.2.3.4]", 9), Some((vec![0, 0, 0, 0, 0, 0xffff, 0x0102, 0x0304], 0, 9)));
    assert_eq!(v6("[1:2:3:4:5:6:1.2.3.4]", 9), Some((vec![1, 2, 3, 4, 5, 6, 0x0102, 0x0304], 0, 9)));
    assert_eq!(v6("[fe80::1%2]", 9), Some((vec![0xfe80, 0, 0, 0, 0, 0, 0, 1], 2, 9)));
    assert_eq!(v6("[ABCD::0000]", 9), Some((vec![0xabcd, 0, 0, 0, 0, 0, 0, 0], 0, 9)));
}

#[test]
fn malformed_ipv6_is_refused() {
    for host in [
        "::1", "[::1", "::1]", "[1::2::3]", "[12345::]", "[1:2:3:4:5:6:7:8:9]", "[1:2:3:4:5:6:7]",
        "[1.2.3.4]", "[1:2:1.2.3.4]", "[1:2:3:4:5:6:7:1.2.3.4]", "[::1%]", "[::1]x", "[:::1]",
        "[1:2:3:4:5:6::1.2.3.4]", "[g::1]",
    ] {
        assert!(socket_addr_from_host_port(host, 80).is_none(), "{host:?} must be refused");
    }
}

#[test]
fn every_port_is_carried_through() {
    for port in [0u16, 1, 9, 10, 99, 100, 1883, 5020, 65534, 65535] {
        assert_eq!(v4("1.2.3.4", port), Some((vec![1, 2, 3, 4], port)));
        assert_eq!(v6("[::2]", port), Some((vec![0, 0, 0, 0, 0, 0, 0, 2], 0, port)));
    }
}

#[test]
fn edge_cases_follow_the_socket_address_grammar() {
    // scope ids are decimal u32 values, leading zeros allowed
    assert_eq!(v6("[::1%4294967295]", 1), Some((vec![0, 0, 0, 0, 0, 0, 0, 1], 4294967295, 1)));
    assert_eq!(v6("[::1%007]", 1), Some((vec![0, 0, 0, 0, 0, 0, 0, 1], 7, 1)));
    assert_eq!(v6("[::1%4294967296]", 1), None);
    // groups have at most four hex digits, leading zeros allowed
    assert_eq!(v6("[0000::1]", 1), Some((vec![0, 0, 0, 0, 0, 0, 0, 1], 0, 1)));
    assert_eq!(v6("[00000::1]", 1), None);
    // an embedded IPv4 address needs room for two groups and ends the address
    assert_eq!(v6("[::0.0.0.0]", 1), Some((vec![0; 8], 0, 1)));
    assert_eq!(v6("[::255.255.255.255]", 1), Some((vec![0, 0, 0, 0, 0, 0, 0xffff, 0xffff], 0, 1)));
    for host in ["[::256.0.0.0]", "[::1.2.3]", "[::1.2.3.04]", "[1.2.3.4::]", "[:1::]", "[::1:]",
        "[1:::2]", "[1:2:3:4:5:6:7:8::]", "[::1%+1]", "[ ::1]", "[::1 ]", "+1.2.3.4",
        "1.2.3.4%1", "0.0.0.00"] {
        assert!(socket_addr_from_host_port(host, 1).is_none(), "{host:?} must be refused");
    }
    assert_eq!(v6("[::2:3:4:5:6:7:8]", 1), Some((vec![0, 2, 3, 4, 5, 6, 7, 8], 0, 1)));
    assert_eq!(v6("[1::2:3:4:5:6:7]", 1), Some((vec![1, 0, 2, 3, 4, 5, 6, 7], 0, 1)));
    assert_eq!(v6("[1:2:3:4:5::1.2.3.4]", 1), Some((vec![1, 2, 3, 4, 5, 0, 0x0102, 0x0304], 0, 1)));
}
