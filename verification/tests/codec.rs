use trojan_proxy::protocol::{parser_trojan, FrameParseError};
use trojan_proxy::trojan::{Address, IpOctets, Trojan};
use trojan_proxy::utility::search_u8_vec;

const CRED: &[u8] = b"61c5a1b0d2f3e4a5b6c7d8e9f0a1b2c3d4e5f60718293a4b5c6d7e8f";

fn frame(cred: &[u8], cmd: u8, addr: &[u8], payload: &[u8]) -> Vec<u8> {
    let mut buf = Vec::new();
    buf.extend_from_slice(cred);
    buf.extend_from_slice(b"\r\n");
    buf.push(cmd);
    buf.extend_from_slice(addr);
    buf.extend_from_slice(b"\r\n");
    buf.extend_from_slice(payload);
    buf
}

fn ipv4_addr(octets: [u8; 4], port: u16) -> Vec<u8> {
    let mut a = vec![1u8];
    a.extend_from_slice(&octets);
    a.extend_from_slice(&port.to_be_bytes());
    a
}

fn ipv6_addr(octets: [u8; 16], port: u16) -> Vec<u8> {
    let mut a = vec![4u8];
    a.extend_from_slice(&octets);
    a.extend_from_slice(&port.to_be_bytes());
    a
}

fn domain_addr(name: &[u8], port: u16) -> Vec<u8> {
    let mut a = vec![3u8, name.len() as u8];
    a.extend_from_slice(name);
    a.extend_from_slice(&port.to_be_bytes());
    a
}

#[test]
fn search_finds_first_occurrence() {
    let hay = b"abcrlfcr\r\nmore\r\n".to_vec();
    let needle = b"\r\n".to_vec();
    assert_eq!(search_u8_vec(&hay, &needle), Some(8));
}

#[test]
fn search_at_edges() {
    let hay = b"\r\nx".to_vec();
    let needle = b"\r\n".to_vec();
    assert_eq!(search_u8_vec(&hay, &needle), Some(0));
    let hay2 = b"x\r\n".to_vec();
    assert_eq!(search_u8_vec(&hay2, &needle), Some(1));
    let hay3 = b"x\r".to_vec();
    assert_eq!(search_u8_vec(&hay3, &needle), None);
}

#[test]
fn search_empty_cases() {
    let empty: Vec<u8> = Vec::new();
    let needle = b"\r\n".to_vec();
    assert_eq!(search_u8_vec(&empty, &needle), None);
    let hay = b"abc".to_vec();
    assert_eq!(search_u8_vec(&hay, &empty), None);
    assert_eq!(search_u8_vec(&empty, &empty), None);
}

#[test]
fn search_no_occurrence() {
    let hay = b"plain text without delimiter".to_vec();
    let needle = b"\r\n".to_vec();
    assert_eq!(search_u8_vec(&hay, &needle), None);
}

#[test]
fn parse_no_delimiter_is_fallback_signal() {
    let buf = b"GET / HTTP/1.1".to_vec();
    let r = parser_trojan(buf);
    assert!(matches!(r, Err(FrameParseError::NoDelimiter)));
}

#[test]
fn parse_unknown_address_type() {
    let buf = frame(CRED, 1, &[2u8, 0, 0, 0, 0, 0, 0], b"");
    let r = parser_trojan(buf);
    assert!(matches!(r, Err(FrameParseError::UnknownAddressType)));
}

#[test]
fn parse_invalid_domain_encoding() {
    let buf = frame(CRED, 1, &domain_addr(&[0xff, 0xfe, 0xfd], 80), b"");
    let r = parser_trojan(buf);
    assert!(matches!(r, Err(FrameParseError::InvalidDomainEncoding)));
}

#[test]
fn parse_truncated_header() {
    let mut buf = CRED.to_vec();
    buf.extend_from_slice(b"\r\n");
    buf.push(1);
    assert!(matches!(parser_trojan(buf), Err(FrameParseError::Truncated)));

    let mut buf2 = CRED.to_vec();
    buf2.extend_from_slice(b"\r\n\x01\x01\x0a\x00");
    assert!(matches!(parser_trojan(buf2), Err(FrameParseError::Truncated)));
}

#[test]
fn parse_ipv4_frame() {
    let buf = frame(CRED, 1, &ipv4_addr([127, 0, 0, 1], 8080), b"");
    let t = parser_trojan(buf).unwrap();
    assert_eq!(t.password().as_slice(), CRED);
    assert_eq!(*t.command(), 1);
    match t.address() {
        Address::SocketAddress(IpOctets::V4(o), port) => {
            assert_eq!(o, vec![127, 0, 0, 1]);
            assert_eq!(port, 8080);
        }
        _ => panic!("wrong address variant"),
    }
    assert!(!t.is_payload());
    assert!(t.payload().is_empty());
}

#[test]
fn parse_ipv6_frame() {
    let octets: [u8; 16] = [0, 1, 2, 3, 4, 5, 6, 7, 8, 9, 10, 11, 12, 13, 14, 15];
    let buf = frame(CRED, 1, &ipv6_addr(octets, 443), b"");
    let t = parser_trojan(buf).unwrap();
    match t.address() {
        Address::SocketAddress(IpOctets::V6(o), port) => {
            assert_eq!(o, octets.to_vec());
            assert_eq!(port, 443);
        }
        _ => panic!("wrong address variant"),
    }
}

#[test]
fn parse_domain_frame() {
    let buf = frame(CRED, 1, &domain_addr(b"example.com", 443), b"");
    let t = parser_trojan(buf).unwrap();
    match t.address() {
        Address::DomainNameAddress(name, port) => {
            assert_eq!(name, "example.com");
            assert_eq!(port, 443);
        }
        _ => panic!("wrong address variant"),
    }
}

#[test]
fn payload_recovered_per_address_type() {
    for n in [0usize, 1, 16, 255] {
        let payload: Vec<u8> = (0..n).map(|i| (i % 251) as u8).collect();
        let addrs = [
            ipv4_addr([10, 1, 2, 3], 80),
            ipv6_addr([9; 16], 8443),
            domain_addr(b"host.test", 1),
        ];
        for addr in addrs {
            let buf = frame(CRED, 1, &addr, &payload);
            let t = parser_trojan(buf).unwrap();
            assert_eq!(t.payload().as_slice(), payload.as_slice());
            assert_eq!(t.is_payload(), n > 0);
        }
    }
}

#[test]
fn serialize_exact_bytes() {
    let addr = Address::SocketAddress(IpOctets::V4(vec![1, 2, 3, 4]), 80);
    let t = Trojan::new(b"ab".to_vec(), 1, addr);
    let bytes = t.to_bytes();
    assert_eq!(bytes, b"ab\r\n\x01\x01\x01\x02\x03\x04\x00\x50\r\n".to_vec());
}

#[test]
fn serialize_domain_exact_bytes() {
    let addr = Address::DomainNameAddress(String::from("ab.cd"), 259);
    let t = Trojan::new(b"pw".to_vec(), 1, addr);
    let bytes = t.to_bytes();
    assert_eq!(bytes, b"pw\r\n\x01\x03\x05ab.cd\x01\x03\r\n".to_vec());
}

#[test]
fn round_trip_all_variants() {
    let addrs = vec![
        Address::SocketAddress(IpOctets::V4(vec![192, 168, 0, 1]), 65535),
        Address::SocketAddress(IpOctets::V6(vec![0xfe; 16]), 1),
        Address::DomainNameAddress(String::from("example.com"), 443),
    ];
    for addr in addrs {
        let t = Trojan::new(CRED.to_vec(), 1, addr);
        let bytes = t.to_bytes();
        let back = parser_trojan(bytes).unwrap();
        assert_eq!(back.password().as_slice(), CRED);
        assert_eq!(*back.command(), 1);
        assert!(!back.is_payload());
        match (t.address(), back.address()) {
            (Address::SocketAddress(IpOctets::V4(a), p), Address::SocketAddress(IpOctets::V4(b), q)) => {
                assert_eq!(a, b);
                assert_eq!(p, q);
            }
            (Address::SocketAddress(IpOctets::V6(a), p), Address::SocketAddress(IpOctets::V6(b), q)) => {
                assert_eq!(a, b);
                assert_eq!(p, q);
            }
            (Address::DomainNameAddress(a, p), Address::DomainNameAddress(b, q)) => {
                assert_eq!(a, b);
                assert_eq!(p, q);
            }
            _ => panic!("address variant changed in the round trip"),
        }
    }
}

#[test]
fn concrete_scenario() {
    let payload = b"GET / HTTP/1.1\r\n\r\n";
    let buf = frame(CRED, 1, &domain_addr(b"example.com", 443), payload);
    let t = parser_trojan(buf).unwrap();
    assert_eq!(t.password().as_slice(), CRED);
    assert_eq!(*t.command(), 1);
    match t.address() {
        Address::DomainNameAddress(name, port) => {
            assert_eq!(name, "example.com");
            assert_eq!(port, 443);
        }
        _ => panic!("wrong address variant"),
    }
    assert_eq!(t.payload().as_slice(), payload);

    let again = parser_trojan(t.to_bytes()).unwrap();
    assert_eq!(again.password().as_slice(), CRED);
    assert_eq!(*again.command(), 1);
    match again.address() {
        Address::DomainNameAddress(name, port) => {
            assert_eq!(name, "example.com");
            assert_eq!(port, 443);
        }
        _ => panic!("wrong address variant"),
    }
    assert!(!again.is_payload());
}

#[test]
fn serialize_never_emits_payload() {
    let addr = Address::SocketAddress(IpOctets::V4(vec![1, 2, 3, 4]), 80);
    let mut t = Trojan::new(b"ab".to_vec(), 1, addr);
    t.add_payload(b"inline".to_vec());
    let bytes = t.to_bytes();
    assert_eq!(bytes, b"ab\r\n\x01\x01\x01\x02\x03\x04\x00\x50\r\n".to_vec());
    let back = parser_trojan(bytes).unwrap();
    assert!(!back.is_payload());
}

#[test]
fn add_payload_replaces() {
    let addr = Address::SocketAddress(IpOctets::V4(vec![1, 1, 1, 1]), 53);
    let mut t = Trojan::new(b"pw".to_vec(), 1, addr);
    assert!(!t.is_payload());
    t.add_payload(b"data".to_vec());
    assert!(t.is_payload());
    assert_eq!(t.payload().as_slice(), b"data");
}

#[test]
fn parse_empty_buffer() {
    assert!(matches!(
        parser_trojan(Vec::new()),
        Err(FrameParseError::NoDelimiter)
    ));
}

#[test]
fn longest_domain_round_trips() {
    let name: String = std::iter::repeat('a').take(255).collect();
    let addr = Address::DomainNameAddress(name.clone(), 65535);
    let t = Trojan::new(b"pw".to_vec(), 1, addr);
    let back = parser_trojan(t.to_bytes()).unwrap();
    match back.address() {
        Address::DomainNameAddress(parsed, port) => {
            assert_eq!(parsed, name);
            assert_eq!(port, 65535);
        }
        _ => panic!("wrong address variant"),
    }
}

#[test]
fn empty_domain_length_parses() {
    let buf = frame(CRED, 1, &domain_addr(b"", 80), b"");
    let t = parser_trojan(buf).unwrap();
    match t.address() {
        Address::DomainNameAddress(name, port) => {
            assert_eq!(name, "");
            assert_eq!(port, 80);
        }
        _ => panic!("wrong address variant"),
    }
}
