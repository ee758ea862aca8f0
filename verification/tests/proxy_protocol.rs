use rat_engine::server::proxy_protocol::{
    ip_to_string, IpAddress, ProxyAddressFamily, ProxyCommand, ProxyProtocol, ProxyProtocolError,
    ProxyProtocolV2Info, ProxyProtocolV2Parser,
};

const SIGNATURE: [u8; 12] = [0x0D, 0x0A, 0x0D, 0x0A, 0x00, 0x0D, 0x0A, 0x51, 0x55, 0x49, 0x54, 0x0A];

fn tcp4_header() -> Vec<u8> {
    let mut header = Vec::from(SIGNATURE);
    header.push(0x21);
    header.push(0x11);
    header.extend_from_slice(&12u16.to_be_bytes());
    header.extend_from_slice(&[192, 168, 1, 100]);
    header.extend_from_slice(&[10, 0, 0, 1]);
    header.extend_from_slice(&12345u16.to_be_bytes());
    header.extend_from_slice(&443u16.to_be_bytes());
    header
}

#[test]
fn test_proxy_v2_signature() {
    assert!(ProxyProtocolV2Parser::is_proxy_v2(b"\x0D\x0A\x0D\x0A\x00\x0D\x0A\x51\x55\x49\x54\x0A\x20\x00\x00\x00"));
    assert!(!ProxyProtocolV2Parser::is_proxy_v2(b"GET / HTTP/1.1"));
}

#[test]
fn test_parse_proxy_v2_tcp4() {
    let header = tcp4_header();
    let info = ProxyProtocolV2Parser::parse(&header).unwrap();
    assert!(matches!(info.command, ProxyCommand::Proxy));
    assert!(matches!(info.address_family, ProxyAddressFamily::Inet));
    assert!(matches!(info.protocol, ProxyProtocol::Stream));

    let addrs = info.addresses.unwrap();
    assert_eq!(ip_to_string(&addrs.src_addr.ip), "192.168.1.100");
    assert_eq!(addrs.src_addr.port, 12345);
    assert_eq!(ip_to_string(&addrs.dst_addr.ip), "10.0.0.1");
    assert_eq!(addrs.dst_addr.port, 443);
}

#[test]
fn proxy_v2_client_address_accessors() {
    let info = ProxyProtocolV2Parser::parse(&tcp4_header()).unwrap();
    assert_eq!(info.client_ip(), Some("192.168.1.100".to_string()));
    assert_eq!(info.client_port(), Some(12345));
    let bare = ProxyProtocolV2Info::new(ProxyCommand::Local, ProxyAddressFamily::Unspec, ProxyProtocol::Unspec);
    assert_eq!(bare.client_ip(), None);
    assert_eq!(bare.client_port(), None);
    assert!(bare.tlvs.is_empty());
    assert!(bare.alpn.is_none());
}

#[test]
fn proxy_v2_rejects_bad_headers() {
    assert_eq!(ProxyProtocolV2Parser::parse(&SIGNATURE).unwrap_err(), ProxyProtocolError::TooShort);
    let mut bad_sig = tcp4_header();
    bad_sig[0] = 0;
    assert_eq!(ProxyProtocolV2Parser::parse(&bad_sig).unwrap_err(), ProxyProtocolError::InvalidSignature);
    let mut v1 = tcp4_header();
    v1[12] = 0x11;
    assert_eq!(ProxyProtocolV2Parser::parse(&v1).unwrap_err(), ProxyProtocolError::UnsupportedVersion(1));
    let mut cmd = tcp4_header();
    cmd[12] = 0x25;
    assert_eq!(ProxyProtocolV2Parser::parse(&cmd).unwrap_err(), ProxyProtocolError::UnknownCommand);
    let mut fam = tcp4_header();
    fam[13] = 0x51;
    assert_eq!(ProxyProtocolV2Parser::parse(&fam).unwrap_err(), ProxyProtocolError::UnknownAddressFamily);
    let mut proto = tcp4_header();
    proto[13] = 0x13;
    assert_eq!(ProxyProtocolV2Parser::parse(&proto).unwrap_err(), ProxyProtocolError::UnknownTransport);
    let short = &tcp4_header()[..20];
    assert_eq!(ProxyProtocolV2Parser::parse(short).unwrap_err(), ProxyProtocolError::Incomplete);
    let mut tiny = Vec::from(SIGNATURE);
    tiny.extend_from_slice(&[0x21, 0x11, 0x00, 0x04, 1, 2, 3, 4]);
    assert_eq!(ProxyProtocolV2Parser::parse(&tiny).unwrap_err(), ProxyProtocolError::Ipv4TooShort);
    let mut tiny6 = Vec::from(SIGNATURE);
    tiny6.extend_from_slice(&[0x21, 0x21, 0x00, 0x04, 1, 2, 3, 4]);
    assert_eq!(ProxyProtocolV2Parser::parse(&tiny6).unwrap_err(), ProxyProtocolError::Ipv6TooShort);
}

#[test]
fn proxy_v2_reads_alpn_tlv() {
    let mut header = Vec::from(SIGNATURE);
    header.extend_from_slice(&[0x21, 0x11]);
    header.extend_from_slice(&12u16.to_be_bytes());
    header.extend_from_slice(&[127, 0, 0, 1, 127, 0, 0, 2, 0x1F, 0x90, 0x00, 0x50]);
    header.extend_from_slice(&[0x01, 0x00, 0x02, b'h', b'2']);
    let info = ProxyProtocolV2Parser::parse(&header).unwrap();
    assert_eq!(info.tlvs.len(), 1);
    assert_eq!(info.tlvs[0].tpe, 0x01);
    assert_eq!(info.tlvs[0].value, b"h2".to_vec());
    assert_eq!(info.alpn.as_deref(), Some("h2"));
    assert_eq!(info.client_port(), Some(8080));
}

#[test]
fn ipv6_text_compresses_longest_zero_run() {
    let mut b = [0u8; 16];
    b[0] = 0x20;
    b[1] = 0x01;
    b[2] = 0x0d;
    b[3] = 0xb8;
    b[15] = 0x01;
    assert_eq!(ip_to_string(&IpAddress::V6(b)), "2001:db8::1");
    assert_eq!(ip_to_string(&IpAddress::V6([0u8; 16])), "::");
    let mut loopback = [0u8; 16];
    loopback[15] = 1;
    assert_eq!(ip_to_string(&IpAddress::V6(loopback)), "::1");
    assert_eq!(ip_to_string(&IpAddress::V4([0, 0, 0, 0])), "0.0.0.0");
}
