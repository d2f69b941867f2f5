use nicwatch::decode::{
    be_read, decode, decode_ethernet, decode_l3, decode_loopback, decode_loopback_with,
    extract_tcp_flags, l3_from_headers, read_ports, IpHeaders, NetHeader, ParseError,
    TransportHeader,
};
use nicwatch::domain::{
    AppHint, Direction, FlowKey, IpAddr, L3Proto, L4Proto, LinkType, MacAddr, MacPair, TcpFlags,
};

fn ipv4_tcp(flags: u8) -> Vec<u8> {
    let mut p = vec![
        0x45, 0x00, 0x00, 0x28, 0x00, 0x01, 0x00, 0x00, 0x40, 0x06, 0x00, 0x00, // IPv4, TCP
        192, 168, 1, 2, // source
        93, 184, 216, 34, // destination
    ];
    p.extend_from_slice(&[
        0xc3, 0x50, 0x00, 0x50, // 50000 -> 80
        0, 0, 0, 1, 0, 0, 0, 0, // seq, ack
        0x50, flags, 0xff, 0xff, 0, 0, 0, 0,
    ]);
    p
}

fn ipv4_udp() -> Vec<u8> {
    let mut p = vec![
        0x45, 0x00, 0x00, 0x20, 0x00, 0x02, 0x00, 0x00, 0x40, 0x11, 0x00, 0x00, // IPv4, UDP
        10, 0, 0, 5, // source
        8, 8, 8, 8, // destination
    ];
    p.extend_from_slice(&[0xd4, 0x31, 0x00, 0x35, 0x00, 0x0c, 0x00, 0x00, 1, 2, 3, 4]);
    p
}

fn ipv6_udp() -> Vec<u8> {
    let mut p = vec![0x60, 0, 0, 0, 0x00, 0x08, 17, 64];
    let mut src = [0u8; 16];
    src[0] = 0xfe;
    src[1] = 0x80;
    src[15] = 1;
    let mut dst = [0u8; 16];
    dst[0] = 0xff;
    dst[1] = 0x02;
    dst[15] = 0xfb;
    p.extend_from_slice(&src);
    p.extend_from_slice(&dst);
    p.extend_from_slice(&[0x14, 0xe9, 0x14, 0xe9, 0x00, 0x08, 0x00, 0x00]);
    p
}

fn ethernet(ether_type: u16, payload: &[u8]) -> Vec<u8> {
    let mut f = vec![0x11, 0x22, 0x33, 0x44, 0x55, 0x66, 0xaa, 0xbb, 0xcc, 0xdd, 0xee, 0xff];
    f.push((ether_type >> 8) as u8);
    f.push((ether_type & 0xff) as u8);
    f.extend_from_slice(payload);
    f
}

#[test]
fn ethernet_ipv4_tcp_decodes_flow_flags_and_hint() {
    let frame = ethernet(0x0800, &ipv4_tcp(0x12));
    let d = decode_ethernet(&frame).expect("decodes");
    let (l3, macs, l4, flow, flags, app, len) = d;
    assert_eq!(l3, L3Proto::Ipv4);
    assert_eq!(
        macs,
        Some(MacPair {
            src: MacAddr([0xaa, 0xbb, 0xcc, 0xdd, 0xee, 0xff]),
            dst: MacAddr([0x11, 0x22, 0x33, 0x44, 0x55, 0x66]),
        })
    );
    assert_eq!(l4, L4Proto::Tcp);
    assert_eq!(
        flow,
        Some(FlowKey {
            proto: L4Proto::Tcp,
            src: IpAddr::V4(0xc0a8_0102),
            src_port: 50000,
            dst: IpAddr::V4(0x5db8_d822),
            dst_port: 80,
        })
    );
    assert_eq!(flags, TcpFlags(0x12));
    assert!(flags.is_synack());
    assert_eq!(app, AppHint::Http);
    assert_eq!(len, 40);
}

#[test]
fn tcp_flags_keep_only_the_six_flag_bits() {
    let d = decode_l3(&ipv4_tcp(0xff), L3Proto::Ipv4).expect("decodes");
    assert_eq!(d.2, TcpFlags(0x3f));
    let hdr = &ipv4_tcp(0x11)[20..];
    assert_eq!(extract_tcp_flags(hdr), TcpFlags(0x11));
}

#[test]
fn ethernet_ipv4_udp_dns() {
    let frame = ethernet(0x0800, &ipv4_udp());
    let (l3, _, l4, flow, flags, app, len) = decode_ethernet(&frame).expect("decodes");
    assert_eq!(l3, L3Proto::Ipv4);
    assert_eq!(l4, L4Proto::Udp);
    let k = flow.expect("flow");
    assert_eq!(k.src, IpAddr::V4(0x0a00_0005));
    assert_eq!(k.src_port, 54321);
    assert_eq!(k.dst, IpAddr::V4(0x0808_0808));
    assert_eq!(k.dst_port, 53);
    assert_eq!(flags, TcpFlags(0));
    assert_eq!(app, AppHint::Dns);
    assert_eq!(len, 32);
}

#[test]
fn ethernet_ipv6_udp_mdns() {
    let frame = ethernet(0x86dd, &ipv6_udp());
    let (l3, _, l4, flow, _, app, len) = decode_ethernet(&frame).expect("decodes");
    assert_eq!(l3, L3Proto::Ipv6);
    assert_eq!(l4, L4Proto::Udp);
    let k = flow.expect("flow");
    assert_eq!(k.src, IpAddr::V6(0xfe80_0000_0000_0000_0000_0000_0000_0001));
    assert_eq!(k.dst, IpAddr::V6(0xff02_0000_0000_0000_0000_0000_0000_00fb));
    assert_eq!((k.src_port, k.dst_port), (5353, 5353));
    assert_eq!(app, AppHint::Mdns);
    assert_eq!(len, 48);
}

#[test]
fn short_ethernet_frame_is_too_short() {
    let r = decode_ethernet(&[0u8; 13]);
    assert!(matches!(r, Err(ParseError::TooShort(13))));
}

#[test]
fn non_ip_payload_is_an_l3_error() {
    let frame = ethernet(0x88cc, &[0u8; 28]);
    let r = decode_ethernet(&frame);
    assert!(matches!(r, Err(ParseError::L3(m)) if m == "not IP"));
    let e = r.unwrap_err();
    assert_eq!(e.display(), "L3 parse: not IP");
}

#[test]
fn broadcast_arp_request_is_counted_as_arp() {
    let mut payload = vec![0xffu8; 6];
    payload.extend_from_slice(&[0x02, 0, 0, 0, 0, 1]);
    payload.extend_from_slice(&[0x08, 0x06]);
    payload.extend_from_slice(&[0x00, 0x01, 0x08, 0x00, 0x06, 0x04, 0x00, 0x01]);
    payload.extend_from_slice(&[0u8; 20]);
    let f = decode(&payload, LinkType::Ethernet, 42, 9).expect("decodes").expect("a frame");
    assert_eq!(f.l3, L3Proto::Arp);
    assert_eq!(
        f.macs,
        Some(MacPair { src: MacAddr([0x02, 0, 0, 0, 0, 1]), dst: MacAddr::broadcast() })
    );
    assert_eq!(f.flow, None);
    assert_eq!(f.l4, L4Proto::Unknown);
    assert_eq!(f.app, AppHint::Unknown);
    assert_eq!(f.tcp_flags, TcpFlags(0));
    assert_eq!(f.wire_len, 42);
    assert_eq!(f.cap_len, 28);
    assert_eq!(f.captured_at, 9);
}

#[test]
fn ip_hint_does_not_steer_the_l3_decoder() {
    let a = decode_l3(&ipv4_tcp(0x02), L3Proto::Ipv6).expect("decodes");
    let b = decode_l3(&ipv4_tcp(0x02), L3Proto::Ipv4).expect("decodes");
    assert_eq!(a, b);
}

#[test]
fn loopback_reads_the_family_word_either_way() {
    let mut frame = vec![2, 0, 0, 0];
    frame.extend_from_slice(&ipv4_udp());
    let (l3, macs, l4, ..) = decode_loopback(&frame).expect("decodes");
    assert_eq!(l3, L3Proto::Ipv4);
    assert!(macs.is_none());
    assert_eq!(l4, L4Proto::Udp);

    let mut frame6 = vec![30, 0, 0, 0];
    frame6.extend_from_slice(&ipv6_udp());
    let (l3, _, l4, ..) = decode_loopback_with(30, &frame6).expect("decodes");
    assert_eq!(l3, L3Proto::Ipv6);
    assert_eq!(l4, L4Proto::Udp);
}

#[test]
fn loopback_unknown_family_is_other() {
    let mut frame = vec![0, 0, 0, 0];
    frame.extend_from_slice(&ipv4_udp());
    let d = decode_loopback_with(28, &frame).expect("decodes");
    assert_eq!(d, (L3Proto::Other(0), None, L4Proto::Unknown, None, TcpFlags(0), AppHint::Unknown, 0));
}

#[test]
fn loopback_too_short() {
    assert!(matches!(decode_loopback(&[2, 0, 0]), Err(ParseError::TooShort(3))));
}

#[test]
fn decode_builds_a_received_frame() {
    let frame = ethernet(0x0800, &ipv4_tcp(0x02));
    let f = decode(&frame, LinkType::Ethernet, 60, 1234).expect("ok").expect("frame");
    assert_eq!(f.captured_at, 1234);
    assert_eq!(f.wire_len, 60);
    assert_eq!(f.cap_len, 40);
    assert_eq!(f.direction, Direction::Rx);
    assert_eq!(f.l3, L3Proto::Ipv4);
    assert_eq!(f.l4, L4Proto::Tcp);
    assert!(f.tcp_flags.is_syn());
}

#[test]
fn decode_of_nothing_is_nothing() {
    assert!(matches!(decode(&[], LinkType::Ethernet, 0, 0), Ok(None)));
    assert!(matches!(decode(&[], LinkType::Other(7), 0, 0), Ok(None)));
}

#[test]
fn decode_refuses_other_link_types() {
    let r = decode(&[1, 2, 3], LinkType::Other(105), 3, 0);
    assert!(matches!(r, Err(ParseError::UnsupportedLinkType(LinkType::Other(105)))));
    assert_eq!(r.unwrap_err().display(), "unsupported link type: Other(105)");
}

#[test]
fn headers_without_ports_give_no_flow() {
    let mut v4 = vec![0u8; 20];
    v4[12..16].copy_from_slice(&[1, 2, 3, 4]);
    v4[16..20].copy_from_slice(&[5, 6, 7, 8]);
    let h = IpHeaders { net: Some(NetHeader::V4(v4)), transport: Some(TransportHeader::Icmpv4) };
    let (l4, flow, flags, app, len) = l3_from_headers(&h, 84);
    assert_eq!(l4, L4Proto::Icmp);
    assert!(flow.is_none());
    assert_eq!(flags, TcpFlags(0));
    assert_eq!(app, AppHint::Unknown);
    assert_eq!(len, 84);

    let none = IpHeaders { net: None, transport: None };
    let r = l3_from_headers(&none, 84);
    assert_eq!(r, (L4Proto::Unknown, None, TcpFlags(0), AppHint::Unknown, 0));
}

#[test]
fn big_endian_reads() {
    assert_eq!(be_read(&[0x12, 0x34, 0x56, 0x78], 0, 4), 0x1234_5678);
    assert_eq!(be_read(&[0x12, 0x34, 0x56, 0x78], 1, 2), 0x3456);
    assert_eq!(be_read(&[0xff; 16], 0, 16), u128::MAX);
    assert_eq!(be_read(&[9], 0, 0), 0);
    assert_eq!(read_ports(&[0x01, 0xbb, 0xc0, 0x00]), (443, 49152));
}
