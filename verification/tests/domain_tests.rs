use nicwatch::domain::{
    endpoint_leq, mac_eq, wildcard_v4, wildcard_v6, AppHint, Counters, Direction, FlowKey, IfStats,
    IpAddr, L3Proto, L4Proto, LinkType, MacAddr, TcpFlags,
};

#[test]
fn mac_constants_and_predicates() {
    assert_eq!(MacAddr::broadcast(), MacAddr([0xff; 6]));
    assert_eq!(MacAddr::zero(), MacAddr([0; 6]));
    assert!(MacAddr::broadcast().is_broadcast());
    assert!(!MacAddr([0xff, 0xff, 0xff, 0xff, 0xff, 0xfe]).is_broadcast());
    assert!(MacAddr([0x01, 0x00, 0x5e, 0, 0, 1]).is_multicast());
    assert!(!MacAddr([0x00, 0x00, 0x5e, 0, 0, 1]).is_multicast());
    assert!(MacAddr([0x02, 0, 0, 0, 0, 0]).is_locally_administered());
    assert_eq!(MacAddr([0xaa, 0xbb, 0xcc, 1, 2, 3]).oui(), [0xaa, 0xbb, 0xcc]);
    assert!(mac_eq(MacAddr([1, 2, 3, 4, 5, 6]), MacAddr([1, 2, 3, 4, 5, 6])));
    assert!(!mac_eq(MacAddr([1, 2, 3, 4, 5, 6]), MacAddr([1, 2, 3, 4, 5, 7])));
}

#[test]
fn mac_display_is_lower_case_hex_with_colons() {
    assert_eq!(MacAddr([0x00, 0x1b, 0x21, 0xab, 0xcd, 0xef]).display(), "00:1b:21:ab:cd:ef");
}

#[test]
fn link_types_from_dlt() {
    assert_eq!(LinkType::from_dlt(1), LinkType::Ethernet);
    assert_eq!(LinkType::from_dlt(0), LinkType::Loopback);
    assert_eq!(LinkType::from_dlt(105), LinkType::Other(105));
    assert_eq!(LinkType::Ethernet.header_len(), 14);
    assert_eq!(LinkType::Loopback.header_len(), 4);
    assert_eq!(LinkType::Other(9).header_len(), 0);
}

#[test]
fn l4_protocols() {
    assert_eq!(L4Proto::from_ip_proto(6), L4Proto::Tcp);
    assert_eq!(L4Proto::from_ip_proto(17), L4Proto::Udp);
    assert_eq!(L4Proto::from_ip_proto(1), L4Proto::Icmp);
    assert_eq!(L4Proto::from_ip_proto(58), L4Proto::IcmpV6);
    assert_eq!(L4Proto::from_ip_proto(2), L4Proto::Igmp);
    assert_eq!(L4Proto::from_ip_proto(47), L4Proto::Other(47));
    assert_eq!(L4Proto::IcmpV6.name(), "ICMP6");
    assert_eq!(L4Proto::Other(47).name(), "L4");
    assert_eq!(L4Proto::Unknown.name(), "?");
    assert_eq!(L4Proto::Other(47).display(), "IP/47");
    assert_eq!(L4Proto::Tcp.display(), "TCP");
    assert_eq!(
        L4Proto::all(),
        [L4Proto::Tcp, L4Proto::Udp, L4Proto::Icmp, L4Proto::IcmpV6, L4Proto::Igmp, L4Proto::Unknown]
    );
}

#[test]
fn l3_protocols() {
    assert_eq!(L3Proto::from_ethertype(0x0800), L3Proto::Ipv4);
    assert_eq!(L3Proto::from_ethertype(0x86dd), L3Proto::Ipv6);
    assert_eq!(L3Proto::from_ethertype(0x0806), L3Proto::Arp);
    assert_eq!(L3Proto::from_ethertype(0x88cc), L3Proto::Other(0x88cc));
    assert_eq!(L3Proto::Ipv6.name(), "IPv6");
    assert_eq!(L3Proto::Other(1).name(), "L3");
}

#[test]
fn directions() {
    assert_eq!(Direction::Rx.arrow(), '↓');
    assert_eq!(Direction::Tx.arrow(), '↑');
    assert_eq!(Direction::Rx.label(), "RX");
    assert_eq!(Direction::Tx.label(), "TX");
}

fn key(src: u32, sp: u16, dst: u32, dp: u16) -> FlowKey {
    FlowKey { proto: L4Proto::Tcp, src: IpAddr::V4(src), src_port: sp, dst: IpAddr::V4(dst), dst_port: dp }
}

#[test]
fn canonical_puts_the_smaller_endpoint_first() {
    let k = key(0x0a000002, 443, 0x0a000001, 50000);
    let c = k.canonical();
    assert_eq!(c, key(0x0a000001, 50000, 0x0a000002, 443));
    // both directions of one conversation meet in one key
    let back = key(0x0a000001, 50000, 0x0a000002, 443);
    assert_eq!(back.canonical(), c);
    // and canonical is idempotent
    assert_eq!(c.canonical(), c);
}

#[test]
fn canonical_orders_by_port_on_equal_addresses() {
    let k = key(0x7f000001, 9000, 0x7f000001, 80);
    assert_eq!(k.canonical(), key(0x7f000001, 80, 0x7f000001, 9000));
}

#[test]
fn ipv4_endpoints_come_before_ipv6() {
    assert!(endpoint_leq(IpAddr::V4(u32::MAX), 65535, IpAddr::V6(0), 0));
    assert!(!endpoint_leq(IpAddr::V6(0), 0, IpAddr::V4(0), 0));
    assert!(endpoint_leq(IpAddr::V4(5), 7, IpAddr::V4(5), 7));
    let k = FlowKey { proto: L4Proto::Udp, src: IpAddr::V6(1), src_port: 1, dst: IpAddr::V4(9), dst_port: 2 };
    let c = k.canonical();
    assert_eq!(c.src, IpAddr::V4(9));
    assert_eq!(c.dst, IpAddr::V6(1));
}

#[test]
fn counters() {
    assert_eq!(Counters::zero(), Counters { bytes: 0, packets: 0 });
    assert_eq!(Counters::from_packet(1500), Counters { bytes: 1500, packets: 1 });
    let s = Counters { bytes: 10, packets: 2 }.add(Counters { bytes: 5, packets: 1 });
    assert_eq!(s, Counters { bytes: 15, packets: 3 });
    assert_eq!(Counters::default(), Counters::zero());
}

#[test]
fn tcp_flag_predicates() {
    assert!(TcpFlags(0x02).is_syn());
    assert!(!TcpFlags(0x12).is_syn());
    assert!(TcpFlags(0x12).is_synack());
    assert!(TcpFlags(0x11).is_fin());
    assert!(TcpFlags(0x04).is_rst());
    assert!(TcpFlags(0x18).has(TcpFlags::PSH));
    assert!(!TcpFlags(0x18).has(TcpFlags::URG));
}

#[test]
fn tcp_flag_letters() {
    assert_eq!(TcpFlags(0x12).display(), "SA");
    assert_eq!(TcpFlags(0x3f).display(), "SAFRPU");
    assert_eq!(TcpFlags(0).display(), "-");
    assert_eq!(TcpFlags(0x40).display(), "-");
}

#[test]
fn app_hints_go_by_the_lower_port() {
    assert_eq!(AppHint::from_ports(50000, 443), AppHint::Https);
    assert_eq!(AppHint::from_ports(80, 50000), AppHint::Http);
    assert_eq!(AppHint::from_ports(22, 2222), AppHint::Ssh);
    assert_eq!(AppHint::from_ports(53000, 587), AppHint::Smtp);
    assert_eq!(AppHint::from_ports(68, 67), AppHint::Dhcp);
    assert_eq!(AppHint::from_ports(5353, 5353), AppHint::Mdns);
    assert_eq!(AppHint::from_ports(123, 123), AppHint::Ntp);
    // the lower port decides, even when the higher one is known
    assert_eq!(AppHint::from_ports(21, 443), AppHint::Unknown);
    assert_eq!(AppHint::Mdns.name(), "mDNS");
    assert_eq!(AppHint::Unknown.name(), "—");
    assert_eq!(AppHint::default(), AppHint::Unknown);
}

#[test]
fn interface_flags() {
    let mut s = IfStats::default();
    assert!(!s.is_up());
    s.flags = 0x1 | 0x40 | 0x100;
    assert!(s.is_up());
    assert!(s.is_running());
    assert!(s.is_promisc());
    s.flags = 0x40;
    assert!(!s.is_up());
    assert!(s.is_running());
    assert!(!s.is_promisc());
}

#[test]
fn wildcard_addresses() {
    assert_eq!(wildcard_v4(), IpAddr::V4(0));
    assert_eq!(wildcard_v6(), IpAddr::V6(0));
}
