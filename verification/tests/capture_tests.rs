use nicwatch::capture::{
    baudrate_from_speed, bpf_has_header, bpf_record, bpf_records, bsd_flags_from_ifconfig, build_http_frame,
    build_scan_frame, classify_direction, interface_names, linux_if_stats, mac_from_ifconfig,
    next_seq, parse_mac, synthetic_frame, AfPacketConfig, BpfConfig, LiveSource, MacContext,
    Scenario, SyntheticSource, SysfsIfText, BPF_HDR_SIZE,
};
use nicwatch::domain::{AppHint, Counters, Direction, IpAddr, L4Proto, MacAddr, MacPair, TcpFlags};
use nicwatch::error::{permission_hint, Error, Platform};
use nicwatch::ioctl::{diocgmediasize, diocgsectorsize, io, ior, iow, iowr, VM_LOADAVG};
use nicwatch::pipeline::{autodetect_interface, preference, PipelineConfig};

#[test]
fn mac_text_is_six_hex_bytes() {
    assert_eq!(parse_mac("00:1b:21:AB:cd:ef"), Some(MacAddr([0x00, 0x1b, 0x21, 0xab, 0xcd, 0xef])));
    assert_eq!(parse_mac("0:1:2:3:4:5"), Some(MacAddr([0, 1, 2, 3, 4, 5])));
    assert_eq!(parse_mac("00:1b:21:ab:cd"), None);
    assert_eq!(parse_mac("00:1b:21:ab:cd:ef:01"), None);
    assert_eq!(parse_mac("00:1b:21:ab:cd:zz"), None);
    assert_eq!(parse_mac("100:1b:21:ab:cd:ef"), None);
    assert_eq!(parse_mac(""), None);
}

#[test]
fn ifconfig_text_gives_mac_and_flags() {
    let text = "em0: flags=8843<UP,BROADCAST,RUNNING,SIMPLEX,MULTICAST> metric 0 mtu 1500\n\
                \toptions=4e524bb<RXCSUM,TXCSUM>\n\
                \tether 08:00:27:a1:b2:c3\n\
                \tinet 10.0.2.15 netmask 0xffffff00 broadcast 10.0.2.255\n";
    assert_eq!(mac_from_ifconfig(text), Some(MacAddr([0x08, 0x00, 0x27, 0xa1, 0xb2, 0xc3])));
    assert_eq!(bsd_flags_from_ifconfig(text), None);
    assert_eq!(bsd_flags_from_ifconfig("lo0: flags=0x8049 mtu 16384"), Some(0x8049));
    assert_eq!(bsd_flags_from_ifconfig("x: flags=8843 mtu"), Some(0x8843));
    assert_eq!(mac_from_ifconfig("lo0: flags=8049<UP> mtu 16384"), None);
}

#[test]
fn interface_list_splits_on_whitespace() {
    let names = interface_names("em0 lo0  pflog0\n");
    assert_eq!(names, vec!["em0".to_string(), "lo0".to_string(), "pflog0".to_string()]);
    assert!(interface_names("   ").is_empty());
}

#[test]
fn link_speed_in_bits() {
    assert_eq!(baudrate_from_speed(1000), 1_000_000_000);
    assert_eq!(baudrate_from_speed(0), 0);
    assert_eq!(baudrate_from_speed(-1), 0);
}

#[test]
fn sysfs_texts_make_interface_stats() {
    let t = SysfsIfText {
        mtu: Some("1500\n".to_string()),
        speed: Some("1000\n".to_string()),
        flags: Some("0x1003\n".to_string()),
        rx_bytes: Some("12345\n".to_string()),
        rx_packets: Some("10\n".to_string()),
        tx_bytes: Some("678\n".to_string()),
        tx_packets: Some("5\n".to_string()),
        rx_errors: Some("1\n".to_string()),
        tx_errors: None,
        rx_dropped: Some("junk".to_string()),
        tx_dropped: Some("2".to_string()),
        collisions: Some("0".to_string()),
        multicast: Some("7".to_string()),
    };
    let s = linux_if_stats("eth0", &t);
    assert_eq!(s.name, "eth0");
    assert_eq!(s.mtu, 1500);
    assert_eq!(s.baudrate, 1_000_000_000);
    assert_eq!(s.flags, 0x1003);
    assert_eq!(s.rx, Counters { bytes: 12345, packets: 10 });
    assert_eq!(s.tx, Counters { bytes: 678, packets: 5 });
    assert_eq!((s.rx_errors, s.tx_errors, s.rx_drops, s.tx_drops), (1, 0, 0, 2));
    assert_eq!((s.collisions, s.multicast), (0, 7));
    assert!(s.is_up());
}

#[test]
fn sysfs_unknown_speed_is_zero() {
    let t = SysfsIfText {
        mtu: None,
        speed: Some("-1".to_string()),
        flags: None,
        rx_bytes: None,
        rx_packets: None,
        tx_bytes: None,
        tx_packets: None,
        rx_errors: None,
        tx_errors: None,
        rx_dropped: None,
        tx_dropped: None,
        collisions: None,
        multicast: None,
    };
    let s = linux_if_stats("wlan0", &t);
    assert_eq!((s.mtu, s.baudrate, s.flags), (0, 0, 0));
}

#[test]
fn own_source_mac_means_transmit() {
    let me = MacAddr([2, 0, 0, 0, 0, 1]);
    let peer = MacAddr([2, 0, 0, 0, 0, 2]);
    assert_eq!(classify_direction(me, peer, Some(me)), Direction::Tx);
    assert_eq!(classify_direction(peer, me, Some(me)), Direction::Rx);
    assert_eq!(classify_direction(me, MacAddr::broadcast(), Some(me)), Direction::Tx);
    assert_eq!(classify_direction(me, peer, None), Direction::Rx);
    let ctx = MacContext { iface_mac: Some(me) };
    assert_eq!(ctx.direction(MacPair { src: me, dst: peer }), Direction::Tx);
}

#[test]
fn backend_settings() {
    let b = BpfConfig::new("em0".to_string()).promiscuous(false).read_timeout(100);
    assert_eq!(b.interface, "em0");
    assert!(!b.promiscuous);
    assert!(b.immediate);
    assert_eq!(b.read_timeout_ms, 100);
    assert!(!BpfConfig::new("em0".to_string()).immediate(false).immediate);
    let a = AfPacketConfig::new("eth0".to_string());
    assert!(a.promiscuous);
    assert_eq!(a.read_timeout_ms, 250);
    assert_eq!(a.buffer_size, 4 * 1024 * 1024);
    let a = a.buffer_size(1024).promiscuous(false).read_timeout(5);
    assert_eq!((a.buffer_size, a.promiscuous, a.read_timeout_ms), (1024, false, 5));
}

#[test]
fn bpf_records_are_word_aligned() {
    assert_eq!(BPF_HDR_SIZE, 32);
    assert!(bpf_has_header(0, 32));
    assert!(!bpf_has_header(1, 32));
    assert!(!bpf_has_header(40, 32));
    // header 18 bytes, 60 captured: packet at 18..78, next record at 80
    assert_eq!(bpf_record(0, 18, 60, 200), Some((18, 78, 80)));
    assert_eq!(bpf_record(80, 18, 64, 200), Some((98, 162, 164)));
    assert_eq!(bpf_record(80, 18, 64, 150), None);
    assert_eq!(bpf_record(0, 0, 60, 200), None);
    assert_eq!(bpf_record(0, 18, 0, 200), None);
}

#[test]
fn sources_and_their_names() {
    assert_eq!(LiveSource::new("em0".to_string(), true).name(), "capture:em0");
    let s = SyntheticSource::new(Scenario::PortScan);
    assert_eq!((s.rate_ms, s.burst), (50, 20));
    assert_eq!(s.name(), "synthetic");
}

#[test]
fn synthetic_http_frames() {
    let f = build_http_frame(3, 77);
    assert_eq!(f.captured_at, 77);
    assert_eq!(f.wire_len, 1500);
    assert_eq!(f.direction, Direction::Rx);
    assert_eq!(f.tcp_flags, TcpFlags(0x18));
    assert_eq!(f.app, AppHint::Https);
    let k = f.flow.unwrap();
    assert_eq!(k.src, IpAddr::V4(0xc0a8010a));
    assert_eq!(k.src_port, 40003);
    assert_eq!(k.dst_port, 443);
    assert_eq!(build_http_frame(501, 0).flow.unwrap().src_port, 40001);
    assert_eq!(build_http_frame(4, 0).direction, Direction::Tx);
}

#[test]
fn synthetic_scan_frames() {
    let f = build_scan_frame(1999, 5);
    assert_eq!(f.wire_len, 60);
    assert!(f.tcp_flags.is_syn());
    assert_eq!(f.l4, L4Proto::Tcp);
    let k = f.flow.unwrap();
    assert_eq!(k.src, IpAddr::V4(0xcb00712a));
    assert_eq!(k.dst_port, 2000);
    assert_eq!(build_scan_frame(2000, 0).flow.unwrap().dst_port, 1);
}

#[test]
fn synthetic_scenarios() {
    assert!(synthetic_frame(Scenario::Idle, 0, 0).is_none());
    assert_eq!(synthetic_frame(Scenario::HttpFlood, 7, 1).unwrap().wire_len, 1500);
    assert_eq!(synthetic_frame(Scenario::PortScan, 7, 1).unwrap().wire_len, 60);
    let mixed: Vec<u32> = (0..4).map(|s| synthetic_frame(Scenario::Mixed, s, 0).unwrap().wire_len).collect();
    assert!(mixed.iter().all(|l| *l == 1500 || *l == 60));
    assert_eq!(next_seq(5), 6);
    assert_eq!(next_seq(u32::MAX), 0);
}

#[test]
fn error_messages() {
    assert_eq!(Error::Io("disk on fire".to_string()).message(Platform::Linux), "I/O error: disk on fire");
    assert_eq!(Error::Capture("no buffer".to_string()).message(Platform::Linux), "capture: no buffer");
    assert_eq!(
        Error::Sysctl { oid: "net.link.generic.system.ifcount".to_string(), errno: -2 }.message(Platform::FreeBsd),
        "sysctl net.link.generic.system.ifcount failed: -2"
    );
    assert_eq!(Error::NoSuchInterface("em9".to_string()).message(Platform::FreeBsd), "interface em9 not found");
    assert_eq!(Error::Parse("bad".to_string()).message(Platform::Other), "parse: bad");
    assert_eq!(Error::Config("no iface".to_string()).message(Platform::Other), "configuration: no iface");
    assert_eq!(Error::PermissionDenied.message(Platform::Other), "permission denied");
    assert!(Error::PermissionDenied.message(Platform::FreeBsd).contains("/dev/bpf"));
    assert!(permission_hint(Platform::Linux).contains("CAP_NET_RAW"));
}

#[test]
fn pipeline_defaults() {
    let c = PipelineConfig::default();
    assert_eq!(c.window_ns, 5_000_000_000);
    assert_eq!(c.recent_cap, 4096);
    assert_eq!(c.snapshot_interval_ms, 250);
    assert_eq!(c.channel_capacity, 16_384);
}

fn list(names: &[&str]) -> Vec<String> {
    names.iter().map(|s| s.to_string()).collect()
}

#[test]
fn autodetect_on_linux_prefers_wired_then_wireless() {
    assert_eq!(autodetect_interface(&list(&["lo", "wlan0", "eth0"]), Platform::Linux), "eth0");
    assert_eq!(autodetect_interface(&list(&["lo", "docker0", "wlp2s0"]), Platform::Linux), "wlp2s0");
    assert_eq!(autodetect_interface(&list(&["lo", "docker0", "br0"]), Platform::Linux), "docker0");
    assert_eq!(autodetect_interface(&list(&["lo"]), Platform::Linux), "lo");
    assert_eq!(autodetect_interface(&list(&[]), Platform::Linux), "lo");
    assert_eq!(preference("enp3s0"), 0);
    assert_eq!(preference("wl0"), 1);
    assert_eq!(preference("tun0"), 2);
    assert_eq!(preference("lo"), 3);
}

#[test]
fn autodetect_on_freebsd_takes_the_first_real_interface() {
    assert_eq!(autodetect_interface(&list(&["lo0", "pflog0", "em0", "em1"]), Platform::FreeBsd), "em0");
    assert_eq!(autodetect_interface(&list(&["lo0", "pflog0"]), Platform::FreeBsd), "lo0");
    assert_eq!(autodetect_interface(&list(&["em0"]), Platform::Other), "lo");
}

#[test]
fn ioctl_numbers() {
    assert_eq!(diocgmediasize(), 0x4008_6481);
    assert_eq!(diocgsectorsize(), 0x4004_6480);
    assert_eq!(ior(b'd', 129, 8), 0x4008_6481);
    assert_eq!(iow(b'B', 108, 4), 0x8004_426c);
    assert_eq!(iowr(b'B', 102, 32), 0xc020_4266);
    assert_eq!(io(b'B', 105), 0x2000_4269);
    assert_eq!(VM_LOADAVG, 2);
}

fn bpf_header(buf: &mut Vec<u8>, caplen: u32, datalen: u32, hdrlen: u16, le: bool) {
    let mut h = vec![0u8; 32];
    let (c, d, l) = if le {
        (caplen.to_le_bytes(), datalen.to_le_bytes(), hdrlen.to_le_bytes())
    } else {
        (caplen.to_be_bytes(), datalen.to_be_bytes(), hdrlen.to_be_bytes())
    };
    h[16..20].copy_from_slice(&c);
    h[20..24].copy_from_slice(&d);
    h[24..26].copy_from_slice(&l);
    buf.extend_from_slice(&h);
}

#[test]
fn bpf_buffer_walk_yields_each_packet() {
    for le in [true, false] {
        let mut buf = Vec::new();
        bpf_header(&mut buf, 10, 60, 32, le);
        buf.extend_from_slice(&[0xaa; 10]);
        buf.extend_from_slice(&[0; 2]);
        bpf_header(&mut buf, 6, 1514, 32, le);
        buf.extend_from_slice(&[0xbb; 6]);
        buf.extend_from_slice(&[0; 2]);
        assert_eq!(buf.len(), 84);
        let recs = bpf_records(&buf, buf.len(), le);
        assert_eq!(recs, vec![(32, 42, 60), (76, 82, 1514)]);
        assert!(buf[32..42].iter().all(|b| *b == 0xaa));
        assert!(buf[76..82].iter().all(|b| *b == 0xbb));
        // Fewer bytes read than the second record needs: only the first.
        assert_eq!(bpf_records(&buf, 80, le), vec![(32, 42, 60)]);
    }
}

#[test]
fn bpf_buffer_walk_stops_at_a_bad_record() {
    let mut buf = Vec::new();
    bpf_header(&mut buf, 10, 60, 32, true);
    buf.extend_from_slice(&[0; 12]);
    bpf_header(&mut buf, 10, 60, 0, true);
    buf.extend_from_slice(&[0; 12]);
    bpf_header(&mut buf, 10, 60, 32, true);
    buf.extend_from_slice(&[0; 12]);
    assert_eq!(bpf_records(&buf, buf.len(), true), vec![(32, 42, 60)]);
    assert!(bpf_records(&buf, 31, true).is_empty());
}
