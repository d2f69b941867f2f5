use nicwatch::aggregate::{Aggregator, FlowEntry, HostEntry};
use nicwatch::capture::{build_http_frame, build_scan_frame};
use nicwatch::domain::{
    AppHint, Counters, Direction, FlowKey, Frame, IpAddr, L3Proto, L4Proto, MacAddr, MacPair,
    TcpFlags,
};
use nicwatch::tables::{flow_code, flow_of, ip_code, ip_of, mac_code, mac_of, proto_code, proto_of};
use nicwatch::window::{IfaceWindow, SlidingWindow};

const SEC: u64 = 1_000_000_000;

fn frame(at: u64, len: u32, dir: Direction, src: u32, sp: u16, dst: u32, dp: u16) -> Frame {
    Frame {
        captured_at: at,
        wire_len: len,
        cap_len: len,
        direction: dir,
        l3: L3Proto::Ipv4,
        l4: L4Proto::Tcp,
        macs: Some(MacPair { src: MacAddr([2, 0, 0, 0, 0, src as u8]), dst: MacAddr([2, 0, 0, 0, 0, dst as u8]) }),
        flow: Some(FlowKey { proto: L4Proto::Tcp, src: IpAddr::V4(src), src_port: sp, dst: IpAddr::V4(dst), dst_port: dp }),
        tcp_flags: TcpFlags(0x10),
        app: AppHint::from_ports(sp, dp),
    }
}

#[test]
fn sliding_window_sums_and_evicts_old_entries() {
    let mut w: SlidingWindow<8> = SlidingWindow::new(5 * SEC);
    assert!(w.is_empty());
    assert_eq!(w.window(), 5 * SEC);
    w.push(Counters::from_packet(100), SEC);
    w.push(Counters::from_packet(200), 2 * SEC);
    assert_eq!(w.len(), 2);
    assert_eq!(w.sum(), Counters { bytes: 300, packets: 2 });
    // at 7 s the cutoff is 2 s: the entry of 1 s goes, that of 2 s stays
    w.push(Counters::from_packet(50), 7 * SEC);
    assert_eq!(w.len(), 2);
    assert_eq!(w.sum(), Counters { bytes: 250, packets: 2 });
}

#[test]
fn sliding_window_overwrites_the_oldest_when_full() {
    let mut w: SlidingWindow<2> = SlidingWindow::new(100 * SEC);
    w.push(Counters::from_packet(1), 1);
    w.push(Counters::from_packet(2), 2);
    w.push(Counters::from_packet(4), 3);
    assert_eq!(w.len(), 2);
    assert_eq!(w.sum(), Counters { bytes: 6, packets: 2 });
}

#[test]
fn sliding_window_holds_the_newest_entries_inside_the_window() {
    // Six pushes into four slots: the last four remain while the window
    // covers them, and a shorter window keeps only the entries within it.
    let mut wide: SlidingWindow<4> = SlidingWindow::new(3 * SEC);
    let mut narrow: SlidingWindow<4> = SlidingWindow::new(SEC);
    for i in 0..6u64 {
        wide.push(Counters::from_packet(1 << i), i * SEC);
        narrow.push(Counters::from_packet(1 << i), i * SEC);
    }
    assert_eq!(wide.len(), 4);
    assert_eq!(wide.sum(), Counters { bytes: 4 + 8 + 16 + 32, packets: 4 });
    assert_eq!(narrow.len(), 2);
    assert_eq!(narrow.sum(), Counters { bytes: 16 + 32, packets: 2 });
}

#[test]
fn sliding_window_keeps_everything_before_one_window_has_passed() {
    let mut w: SlidingWindow<4> = SlidingWindow::new(10 * SEC);
    w.push(Counters::from_packet(7), 0);
    w.push(Counters::from_packet(7), 9 * SEC);
    assert_eq!(w.len(), 2);
}

#[test]
fn interface_window_counts_each_frame_once() {
    let mut w = IfaceWindow::new(5 * SEC);
    let mut syn = frame(SEC, 60, Direction::Rx, 1, 40000, 2, 443);
    syn.tcp_flags = TcpFlags(0x02);
    w.ingest(&syn);
    let mut rst = frame(2 * SEC, 40, Direction::Tx, 2, 443, 1, 40000);
    rst.tcp_flags = TcpFlags(0x14);
    w.ingest(&rst);
    assert_eq!(w.totals_rx, Counters { bytes: 60, packets: 1 });
    assert_eq!(w.totals_tx, Counters { bytes: 40, packets: 1 });
    assert_eq!(w.l3_rx, [1, 0, 0, 0]);
    assert_eq!(w.l4_tx[0], 1);
    assert_eq!(w.app_rx[1], 1);
    assert_eq!((w.syn, w.syn_rx, w.syn_tx), (1, 1, 0));
    assert_eq!((w.rst, w.rst_rx, w.rst_tx), (1, 0, 1));
    assert_eq!(w.fin, 0);
    assert_eq!(w.rx.sum(), Counters { bytes: 60, packets: 1 });
}

#[test]
fn unknown_applications_share_the_first_column() {
    let mut w = IfaceWindow::new(5 * SEC);
    w.ingest(&frame(SEC, 10, Direction::Rx, 1, 40000, 2, 8080));
    assert_eq!(w.app_rx[0], 1);
}

#[test]
fn both_directions_of_a_flow_meet_in_one_entry() {
    let mut a = Aggregator::new(5 * SEC, 16);
    a.ingest(frame(SEC, 100, Direction::Tx, 1, 40000, 2, 443));
    a.ingest(frame(2 * SEC, 1500, Direction::Rx, 2, 443, 1, 40000));
    let s = a.snapshot(3 * SEC);
    assert_eq!(s.flows.len(), 1);
    let (k, e) = &s.flows[0];
    assert_eq!(*k, FlowKey { proto: L4Proto::Tcp, src: IpAddr::V4(1), src_port: 40000, dst: IpAddr::V4(2), dst_port: 443 });
    assert_eq!(e.packets, 2);
    assert_eq!(e.bytes_tx, 100);
    assert_eq!(e.bytes_rx, 1500);
    assert_eq!(e.total_bytes(), 1600);
    assert_eq!(e.first_seen, Some(SEC));
    assert_eq!(e.last_seen, Some(2 * SEC));
    assert_eq!(e.direction, Some(Direction::Tx));
    assert_eq!(e.app, AppHint::Https);
    assert_eq!(s.hosts.len(), 2);
    assert_eq!(s.macs.len(), 2);
    assert_eq!(s.total_packets(), 2);
    assert_eq!(s.iface.rx_total, Counters { bytes: 1500, packets: 1 });
    assert_eq!(s.iface.tx_window, Counters { bytes: 100, packets: 1 });
    assert_eq!(s.generated_at, 3 * SEC);
}

#[test]
fn snapshot_rows_come_heaviest_first() {
    let mut a = Aggregator::new(5 * SEC, 16);
    a.ingest(frame(SEC, 100, Direction::Rx, 1, 1000, 2, 80));
    a.ingest(frame(SEC, 900, Direction::Rx, 3, 1000, 4, 80));
    a.ingest(frame(SEC, 500, Direction::Rx, 5, 1000, 6, 80));
    let s = a.snapshot(SEC);
    let bytes: Vec<u64> = s.flows.iter().map(|(_, e)| e.total_bytes()).collect();
    assert_eq!(bytes, vec![900, 500, 100]);
    assert_eq!(s.top_flows(2).len(), 2);
    assert_eq!(s.top_flows(2)[0].1.total_bytes(), 900);
    assert_eq!(s.top_flows(10).len(), 3);
    let hosts: Vec<u64> = s.hosts.iter().map(|(_, h)| h.total_bytes()).collect();
    assert_eq!(hosts, vec![900, 900, 500, 500, 100, 100]);
    assert_eq!(s.top_hosts(1).len(), 1);
    assert_eq!(s.top_macs(3).len(), 3);
}

#[test]
fn flags_accumulate_and_known_apps_stick() {
    let mut a = Aggregator::new(5 * SEC, 4);
    let mut f1 = frame(SEC, 60, Direction::Tx, 1, 40000, 2, 8080);
    f1.tcp_flags = TcpFlags(0x02);
    f1.app = AppHint::Unknown;
    let mut f2 = f1;
    f2.tcp_flags = TcpFlags(0x10);
    f2.app = AppHint::Quic;
    let mut f3 = f1;
    f3.tcp_flags = TcpFlags(0x01);
    a.ingest(f1);
    a.ingest(f2);
    a.ingest(f3);
    let s = a.snapshot(SEC);
    let e = s.flows[0].1;
    assert_eq!(e.tcp_flags_seen, 0x13);
    assert_eq!(e.app, AppHint::Quic);
}

#[test]
fn hosts_keep_their_first_mac() {
    let mut a = Aggregator::new(5 * SEC, 4);
    a.ingest(frame(SEC, 60, Direction::Rx, 1, 40000, 2, 80));
    let mut f = frame(SEC, 60, Direction::Rx, 1, 40000, 2, 80);
    f.macs = Some(MacPair { src: MacAddr([9; 6]), dst: MacAddr([8; 6]) });
    a.ingest(f);
    let s = a.snapshot(SEC);
    let h = s.hosts.iter().find(|(ip, _)| *ip == IpAddr::V4(1)).expect("host").1;
    assert_eq!(h.mac, Some(MacAddr([2, 0, 0, 0, 0, 1])));
    assert_eq!(h.packets, 2);
}

#[test]
fn frames_without_macs_count_no_hosts() {
    let mut a = Aggregator::new(5 * SEC, 4);
    let mut f = frame(SEC, 60, Direction::Rx, 1, 40000, 2, 80);
    f.macs = None;
    a.ingest(f);
    let s = a.snapshot(SEC);
    assert_eq!(s.flows.len(), 1);
    assert!(s.hosts.is_empty());
    assert!(s.macs.is_empty());
}

#[test]
fn recent_ring_keeps_the_newest_frames() {
    let mut a = Aggregator::new(5 * SEC, 3);
    for i in 0..5u64 {
        a.ingest(frame(i, 10 + i as u32, Direction::Rx, 1, 40000, 2, 80));
    }
    let s = a.snapshot(5);
    assert_eq!(s.recent.len(), 3);
    let newest: Vec<u64> = s.recent_frames(2).iter().map(|f| f.captured_at).collect();
    assert_eq!(newest, vec![4, 3]);
    let all: Vec<u64> = s.recent_frames(10).iter().map(|f| f.captured_at).collect();
    assert_eq!(all, vec![4, 3, 2]);
}

#[test]
fn recent_ring_of_capacity_zero_keeps_nothing() {
    let mut a = Aggregator::new(5 * SEC, 0);
    for i in 0..4u64 {
        a.ingest(frame(i, 60, Direction::Tx, 1, 40000, 2, 80));
    }
    let s = a.snapshot(5);
    assert!(s.recent.is_empty());
    assert_eq!(s.recent_frames(3).len(), 0);
    assert_eq!(s.total_packets(), 4);
}

#[test]
fn recent_ring_in_arrival_order_below_capacity() {
    let mut a = Aggregator::new(5 * SEC, 8);
    for i in 0..3u64 {
        a.ingest(frame(i, 60, Direction::Rx, 1, 40000, 2, 80));
    }
    let s = a.snapshot(5);
    let order: Vec<u64> = s.recent.iter().map(|f| f.captured_at).collect();
    assert_eq!(order, vec![0, 1, 2]);
}

#[test]
fn synthetic_frames_feed_the_aggregator() {
    let mut a = Aggregator::new(5 * SEC, 64);
    for seq in 0..6 {
        a.ingest(build_http_frame(seq, seq as u64 * 1000));
    }
    a.ingest(build_scan_frame(0, 7000));
    let s = a.snapshot(8000);
    assert_eq!(s.total_packets(), 7);
    assert_eq!(s.iface.syn, 1);
}

#[test]
fn entry_defaults_are_empty() {
    let f = FlowEntry::default();
    assert_eq!((f.bytes_rx, f.bytes_tx, f.packets, f.tcp_flags_seen), (0, 0, 0, 0));
    assert_eq!(f.app, AppHint::Unknown);
    assert!(f.first_seen.is_none() && f.direction.is_none());
    let h = HostEntry::default();
    assert_eq!(h.total_bytes(), 0);
    assert!(h.mac.is_none());
}

#[test]
fn table_codes_round_trip() {
    for p in [L4Proto::Tcp, L4Proto::Udp, L4Proto::Icmp, L4Proto::IcmpV6, L4Proto::Igmp, L4Proto::Other(47), L4Proto::Unknown] {
        assert_eq!(proto_of(proto_code(p)), p);
    }
    for a in [IpAddr::V4(0xc0a80001), IpAddr::V6(u128::MAX), IpAddr::V4(0)] {
        assert_eq!(ip_of(ip_code(a)), a);
    }
    let k = FlowKey { proto: L4Proto::Udp, src: IpAddr::V6(7), src_port: 1, dst: IpAddr::V4(9), dst_port: 2 };
    assert_eq!(flow_of(flow_code(k)), k);
    let m = MacAddr([1, 2, 3, 4, 5, 6]);
    assert_eq!(mac_of(mac_code(m)), m);
    assert_ne!(ip_code(IpAddr::V4(5)), ip_code(IpAddr::V6(5)));
}
