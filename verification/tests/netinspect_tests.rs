use nicwatch::netinspect::{
    analyze_connection, find_or_add_ip, ip_kind_label, is_public_ip, is_suspicious_port,
    is_well_known_port, netinspect_aggregate_ips, netinspect_aggregate_ports, netinspect_analyze,
    netinspect_diff_snapshots, netinspect_report, netinspect_scan, parse_sockstat_line,
    parse_state, port_highlight, ports_summary, proto_string, split_endpoint, state_string,
    suspicion_string, Highlight, Netinspect, PortEntry, Proto, ProtoOpt, Snapshot, State,
    Suspicion, NET_MAX_UNIQUE_IPS,
};
use nicwatch::scanner::{Severity, Status, Syssec, SystemInfo};

#[test]
fn names_of_states_protocols_and_suspicions() {
    assert_eq!(state_string(State::FinWait1), "FIN_WAIT1");
    assert_eq!(state_string(State::Unknown), "UNKNOWN");
    assert_eq!(proto_string(Proto::Udp6), "udp6");
    assert_eq!(proto_string(Proto::Unknown), "?");
    assert_eq!(suspicion_string(Suspicion::Clean), "none");
    assert_eq!(suspicion_string(Suspicion::UnusualPort), "unusualport");
}

#[test]
fn state_words_ignore_case() {
    assert_eq!(parse_state("LISTEN"), State::Listen);
    assert_eq!(parse_state("established"), State::Established);
    assert_eq!(parse_state("Close_Wait"), State::CloseWait);
    assert_eq!(parse_state(""), State::Unknown);
    assert_eq!(parse_state("LISTENING"), State::Unknown);
}

#[test]
fn public_and_private_addresses() {
    assert!(is_public_ip("93.184.216.34"));
    assert!(!is_public_ip("10.1.2.3"));
    assert!(!is_public_ip("172.16.0.1"));
    assert!(!is_public_ip("172.31.255.255"));
    assert!(is_public_ip("172.32.0.1"));
    assert!(!is_public_ip("192.168.1.1"));
    assert!(!is_public_ip("127.0.0.1"));
    assert!(!is_public_ip("0.0.0.0"));
    assert!(!is_public_ip("224.0.0.251"));
    assert!(!is_public_ip("255.255.255.255"));
    assert!(!is_public_ip("1.2.3"));
    assert!(!is_public_ip("a.b.c.d"));
    assert!(!is_public_ip(""));
    assert!(is_public_ip("2606:2800:220:1::"));
    assert!(!is_public_ip("::1"));
    assert!(!is_public_ip("fe80::1"));
    assert!(!is_public_ip("fd00::5"));
    assert!(is_public_ip("+8.8.8.8"));
}

#[test]
fn port_classes() {
    assert!(is_well_known_port(22));
    assert!(!is_well_known_port(0));
    assert!(!is_well_known_port(1024));
    assert!(is_suspicious_port(31337));
    assert!(is_suspicious_port(4444));
    assert!(!is_suspicious_port(443));
}

#[test]
fn endpoints_split_at_the_last_colon() {
    assert_eq!(split_endpoint("192.168.1.5:443"), ("192.168.1.5".to_string(), 443));
    assert_eq!(split_endpoint("*:*"), ("*".to_string(), 0));
    assert_eq!(split_endpoint("::1:25"), ("::1".to_string(), 25));
    assert_eq!(split_endpoint("[fe80::1%em0]:22"), ("fe80::1%em0".to_string(), 22));
    assert_eq!(split_endpoint("noport"), ("noport".to_string(), 0));
    assert_eq!(split_endpoint(""), (String::new(), 0));
}

#[test]
fn sockstat_lines() {
    let c = parse_sockstat_line("www nginx 1234 6 tcp4 192.168.1.5:443 93.184.216.34:51000 ESTABLISHED", 99)
        .expect("parses");
    assert_eq!(c.proto, ProtoOpt(Proto::Tcp));
    assert_eq!(c.state.0, State::Established);
    assert_eq!(c.local_addr, "192.168.1.5");
    assert_eq!(c.local_port, 443);
    assert!(!c.local_is_wildcard);
    assert_eq!(c.remote_addr, "93.184.216.34");
    assert_eq!(c.remote_port, 51000);
    assert!(c.remote_is_public);
    assert_eq!(c.pid, 1234);
    assert_eq!(c.process, "nginx");
    assert_eq!((c.first_seen, c.last_seen, c.seen_count), (99, 99, 1));
    assert_eq!(c.suspicion.0, Suspicion::Clean);

    let l = parse_sockstat_line("root sshd 812 4 tcp6 *:22 *:*", 5).expect("parses");
    assert_eq!(l.proto.0, Proto::Tcp6);
    assert!(l.local_is_wildcard);
    assert_eq!(l.state.0, State::Unknown);
    assert!(!l.remote_is_public);

    assert!(parse_sockstat_line("USER COMMAND PID FD PROTO LOCAL", 0).is_none());
    let odd = parse_sockstat_line("u cmd x 1 sctp a:1 b:2", 0).expect("parses");
    assert_eq!(odd.pid, 0);
    assert_eq!(odd.proto.0, Proto::Unknown);
}

#[test]
fn analysis_flags_backdoors_high_ports_and_strangers() {
    let mut a = parse_sockstat_line("root nc 1 3 tcp4 *:31337 *:* LISTEN", 0).unwrap();
    analyze_connection(&mut a);
    assert_eq!(a.suspicion.0, Suspicion::UnusualPort);
    assert_eq!(a.suspicion_reason, "Listener on known malware/backdoor port 31337");

    let mut b = parse_sockstat_line("root app 1 3 tcp4 *:20000 *:* LISTEN", 0).unwrap();
    analyze_connection(&mut b);
    assert_eq!(b.suspicion.0, Suspicion::HighPort);
    assert_eq!(b.suspicion_reason, "Listening on high port 20000 bound to all interfaces");

    let mut c = parse_sockstat_line("u miner 7 3 tcp4 10.0.0.2:5000 8.8.4.4:3333 ESTABLISHED", 0).unwrap();
    analyze_connection(&mut c);
    assert_eq!(c.suspicion.0, Suspicion::ExternalConn);
    assert_eq!(c.suspicion_reason, "Connection to public IP 8.8.4.4:3333 from unknown process miner");

    let mut d = parse_sockstat_line("u FireFox 7 3 tcp4 10.0.0.2:5000 8.8.4.4:443 ESTABLISHED", 0).unwrap();
    analyze_connection(&mut d);
    assert_eq!(d.suspicion.0, Suspicion::Clean);

    let mut e = parse_sockstat_line("root app 1 3 tcp4 10.0.0.1:20000 *:* LISTEN", 0).unwrap();
    analyze_connection(&mut e);
    assert_eq!(e.suspicion.0, Suspicion::Clean);
}

fn scanned(lines: &str) -> Netinspect {
    let mut ni = Netinspect::new(false);
    let out = format!("USER COMMAND PID FD PROTO LOCAL FOREIGN STATE\n{}", lines);
    assert_eq!(netinspect_scan(&mut ni, &vec![out], 1000), 0);
    ni
}

#[test]
fn a_scan_counts_listeners_and_established() {
    let ni = scanned(
        "root sshd 812 4 tcp4 *:22 *:* LISTEN\n\
         www nginx 90 6 tcp4 192.168.1.5:443 93.184.216.34:51000 ESTABLISHED\n\
         www nginx 90 7 tcp4 192.168.1.5:443 10.0.0.9:40000 ESTABLISHED\n\
         short line\n",
    );
    assert_eq!(ni.current.connections.len(), 3);
    assert_eq!(ni.current.timestamp, 1000);
    assert_eq!(ni.total_connections, 3);
    assert_eq!(ni.total_listeners, 1);
    assert_eq!(ni.total_established, 2);
}

#[test]
fn aggregation_by_address_and_port() {
    let mut ni = scanned(
        "root sshd 812 4 tcp4 *:22 *:* LISTEN\n\
         www nginx 90 6 tcp4 192.168.1.5:443 93.184.216.34:51000 ESTABLISHED\n\
         www nginx 90 7 tcp4 192.168.1.5:443 10.0.0.9:40000 ESTABLISHED\n\
         root ntpd 5 8 udp4 192.168.1.5:123 *:*\n",
    );
    netinspect_aggregate_ips(&mut ni, 2000);
    let ips: Vec<&str> = ni.current.ips.iter().map(|e| e.addr.as_str()).collect();
    assert_eq!(ips, vec!["192.168.1.5", "93.184.216.34", "10.0.0.9"]);
    let local = &ni.current.ips[0];
    assert_eq!(local.connection_count, 3);
    assert_eq!(local.ports, vec![443, 123]);
    assert!(local.is_local && !local.is_public);
    assert!(ni.current.ips[1].is_public);
    assert_eq!(ni.total_public_ips, 1);
    assert_eq!(ni.total_local_ips, 2);
    assert_eq!(ip_kind_label(&ni.current.ips[1]), "PUBLIC");

    netinspect_aggregate_ports(&mut ni);
    let ports: Vec<(i32, Proto)> = ni.current.ports.iter().map(|p| (p.port, p.proto.0)).collect();
    assert_eq!(ports, vec![(22, Proto::Tcp), (443, Proto::Tcp), (123, Proto::Udp)]);
    let https = &ni.current.ports[1];
    assert_eq!((https.listeners, https.established), (0, 2));
    assert_eq!(https.process, "nginx");
    assert!(https.is_well_known);
}

#[test]
fn analysis_raises_alerts_and_the_report_records_them() {
    let mut ni = scanned(
        "root nc 66 3 tcp4 *:4444 *:* LISTEN\n\
         root sshd 812 4 tcp4 *:22 *:* LISTEN\n",
    );
    netinspect_aggregate_ips(&mut ni, 0);
    netinspect_aggregate_ports(&mut ni);
    netinspect_analyze(&mut ni, 7);
    assert_eq!(ni.suspicious_count, 1);
    assert_eq!(ni.alerts.len(), 1);
    let a = &ni.alerts[0];
    assert_eq!(a.kind.0, Suspicion::UnusualPort);
    assert_eq!(a.local, "*:4444");
    assert_eq!(a.remote, "*:0");
    assert_eq!(a.timestamp, 7);
    assert_eq!(a.process, "nc");

    let mut s = Syssec::new(false, SystemInfo { hostname: None, kernel: None, os_release: None, ncpu: None, cpu_model: None, physmem: None, boot_time: None }, 0, true);
    netinspect_report(&ni, &mut s);
    assert_eq!(s.results[0].description, "2 connections, 2 listeners, 0 established");
    assert_eq!(s.results[1].description, "0 local, 0 public");
    assert_eq!(s.results[2].description, "1 suspicious items detected");
    assert_eq!(s.results[2].status, Status::Warn);
    assert_eq!(s.results[3].name, "unusualport");
    assert_eq!(s.results[3].severity, Severity::Critical);
    assert_eq!(s.results.len(), 4);
}

#[test]
fn a_quiet_network_reports_nothing_suspicious() {
    let mut ni = scanned("root sshd 812 4 tcp4 *:22 *:* LISTEN\n");
    netinspect_analyze(&mut ni, 0);
    let mut s = Syssec::new(false, SystemInfo { hostname: None, kernel: None, os_release: None, ncpu: None, cpu_model: None, physmem: None, boot_time: None }, 0, true);
    netinspect_report(&ni, &mut s);
    assert_eq!(s.results.len(), 3);
    assert_eq!(s.results[2].description, "No suspicious network activity");
}

#[test]
fn snapshot_diff_needs_two_snapshots() {
    let ni = Netinspect::new(true);
    assert_eq!(netinspect_diff_snapshots(&ni), None);
}

#[test]
fn address_slots() {
    let mut snap = Snapshot::default();
    assert_eq!(find_or_add_ip(&mut snap, "", 1), None);
    assert_eq!(find_or_add_ip(&mut snap, "10.0.0.1", 1), Some(0));
    assert_eq!(find_or_add_ip(&mut snap, "8.8.8.8", 2), Some(1));
    assert_eq!(find_or_add_ip(&mut snap, "10.0.0.1", 3), Some(0));
    assert_eq!(snap.ips.len(), 2);
    assert!(snap.ips[1].is_public);
    assert_eq!(snap.ips[1].first_seen, 2);
    for i in 2..NET_MAX_UNIQUE_IPS {
        assert!(find_or_add_ip(&mut snap, &format!("10.1.{}.{}", i / 256, i % 256), 4).is_some());
    }
    assert_eq!(find_or_add_ip(&mut snap, "1.1.1.1", 5), None);
    assert_eq!(find_or_add_ip(&mut snap, "8.8.8.8", 5), Some(1));
}

#[test]
fn port_lists_and_highlights() {
    assert_eq!(ports_summary(&vec![]), "");
    assert_eq!(ports_summary(&vec![22]), "22");
    assert_eq!(ports_summary(&vec![22, 80, 443]), "22,80,443");
    assert_eq!(ports_summary(&vec![1, 2, 3, 4, 5, 6, 7]), "1,2,3,4,5...");
    let mut p = PortEntry {
        port: 8080,
        proto: ProtoOpt(Proto::Tcp),
        listeners: 1,
        established: 0,
        process: String::new(),
        pid: 0,
        is_well_known: false,
        is_suspicious: false,
    };
    assert_eq!(port_highlight(&p), Highlight::Caution);
    p.is_suspicious = true;
    assert_eq!(port_highlight(&p), Highlight::Alarm);
    p.is_suspicious = false;
    p.listeners = 0;
    assert_eq!(port_highlight(&p), Highlight::Plain);
}
