//! Network inspection: the sockets that `sockstat` lists, read into
//! connections, then aggregated per address and per port and screened for
//! suspicious activity.

use vstd::prelude::*;
use crate::scanner::{appended, lemma_appended_empty, rv, ResultView, Severity, Status, Syssec, MAX_RESULTS};
use crate::text::{
    chars_eq, chars_of, contains_char, find, parse_i32, parse_u32, rfind, spec_find,
    spec_parse_i32, spec_parse_u32, spec_rfind, spec_split, spec_words, split_on, starts_with,
    string_of, sub_chars, upper_chars, ascii_upper, words, lines, spec_lines, eq_ignore_case,
    push_signed, signed_decimal, push_decimal, decimal,
};

verus! {

broadcast use vstd::string::group_string_axioms;

pub const NET_MAX_CONNECTIONS: usize = 2048;
pub const NET_MAX_UNIQUE_IPS: usize = 512;
pub const NET_MAX_PORTS: usize = 1024;
pub const NET_MAX_SNAPSHOTS: usize = 16;
pub const NET_MAX_ALERTS: usize = 256;

#[derive(Copy, Clone, Debug, PartialEq, Eq, Structural)]
pub enum Proto {
    Tcp,
    Udp,
    Tcp6,
    Udp6,
    Unknown,
}

#[derive(Copy, Clone, Debug, PartialEq, Eq, Structural)]
pub enum State {
    Listen,
    Established,
    TimeWait,
    CloseWait,
    SynSent,
    SynRecv,
    FinWait1,
    FinWait2,
    LastAck,
    Closed,
    Unknown,
}

#[derive(Copy, Clone, Debug, PartialEq, Eq, Structural)]
pub enum Suspicion {
    /// Nothing suspicious; printed as `none`.
    Clean,
    HighPort,
    UnknownProc,
    ExternalConn,
    UnusualPort,
    ManyConns,
    BindAll,
    RootProc,
    DynamicDns,
    Blacklisted,
}

/// A protocol that defaults to `Unknown`.
#[derive(Copy, Clone, Debug, PartialEq, Eq, Structural)]
pub struct ProtoOpt(pub Proto);

impl Default for ProtoOpt {
    fn default() -> (r: Self)
        ensures
            r == ProtoOpt(Proto::Unknown),
    {
        ProtoOpt(Proto::Unknown)
    }
}

/// A socket state that defaults to `Unknown`.
#[derive(Copy, Clone, Debug, PartialEq, Eq, Structural)]
pub struct StateOpt(pub State);

impl Default for StateOpt {
    fn default() -> (r: Self)
        ensures
            r == StateOpt(State::Unknown),
    {
        StateOpt(State::Unknown)
    }
}

/// A suspicion that defaults to `None`.
#[derive(Copy, Clone, Debug, PartialEq, Eq, Structural)]
pub struct SuspOpt(pub Suspicion);

impl Default for SuspOpt {
    fn default() -> (r: Self)
        ensures
            r == SuspOpt(Suspicion::Clean),
    {
        SuspOpt(Suspicion::Clean)
    }
}

// ---------------------------------------------------------------------------
// Names
// ---------------------------------------------------------------------------

pub open spec fn spec_state_string(s: State) -> &'static str {
    match s {
        State::Listen => "LISTEN",
        State::Established => "ESTABLISHED",
        State::TimeWait => "TIME_WAIT",
        State::SynSent => "SYN_SENT",
        State::SynRecv => "SYN_RECV",
        State::FinWait1 => "FIN_WAIT1",
        State::FinWait2 => "FIN_WAIT2",
        State::LastAck => "LAST_ACK",
        State::Closed => "CLOSED",
        State::Unknown => "UNKNOWN",
        State::CloseWait => "WARN: _=> CAUGHT ERR 204",
    }
}

/// The name of a socket state as `sockstat` prints it. `CloseWait` has no
/// name of its own and gets a diagnostic marker.
pub fn state_string(s: State) -> (r: &'static str)
    ensures
        r == spec_state_string(s),
{
    match s {
        State::Listen => "LISTEN",
        State::Established => "ESTABLISHED",
        State::TimeWait => "TIME_WAIT",
        State::SynSent => "SYN_SENT",
        State::SynRecv => "SYN_RECV",
        State::FinWait1 => "FIN_WAIT1",
        State::FinWait2 => "FIN_WAIT2",
        State::LastAck => "LAST_ACK",
        State::Closed => "CLOSED",
        State::Unknown => "UNKNOWN",
        State::CloseWait => "WARN: _=> CAUGHT ERR 204",
    }
}

pub open spec fn spec_proto_string(p: Proto) -> &'static str {
    match p {
        Proto::Tcp => "tcp4",
        Proto::Udp => "udp4",
        Proto::Tcp6 => "tcp6",
        Proto::Udp6 => "udp6",
        Proto::Unknown => "?",
    }
}

/// The `sockstat` name of a protocol.
pub fn proto_string(p: Proto) -> (r: &'static str)
    ensures
        r == spec_proto_string(p),
{
    match p {
        Proto::Tcp => "tcp4",
        Proto::Udp => "udp4",
        Proto::Tcp6 => "tcp6",
        Proto::Udp6 => "udp6",
        Proto::Unknown => "?",
    }
}

pub open spec fn spec_suspicion_string(s: Suspicion) -> &'static str {
    match s {
        Suspicion::Clean => "none",
        Suspicion::HighPort => "highport",
        Suspicion::UnknownProc => "unknownproc",
        Suspicion::ExternalConn => "externalconn",
        Suspicion::UnusualPort => "unusualport",
        Suspicion::ManyConns => "manyconns",
        Suspicion::BindAll => "bindall",
        Suspicion::RootProc => "rootproc",
        Suspicion::DynamicDns => "dynamicdns",
        Suspicion::Blacklisted => "blacklisted",
    }
}

/// The short name of a kind of suspicion.
pub fn suspicion_string(s: Suspicion) -> (r: &'static str)
    ensures
        r == spec_suspicion_string(s),
{
    match s {
        Suspicion::Clean => "none",
        Suspicion::HighPort => "highport",
        Suspicion::UnknownProc => "unknownproc",
        Suspicion::ExternalConn => "externalconn",
        Suspicion::UnusualPort => "unusualport",
        Suspicion::ManyConns => "manyconns",
        Suspicion::BindAll => "bindall",
        Suspicion::RootProc => "rootproc",
        Suspicion::DynamicDns => "dynamicdns",
        Suspicion::Blacklisted => "blacklisted",
    }
}

// ---------------------------------------------------------------------------
// Address and port classification
// ---------------------------------------------------------------------------

pub open spec fn has_prefix(s: Seq<char>, p: Seq<char>) -> bool {
    p.len() <= s.len() && s.take(p.len() as int) == p
}

/// Whether the first two octets `a.b` of an IPv4 address leave it public:
/// not private (10/8, 172.16/12, 192.168/16), not loopback, not `167.254`,
/// not `0/8`, not multicast or reserved (224 and up).
pub open spec fn public_v4(a: u32, b: u32) -> bool {
    !(a == 10 || (a == 172 && 16 <= b <= 31) || (a == 192 && b == 168) || a == 127 || (a == 167
        && b == 254) || a == 0 || (224 <= a <= 239) || a >= 240)
}

/// Whether an address, as text, is a public one. An address with a colon is
/// IPv6 and public unless it is loopback, link-local or unique-local; any
/// other is read as dotted IPv4 from its first two parts.
pub open spec fn spec_is_public_ip(a: Seq<char>) -> bool {
    if a.len() == 0 {
        false
    } else if a.contains(':') {
        !(has_prefix(a, "::1"@) || has_prefix(a, "fe80:"@) || has_prefix(a, "fc00:"@) || has_prefix(
            a,
            "fd"@,
        ))
    } else {
        let parts = spec_split(a, '.');
        if parts.len() != 4 {
            false
        } else {
            match (spec_parse_u32(parts[0]), spec_parse_u32(parts[1])) {
                (Some(x), Some(y)) => public_v4(x, y),
                _ => false,
            }
        }
    }
}

fn is_public_chars(a: &[char]) -> (r: bool)
    ensures
        r == spec_is_public_ip(a@),
{
    if a.len() == 0 {
        return false;
    }
    if contains_char(a, ':') {
        return !(starts_with(a, "::1") || starts_with(a, "fe80:") || starts_with(a, "fc00:")
            || starts_with(a, "fd"));
    }
    let parts = split_on(a, '.');
    if parts.len() != 4 {
        return false;
    }
    let x = match parse_u32(&parts[0]) {
        Some(v) => v,
        None => {
            return false;
        },
    };
    let y = match parse_u32(&parts[1]) {
        Some(v) => v,
        None => {
            return false;
        },
    };
    if x == 10 {
        return false;
    }
    if x == 172 && 16 <= y && y <= 31 {
        return false;
    }
    if x == 192 && y == 168 {
        return false;
    }
    if x == 127 {
        return false;
    }
    if x == 167 && y == 254 {
        return false;
    }
    if x == 0 {
        return false;
    }
    if 224 <= x && x <= 239 {
        return false;
    }
    if x >= 240 {
        return false;
    }
    true
}

/// Whether an address, as text, is a public one.
pub fn is_public_ip(addr: &str) -> (r: bool)
    ensures
        r == spec_is_public_ip(addr@),
{
    let a = chars_of(addr);
    is_public_chars(&a)
}

pub open spec fn spec_is_well_known_port(p: i32) -> bool {
    0 < p < 1024
}

/// Ports 1..=1023.
pub fn is_well_known_port(p: i32) -> (r: bool)
    ensures
        r == spec_is_well_known_port(p),
{
    p > 0 && p < 1024
}

/// Ports known from malware and backdoors.
pub open spec fn spec_is_suspicious_port(p: i32) -> bool {
    p == 4444 || p == 4445 || p == 5555 || p == 6666 || p == 6667 || p == 6668 || p == 7777 || p
        == 8888 || p == 9999 || p == 1337 || p == 31337 || p == 31338 || p == 12345 || p == 54321
        || p == 11111 || p == 22222 || p == 33333
}

pub fn is_suspicious_port(p: i32) -> (r: bool)
    ensures
        r == spec_is_suspicious_port(p),
{
    p == 4444 || p == 4445 || p == 5555 || p == 6666 || p == 6667 || p == 6668 || p == 7777 || p
        == 8888 || p == 9999 || p == 1337 || p == 31337 || p == 31338 || p == 12345 || p == 54321
        || p == 11111 || p == 22222 || p == 33333
}

// ---------------------------------------------------------------------------
// Reading `sockstat` lines
// ---------------------------------------------------------------------------

pub open spec fn upper(s: Seq<char>) -> Seq<char> {
    s.map_values(|c: char| ascii_upper(c))
}

/// The socket state a `sockstat` state column names, in any letter case.
pub open spec fn spec_parse_state(s: Seq<char>) -> State {
    let u = upper(s);
    if u == "LISTEN"@ {
        State::Listen
    } else if u == "ESTABLISHED"@ {
        State::Established
    } else if u == "TIME_WAIT"@ {
        State::TimeWait
    } else if u == "CLOSE_WAIT"@ {
        State::CloseWait
    } else if u == "SYN_SENT"@ {
        State::SynSent
    } else if u == "SYN_RECV"@ {
        State::SynRecv
    } else if u == "FIN_WAIT1"@ {
        State::FinWait1
    } else if u == "FIN_WAIT2"@ {
        State::FinWait2
    } else if u == "LAST_ACK"@ {
        State::LastAck
    } else if u == "CLOSED"@ {
        State::Closed
    } else {
        State::Unknown
    }
}

fn parse_state_chars(s: &[char]) -> (r: State)
    ensures
        r == spec_parse_state(s@),
{
    let u = upper_chars(s);
    if chars_eq(&u, "LISTEN") {
        State::Listen
    } else if chars_eq(&u, "ESTABLISHED") {
        State::Established
    } else if chars_eq(&u, "TIME_WAIT") {
        State::TimeWait
    } else if chars_eq(&u, "CLOSE_WAIT") {
        State::CloseWait
    } else if chars_eq(&u, "SYN_SENT") {
        State::SynSent
    } else if chars_eq(&u, "SYN_RECV") {
        State::SynRecv
    } else if chars_eq(&u, "FIN_WAIT1") {
        State::FinWait1
    } else if chars_eq(&u, "FIN_WAIT2") {
        State::FinWait2
    } else if chars_eq(&u, "LAST_ACK") {
        State::LastAck
    } else if chars_eq(&u, "CLOSED") {
        State::Closed
    } else {
        State::Unknown
    }
}

/// The socket state a `sockstat` state column names, in any letter case.
pub fn parse_state(s: &str) -> (r: State)
    ensures
        r == spec_parse_state(s@),
{
    let c = chars_of(s);
    parse_state_chars(&c)
}

/// Address and port of a `host:port` endpoint. The port follows the last
/// colon and is 0 when it does not read as a number; an IPv6 address in
/// brackets loses them.
pub open spec fn spec_split_endpoint(s: Seq<char>) -> (Seq<char>, i32) {
    if s.len() == 0 {
        (Seq::<char>::empty(), 0)
    } else {
        match spec_rfind(s, ':') {
            None => (s, 0),
            Some(i) => {
                let a = s.take(i);
                let port = match spec_parse_i32(s.skip(i + 1)) {
                    Some(p) => p,
                    None => 0,
                };
                let addr = if a.len() > 0 && a[0] == '[' {
                    let b = a.drop_first();
                    match spec_find(b, ']') {
                        Some(e) => b.take(e),
                        None => b,
                    }
                } else {
                    a
                };
                (addr, port)
            },
        }
    }
}

fn split_endpoint_chars(s: &[char]) -> (r: (Vec<char>, i32))
    ensures
        r.0@ == spec_split_endpoint(s@).0,
        r.1 == spec_split_endpoint(s@).1,
{
    if s.len() == 0 {
        return (Vec::new(), 0);
    }
    let idx = match rfind(s, ':') {
        Some(i) => i,
        None => {
            let mut all: Vec<char> = Vec::new();
            all = sub_chars(s, 0, s.len());
            assert(all@ =~= s@);
            return (all, 0);
        },
    };
    let addr = sub_chars(s, 0, idx);
    let port_text = sub_chars(s, idx + 1, s.len());
    assert(addr@ =~= s@.take(idx as int));
    assert(port_text@ =~= s@.skip(idx as int + 1));
    let port = match parse_i32(&port_text) {
        Some(p) => p,
        None => 0,
    };
    if addr.len() > 0 && addr[0] == '[' {
        let inner = sub_chars(&addr, 1, addr.len());
        assert(inner@ =~= addr@.drop_first());
        match find(&inner, ']') {
            Some(e) => {
                let cut = sub_chars(&inner, 0, e);
                assert(cut@ =~= inner@.take(e as int));
                (cut, port)
            },
            None => (inner, port),
        }
    } else {
        (addr, port)
    }
}

/// Address and port of a `host:port` endpoint.
pub fn split_endpoint(src: &str) -> (r: (String, i32))
    ensures
        r.0@ == spec_split_endpoint(src@).0,
        r.1 == spec_split_endpoint(src@).1,
{
    let s = chars_of(src);
    let (a, p) = split_endpoint_chars(&s);
    (string_of(&a), p)
}

/// The protocol a `sockstat` protocol column names.
pub open spec fn spec_proto_of(s: Seq<char>) -> Proto {
    if s == "tcp4"@ {
        Proto::Tcp
    } else if s == "udp4"@ {
        Proto::Udp
    } else if s == "tcp6"@ {
        Proto::Tcp6
    } else if s == "udp6"@ {
        Proto::Udp6
    } else {
        Proto::Unknown
    }
}

fn proto_of(s: &[char]) -> (r: Proto)
    ensures
        r == spec_proto_of(s@),
{
    if chars_eq(s, "tcp4") {
        Proto::Tcp
    } else if chars_eq(s, "udp4") {
        Proto::Udp
    } else if chars_eq(s, "tcp6") {
        Proto::Tcp6
    } else if chars_eq(s, "udp6") {
        Proto::Udp6
    } else {
        Proto::Unknown
    }
}

pub open spec fn is_wildcard_addr(a: Seq<char>) -> bool {
    a == "*"@ || a == "0.0.0.0"@ || a == "::"@ || a.len() == 0
}

/// One socket as `sockstat` lists it.
#[derive(Debug)]
pub struct Connection {
    pub proto: ProtoOpt,
    pub state: StateOpt,
    pub local_addr: String,
    pub local_port: i32,
    pub local_is_wildcard: bool,
    pub remote_addr: String,
    pub remote_port: i32,
    pub remote_is_public: bool,
    pub pid: i32,
    pub process: String,
    pub first_seen: i64,
    pub last_seen: i64,
    pub seen_count: i32,
    pub suspicion: SuspOpt,
    pub suspicion_reason: String,
}

/// A connection as plain values.
pub struct ConnectionView {
    pub proto: Proto,
    pub state: State,
    pub local_addr: Seq<char>,
    pub local_port: i32,
    pub local_is_wildcard: bool,
    pub remote_addr: Seq<char>,
    pub remote_port: i32,
    pub remote_is_public: bool,
    pub pid: i32,
    pub process: Seq<char>,
    pub first_seen: i64,
    pub last_seen: i64,
    pub seen_count: i32,
    pub suspicion: Suspicion,
    pub suspicion_reason: Seq<char>,
}

impl View for Connection {
    type V = ConnectionView;

    open spec fn view(&self) -> ConnectionView {
        ConnectionView {
            proto: self.proto.0,
            state: self.state.0,
            local_addr: self.local_addr@,
            local_port: self.local_port,
            local_is_wildcard: self.local_is_wildcard,
            remote_addr: self.remote_addr@,
            remote_port: self.remote_port,
            remote_is_public: self.remote_is_public,
            pid: self.pid,
            process: self.process@,
            first_seen: self.first_seen,
            last_seen: self.last_seen,
            seen_count: self.seen_count,
            suspicion: self.suspicion.0,
            suspicion_reason: self.suspicion_reason@,
        }
    }
}

/// The connection one `sockstat` line describes, read at time `now`: the
/// whitespace-separated columns are user, command, pid, fd, protocol, local
/// endpoint, remote endpoint and, optionally, state. Fewer than seven
/// columns describe none.
pub open spec fn spec_parse_sockstat_line(line: Seq<char>, now: i64) -> Option<ConnectionView> {
    let f = spec_words(line);
    if f.len() < 7 {
        None
    } else {
        let (la, lp) = spec_split_endpoint(f[5]);
        let (ra, rp) = spec_split_endpoint(f[6]);
        let st = if f.len() > 7 { f[7] } else { Seq::<char>::empty() };
        Some(
            ConnectionView {
                proto: spec_proto_of(f[4]),
                state: spec_parse_state(st),
                local_addr: la,
                local_port: lp,
                local_is_wildcard: is_wildcard_addr(la),
                remote_addr: ra,
                remote_port: rp,
                remote_is_public: spec_is_public_ip(ra),
                pid: match spec_parse_i32(f[2]) {
                    Some(p) => p,
                    None => 0,
                },
                process: f[1],
                first_seen: now,
                last_seen: now,
                seen_count: 1,
                suspicion: Suspicion::Clean,
                suspicion_reason: Seq::<char>::empty(),
            },
        )
    }
}

fn parse_line_chars(line: &[char], now: i64) -> (r: Option<Connection>)
    ensures
        r matches Some(c) ==> spec_parse_sockstat_line(line@, now) == Some(c@),
        r is None ==> spec_parse_sockstat_line(line@, now) is None,
{
    let fields = words(line);
    if fields.len() < 7 {
        return None;
    }
    let ghost f = spec_words(line@);
    let proto = proto_of(&fields[4]);
    let (la, lp) = split_endpoint_chars(&fields[5]);
    let (ra, rp) = split_endpoint_chars(&fields[6]);
    let state = if fields.len() > 7 {
        parse_state_chars(&fields[7])
    } else {
        let empty: Vec<char> = Vec::new();
        assert(empty@ =~= Seq::<char>::empty());
        parse_state_chars(&empty)
    };
    let pid = match parse_i32(&fields[2]) {
        Some(p) => p,
        None => 0,
    };
    let wildcard = chars_eq(&la, "*") || chars_eq(&la, "0.0.0.0") || chars_eq(&la, "::") || la.len()
        == 0;
    let public = is_public_chars(&ra);
    let c = Connection {
        proto: ProtoOpt(proto),
        state: StateOpt(state),
        local_addr: string_of(&la),
        local_port: lp,
        local_is_wildcard: wildcard,
        remote_addr: string_of(&ra),
        remote_port: rp,
        remote_is_public: public,
        pid,
        process: string_of(&fields[1]),
        first_seen: now,
        last_seen: now,
        seen_count: 1,
        suspicion: SuspOpt(Suspicion::Clean),
        suspicion_reason: String::new(),
    };
    assert(c@ == spec_parse_sockstat_line(line@, now)->0);
    Some(c)
}

/// Reads one `sockstat` line, at time `now`.
pub fn parse_sockstat_line(line: &str, now: i64) -> (r: Option<Connection>)
    ensures
        r matches Some(c) ==> spec_parse_sockstat_line(line@, now) == Some(c@),
        r is None ==> spec_parse_sockstat_line(line@, now) is None,
{
    let l = chars_of(line);
    parse_line_chars(&l, now)
}


// ---------------------------------------------------------------------------
// Per-address and per-port tables
// ---------------------------------------------------------------------------

/// One address seen in the connections.
#[derive(Debug)]
pub struct IpEntry {
    pub addr: String,
    pub is_public: bool,
    pub is_local: bool,
    pub connection_count: i32,
    pub listen_count: i32,
    pub ports: Vec<i32>,
    pub first_seen: i64,
    pub last_seen: i64,
    pub suspicion: SuspOpt,
}

pub struct IpEntryView {
    pub addr: Seq<char>,
    pub is_public: bool,
    pub is_local: bool,
    pub connection_count: i32,
    pub listen_count: i32,
    pub ports: Seq<i32>,
    pub first_seen: i64,
    pub last_seen: i64,
    pub suspicion: Suspicion,
}

impl View for IpEntry {
    type V = IpEntryView;

    open spec fn view(&self) -> IpEntryView {
        IpEntryView {
            addr: self.addr@,
            is_public: self.is_public,
            is_local: self.is_local,
            connection_count: self.connection_count,
            listen_count: self.listen_count,
            ports: self.ports@,
            first_seen: self.first_seen,
            last_seen: self.last_seen,
            suspicion: self.suspicion.0,
        }
    }
}

/// One local port seen in the connections.
#[derive(Debug)]
pub struct PortEntry {
    pub port: i32,
    pub proto: ProtoOpt,
    pub listeners: i32,
    pub established: i32,
    pub process: String,
    pub pid: i32,
    pub is_well_known: bool,
    pub is_suspicious: bool,
}

pub struct PortEntryView {
    pub port: i32,
    pub proto: Proto,
    pub listeners: i32,
    pub established: i32,
    pub process: Seq<char>,
    pub pid: i32,
    pub is_well_known: bool,
    pub is_suspicious: bool,
}

impl View for PortEntry {
    type V = PortEntryView;

    open spec fn view(&self) -> PortEntryView {
        PortEntryView {
            port: self.port,
            proto: self.proto.0,
            listeners: self.listeners,
            established: self.established,
            process: self.process@,
            pid: self.pid,
            is_well_known: self.is_well_known,
            is_suspicious: self.is_suspicious,
        }
    }
}

/// The connections of one scan and what they aggregate to.
#[derive(Debug)]
pub struct Snapshot {
    pub timestamp: i64,
    pub connections: Vec<Connection>,
    pub ips: Vec<IpEntry>,
    pub ports: Vec<PortEntry>,
}

impl Default for Snapshot {
    fn default() -> (r: Self)
        ensures
            r.timestamp == 0,
            r.connections@.len() == 0,
            r.ips@.len() == 0,
            r.ports@.len() == 0,
    {
        Snapshot { timestamp: 0, connections: Vec::new(), ips: Vec::new(), ports: Vec::new() }
    }
}

/// A suspicious connection, reported.
#[derive(Debug)]
pub struct Alert {
    pub timestamp: i64,
    pub kind: SuspOpt,
    pub message: String,
    pub local: String,
    pub remote: String,
    pub port: i32,
    pub pid: i32,
    pub process: String,
}

pub struct AlertView {
    pub timestamp: i64,
    pub kind: Suspicion,
    pub message: Seq<char>,
    pub local: Seq<char>,
    pub remote: Seq<char>,
    pub port: i32,
    pub pid: i32,
    pub process: Seq<char>,
}

impl View for Alert {
    type V = AlertView;

    open spec fn view(&self) -> AlertView {
        AlertView {
            timestamp: self.timestamp,
            kind: self.kind.0,
            message: self.message@,
            local: self.local@,
            remote: self.remote@,
            port: self.port,
            pid: self.pid,
            process: self.process@,
        }
    }
}

/// The state of the network inspector.
#[derive(Debug)]
pub struct Netinspect {
    pub current: Snapshot,
    pub snapshots: Vec<Snapshot>,
    pub snapshot_index: i32,
    pub alerts: Vec<Alert>,
    pub total_connections: i32,
    pub total_listeners: i32,
    pub total_established: i32,
    pub total_public_ips: i32,
    pub total_local_ips: i32,
    pub suspicious_count: i32,
    pub verbose: bool,
}

impl Netinspect {
    /// An inspector that has seen nothing.
    pub fn new(verbose: bool) -> (r: Self)
        ensures
            r.current.timestamp == 0,
            r.current.connections@.len() == 0,
            r.current.ips@.len() == 0,
            r.current.ports@.len() == 0,
            r.snapshots@.len() == 0,
            r.snapshot_index == 0,
            r.alerts@.len() == 0,
            r.total_connections == 0,
            r.total_listeners == 0,
            r.total_established == 0,
            r.total_public_ips == 0,
            r.total_local_ips == 0,
            r.suspicious_count == 0,
            r.verbose == verbose,
    {
        Netinspect {
            current: Snapshot::default(),
            snapshots: Vec::new(),
            snapshot_index: 0,
            alerts: Vec::new(),
            total_connections: 0,
            total_listeners: 0,
            total_established: 0,
            total_public_ips: 0,
            total_local_ips: 0,
            suspicious_count: 0,
            verbose,
        }
    }
}

pub open spec fn conn_views(v: Seq<Connection>) -> Seq<ConnectionView> {
    v.map_values(|c: Connection| c@)
}

pub open spec fn ip_views(v: Seq<IpEntry>) -> Seq<IpEntryView> {
    v.map_values(|e: IpEntry| e@)
}

pub open spec fn port_views(v: Seq<PortEntry>) -> Seq<PortEntryView> {
    v.map_values(|e: PortEntry| e@)
}

pub open spec fn alert_views(v: Seq<Alert>) -> Seq<AlertView> {
    v.map_values(|a: Alert| a@)
}

// ---------------------------------------------------------------------------
// Scanning
// ---------------------------------------------------------------------------

/// The connections the lines `ls` describe, in order.
pub open spec fn parsed_lines(ls: Seq<Seq<char>>, now: i64) -> Seq<ConnectionView>
    decreases ls.len(),
{
    if ls.len() == 0 {
        seq![]
    } else {
        let prev = parsed_lines(ls.drop_last(), now);
        match spec_parse_sockstat_line(ls.last(), now) {
            Some(c) => prev.push(c),
            None => prev,
        }
    }
}

/// The connections one `sockstat` output lists: every line after the
/// header that reads as a connection.
pub open spec fn output_connections(text: Seq<char>, now: i64) -> Seq<ConnectionView> {
    let ls = spec_lines(text);
    parsed_lines(if ls.len() > 0 { ls.drop_first() } else { ls }, now)
}

/// The connections of several `sockstat` outputs, in order.
pub open spec fn all_connections(outputs: Seq<Seq<char>>, now: i64) -> Seq<ConnectionView>
    decreases outputs.len(),
{
    if outputs.len() == 0 {
        seq![]
    } else {
        all_connections(outputs.drop_last(), now) + output_connections(outputs.last(), now)
    }
}

/// The first `NET_MAX_CONNECTIONS` of `s`.
pub open spec fn capped(s: Seq<ConnectionView>) -> Seq<ConnectionView> {
    if s.len() <= NET_MAX_CONNECTIONS {
        s
    } else {
        s.take(NET_MAX_CONNECTIONS as int)
    }
}

/// How many of `s` are in state `st`.
pub open spec fn count_state(s: Seq<ConnectionView>, st: State) -> nat
    decreases s.len(),
{
    if s.len() == 0 {
        0
    } else {
        count_state(s.drop_last(), st) + if s.last().state == st { 1nat } else { 0nat }
    }
}

proof fn lemma_count_state_le(s: Seq<ConnectionView>, st: State)
    ensures
        count_state(s, st) <= s.len(),
    decreases s.len(),
{
    if s.len() > 0 {
        lemma_count_state_le(s.drop_last(), st);
    }
}

proof fn lemma_capped_push(s: Seq<ConnectionView>, c: ConnectionView)
    ensures
        capped(s.push(c)) == if s.len() < NET_MAX_CONNECTIONS { capped(s).push(c) } else { capped(s) },
{
    if s.len() >= NET_MAX_CONNECTIONS {
        assert(s.push(c).take(NET_MAX_CONNECTIONS as int) =~= capped(s));
    }
}

proof fn lemma_capped_full(s: Seq<ConnectionView>, t: Seq<ConnectionView>)
    requires
        s.len() >= NET_MAX_CONNECTIONS,
    ensures
        capped(s + t) == capped(s),
{
    assert((s + t).take(NET_MAX_CONNECTIONS as int) =~= s.take(NET_MAX_CONNECTIONS as int));
}

proof fn lemma_parsed_lines_prefix(ls: Seq<Seq<char>>, now: i64, j: int)
    requires
        0 <= j < ls.len(),
    ensures
        parsed_lines(ls.take(j + 1), now) == match spec_parse_sockstat_line(ls[j], now) {
            Some(c) => parsed_lines(ls.take(j), now).push(c),
            None => parsed_lines(ls.take(j), now),
        },
{
    assert(ls.take(j + 1).drop_last() =~= ls.take(j));
}

/// The connections a scan whose `sockstat` outputs are `outputs` keeps.
pub open spec fn spec_scan(outputs: Seq<Seq<char>>, now: i64) -> Seq<ConnectionView> {
    capped(all_connections(outputs, now))
}

proof fn lemma_capped_capped(a: Seq<ConnectionView>, b: Seq<ConnectionView>)
    ensures
        capped(capped(a) + b) == capped(a + b),
{
    if a.len() >= NET_MAX_CONNECTIONS {
        lemma_capped_full(a, b);
        lemma_capped_full(capped(a), b);
        assert(capped(capped(a)) =~= capped(a));
    } else {
        assert(capped(a) == a);
    }
}

/// Appends the connections that one `sockstat` output lists, while fewer
/// than `NET_MAX_CONNECTIONS` are held.
fn parse_output(text: &str, now: i64, conns: &mut Vec<Connection>)
    requires
        old(conns)@.len() <= NET_MAX_CONNECTIONS,
    ensures
        conn_views(final(conns)@) == capped(conn_views(old(conns)@) + output_connections(text@, now)),
{
    let chars = chars_of(text);
    let ls = lines(&chars);
    let ghost sl = spec_lines(text@);
    let ghost body = if sl.len() > 0 { sl.drop_first() } else { sl };
    let ghost before = conn_views(conns@);
    if ls.len() == 0 {
        assert(body.len() == 0);
        assert(parsed_lines(body, now) == Seq::<ConnectionView>::empty());
        assert(before + Seq::<ConnectionView>::empty() =~= before);
        return;
    }
    let mut j: usize = 1;
    assert(body.take(0) =~= Seq::<Seq<char>>::empty());
    assert(before + parsed_lines(body.take(0), now) =~= before);
    while j < ls.len()
        invariant
            1 <= j <= ls@.len(),
            ls@.len() == sl.len(),
            forall|k: int| 0 <= k < ls@.len() ==> #[trigger] ls@[k]@ == sl[k],
            body == sl.drop_first(),
            sl == spec_lines(text@),
            before == conn_views(old(conns)@),
            conn_views(conns@) == capped(before + parsed_lines(body.take(j - 1), now)),
        decreases ls.len() - j,
    {
        let ghost p = parsed_lines(body.take(j - 1), now);
        if conns.len() >= NET_MAX_CONNECTIONS {
            proof {
                assert(capped(before + p).len() >= NET_MAX_CONNECTIONS);
                let rest = parsed_lines(body, now).skip(p.len() as int);
                lemma_parsed_lines_split(body, now, j - 1);
                assert((before + p).len() >= NET_MAX_CONNECTIONS);
                lemma_capped_full(before + p, rest);
                assert(before + p + rest =~= before + parsed_lines(body, now));
                assert(output_connections(text@, now) == parsed_lines(body, now));
                assert(capped(before + parsed_lines(body, now)) == capped(before + p));
            }
            return;
        }
        let parsed = parse_line_chars(&ls[j], now);
        proof {
            assert(ls@[j as int]@ == body[j - 1]);
            lemma_parsed_lines_prefix(body, now, j - 1);
            assert(capped(before + p) == before + p);
        }
        match parsed {
            Some(c) => {
                proof {
                    lemma_capped_push(before + p, c@);
                    assert((before + p).push(c@) =~= before + p.push(c@));
                }
                let ghost old_views = conn_views(conns@);
                conns.push(c);
                assert(conn_views(conns@) =~= old_views.push(c@));
            },
            None => {},
        }
        j += 1;
    }
    assert(body.take(j - 1) =~= body);
}

proof fn lemma_parsed_lines_split(ls: Seq<Seq<char>>, now: i64, j: int)
    requires
        0 <= j <= ls.len(),
    ensures
        parsed_lines(ls, now) == parsed_lines(ls.take(j), now) + parsed_lines(ls, now).skip(
            parsed_lines(ls.take(j), now).len() as int,
        ),
        parsed_lines(ls.take(j), now).len() <= parsed_lines(ls, now).len(),
        parsed_lines(ls, now).take(parsed_lines(ls.take(j), now).len() as int) == parsed_lines(
            ls.take(j),
            now,
        ),
    decreases ls.len() - j,
{
    if j < ls.len() {
        lemma_parsed_lines_split(ls, now, j + 1);
        lemma_parsed_lines_prefix(ls, now, j);
        let a = parsed_lines(ls.take(j), now);
        let b = parsed_lines(ls.take(j + 1), now);
        let all = parsed_lines(ls, now);
        assert(all.take(a.len() as int) =~= b.take(a.len() as int));
        assert(b.take(a.len() as int) =~= a);
    } else {
        assert(ls.take(j) =~= ls);
    }
    let a = parsed_lines(ls.take(j), now);
    let all = parsed_lines(ls, now);
    assert(all =~= a + all.skip(a.len() as int));
}

/// The characters of each output.
pub open spec fn texts_of(v: Seq<String>) -> Seq<Seq<char>> {
    v.map_values(|t: String| t@)
}

/// Takes in the outputs of `sockstat -4` and `sockstat -6` read at time
/// `now`: the current snapshot becomes the connections they list, at most
/// `NET_MAX_CONNECTIONS`; the listeners and established connections among
/// them are added to the running totals, and the connection total is set.
pub fn netinspect_scan(ni: &mut Netinspect, outputs: &Vec<String>, now: i64) -> (r: i32)
    requires
        old(ni).total_listeners + count_state(spec_scan(texts_of(outputs@), now), State::Listen)
            <= i32::MAX,
        old(ni).total_established + count_state(spec_scan(texts_of(outputs@), now), State::Established)
            <= i32::MAX,
    ensures
        r == 0,
        conn_views(final(ni).current.connections@) == spec_scan(texts_of(outputs@), now),
        final(ni).current.timestamp == now,
        final(ni).current.ips@.len() == 0,
        final(ni).current.ports@.len() == 0,
        final(ni).total_connections as int == spec_scan(texts_of(outputs@), now).len(),
        final(ni).total_listeners == old(ni).total_listeners + count_state(
            spec_scan(texts_of(outputs@), now),
            State::Listen,
        ),
        final(ni).total_established == old(ni).total_established + count_state(
            spec_scan(texts_of(outputs@), now),
            State::Established,
        ),
        final(ni).snapshots == old(ni).snapshots,
        final(ni).snapshot_index == old(ni).snapshot_index,
        final(ni).alerts == old(ni).alerts,
        final(ni).total_public_ips == old(ni).total_public_ips,
        final(ni).total_local_ips == old(ni).total_local_ips,
        final(ni).suspicious_count == old(ni).suspicious_count,
        final(ni).verbose == old(ni).verbose,
{
    let ghost texts = texts_of(outputs@);
    let mut conns: Vec<Connection> = Vec::new();
    let mut o: usize = 0;
    assert(texts.take(0) =~= Seq::<Seq<char>>::empty());
    assert(conn_views(conns@) =~= Seq::<ConnectionView>::empty());
    while o < outputs.len()
        invariant
            o <= outputs.len(),
            texts == texts_of(outputs@),
            conn_views(conns@) == capped(all_connections(texts.take(o as int), now)),
        decreases outputs.len() - o,
    {
        let ghost before = all_connections(texts.take(o as int), now);
        proof {
            assert(texts.take(o as int + 1).drop_last() =~= texts.take(o as int));
            assert(texts[o as int] == outputs@[o as int]@);
            assert(capped(capped(before)) =~= capped(before));
        }
        parse_output(outputs[o].as_str(), now, &mut conns);
        proof {
            lemma_capped_capped(before, output_connections(texts[o as int], now));
        }
        o += 1;
    }
    assert(texts.take(outputs.len() as int) =~= texts);
    ni.current = Snapshot::default();
    ni.current.timestamp = now;
    ni.current.connections = conns;
    let ghost scanned = spec_scan(texts, now);
    let mut listeners: i32 = 0;
    let mut established: i32 = 0;
    let mut k: usize = 0;
    proof { lemma_count_state_le(scanned, State::Listen); }
    while k < ni.current.connections.len()
        invariant
            k <= ni.current.connections@.len(),
            conn_views(ni.current.connections@) == scanned,
            scanned.len() <= NET_MAX_CONNECTIONS,
            listeners == count_state(scanned.take(k as int), State::Listen),
            established == count_state(scanned.take(k as int), State::Established),
        decreases ni.current.connections@.len() - k,
    {
        proof {
            assert(scanned.take(k as int + 1).drop_last() =~= scanned.take(k as int));
            lemma_count_state_le(scanned.take(k as int), State::Listen);
            lemma_count_state_le(scanned.take(k as int), State::Established);
            assert(scanned[k as int] == ni.current.connections@[k as int]@);
        }
        let st = ni.current.connections[k].state.0;
        if st == State::Listen {
            listeners = listeners + 1;
        } else if st == State::Established {
            established = established + 1;
        }
        k += 1;
    }
    assert(scanned.take(k as int) =~= scanned);
    ni.total_listeners = ni.total_listeners + listeners;
    ni.total_established = ni.total_established + established;
    ni.total_connections = ni.current.connections.len() as i32;
    0
}


// ---------------------------------------------------------------------------
// Aggregation per address
// ---------------------------------------------------------------------------

/// A fresh entry for an address first seen at `now`.
pub open spec fn new_ip_view(addr: Seq<char>, now: i64) -> IpEntryView {
    IpEntryView {
        addr,
        is_public: spec_is_public_ip(addr),
        is_local: !spec_is_public_ip(addr),
        connection_count: 0,
        listen_count: 0,
        ports: seq![],
        first_seen: now,
        last_seen: now,
        suspicion: Suspicion::Clean,
    }
}

/// Where the first entry for `addr` stands.
pub open spec fn ip_position(ips: Seq<IpEntryView>, addr: Seq<char>) -> Option<int>
    decreases ips.len(),
{
    if ips.len() == 0 {
        None
    } else {
        match ip_position(ips.drop_last(), addr) {
            Some(i) => Some(i),
            None => if ips.last().addr == addr {
                Some(ips.len() - 1)
            } else {
                None
            },
        }
    }
}

/// The table with an entry for `addr`, added if there is none and room for
/// one, and where that entry stands.
pub open spec fn ip_slot(ips: Seq<IpEntryView>, addr: Seq<char>, now: i64) -> (
    Seq<IpEntryView>,
    Option<int>,
) {
    match ip_position(ips, addr) {
        Some(i) => (ips, Some(i)),
        None => if ips.len() < NET_MAX_UNIQUE_IPS {
            (ips.push(new_ip_view(addr, now)), Some(ips.len() as int))
        } else {
            (ips, None)
        },
    }
}

/// An entry after the local end of connection `c` is counted in it.
pub open spec fn touched_local(e: IpEntryView, c: ConnectionView, now: i64) -> IpEntryView {
    IpEntryView {
        addr: e.addr,
        is_public: e.is_public,
        is_local: e.is_local,
        connection_count: (e.connection_count + 1) as i32,
        listen_count: if c.state == State::Listen {
            (e.listen_count + 1) as i32
        } else {
            e.listen_count
        },
        ports: if !e.ports.contains(c.local_port) && e.ports.len() < NET_MAX_PORTS {
            e.ports.push(c.local_port)
        } else {
            e.ports
        },
        first_seen: e.first_seen,
        last_seen: now,
        suspicion: e.suspicion,
    }
}

/// An entry after the remote end of a connection is counted in it.
pub open spec fn touched_remote(e: IpEntryView, now: i64) -> IpEntryView {
    IpEntryView {
        addr: e.addr,
        is_public: e.is_public,
        is_local: e.is_local,
        connection_count: (e.connection_count + 1) as i32,
        listen_count: e.listen_count,
        ports: e.ports,
        first_seen: e.first_seen,
        last_seen: now,
        suspicion: e.suspicion,
    }
}

pub open spec fn counts_remote(a: Seq<char>) -> bool {
    a.len() > 0 && a != "*"@ && a != "0.0.0.0"@
}

/// The address table after connection `c` is counted: nothing for a
/// wildcard listener; otherwise its local address, then its remote address
/// unless that is empty or a wildcard.
pub open spec fn ip_step(ips: Seq<IpEntryView>, c: ConnectionView, now: i64) -> Seq<IpEntryView> {
    if c.local_is_wildcard {
        ips
    } else {
        let ips1 = if c.local_addr.len() > 0 {
            let (t, idx) = ip_slot(ips, c.local_addr, now);
            match idx {
                Some(i) => t.update(i, touched_local(t[i], c, now)),
                None => t,
            }
        } else {
            ips
        };
        if counts_remote(c.remote_addr) {
            let (t, idx) = ip_slot(ips1, c.remote_addr, now);
            match idx {
                Some(i) => t.update(i, touched_remote(t[i], now)),
                None => t,
            }
        } else {
            ips1
        }
    }
}

/// The address table that connections `conns` build, at time `now`.
pub open spec fn ips_after(conns: Seq<ConnectionView>, now: i64) -> Seq<IpEntryView>
    decreases conns.len(),
{
    if conns.len() == 0 {
        seq![]
    } else {
        ip_step(ips_after(conns.drop_last(), now), conns.last(), now)
    }
}

/// How many entries are public.
pub open spec fn count_public(ips: Seq<IpEntryView>) -> nat
    decreases ips.len(),
{
    if ips.len() == 0 {
        0
    } else {
        count_public(ips.drop_last()) + if ips.last().is_public { 1nat } else { 0nat }
    }
}

proof fn lemma_count_public_le(ips: Seq<IpEntryView>)
    ensures
        count_public(ips) <= ips.len(),
    decreases ips.len(),
{
    if ips.len() > 0 {
        lemma_count_public_le(ips.drop_last());
    }
}

/// Every entry counts at most `cmax` connections and `lmax` listeners, and
/// the table stays within its limits.
pub open spec fn ips_within(ips: Seq<IpEntryView>, cmax: int, lmax: int) -> bool {
    &&& ips.len() <= NET_MAX_UNIQUE_IPS
    &&& forall|k: int|
        0 <= k < ips.len() ==> {
            &&& 0 <= #[trigger] ips[k].connection_count <= cmax
            &&& 0 <= ips[k].listen_count <= lmax
            &&& ips[k].ports.len() <= NET_MAX_PORTS
        }
}

proof fn lemma_ip_position_found(ips: Seq<IpEntryView>, addr: Seq<char>, j: int)
    requires
        0 <= j < ips.len(),
        ip_position(ips.take(j), addr) is None,
        ips[j].addr == addr,
    ensures
        ip_position(ips, addr) == Some(j),
    decreases ips.len() - j,
{
    if j == ips.len() - 1 {
        assert(ips.take(j) =~= ips.drop_last());
    } else {
        assert(ips.drop_last().take(j) =~= ips.take(j));
        lemma_ip_position_found(ips.drop_last(), addr, j);
    }
}

proof fn lemma_ip_position_range(ips: Seq<IpEntryView>, addr: Seq<char>)
    ensures
        ip_position(ips, addr) matches Some(i) ==> 0 <= i < ips.len() && ips[i].addr == addr,
    decreases ips.len(),
{
    if ips.len() > 0 {
        lemma_ip_position_range(ips.drop_last(), addr);
    }
}

/// Where the first entry for `addr` stands.
fn ip_lookup(ips: &Vec<IpEntry>, addr: &String) -> (r: Option<usize>)
    ensures
        r == (match ip_position(ip_views(ips@), addr@) {
            Some(i) => Some(i as usize),
            None => None::<usize>,
        }),
        r matches Some(i) ==> i < ips@.len(),
        ip_position(ip_views(ips@), addr@) matches Some(i) ==> 0 <= i < ips@.len(),
{
    let ghost v = ip_views(ips@);
    proof { lemma_ip_position_range(v, addr@); }
    let mut j: usize = 0;
    assert(v.take(0) =~= Seq::<IpEntryView>::empty());
    while j < ips.len()
        invariant
            j <= ips@.len(),
            v == ip_views(ips@),
            ip_position(v.take(j as int), addr@) is None,
        decreases ips@.len() - j,
    {
        if ips[j].addr == *addr {
            proof { lemma_ip_position_found(v, addr@, j as int); }
            return Some(j);
        }
        proof {
            assert(v.take(j as int + 1).drop_last() =~= v.take(j as int));
        }
        j += 1;
    }
    assert(v.take(j as int) =~= v);
    None
}

/// Finds or adds the entry for `addr`.
fn ip_slot_exec(ips: &mut Vec<IpEntry>, addr: &String, now: i64) -> (r: Option<usize>)
    requires
        ip_views(old(ips)@).len() <= NET_MAX_UNIQUE_IPS,
    ensures
        (ip_views(final(ips)@), match r {
            Some(i) => Some(i as int),
            None => None::<int>,
        }) == ip_slot(
            ip_views(old(ips)@),
            addr@,
            now,
        ),
        r matches Some(i) ==> i < final(ips)@.len(),
{
    match ip_lookup(ips, addr) {
        Some(i) => Some(i),
        None => {
            if ips.len() < NET_MAX_UNIQUE_IPS {
                let public = is_public_ip(addr.as_str());
                let ghost old_v = ip_views(ips@);
                ips.push(
                    IpEntry {
                        addr: addr.clone(),
                        is_public: public,
                        is_local: !public,
                        connection_count: 0,
                        listen_count: 0,
                        ports: Vec::new(),
                        first_seen: now,
                        last_seen: now,
                        suspicion: SuspOpt(Suspicion::Clean),
                    },
                );
                assert(ip_views(ips@) =~= old_v.push(new_ip_view(addr@, now)));
                Some(ips.len() - 1)
            } else {
                None
            }
        },
    }
}

/// Whether `x` is among `v`.
fn contains_i32(v: &Vec<i32>, x: i32) -> (r: bool)
    ensures
        r == v@.contains(x),
{
    let mut j: usize = 0;
    while j < v.len()
        invariant
            j <= v@.len(),
            forall|k: int| 0 <= k < j ==> v@[k] != x,
        decreases v@.len() - j,
    {
        if v[j] == x {
            assert(v@[j as int] == x);
            return true;
        }
        j += 1;
    }
    false
}

/// Counts the local end of connection `c` in entry `k`.
#[verifier::spinoff_prover]
fn touch_local_exec(ips: &mut Vec<IpEntry>, k: usize, c: &Connection, now: i64, Ghost(cmax): Ghost<int>, Ghost(lmax): Ghost<int>)
    requires
        k < old(ips)@.len(),
        0 <= cmax < i32::MAX,
        0 <= lmax < i32::MAX,
        ips_within(ip_views(old(ips)@), cmax, lmax),
    ensures
        ip_views(final(ips)@) == ip_views(old(ips)@).update(
            k as int,
            touched_local(ip_views(old(ips)@)[k as int], c@, now),
        ),
        ips_within(ip_views(final(ips)@), cmax + 1, lmax + 1),
{
    let ghost t = ip_views(ips@);
    assert(t[k as int].connection_count <= cmax);
    assert(t[k as int].listen_count <= lmax);
    ips[k].connection_count = ips[k].connection_count + 1;
    ips[k].last_seen = now;
    if c.state.0 == State::Listen {
        ips[k].listen_count = ips[k].listen_count + 1;
    }
    if !contains_i32(&ips[k].ports, c.local_port) && ips[k].ports.len() < NET_MAX_PORTS {
        ips[k].ports.push(c.local_port);
    }
    assert(ip_views(ips@) =~= t.update(k as int, touched_local(t[k as int], c@, now)));
    proof {
        let t2 = ip_views(ips@);
        assert forall|j: int| 0 <= j < t2.len() implies {
            &&& 0 <= #[trigger] t2[j].connection_count <= cmax + 1
            &&& 0 <= t2[j].listen_count <= lmax + 1
            &&& t2[j].ports.len() <= NET_MAX_PORTS
        } by {
            if j != k {
                assert(t2[j] == t[j]);
            } else {
                assert(t2[j] == touched_local(t[j], c@, now));
                assert(0 <= t[j].connection_count <= cmax);
                assert(0 <= t[j].listen_count <= lmax);
                assert(t[j].ports.len() <= NET_MAX_PORTS);
            }
        }
        assert(t2.len() == t.len());
        assert(t2.len() <= NET_MAX_UNIQUE_IPS);
        assert(ips_within(t2, cmax + 1, lmax + 1));
    }
}

/// Counts the remote end of a connection in entry `k`.
fn touch_remote_exec(ips: &mut Vec<IpEntry>, k: usize, now: i64, Ghost(cmax): Ghost<int>, Ghost(lmax): Ghost<int>)
    requires
        k < old(ips)@.len(),
        0 <= cmax < i32::MAX,
        0 <= lmax,
        ips_within(ip_views(old(ips)@), cmax, lmax),
    ensures
        ip_views(final(ips)@) == ip_views(old(ips)@).update(
            k as int,
            touched_remote(ip_views(old(ips)@)[k as int], now),
        ),
        ips_within(ip_views(final(ips)@), cmax + 1, lmax),
{
    let ghost t = ip_views(ips@);
    assert(t[k as int].connection_count <= cmax);
    ips[k].connection_count = ips[k].connection_count + 1;
    ips[k].last_seen = now;
    assert(ip_views(ips@) =~= t.update(k as int, touched_remote(t[k as int], now)));
}

/// Counts connection `c`, the `i`-th, in the address table.
fn count_connection(ips: &mut Vec<IpEntry>, c: &Connection, now: i64, i: usize)
    requires
        i < 0x3fff_ffff,
        ips_within(ip_views(old(ips)@), 2 * i, i as int),
    ensures
        ip_views(final(ips)@) == ip_step(ip_views(old(ips)@), c@, now),
        ips_within(ip_views(final(ips)@), 2 * i + 2, i as int + 1),
{
    if c.local_is_wildcard {
        return;
    }
    if !c.local_addr.as_str().is_empty() {
        let slot = ip_slot_exec(ips, &c.local_addr, now);
        match slot {
            Some(k) => {
                proof {
                    let t = ip_views(ips@);
                    if t.len() > ip_views(old(ips)@).len() {
                        assert(t[k as int] == new_ip_view(c@.local_addr, now));
                    }
                    assert(ips_within(t, 2 * i, i as int));
                }
                touch_local_exec(ips, k, c, now, Ghost(2 * i as int), Ghost(i as int));
            },
            None => {},
        }
    }
    let ghost mid = ip_views(ips@);
    assert(ips_within(mid, 2 * i + 1, i as int + 1));
    let remote = &c.remote_addr;
    if !remote.as_str().is_empty() && !crate::text::str_eq(remote.as_str(), "*")
        && !crate::text::str_eq(remote.as_str(), "0.0.0.0") {
        let slot = ip_slot_exec(ips, remote, now);
        match slot {
            Some(k) => {
                proof {
                    let t = ip_views(ips@);
                    if t.len() > mid.len() {
                        assert(t[k as int] == new_ip_view(c@.remote_addr, now));
                        assert(t.drop_last() =~= mid);
                    } else {
                        assert(t == mid);
                    }
                    assert(ips_within(t, 2 * i + 1, i as int + 1));
                }
                touch_remote_exec(ips, k, now, Ghost(2 * i + 1), Ghost(i as int + 1));
            },
            None => {},
        }
    }
}

/// Rebuilds the per-address table of the current snapshot from its
/// connections, at time `now`, and counts its public and local addresses.
pub fn netinspect_aggregate_ips(ni: &mut Netinspect, now: i64)
    requires
        old(ni).current.connections@.len() <= 0x3fff_ffff,
    ensures
        ip_views(final(ni).current.ips@) == ips_after(conn_views(old(ni).current.connections@), now),
        final(ni).total_public_ips as int == count_public(
            ips_after(conn_views(old(ni).current.connections@), now),
        ),
        final(ni).total_local_ips as int == ips_after(
            conn_views(old(ni).current.connections@),
            now,
        ).len() - count_public(ips_after(conn_views(old(ni).current.connections@), now)),
        final(ni).current.connections == old(ni).current.connections,
        final(ni).current.ports == old(ni).current.ports,
        final(ni).current.timestamp == old(ni).current.timestamp,
        final(ni).snapshots == old(ni).snapshots,
        final(ni).snapshot_index == old(ni).snapshot_index,
        final(ni).alerts == old(ni).alerts,
        final(ni).total_connections == old(ni).total_connections,
        final(ni).total_listeners == old(ni).total_listeners,
        final(ni).total_established == old(ni).total_established,
        final(ni).suspicious_count == old(ni).suspicious_count,
        final(ni).verbose == old(ni).verbose,
{
    let ghost cv = conn_views(ni.current.connections@);
    let mut ips: Vec<IpEntry> = Vec::new();
    let mut i: usize = 0;
    let n = ni.current.connections.len();
    assert(cv.take(0) =~= Seq::<ConnectionView>::empty());
    assert(ip_views(ips@) =~= Seq::<IpEntryView>::empty());
    while i < n
        invariant
            n == ni.current.connections@.len(),
            n <= 0x3fff_ffff,
            cv == conn_views(ni.current.connections@),
            i <= n,
            ip_views(ips@) == ips_after(cv.take(i as int), now),
            ips_within(ip_views(ips@), 2 * i, i as int),
        decreases n - i,
    {
        proof {
            assert(cv.take(i as int + 1).drop_last() =~= cv.take(i as int));
            assert(cv[i as int] == ni.current.connections@[i as int]@);
        }
        count_connection(&mut ips, &ni.current.connections[i], now, i);
        i += 1;
    }
    assert(cv.take(n as int) =~= cv);
    let ghost table = ip_views(ips@);
    let mut public: i32 = 0;
    let mut local: i32 = 0;
    let mut k: usize = 0;
    while k < ips.len()
        invariant
            k <= ips@.len(),
            table == ip_views(ips@),
            ips@.len() <= NET_MAX_UNIQUE_IPS,
            public == count_public(table.take(k as int)),
            local == k - count_public(table.take(k as int)),
        decreases ips@.len() - k,
    {
        proof {
            assert(table.take(k as int + 1).drop_last() =~= table.take(k as int));
            lemma_count_public_le(table.take(k as int));
            assert(table[k as int].is_public == ips@[k as int].is_public);
        }
        if ips[k].is_public {
            public = public + 1;
        } else {
            local = local + 1;
        }
        k += 1;
    }
    assert(table.take(k as int) =~= table);
    ni.total_public_ips = public;
    ni.total_local_ips = local;
    ni.current.ips = ips;
}


// ---------------------------------------------------------------------------
// Aggregation per port
// ---------------------------------------------------------------------------

/// A fresh entry for the local port of connection `c`.
pub open spec fn new_port_view(c: ConnectionView) -> PortEntryView {
    PortEntryView {
        port: c.local_port,
        proto: c.proto,
        listeners: 0,
        established: 0,
        process: Seq::<char>::empty(),
        pid: 0,
        is_well_known: spec_is_well_known_port(c.local_port),
        is_suspicious: spec_is_suspicious_port(c.local_port),
    }
}

/// Where the first entry for `port` over `proto` stands.
pub open spec fn port_position(ports: Seq<PortEntryView>, port: i32, proto: Proto) -> Option<int>
    decreases ports.len(),
{
    if ports.len() == 0 {
        None
    } else {
        match port_position(ports.drop_last(), port, proto) {
            Some(i) => Some(i),
            None => if ports.last().port == port && ports.last().proto == proto {
                Some(ports.len() - 1)
            } else {
                None
            },
        }
    }
}

/// An entry after connection `c` on its port is counted in it: listeners
/// and established connections counted, and the first process named kept.
pub open spec fn touched_port(e: PortEntryView, c: ConnectionView) -> PortEntryView {
    let takes = e.process.len() == 0 && c.process.len() > 0;
    PortEntryView {
        port: e.port,
        proto: e.proto,
        listeners: if c.state == State::Listen { (e.listeners + 1) as i32 } else { e.listeners },
        established: if c.state == State::Established {
            (e.established + 1) as i32
        } else {
            e.established
        },
        process: if takes { c.process } else { e.process },
        pid: if takes { c.pid } else { e.pid },
        is_well_known: e.is_well_known,
        is_suspicious: e.is_suspicious,
    }
}

/// The port table after connection `c` is counted; connections without a
/// positive local port are not.
pub open spec fn port_step(ports: Seq<PortEntryView>, c: ConnectionView) -> Seq<PortEntryView> {
    if c.local_port <= 0 {
        ports
    } else {
        match port_position(ports, c.local_port, c.proto) {
            Some(i) => ports.update(i, touched_port(ports[i], c)),
            None => if ports.len() < NET_MAX_PORTS {
                let t = ports.push(new_port_view(c));
                t.update(ports.len() as int, touched_port(new_port_view(c), c))
            } else {
                ports
            },
        }
    }
}

/// The port table that connections `conns` build.
pub open spec fn ports_after(conns: Seq<ConnectionView>) -> Seq<PortEntryView>
    decreases conns.len(),
{
    if conns.len() == 0 {
        seq![]
    } else {
        port_step(ports_after(conns.drop_last()), conns.last())
    }
}

pub open spec fn ports_within(ports: Seq<PortEntryView>, n: int) -> bool {
    &&& ports.len() <= NET_MAX_PORTS
    &&& forall|k: int|
        0 <= k < ports.len() ==> 0 <= #[trigger] ports[k].listeners <= n && 0 <= ports[k].established
            <= n
}

proof fn lemma_port_position_found(ports: Seq<PortEntryView>, port: i32, proto: Proto, j: int)
    requires
        0 <= j < ports.len(),
        port_position(ports.take(j), port, proto) is None,
        ports[j].port == port && ports[j].proto == proto,
    ensures
        port_position(ports, port, proto) == Some(j),
    decreases ports.len() - j,
{
    if j == ports.len() - 1 {
        assert(ports.take(j) =~= ports.drop_last());
    } else {
        assert(ports.drop_last().take(j) =~= ports.take(j));
        lemma_port_position_found(ports.drop_last(), port, proto, j);
    }
}

proof fn lemma_port_position_range(ports: Seq<PortEntryView>, port: i32, proto: Proto)
    ensures
        port_position(ports, port, proto) matches Some(i) ==> 0 <= i < ports.len(),
    decreases ports.len(),
{
    if ports.len() > 0 {
        lemma_port_position_range(ports.drop_last(), port, proto);
    }
}

fn port_lookup(ports: &Vec<PortEntry>, port: i32, proto: Proto) -> (r: Option<usize>)
    ensures
        r == (match port_position(port_views(ports@), port, proto) {
            Some(i) => Some(i as usize),
            None => None::<usize>,
        }),
        port_position(port_views(ports@), port, proto) matches Some(i) ==> 0 <= i < ports@.len(),
{
    let ghost v = port_views(ports@);
    proof { lemma_port_position_range(v, port, proto); }
    let mut j: usize = 0;
    assert(v.take(0) =~= Seq::<PortEntryView>::empty());
    while j < ports.len()
        invariant
            j <= ports@.len(),
            v == port_views(ports@),
            port_position(v.take(j as int), port, proto) is None,
        decreases ports@.len() - j,
    {
        if ports[j].port == port && ports[j].proto.0 == proto {
            proof { lemma_port_position_found(v, port, proto, j as int); }
            return Some(j);
        }
        proof {
            assert(v.take(j as int + 1).drop_last() =~= v.take(j as int));
        }
        j += 1;
    }
    assert(v.take(j as int) =~= v);
    None
}

/// Finds or adds the entry for the local port of `c`.
fn port_slot_exec(ports: &mut Vec<PortEntry>, c: &Connection, Ghost(n): Ghost<int>) -> (r: Option<usize>)
    requires
        ports_within(port_views(old(ports)@), n),
        0 <= n,
    ensures
        ports_within(port_views(final(ports)@), n),
        r is None ==> port_views(final(ports)@) == port_views(old(ports)@) && port_position(
            port_views(old(ports)@),
            c.local_port,
            c.proto.0,
        ) is None && port_views(old(ports)@).len() >= NET_MAX_PORTS,
        r matches Some(k) ==> k < final(ports)@.len() && match port_position(
            port_views(old(ports)@),
            c.local_port,
            c.proto.0,
        ) {
            Some(i) => k == i && port_views(final(ports)@) == port_views(old(ports)@),
            None => k == old(ports)@.len() && port_views(final(ports)@) == port_views(
                old(ports)@,
            ).push(new_port_view(c@)),
        },
{
    let ghost before = port_views(ports@);
    match port_lookup(ports, c.local_port, c.proto.0) {
        Some(k) => Some(k),
        None => {
            if ports.len() < NET_MAX_PORTS {
                ports.push(
                    PortEntry {
                        port: c.local_port,
                        proto: c.proto,
                        listeners: 0,
                        established: 0,
                        process: String::new(),
                        pid: 0,
                        is_well_known: is_well_known_port(c.local_port),
                        is_suspicious: is_suspicious_port(c.local_port),
                    },
                );
                assert(port_views(ports@) =~= before.push(new_port_view(c@)));
                proof {
                    let t = port_views(ports@);
                    assert forall|j: int| 0 <= j < t.len() implies 0 <= #[trigger] t[j].listeners <= n
                        && 0 <= t[j].established <= n by {
                        if j < before.len() {
                            assert(t[j] == before[j]);
                        }
                    }
                }
                Some(ports.len() - 1)
            } else {
                None
            }
        },
    }
}

/// Counts connection `c` in entry `k`.
#[verifier::spinoff_prover]
fn touch_port_exec(ports: &mut Vec<PortEntry>, k: usize, c: &Connection, Ghost(n): Ghost<int>)
    requires
        k < old(ports)@.len(),
        0 <= n < i32::MAX,
        ports_within(port_views(old(ports)@), n),
    ensures
        port_views(final(ports)@) == port_views(old(ports)@).update(
            k as int,
            touched_port(port_views(old(ports)@)[k as int], c@),
        ),
        ports_within(port_views(final(ports)@), n + 1),
{
    let ghost t = port_views(ports@);
    assert(t[k as int].listeners <= n && t[k as int].established <= n);
    if c.state.0 == State::Listen {
        ports[k].listeners = ports[k].listeners + 1;
    }
    if c.state.0 == State::Established {
        ports[k].established = ports[k].established + 1;
    }
    if ports[k].process.as_str().is_empty() && !c.process.as_str().is_empty() {
        ports[k].process = c.process.clone();
        ports[k].pid = c.pid;
    }
    assert(port_views(ports@) =~= t.update(k as int, touched_port(t[k as int], c@)));
    proof {
        let t2 = port_views(ports@);
        assert(t2.len() == t.len());
        assert forall|j: int| 0 <= j < t2.len() implies 0 <= #[trigger] t2[j].listeners <= n + 1
            && 0 <= t2[j].established <= n + 1 by {
            if j != k {
                assert(t2[j] == t[j]);
            }
        }
    }
}

/// Counts connection `c`, the `i`-th, in the port table.
fn count_port(ports: &mut Vec<PortEntry>, c: &Connection, i: usize)
    requires
        i < 0x7fff_ffff,
        ports_within(port_views(old(ports)@), i as int),
    ensures
        port_views(final(ports)@) == port_step(port_views(old(ports)@), c@),
        ports_within(port_views(final(ports)@), i as int + 1),
{
    if c.local_port <= 0 {
        proof {
            let t = port_views(ports@);
            assert forall|j: int| 0 <= j < t.len() implies 0 <= #[trigger] t[j].listeners <= i + 1
                && 0 <= t[j].established <= i + 1 by {}
        }
        return;
    }
    match port_slot_exec(ports, c, Ghost(i as int)) {
        Some(k) => {
            touch_port_exec(ports, k, c, Ghost(i as int));
        },
        None => {
            proof {
                let t = port_views(ports@);
                assert forall|j: int| 0 <= j < t.len() implies 0 <= #[trigger] t[j].listeners <= i + 1
                    && 0 <= t[j].established <= i + 1 by {}
            }
        },
    }
}

/// Rebuilds the per-port table of the current snapshot from its
/// connections.
pub fn netinspect_aggregate_ports(ni: &mut Netinspect)
    requires
        old(ni).current.connections@.len() < 0x7fff_ffff,
    ensures
        port_views(final(ni).current.ports@) == ports_after(conn_views(old(ni).current.connections@)),
        final(ni).current.connections == old(ni).current.connections,
        final(ni).current.ips == old(ni).current.ips,
        final(ni).current.timestamp == old(ni).current.timestamp,
        final(ni).snapshots == old(ni).snapshots,
        final(ni).snapshot_index == old(ni).snapshot_index,
        final(ni).alerts == old(ni).alerts,
        final(ni).total_connections == old(ni).total_connections,
        final(ni).total_listeners == old(ni).total_listeners,
        final(ni).total_established == old(ni).total_established,
        final(ni).total_public_ips == old(ni).total_public_ips,
        final(ni).total_local_ips == old(ni).total_local_ips,
        final(ni).suspicious_count == old(ni).suspicious_count,
        final(ni).verbose == old(ni).verbose,
{
    let ghost cv = conn_views(ni.current.connections@);
    let mut ports: Vec<PortEntry> = Vec::new();
    let mut i: usize = 0;
    let n = ni.current.connections.len();
    assert(cv.take(0) =~= Seq::<ConnectionView>::empty());
    assert(port_views(ports@) =~= Seq::<PortEntryView>::empty());
    while i < n
        invariant
            n == ni.current.connections@.len(),
            n < 0x7fff_ffff,
            cv == conn_views(ni.current.connections@),
            i <= n,
            port_views(ports@) == ports_after(cv.take(i as int)),
            ports_within(port_views(ports@), i as int),
        decreases n - i,
    {
        proof {
            assert(cv.take(i as int + 1).drop_last() =~= cv.take(i as int));
            assert(cv[i as int] == ni.current.connections@[i as int]@);
        }
        count_port(&mut ports, &ni.current.connections[i], i);
        i += 1;
    }
    assert(cv.take(n as int) =~= cv);
    ni.current.ports = ports;
}


// ---------------------------------------------------------------------------
// Screening
// ---------------------------------------------------------------------------

/// Processes trusted to talk to public addresses.
pub open spec fn spec_is_safe_process(p: Seq<char>) -> bool {
    let u = upper(p);
    u == upper("sshd"@) || u == upper("httpd"@) || u == upper("nginx"@) || u == upper("apache"@)
        || u == upper("sendmail"@) || u == upper("postfix"@) || u == upper("dovecot"@) || u
        == upper("ntpd"@) || u == upper("chrome"@) || u == upper("firefox"@)
}

fn is_safe_process(p: &[char]) -> (r: bool)
    ensures
        r == spec_is_safe_process(p@),
{
    eq_ignore_case(p, "sshd") || eq_ignore_case(p, "httpd") || eq_ignore_case(p, "nginx")
        || eq_ignore_case(p, "apache") || eq_ignore_case(p, "sendmail") || eq_ignore_case(
        p,
        "postfix",
    ) || eq_ignore_case(p, "dovecot") || eq_ignore_case(p, "ntpd") || eq_ignore_case(p, "chrome")
        || eq_ignore_case(p, "firefox")
}

/// A connection with its suspicion set to `s` for `reason`.
pub open spec fn flagged_as(c: ConnectionView, s: Suspicion, reason: Seq<char>) -> ConnectionView {
    ConnectionView { suspicion: s, suspicion_reason: reason, ..c }
}

/// What screening makes of a connection: a listener on a backdoor port, a
/// wildcard listener on a high port (10001..=49151), or an established
/// connection to a public address from a process not trusted to make one is
/// flagged, with a message; any other connection keeps what it had.
pub open spec fn analyze_spec(c: ConnectionView) -> ConnectionView {
    if c.state == State::Listen && spec_is_suspicious_port(c.local_port) {
        flagged_as(
            c,
            Suspicion::UnusualPort,
            "Listener on known malware/backdoor port "@ + signed_decimal(c.local_port as int),
        )
    } else if c.state == State::Listen && c.local_is_wildcard && !spec_is_well_known_port(
        c.local_port,
    ) && c.local_port > 10000 && c.local_port < 49152 {
        flagged_as(
            c,
            Suspicion::HighPort,
            "Listening on high port "@ + signed_decimal(c.local_port as int)
                + " bound to all interfaces"@,
        )
    } else if c.state == State::Established && c.remote_is_public && !spec_is_safe_process(
        c.process,
    ) && c.process.len() > 0 {
        flagged_as(
            c,
            Suspicion::ExternalConn,
            "Connection to public IP "@ + c.remote_addr + ":"@ + signed_decimal(
                c.remote_port as int,
            ) + " from unknown process "@ + c.process,
        )
    } else {
        c
    }
}

/// Screens one connection.
pub fn analyze_connection(c: &mut Connection)
    ensures
        final(c)@ == analyze_spec(old(c)@),
{
    if c.state.0 == State::Listen && is_suspicious_port(c.local_port) {
        c.suspicion = SuspOpt(Suspicion::UnusualPort);
        let mut m = String::from_str("Listener on known malware/backdoor port ");
        push_signed(&mut m, c.local_port as i64);
        c.suspicion_reason = m;
        return;
    }
    if c.state.0 == State::Listen && c.local_is_wildcard && !is_well_known_port(c.local_port)
        && c.local_port > 10000 && c.local_port < 49152 {
        c.suspicion = SuspOpt(Suspicion::HighPort);
        let mut m = String::from_str("Listening on high port ");
        push_signed(&mut m, c.local_port as i64);
        m.append(" bound to all interfaces");
        c.suspicion_reason = m;
        return;
    }
    if c.state.0 == State::Established && c.remote_is_public {
        let p = chars_of(c.process.as_str());
        let safe = is_safe_process(&p);
        if !safe && !c.process.as_str().is_empty() {
            c.suspicion = SuspOpt(Suspicion::ExternalConn);
            let mut m = String::from_str("Connection to public IP ");
            m.append(c.remote_addr.as_str());
            m.append(":");
            push_signed(&mut m, c.remote_port as i64);
            m.append(" from unknown process ");
            m.append(c.process.as_str());
            c.suspicion_reason = m;
        }
    }
}

/// The flagged connections among `cv`, in order.
pub open spec fn flagged(cv: Seq<ConnectionView>) -> Seq<ConnectionView>
    decreases cv.len(),
{
    if cv.len() == 0 {
        seq![]
    } else {
        let prev = flagged(cv.drop_last());
        if cv.last().suspicion != Suspicion::Clean {
            prev.push(cv.last())
        } else {
            prev
        }
    }
}

proof fn lemma_flagged_le(cv: Seq<ConnectionView>)
    ensures
        flagged(cv).len() <= cv.len(),
    decreases cv.len(),
{
    if cv.len() > 0 {
        lemma_flagged_le(cv.drop_last());
    }
}

/// `a:p` for an address and port.
pub open spec fn endpoint_text(a: Seq<char>, p: i32) -> Seq<char> {
    a + ":"@ + signed_decimal(p as int)
}

/// The alert that a flagged connection raises at time `now`.
pub open spec fn alert_of(c: ConnectionView, now: i64) -> AlertView {
    AlertView {
        timestamp: now,
        kind: c.suspicion,
        message: c.suspicion_reason,
        local: endpoint_text(c.local_addr, c.local_port),
        remote: endpoint_text(c.remote_addr, c.remote_port),
        port: c.local_port,
        pid: c.pid,
        process: c.process,
    }
}

/// The alerts that flagged connections `f` raise: one each, for the first
/// `NET_MAX_ALERTS`.
pub open spec fn alerts_for(f: Seq<ConnectionView>, now: i64) -> Seq<AlertView> {
    let n: int = if f.len() <= NET_MAX_ALERTS { f.len() as int } else { NET_MAX_ALERTS as int };
    Seq::new(n as nat, |k: int| alert_of(f[k], now))
}

/// The connections after screening.
pub open spec fn analyzed(cv: Seq<ConnectionView>) -> Seq<ConnectionView> {
    cv.map_values(|c: ConnectionView| analyze_spec(c))
}

/// An address entry after screening: more than 50 connections is many.
pub open spec fn screened_ip(e: IpEntryView) -> IpEntryView {
    if e.connection_count > 50 {
        IpEntryView { suspicion: Suspicion::ManyConns, ..e }
    } else {
        e
    }
}

fn endpoint_string(a: &String, p: i32) -> (r: String)
    ensures
        r@ == endpoint_text(a@, p),
{
    let mut s = a.clone();
    s.append(":");
    push_signed(&mut s, p as i64);
    s
}

/// Screens every connection of the current snapshot at time `now`: counts
/// the flagged ones, raises an alert for each of the first
/// `NET_MAX_ALERTS`, and marks addresses with more than 50 connections.
pub fn netinspect_analyze(ni: &mut Netinspect, now: i64)
    requires
        old(ni).current.connections@.len() < 0x7fff_ffff,
    ensures
        conn_views(final(ni).current.connections@) == analyzed(conn_views(old(ni).current.connections@)),
        final(ni).suspicious_count as int == flagged(analyzed(conn_views(old(ni).current.connections@))).len(),
        alert_views(final(ni).alerts@) == alerts_for(
            flagged(analyzed(conn_views(old(ni).current.connections@))),
            now,
        ),
        ip_views(final(ni).current.ips@) == ip_views(old(ni).current.ips@).map_values(
            |e: IpEntryView| screened_ip(e),
        ),
        final(ni).current.ports == old(ni).current.ports,
        final(ni).current.timestamp == old(ni).current.timestamp,
        final(ni).snapshots == old(ni).snapshots,
        final(ni).snapshot_index == old(ni).snapshot_index,
        final(ni).total_connections == old(ni).total_connections,
        final(ni).total_listeners == old(ni).total_listeners,
        final(ni).total_established == old(ni).total_established,
        final(ni).total_public_ips == old(ni).total_public_ips,
        final(ni).total_local_ips == old(ni).total_local_ips,
        final(ni).verbose == old(ni).verbose,
{
    let ghost cv = conn_views(ni.current.connections@);
    let ghost an = analyzed(cv);
    ni.suspicious_count = 0;
    let mut alerts: Vec<Alert> = Vec::new();
    let n = ni.current.connections.len();
    let mut i: usize = 0;
    assert(an.take(0) =~= Seq::<ConnectionView>::empty());
    assert(alert_views(alerts@) =~= alerts_for(flagged(an.take(0)), now));
    while i < n
        invariant
            n == ni.current.connections@.len(),
            n < 0x7fff_ffff,
            i <= n,
            cv.len() == n,
            an == analyzed(cv),
            forall|k: int| 0 <= k < i ==> #[trigger] ni.current.connections@[k]@ == an[k],
            forall|k: int| i <= k < n ==> #[trigger] ni.current.connections@[k]@ == cv[k],
            ni.suspicious_count as int == flagged(an.take(i as int)).len(),
            alert_views(alerts@) == alerts_for(flagged(an.take(i as int)), now),
            ni.current.ports == old(ni).current.ports,
            ni.current.ips == old(ni).current.ips,
            ni.current.timestamp == old(ni).current.timestamp,
            ni.snapshots == old(ni).snapshots,
            ni.snapshot_index == old(ni).snapshot_index,
            ni.total_connections == old(ni).total_connections,
            ni.total_listeners == old(ni).total_listeners,
            ni.total_established == old(ni).total_established,
            ni.total_public_ips == old(ni).total_public_ips,
            ni.total_local_ips == old(ni).total_local_ips,
            ni.verbose == old(ni).verbose,
        decreases n - i,
    {
        let ghost f0 = flagged(an.take(i as int));
        proof {
            assert(an.take(i as int + 1).drop_last() =~= an.take(i as int));
            lemma_flagged_le(an.take(i as int));
        }
        let ghost before_conns = ni.current.connections@;
        analyze_connection(&mut ni.current.connections[i]);
        assert(ni.current.connections@[i as int]@ == an[i as int]);
        proof {
            assert forall|k: int| 0 <= k < n && k != i implies #[trigger] ni.current.connections@[k] == before_conns[k] by {}
        }
        if ni.current.connections[i].suspicion.0 != Suspicion::Clean {
            assert(flagged(an.take(i as int + 1)) == f0.push(an[i as int]));
            ni.suspicious_count = ni.suspicious_count + 1;
            if alerts.len() < NET_MAX_ALERTS {
                assert(alert_views(alerts@).len() == alerts@.len());
                assert(f0.len() < NET_MAX_ALERTS);
                let c = &ni.current.connections[i];
                let a = Alert {
                    timestamp: now,
                    kind: c.suspicion,
                    message: c.suspicion_reason.clone(),
                    local: endpoint_string(&c.local_addr, c.local_port),
                    remote: endpoint_string(&c.remote_addr, c.remote_port),
                    port: c.local_port,
                    pid: c.pid,
                    process: c.process.clone(),
                };
                let ghost old_alerts = alert_views(alerts@);
                assert(a@ == alert_of(an[i as int], now));
                alerts.push(a);
                assert(alert_views(alerts@) =~= old_alerts.push(alert_of(an[i as int], now)));
                assert(alert_views(alerts@) =~= alerts_for(flagged(an.take(i as int + 1)), now));
            } else {
                assert(alert_views(alerts@) =~= alerts_for(flagged(an.take(i as int + 1)), now));
            }
        }
        i += 1;
    }
    assert(an.take(n as int) =~= an);
    assert(conn_views(ni.current.connections@) =~= an);
    assert(cv == conn_views(old(ni).current.connections@));
    ni.alerts = alerts;
    let ghost iv = ip_views(ni.current.ips@);
    let ghost done_alerts = ni.alerts@;
    let ghost done_count = ni.suspicious_count;
    let m = ni.current.ips.len();
    let mut k: usize = 0;
    while k < m
        invariant
            m == ni.current.ips@.len(),
            k <= m,
            iv.len() == m,
            forall|j: int| 0 <= j < k ==> #[trigger] ni.current.ips@[j]@ == screened_ip(iv[j]),
            forall|j: int| k <= j < m ==> #[trigger] ni.current.ips@[j]@ == iv[j],
            conn_views(ni.current.connections@) == an,
            ni.alerts@ == done_alerts,
            ni.suspicious_count == done_count,
            ni.current.ports == old(ni).current.ports,
            ni.current.timestamp == old(ni).current.timestamp,
            ni.snapshots == old(ni).snapshots,
            ni.snapshot_index == old(ni).snapshot_index,
            ni.total_connections == old(ni).total_connections,
            ni.total_listeners == old(ni).total_listeners,
            ni.total_established == old(ni).total_established,
            ni.total_public_ips == old(ni).total_public_ips,
            ni.total_local_ips == old(ni).total_local_ips,
            ni.verbose == old(ni).verbose,
        decreases m - k,
    {
        let ghost before_ips = ni.current.ips@;
        assert(before_ips[k as int]@ == iv[k as int]);
        if ni.current.ips[k].connection_count > 50 {
            ni.current.ips[k].suspicion = SuspOpt(Suspicion::ManyConns);
        }
        assert(ni.current.ips@[k as int]@ == screened_ip(iv[k as int]));
        proof {
            assert forall|j: int| 0 <= j < m && j != k implies #[trigger] ni.current.ips@[j] == before_ips[j] by {}
        }
        k += 1;
    }
    assert(ip_views(ni.current.ips@) =~= iv.map_values(|e: IpEntryView| screened_ip(e)));
}


// ---------------------------------------------------------------------------
// Reporting
// ---------------------------------------------------------------------------

pub open spec fn net_category() -> Seq<char> {
    "Network-Deep"@
}

/// The critical results that the first ten alerts raise: one for each
/// alert of a backdoor port or a blacklisted peer.
pub open spec fn critical_alert_results(alerts: Seq<AlertView>) -> Seq<ResultView>
    decreases alerts.len(),
{
    if alerts.len() == 0 {
        seq![]
    } else {
        let prev = critical_alert_results(alerts.drop_last());
        let a = alerts.last();
        if a.kind == Suspicion::UnusualPort || a.kind == Suspicion::Blacklisted {
            prev.push(
                rv(
                    net_category(),
                    spec_suspicion_string(a.kind)@,
                    a.message,
                    Severity::Critical,
                    Status::Fail,
                    "Investigate immediately"@,
                ),
            )
        } else {
            prev
        }
    }
}

/// The results that a network inspection reports: a summary of the
/// connections and of the addresses, then either the count of suspicious
/// items and the critical alerts among the first ten, or that nothing
/// suspicious was seen.
pub open spec fn report_results(
    total_connections: i32,
    total_listeners: i32,
    total_established: i32,
    total_local_ips: i32,
    total_public_ips: i32,
    alerts: Seq<AlertView>,
) -> Seq<ResultView> {
    let summary = signed_decimal(total_connections as int) + " connections, "@ + signed_decimal(
        total_listeners as int,
    ) + " listeners, "@ + signed_decimal(total_established as int) + " established"@;
    let ips = signed_decimal(total_local_ips as int) + " local, "@ + signed_decimal(
        total_public_ips as int,
    ) + " public"@;
    let head = seq![
        rv(net_category(), "Connection Summary"@, summary, Severity::Info, Status::Pass, Seq::<char>::empty()),
        rv(net_category(), "Unique IPs"@, ips, Severity::Info, Status::Pass, Seq::<char>::empty()),
    ];
    if alerts.len() > 0 {
        let first = if alerts.len() <= 10 { alerts } else { alerts.take(10) };
        head + seq![
            rv(
                net_category(),
                "Suspicious Activity"@,
                decimal(alerts.len()) + " suspicious items detected"@,
                Severity::Warning,
                Status::Warn,
                "Review network alerts for details"@,
            ),
        ] + critical_alert_results(first)
    } else {
        head + seq![
            rv(
                net_category(),
                "Network Analysis"@,
                "No suspicious network activity"@,
                Severity::Info,
                Status::Pass,
                Seq::<char>::empty(),
            ),
        ]
    }
}

/// Records what the network inspection found as results of the scan.
pub fn netinspect_report(ni: &Netinspect, s: &mut Syssec)
    requires
        old(s).wf(),
    ensures
        final(s).wf(),
        final(s).results_view() == appended(
            old(s).results_view(),
            report_results(
                ni.total_connections,
                ni.total_listeners,
                ni.total_established,
                ni.total_local_ips,
                ni.total_public_ips,
                alert_views(ni.alerts@),
            ),
        ),
{
    let ghost base = s.results_view();
    proof { lemma_appended_empty(base); }
    let mut summary = String::new();
    push_signed(&mut summary, ni.total_connections as i64);
    summary.append(" connections, ");
    push_signed(&mut summary, ni.total_listeners as i64);
    summary.append(" listeners, ");
    push_signed(&mut summary, ni.total_established as i64);
    summary.append(" established");
    s.add_planned(
        "Network-Deep",
        "Connection Summary",
        summary.as_str(),
        Severity::Info,
        Status::Pass,
        None,
        Ghost(base),
        Ghost(Seq::<ResultView>::empty()),
    );
    let ghost p1 = seq![
        rv(net_category(), "Connection Summary"@, summary@, Severity::Info, Status::Pass, Seq::<char>::empty()),
    ];
    assert(Seq::<ResultView>::empty().push(p1[0]) =~= p1);
    let mut ips = String::new();
    push_signed(&mut ips, ni.total_local_ips as i64);
    ips.append(" local, ");
    push_signed(&mut ips, ni.total_public_ips as i64);
    ips.append(" public");
    s.add_planned(
        "Network-Deep",
        "Unique IPs",
        ips.as_str(),
        Severity::Info,
        Status::Pass,
        None,
        Ghost(base),
        Ghost(p1),
    );
    let ghost p2 = p1.push(rv(net_category(), "Unique IPs"@, ips@, Severity::Info, Status::Pass, Seq::<char>::empty()));
    let ghost av = alert_views(ni.alerts@);
    if ni.alerts.len() > 0 {
        let mut buf = String::new();
        push_decimal(&mut buf, ni.alerts.len() as u64);
        buf.append(" suspicious items detected");
        s.add_planned(
            "Network-Deep",
            "Suspicious Activity",
            buf.as_str(),
            Severity::Warning,
            Status::Warn,
            Some("Review network alerts for details"),
            Ghost(base),
            Ghost(p2),
        );
        let ghost p3 = p2.push(
            rv(
                net_category(),
                "Suspicious Activity"@,
                buf@,
                Severity::Warning,
                Status::Warn,
                "Review network alerts for details"@,
            ),
        );
        let limit: usize = if ni.alerts.len() < 10 { ni.alerts.len() } else { 10 };
        let ghost first = if av.len() <= 10 { av } else { av.take(10) };
        let mut k: usize = 0;
        assert(first.take(0) =~= Seq::<AlertView>::empty());
        assert(p3 + critical_alert_results(first.take(0)) =~= p3);
        while k < limit
            invariant
                limit == first.len(),
                limit <= ni.alerts@.len(),
                av == alert_views(ni.alerts@),
                first == (if av.len() <= 10 { av } else { av.take(10) }),
                k <= limit,
                s.wf(),
                base.len() <= MAX_RESULTS,
                s.results_view() == appended(base, p3 + critical_alert_results(first.take(k as int))),
            decreases limit - k,
        {
            let a = &ni.alerts[k];
            proof {
                assert(first.take(k as int + 1).drop_last() =~= first.take(k as int));
                assert(first[k as int] == a@);
            }
            if a.kind.0 == Suspicion::UnusualPort || a.kind.0 == Suspicion::Blacklisted {
                let ghost planned = p3 + critical_alert_results(first.take(k as int));
                s.add_planned(
                    "Network-Deep",
                    suspicion_string(a.kind.0),
                    a.message.as_str(),
                    Severity::Critical,
                    Status::Fail,
                    Some("Investigate immediately"),
                    Ghost(base),
                    Ghost(planned),
                );
                assert(planned.push(
                    rv(
                        net_category(),
                        spec_suspicion_string(a.kind.0)@,
                        a.message@,
                        Severity::Critical,
                        Status::Fail,
                        "Investigate immediately"@,
                    ),
                ) =~= p3 + critical_alert_results(first.take(k as int + 1)));
            }
            k += 1;
        }
        assert(first.take(k as int) =~= first);
        assert(p3 =~= seq![
            rv(net_category(), "Connection Summary"@, summary@, Severity::Info, Status::Pass, Seq::<char>::empty()),
            rv(net_category(), "Unique IPs"@, ips@, Severity::Info, Status::Pass, Seq::<char>::empty()),
        ] + seq![
            rv(
                net_category(),
                "Suspicious Activity"@,
                buf@,
                Severity::Warning,
                Status::Warn,
                "Review network alerts for details"@,
            ),
        ]);
    } else {
        s.add_planned(
            "Network-Deep",
            "Network Analysis",
            "No suspicious network activity",
            Severity::Info,
            Status::Pass,
            None,
            Ghost(base),
            Ghost(p2),
        );
    }
}

// ---------------------------------------------------------------------------
// Comparing snapshots
// ---------------------------------------------------------------------------

/// Whether a connection like `c` (same local port, remote port and remote
/// address) is among `prev`.
pub open spec fn seen_before(c: ConnectionView, prev: Seq<ConnectionView>) -> bool {
    exists|j: int|
        0 <= j < prev.len() && #[trigger] prev[j].local_port == c.local_port && prev[j].remote_port
            == c.remote_port && prev[j].remote_addr == c.remote_addr
}

/// How many of `curr` were not seen in `prev`.
pub open spec fn new_connection_count(curr: Seq<ConnectionView>, prev: Seq<ConnectionView>) -> nat
    decreases curr.len(),
{
    if curr.len() == 0 {
        0
    } else {
        new_connection_count(curr.drop_last(), prev) + if seen_before(curr.last(), prev) {
            0nat
        } else {
            1nat
        }
    }
}

proof fn lemma_new_count_le(curr: Seq<ConnectionView>, prev: Seq<ConnectionView>)
    ensures
        new_connection_count(curr, prev) <= curr.len(),
    decreases curr.len(),
{
    if curr.len() > 0 {
        lemma_new_count_le(curr.drop_last(), prev);
    }
}

fn was_seen(c: &Connection, prev: &Vec<Connection>) -> (r: bool)
    ensures
        r == seen_before(c@, conn_views(prev@)),
{
    let ghost pv = conn_views(prev@);
    let mut j: usize = 0;
    while j < prev.len()
        invariant
            j <= prev@.len(),
            pv == conn_views(prev@),
            forall|k: int|
                0 <= k < j ==> !(#[trigger] pv[k].local_port == c@.local_port && pv[k].remote_port
                    == c@.remote_port && pv[k].remote_addr == c@.remote_addr),
        decreases prev@.len() - j,
    {
        let p = &prev[j];
        if c.local_port == p.local_port && c.remote_port == p.remote_port && c.remote_addr
            == p.remote_addr {
            assert(pv[j as int].local_port == c@.local_port);
            return true;
        }
        j += 1;
    }
    false
}

/// Where the snapshot before the current one is kept.
pub open spec fn spec_prev_index(snapshot_index: i32) -> int {
    (snapshot_index - 1 + NET_MAX_SNAPSHOTS) % (NET_MAX_SNAPSHOTS as int)
}

/// Compares the current snapshot with the one kept before it: how many
/// connections each holds, and how many of the current ones are new. There
/// is nothing to compare while fewer than two snapshots are kept.
pub fn netinspect_diff_snapshots(ni: &Netinspect) -> (r: Option<(usize, usize, usize)>)
    requires
        ni.snapshots@.len() >= 2 ==> i32::MIN < ni.snapshot_index <= i32::MAX - 15
            && spec_prev_index(ni.snapshot_index) < ni.snapshots@.len(),
    ensures
        ni.snapshots@.len() < 2 ==> r is None,
        ni.snapshots@.len() >= 2 ==> r == Some(
            (
                ni.snapshots@[spec_prev_index(ni.snapshot_index)].connections@.len() as usize,
                ni.current.connections@.len() as usize,
                new_connection_count(
                    conn_views(ni.current.connections@),
                    conn_views(ni.snapshots@[spec_prev_index(ni.snapshot_index)].connections@),
                ) as usize,
            ),
        ),
{
    if ni.snapshots.len() < 2 {
        return None;
    }
    let shifted: i32 = ni.snapshot_index - 1 + 16;
    let prev_idx: usize = if shifted >= 0 {
        (shifted as usize) % NET_MAX_SNAPSHOTS
    } else {
        let a: u64 = (-(shifted as i64)) as u64;
        ((16 - a % 16) % 16) as usize
    };
    assert(prev_idx as int == spec_prev_index(ni.snapshot_index));
    let prev = &ni.snapshots[prev_idx];
    let curr = &ni.current;
    let ghost cv = conn_views(curr.connections@);
    let ghost pv = conn_views(prev.connections@);
    let mut new_conns: usize = 0;
    let mut i: usize = 0;
    assert(cv.take(0) =~= Seq::<ConnectionView>::empty());
    while i < curr.connections.len()
        invariant
            i <= curr.connections@.len(),
            cv == conn_views(curr.connections@),
            pv == conn_views(prev.connections@),
            new_conns as int == new_connection_count(cv.take(i as int), pv),
        decreases curr.connections@.len() - i,
    {
        proof {
            assert(cv.take(i as int + 1).drop_last() =~= cv.take(i as int));
            lemma_new_count_le(cv.take(i as int), pv);
            assert(cv[i as int] == curr.connections@[i as int]@);
        }
        if !was_seen(&curr.connections[i], &prev.connections) {
            new_conns = new_conns + 1;
        }
        i += 1;
    }
    assert(cv.take(i as int) =~= cv);
    Some((prev.connections.len(), curr.connections.len(), new_conns))
}


/// Finds the entry of the snapshot's address table for `addr`, adding one
/// at time `now` if there is none and room for one. An empty address has
/// no entry.
pub fn find_or_add_ip(snap: &mut Snapshot, addr: &str, now: i64) -> (r: Option<usize>)
    ensures
        addr@.len() == 0 ==> r is None && ip_views(final(snap).ips@) == ip_views(old(snap).ips@),
        addr@.len() > 0 ==> (ip_views(final(snap).ips@), match r {
            Some(i) => Some(i as int),
            None => None::<int>,
        }) == ip_slot(ip_views(old(snap).ips@), addr@, now),
        final(snap).connections == old(snap).connections,
        final(snap).ports == old(snap).ports,
        final(snap).timestamp == old(snap).timestamp,
{
    if addr.is_empty() {
        return None;
    }
    let a = addr.to_owned();
    if snap.ips.len() > NET_MAX_UNIQUE_IPS {
        return ip_lookup(&snap.ips, &a);
    }
    ip_slot_exec(&mut snap.ips, &a, now)
}

/// How the address column of an entry is labelled.
pub fn ip_kind_label(ip: &IpEntry) -> (r: &'static str)
    ensures
        r == (if ip.is_public { "PUBLIC" } else { "LOCAL" }),
{
    if ip.is_public {
        "PUBLIC"
    } else {
        "LOCAL"
    }
}

/// The ports column of an address entry: its first five ports separated by
/// commas, then `...` if there are more.
pub open spec fn ports_text(ports: Seq<i32>) -> Seq<char>
    decreases ports.len(),
{
    if ports.len() > 5 {
        ports_text(ports.take(5)) + "..."@
    } else if ports.len() == 0 {
        Seq::<char>::empty()
    } else if ports.len() == 1 {
        signed_decimal(ports[0] as int)
    } else {
        ports_text(ports.drop_last()) + ","@ + signed_decimal(ports.last() as int)
    }
}

pub fn ports_summary(ports: &Vec<i32>) -> (r: String)
    ensures
        r@ == ports_text(ports@),
{
    let mut out = String::new();
    let n: usize = if ports.len() < 5 { ports.len() } else { 5 };
    let mut i: usize = 0;
    while i < n
        invariant
            n <= ports@.len(),
            n <= 5,
            i <= n,
            out@ == ports_text(ports@.take(i as int)),
        decreases n - i,
    {
        proof {
            assert(ports@.take(i as int + 1).drop_last() =~= ports@.take(i as int));
        }
        if i > 0 {
            out.append(",");
        }
        push_signed(&mut out, ports[i] as i64);
        proof {
            if i == 0 {
                reveal_strlit("");
            }
        }
        i += 1;
        assert(out@ =~= ports_text(ports@.take(i as int)));
    }
    if ports.len() > 5 {
        out.append("...");
        assert(ports@.take(5).take(5) =~= ports@.take(5));
    } else {
        assert(ports@.take(n as int) =~= ports@);
    }
    out
}

/// How a port entry is highlighted: a backdoor port as an alarm, a
/// listener outside the well-known range as a warning.
#[derive(Copy, Clone, Debug, PartialEq, Eq, Structural)]
pub enum Highlight {
    Alarm,
    Caution,
    Plain,
}

pub fn port_highlight(p: &PortEntry) -> (r: Highlight)
    ensures
        r == (if p.is_suspicious {
            Highlight::Alarm
        } else if !p.is_well_known && p.listeners > 0 {
            Highlight::Caution
        } else {
            Highlight::Plain
        }),
{
    if p.is_suspicious {
        Highlight::Alarm
    } else if !p.is_well_known && p.listeners > 0 {
        Highlight::Caution
    } else {
        Highlight::Plain
    }
}

// ---------------------------------------------------------------------------
// What the inspection concludes
// ---------------------------------------------------------------------------

/// An address is public unless it is private or special: the empty text is
/// not; an IPv6 address (one with a colon) is public unless it is loopback
/// (`::1`), link-local (`fe80:`) or unique-local (`fc00:`, `fd`); a dotted
/// IPv4 address of four parts whose first two parts read `x` and `y` is
/// public unless it is in 10/8, 172.16/12, 192.168/16, 127/8, 167.254/16,
/// 0/8, or 224/3 and above; any other text is not public.
pub proof fn lemma_public_address(a: Seq<char>)
    ensures
        a.len() == 0 ==> !spec_is_public_ip(a),
        a.len() > 0 && a.contains(':') ==> (spec_is_public_ip(a) <==> !(has_prefix(a, "::1"@) || has_prefix(
            a,
            "fe80:"@,
        ) || has_prefix(a, "fc00:"@) || has_prefix(a, "fd"@))),
        a.len() > 0 && !a.contains(':') ==> ({
            let parts = spec_split(a, '.');
            &&& parts.len() != 4 ==> !spec_is_public_ip(a)
            &&& parts.len() == 4 ==> match (spec_parse_u32(parts[0]), spec_parse_u32(parts[1])) {
                (Some(x), Some(y)) => spec_is_public_ip(a) <==> !(x == 10 || (x == 172 && 16 <= y && y <= 31)
                    || (x == 192 && y == 168) || x == 127 || (x == 167 && y == 254) || x == 0 || x >= 224),
                _ => !spec_is_public_ip(a),
            }
        }),
{
}

/// The ports known from malware and backdoors are exactly these seventeen.
pub proof fn lemma_backdoor_ports(p: i32)
    ensures
        spec_is_suspicious_port(p) <==> (p == 1337 || p == 4444 || p == 4445 || p == 5555 || p == 6666
            || p == 6667 || p == 6668 || p == 7777 || p == 8888 || p == 9999 || p == 11111 || p == 12345
            || p == 22222 || p == 31337 || p == 31338 || p == 33333 || p == 54321),
        spec_is_well_known_port(p) <==> 1 <= p <= 1023,
{
}

/// Screening a connection changes at most its suspicion and reason. A
/// listener on a backdoor port is flagged as such; otherwise a listener
/// bound to all interfaces on a port from 10001 to 49151 is flagged as a
/// high port; otherwise an established connection to a public address by a
/// named process not trusted to make one is flagged as external; any other
/// connection is left as it was.
pub proof fn lemma_screening(c: ConnectionView)
    ensures
        ({
            let r = analyze_spec(c);
            let backdoor = c.state == State::Listen && spec_is_suspicious_port(c.local_port);
            let high = c.state == State::Listen && c.local_is_wildcard && 10000 < c.local_port < 49152;
            let external = c.state == State::Established && c.remote_is_public && c.process.len() > 0
                && !spec_is_safe_process(c.process);
            &&& r == ConnectionView { suspicion: r.suspicion, suspicion_reason: r.suspicion_reason, ..c }
            &&& backdoor ==> r.suspicion == Suspicion::UnusualPort
            &&& !backdoor && high ==> r.suspicion == Suspicion::HighPort
            &&& !backdoor && !high && external ==> r.suspicion == Suspicion::ExternalConn
            &&& !backdoor && !high && !external ==> r == c
        }),
{
}

proof fn lemma_critical_alerts_count(alerts: Seq<AlertView>)
    ensures
        critical_alert_results(alerts).len() == alerts.filter(
            |a: AlertView| a.kind == Suspicion::UnusualPort || a.kind == Suspicion::Blacklisted,
        ).len(),
        forall|j: int| 0 <= j < critical_alert_results(alerts).len() ==> (#[trigger] critical_alert_results(alerts)[j]).severity
            == Severity::Critical && critical_alert_results(alerts)[j].status == Status::Fail,
    decreases alerts.len(),
{
    reveal(Seq::filter);
    if alerts.len() > 0 {
        lemma_critical_alerts_count(alerts.drop_last());
    }
}

/// The network report: the connection and address summaries pass; with no
/// alerts a third result passes and nothing else follows; with alerts a
/// third result warns, followed by one critical failure for each alert of
/// a backdoor port or a blacklisted peer among the first ten alerts.
pub proof fn lemma_network_report(
    total_connections: i32,
    total_listeners: i32,
    total_established: i32,
    total_local_ips: i32,
    total_public_ips: i32,
    alerts: Seq<AlertView>,
)
    ensures
        ({
            let r = report_results(total_connections, total_listeners, total_established, total_local_ips, total_public_ips, alerts);
            let first = if alerts.len() <= 10 { alerts } else { alerts.take(10) };
            let serious = first.filter(|a: AlertView| a.kind == Suspicion::UnusualPort || a.kind == Suspicion::Blacklisted);
            &&& r[0].status == Status::Pass && r[1].status == Status::Pass
            &&& alerts.len() == 0 ==> r.len() == 3 && r[2].status == Status::Pass
            &&& alerts.len() > 0 ==> r.len() == 3 + serious.len() && r[2].status == Status::Warn
                && r[2].severity == Severity::Warning
            &&& alerts.len() > 0 ==> forall|j: int| 3 <= j < r.len() ==> (#[trigger] r[j]).severity == Severity::Critical
                && r[j].status == Status::Fail
        }),
{
    let first = if alerts.len() <= 10 { alerts } else { alerts.take(10) };
    lemma_critical_alerts_count(first);
    let r = report_results(total_connections, total_listeners, total_established, total_local_ips, total_public_ips, alerts);
    if alerts.len() > 0 {
        assert forall|j: int| 3 <= j < r.len() implies (#[trigger] r[j]).severity == Severity::Critical
            && r[j].status == Status::Fail by {
            assert(r[j] == critical_alert_results(first)[j - 3]);
        }
    }
}

/// A state column names its state in any letter case: it is LISTEN,
/// ESTABLISHED, TIME_WAIT, CLOSE_WAIT, SYN_SENT, SYN_RECV, FIN_WAIT1,
/// FIN_WAIT2, LAST_ACK or CLOSED exactly when its upper-case form is that
/// word, and unknown otherwise.
pub proof fn lemma_state_names(s: Seq<char>)
    ensures
        (spec_parse_state(s) == State::Listen) <==> upper(s) == "LISTEN"@,
        (spec_parse_state(s) == State::Established) <==> upper(s) == "ESTABLISHED"@,
        (spec_parse_state(s) == State::TimeWait) <==> upper(s) == "TIME_WAIT"@,
        (spec_parse_state(s) == State::CloseWait) <==> upper(s) == "CLOSE_WAIT"@,
        (spec_parse_state(s) == State::SynSent) <==> upper(s) == "SYN_SENT"@,
        (spec_parse_state(s) == State::SynRecv) <==> upper(s) == "SYN_RECV"@,
        (spec_parse_state(s) == State::FinWait1) <==> upper(s) == "FIN_WAIT1"@,
        (spec_parse_state(s) == State::FinWait2) <==> upper(s) == "FIN_WAIT2"@,
        (spec_parse_state(s) == State::LastAck) <==> upper(s) == "LAST_ACK"@,
        (spec_parse_state(s) == State::Closed) <==> upper(s) == "CLOSED"@,
{
    reveal_strlit("LISTEN");
    reveal_strlit("ESTABLISHED");
    reveal_strlit("TIME_WAIT");
    reveal_strlit("CLOSE_WAIT");
    reveal_strlit("SYN_SENT");
    reveal_strlit("SYN_RECV");
    reveal_strlit("FIN_WAIT1");
    reveal_strlit("FIN_WAIT2");
    reveal_strlit("LAST_ACK");
    reveal_strlit("CLOSED");
    assert("LISTEN"@.len() == 6 && "CLOSED"@.len() == 6 && "ESTABLISHED"@.len() == 11);
    assert("TIME_WAIT"@.len() == 9 && "FIN_WAIT1"@.len() == 9 && "FIN_WAIT2"@.len() == 9);
    assert("CLOSE_WAIT"@.len() == 10);
    assert("SYN_SENT"@.len() == 8 && "SYN_RECV"@.len() == 8 && "LAST_ACK"@.len() == 8);
    assert("LISTEN"@[0] != "CLOSED"@[0]);
    assert("TIME_WAIT"@[0] != "FIN_WAIT1"@[0] && "TIME_WAIT"@[0] != "FIN_WAIT2"@[0]);
    assert("FIN_WAIT1"@[8] != "FIN_WAIT2"@[8]);
    assert("SYN_SENT"@[0] != "LAST_ACK"@[0] && "SYN_RECV"@[0] != "LAST_ACK"@[0]);
    assert("SYN_SENT"@[4] != "SYN_RECV"@[4]);
}

/// An endpoint without brackets splits at its last colon: the address is
/// what comes before it and the port what comes after, read as a number (0
/// when it does not read as one); without a colon the whole text is the
/// address, with port 0.
pub proof fn lemma_endpoint_split(s: Seq<char>)
    requires
        s.len() > 0,
        s[0] != '[',
    ensures
        spec_rfind(s, ':') is None ==> spec_split_endpoint(s) == (s, 0i32),
        spec_rfind(s, ':') matches Some(i) ==> {
            &&& spec_split_endpoint(s).0 + ":"@ + s.skip(i + 1) == s
            &&& spec_split_endpoint(s).1 == match spec_parse_i32(s.skip(i + 1)) {
                Some(p) => p,
                None => 0i32,
            }
        },
{
    reveal_strlit(":");
    if let Some(i) = spec_rfind(s, ':') {
        crate::text::lemma_rfind_range(s, ':');
        assert(spec_split_endpoint(s).0 + ":"@ + s.skip(i + 1) =~= s);
    }
}

/// A `sockstat` line of at least seven columns describes one connection:
/// the process is the second column and its id the third (0 when not a
/// number), the protocol the fifth, the local and remote endpoints the
/// sixth and seventh, the state the eighth when there is one; it is first
/// and last seen now, seen once, and not yet suspicious. A shorter line
/// describes none.
pub proof fn lemma_sockstat_columns(line: Seq<char>, now: i64)
    ensures
        ({
            let f = spec_words(line);
            &&& f.len() < 7 ==> spec_parse_sockstat_line(line, now) is None
            &&& f.len() >= 7 ==> (spec_parse_sockstat_line(line, now) matches Some(c) && {
                &&& c.process == f[1]
                &&& c.pid == (match spec_parse_i32(f[2]) {
                    Some(p) => p,
                    None => 0i32,
                })
                &&& c.proto == spec_proto_of(f[4])
                &&& (c.local_addr, c.local_port) == spec_split_endpoint(f[5])
                &&& (c.remote_addr, c.remote_port) == spec_split_endpoint(f[6])
                &&& c.state == spec_parse_state(if f.len() > 7 { f[7] } else { Seq::empty() })
                &&& c.local_is_wildcard == (c.local_addr == "*"@ || c.local_addr == "0.0.0.0"@ || c.local_addr
                    == "::"@ || c.local_addr.len() == 0)
                &&& c.remote_is_public == spec_is_public_ip(c.remote_addr)
                &&& c.first_seen == now && c.last_seen == now && c.seen_count == 1
                &&& c.suspicion == Suspicion::Clean
            })
        }),
{
}

/// Protocol columns: `tcp4` and `udp4` are IPv4 TCP and UDP, `tcp6` and
/// `udp6` their IPv6 kin, and any other is unknown.
pub proof fn lemma_protocol_names(s: Seq<char>)
    ensures
        (spec_proto_of(s) == Proto::Tcp) <==> s == "tcp4"@,
        (spec_proto_of(s) == Proto::Udp) <==> s == "udp4"@,
        (spec_proto_of(s) == Proto::Tcp6) <==> s == "tcp6"@,
        (spec_proto_of(s) == Proto::Udp6) <==> s == "udp6"@,
{
    reveal_strlit("tcp4");
    reveal_strlit("udp4");
    reveal_strlit("tcp6");
    reveal_strlit("udp6");
    assert("tcp4"@.len() == 4 && "udp4"@.len() == 4 && "tcp6"@.len() == 4 && "udp6"@.len() == 4);
    assert("tcp4"@[0] != "udp4"@[0] && "tcp6"@[0] != "udp6"@[0] && "tcp4"@[0] != "udp6"@[0]
        && "udp4"@[0] != "tcp6"@[0]);
    assert("tcp4"@[3] != "tcp6"@[3] && "udp4"@[3] != "udp6"@[3]);
}

/// No two entries of the address table share an address, and each entry
/// is public exactly when its address is, local otherwise.
pub open spec fn ip_table_sound(ips: Seq<IpEntryView>) -> bool {
    &&& forall|i: int, j: int| 0 <= i < j < ips.len() ==> #[trigger] ips[i].addr != #[trigger] ips[j].addr
    &&& forall|k: int| 0 <= k < ips.len() ==> (#[trigger] ips[k]).is_public == spec_is_public_ip(ips[k].addr)
        && ips[k].is_local == !ips[k].is_public
}

proof fn lemma_ip_position_spec(ips: Seq<IpEntryView>, a: Seq<char>)
    ensures
        ip_position(ips, a) is None <==> forall|k: int| 0 <= k < ips.len() ==> (#[trigger] ips[k]).addr != a,
        ip_position(ips, a) matches Some(i) ==> 0 <= i < ips.len() && ips[i].addr == a,
    decreases ips.len(),
{
    if ips.len() > 0 {
        let pre = ips.drop_last();
        lemma_ip_position_spec(pre, a);
        assert forall|k: int| 0 <= k < pre.len() implies #[trigger] pre[k] == ips[k] by {}
        if ip_position(pre, a) is None && ips.last().addr != a {
            assert forall|k: int| 0 <= k < ips.len() implies (#[trigger] ips[k]).addr != a by {
                if k < pre.len() {
                    assert(pre[k] == ips[k]);
                }
            }
        }
    }
}

proof fn lemma_ip_slot_sound(ips: Seq<IpEntryView>, a: Seq<char>, now: i64)
    requires
        ip_table_sound(ips),
    ensures
        ip_table_sound(ip_slot(ips, a, now).0),
        ip_slot(ips, a, now).1 matches Some(i) ==> 0 <= i < ip_slot(ips, a, now).0.len() && ip_slot(ips, a, now).0[i].addr
            == a,
        ip_slot(ips, a, now).0.len() <= ips.len() + 1,
{
    lemma_ip_position_spec(ips, a);
    if ip_position(ips, a) is None && ips.len() < NET_MAX_UNIQUE_IPS {
        let t = ips.push(new_ip_view(a, now));
        assert forall|i: int, j: int| 0 <= i < j < t.len() implies #[trigger] t[i].addr != #[trigger] t[j].addr by {
            if j == ips.len() {
                assert(ips[i].addr != a);
            } else {
                assert(t[i] == ips[i] && t[j] == ips[j]);
            }
        }
        assert forall|k: int| 0 <= k < t.len() implies (#[trigger] t[k]).is_public == spec_is_public_ip(t[k].addr)
            && t[k].is_local == !t[k].is_public by {
            if k < ips.len() {
                assert(t[k] == ips[k]);
            }
        }
    }
}

proof fn lemma_touch_sound(t: Seq<IpEntryView>, i: int, e: IpEntryView)
    requires
        ip_table_sound(t),
        0 <= i < t.len(),
        e.addr == t[i].addr && e.is_public == t[i].is_public && e.is_local == t[i].is_local,
    ensures
        ip_table_sound(t.update(i, e)),
{
    let u = t.update(i, e);
    assert forall|a: int, b: int| 0 <= a < b < u.len() implies #[trigger] u[a].addr != #[trigger] u[b].addr by {
        assert(u[a].addr == t[a].addr && u[b].addr == t[b].addr);
    }
    assert forall|k: int| 0 <= k < u.len() implies (#[trigger] u[k]).is_public == spec_is_public_ip(u[k].addr)
        && u[k].is_local == !u[k].is_public by {
        assert(u[k].addr == t[k].addr && u[k].is_public == t[k].is_public && u[k].is_local == t[k].is_local);
    }
}

proof fn lemma_ip_step_sound(ips: Seq<IpEntryView>, c: ConnectionView, now: i64)
    requires
        ip_table_sound(ips),
    ensures
        ip_table_sound(ip_step(ips, c, now)),
{
    if !c.local_is_wildcard {
        let ips1 = if c.local_addr.len() > 0 {
            let (t, idx) = ip_slot(ips, c.local_addr, now);
            lemma_ip_slot_sound(ips, c.local_addr, now);
            match idx {
                Some(i) => {
                    lemma_touch_sound(t, i, touched_local(t[i], c, now));
                    t.update(i, touched_local(t[i], c, now))
                },
                None => t,
            }
        } else {
            ips
        };
        assert(ip_table_sound(ips1));
        if counts_remote(c.remote_addr) {
            let (t, idx) = ip_slot(ips1, c.remote_addr, now);
            lemma_ip_slot_sound(ips1, c.remote_addr, now);
            if let Some(i) = idx {
                lemma_touch_sound(t, i, touched_remote(t[i], now));
            }
        }
    }
}

/// The address table that any connections build lists each address at
/// most once, and marks each entry public exactly when its address is a
/// public one (local otherwise).
pub proof fn lemma_ip_table_sound(conns: Seq<ConnectionView>, now: i64)
    ensures
        ip_table_sound(ips_after(conns, now)),
    decreases conns.len(),
{
    if conns.len() > 0 {
        lemma_ip_table_sound(conns.drop_last(), now);
        lemma_ip_step_sound(ips_after(conns.drop_last(), now), conns.last(), now);
    }
}

/// No two entries of the port table share a port and protocol, every entry
/// is for a positive port, and its well-known and backdoor marks are those
/// of its port.
pub open spec fn port_table_sound(ports: Seq<PortEntryView>) -> bool {
    &&& forall|i: int, j: int|
        0 <= i < j < ports.len() ==> !(#[trigger] ports[i].port == #[trigger] ports[j].port && ports[i].proto
            == ports[j].proto)
    &&& forall|k: int|
        0 <= k < ports.len() ==> {
            &&& (#[trigger] ports[k]).port > 0
            &&& ports[k].is_well_known == spec_is_well_known_port(ports[k].port)
            &&& ports[k].is_suspicious == spec_is_suspicious_port(ports[k].port)
        }
}

proof fn lemma_port_position_spec(ports: Seq<PortEntryView>, port: i32, proto: Proto)
    ensures
        port_position(ports, port, proto) is None <==> forall|k: int|
            0 <= k < ports.len() ==> !((#[trigger] ports[k]).port == port && ports[k].proto == proto),
        port_position(ports, port, proto) matches Some(i) ==> 0 <= i < ports.len() && ports[i].port == port
            && ports[i].proto == proto,
    decreases ports.len(),
{
    if ports.len() > 0 {
        let pre = ports.drop_last();
        lemma_port_position_spec(pre, port, proto);
        assert forall|k: int| 0 <= k < pre.len() implies #[trigger] pre[k] == ports[k] by {}
        if port_position(pre, port, proto) is None && !(ports.last().port == port && ports.last().proto == proto) {
            assert forall|k: int| 0 <= k < ports.len() implies !((#[trigger] ports[k]).port == port
                && ports[k].proto == proto) by {
                if k < pre.len() {
                    assert(pre[k] == ports[k]);
                }
            }
        }
    }
}

proof fn lemma_port_step_sound(ports: Seq<PortEntryView>, c: ConnectionView)
    requires
        port_table_sound(ports),
    ensures
        port_table_sound(port_step(ports, c)),
{
    if c.local_port > 0 {
        lemma_port_position_spec(ports, c.local_port, c.proto);
        let r = port_step(ports, c);
        match port_position(ports, c.local_port, c.proto) {
            Some(i) => {
                assert forall|a: int, b: int| 0 <= a < b < r.len() implies !(#[trigger] r[a].port == #[trigger] r[b].port
                    && r[a].proto == r[b].proto) by {
                    assert(r[a].port == ports[a].port && r[a].proto == ports[a].proto);
                    assert(r[b].port == ports[b].port && r[b].proto == ports[b].proto);
                }
                assert forall|k: int| 0 <= k < r.len() implies (#[trigger] r[k]).port > 0 && r[k].is_well_known
                    == spec_is_well_known_port(r[k].port) && r[k].is_suspicious == spec_is_suspicious_port(r[k].port) by {
                    assert(r[k].port == ports[k].port && r[k].is_well_known == ports[k].is_well_known
                        && r[k].is_suspicious == ports[k].is_suspicious);
                }
            },
            None => {
                if ports.len() < NET_MAX_PORTS {
                    let n = ports.len() as int;
                    assert forall|a: int, b: int| 0 <= a < b < r.len() implies !(#[trigger] r[a].port
                        == #[trigger] r[b].port && r[a].proto == r[b].proto) by {
                        assert(r[a] == ports[a]);
                        if b < n {
                            assert(r[b] == ports[b]);
                        }
                    }
                    assert forall|k: int| 0 <= k < r.len() implies (#[trigger] r[k]).port > 0 && r[k].is_well_known
                        == spec_is_well_known_port(r[k].port) && r[k].is_suspicious == spec_is_suspicious_port(
                        r[k].port,
                    ) by {
                        if k < n {
                            assert(r[k] == ports[k]);
                        }
                    }
                }
            },
        }
    }
}

/// The port table that any connections build lists each port and protocol
/// at most once, only positive ports, and marks each as well known or as a
/// backdoor port exactly when its port is one.
pub proof fn lemma_port_table_sound(conns: Seq<ConnectionView>)
    ensures
        port_table_sound(ports_after(conns)),
    decreases conns.len(),
{
    if conns.len() > 0 {
        lemma_port_table_sound(conns.drop_last());
        lemma_port_step_sound(ports_after(conns.drop_last()), conns.last());
    }
}

} // verus!
