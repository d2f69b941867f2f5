//! Domain model for captured traffic: addresses, protocols, counters and
//! frames. Every type here is made of plain values so that the rest of the
//! library can state its contracts over them.

use vstd::prelude::*;
use crate::text::{push_char, push_decimal, push_hex2, decimal, hex2};

verus! {

// ---------------------------------------------------------------------------
// MAC address
// ---------------------------------------------------------------------------

/// A 48-bit Ethernet hardware address.
#[derive(Copy, Clone, Debug, PartialEq, Eq, Hash, PartialOrd, Ord)]
pub struct MacAddr(pub [u8; 6]);

/// Byte-wise equality of two hardware addresses.
pub open spec fn mac_same(a: MacAddr, b: MacAddr) -> bool {
    a.0@ == b.0@
}

/// Compares two hardware addresses byte by byte.
pub fn mac_eq(a: MacAddr, b: MacAddr) -> (r: bool)
    ensures
        r == mac_same(a, b),
{
    let r = a.0[0] == b.0[0] && a.0[1] == b.0[1] && a.0[2] == b.0[2] && a.0[3] == b.0[3]
        && a.0[4] == b.0[4] && a.0[5] == b.0[5];
    if r {
        assert(a.0@ =~= b.0@);
    }
    r
}

impl MacAddr {
    /// The all-ones broadcast address `ff:ff:ff:ff:ff:ff`.
    pub fn broadcast() -> (r: MacAddr)
        ensures
            r.spec_is_broadcast(),
    {
        MacAddr([0xff, 0xff, 0xff, 0xff, 0xff, 0xff])
    }

    /// The all-zero address.
    pub fn zero() -> (r: MacAddr)
        ensures
            forall|i: int| 0 <= i < 6 ==> #[trigger] r.0@[i] == 0u8,
    {
        MacAddr([0, 0, 0, 0, 0, 0])
    }

    /// All six bytes are `0xff`.
    pub open spec fn spec_is_broadcast(self) -> bool {
        forall|i: int| 0 <= i < 6 ==> #[trigger] self.0@[i] == 0xffu8
    }

    pub fn is_broadcast(self) -> (r: bool)
        ensures
            r == self.spec_is_broadcast(),
    {
        self.0[0] == 0xff && self.0[1] == 0xff && self.0[2] == 0xff && self.0[3] == 0xff
            && self.0[4] == 0xff && self.0[5] == 0xff
    }

    /// The group bit (lowest bit of the first byte) is set.
    pub fn is_multicast(self) -> (r: bool)
        ensures
            r == (self.0@[0] & 1u8 != 0u8),
    {
        self.0[0] & 0x01 != 0
    }

    /// The locally-administered bit (second bit of the first byte) is set.
    pub fn is_locally_administered(self) -> (r: bool)
        ensures
            r == (self.0@[0] & 2u8 != 0u8),
    {
        self.0[0] & 0x02 != 0
    }

    /// The organisationally unique identifier: the first three bytes.
    pub fn oui(self) -> (r: [u8; 3])
        ensures
            r@ == self.0@.subrange(0, 3),
    {
        let r = [self.0[0], self.0[1], self.0[2]];
        assert(r@ =~= self.0@.subrange(0, 3));
        r
    }

    /// Text form `aa:bb:cc:dd:ee:ff`, lower-case hexadecimal.
    pub open spec fn spec_display(self) -> Seq<char> {
        hex2(self.0@[0]) + seq![':'] + hex2(self.0@[1]) + seq![':'] + hex2(self.0@[2])
            + seq![':'] + hex2(self.0@[3]) + seq![':'] + hex2(self.0@[4]) + seq![':']
            + hex2(self.0@[5])
    }

    pub fn display(self) -> (r: String)
        ensures
            r@ == self.spec_display(),
    {
        let mut s = String::new();
        push_hex2(&mut s, self.0[0]);
        push_char(&mut s, ':');
        push_hex2(&mut s, self.0[1]);
        push_char(&mut s, ':');
        push_hex2(&mut s, self.0[2]);
        push_char(&mut s, ':');
        push_hex2(&mut s, self.0[3]);
        push_char(&mut s, ':');
        push_hex2(&mut s, self.0[4]);
        push_char(&mut s, ':');
        push_hex2(&mut s, self.0[5]);
        assert(s@ =~= self.spec_display());
        s
    }
}

// ---------------------------------------------------------------------------
// Link type
// ---------------------------------------------------------------------------

#[derive(Copy, Clone, Debug, PartialEq, Eq, Structural, Hash)]
pub enum LinkType {
    Ethernet,
    Loopback,
    Other(u32),
}

impl LinkType {
    /// Maps a BPF data-link type: 1 is Ethernet, 0 is the loopback (null) header.
    pub fn from_dlt(dlt: u32) -> (r: LinkType)
        ensures
            r == (if dlt == 1 {
                LinkType::Ethernet
            } else if dlt == 0 {
                LinkType::Loopback
            } else {
                LinkType::Other(dlt)
            }),
    {
        match dlt {
            1 => LinkType::Ethernet,
            0 => LinkType::Loopback,
            other => LinkType::Other(other),
        }
    }

    pub open spec fn spec_header_len(self) -> usize {
        match self {
            LinkType::Ethernet => 14,
            LinkType::Loopback => 4,
            LinkType::Other(_) => 0,
        }
    }

    pub fn header_len(self) -> (r: usize)
        ensures
            r == self.spec_header_len(),
    {
        match self {
            LinkType::Ethernet => 14,
            LinkType::Loopback => 4,
            LinkType::Other(_) => 0,
        }
    }
}

// ---------------------------------------------------------------------------
// L4 protocol
// ---------------------------------------------------------------------------

#[derive(Copy, Clone, Debug, PartialEq, Eq, Structural, Hash, PartialOrd, Ord)]
pub enum L4Proto {
    Tcp,
    Udp,
    Icmp,
    IcmpV6,
    Igmp,
    Other(u8),
    Unknown,
}

impl L4Proto {
    pub open spec fn spec_from_ip_proto(n: u8) -> L4Proto {
        if n == 6 {
            L4Proto::Tcp
        } else if n == 17 {
            L4Proto::Udp
        } else if n == 1 {
            L4Proto::Icmp
        } else if n == 58 {
            L4Proto::IcmpV6
        } else if n == 2 {
            L4Proto::Igmp
        } else {
            L4Proto::Other(n)
        }
    }

    /// Maps an IP protocol number.
    pub fn from_ip_proto(n: u8) -> (r: L4Proto)
        ensures
            r == Self::spec_from_ip_proto(n),
    {
        match n {
            6 => L4Proto::Tcp,
            17 => L4Proto::Udp,
            1 => L4Proto::Icmp,
            58 => L4Proto::IcmpV6,
            2 => L4Proto::Igmp,
            other => L4Proto::Other(other),
        }
    }

    pub open spec fn spec_name(self) -> &'static str {
        match self {
            L4Proto::Tcp => "TCP",
            L4Proto::Udp => "UDP",
            L4Proto::Icmp => "ICMP",
            L4Proto::IcmpV6 => "ICMP6",
            L4Proto::Igmp => "IGMP",
            L4Proto::Other(_) => "L4",
            L4Proto::Unknown => "?",
        }
    }

    pub fn name(self) -> (r: &'static str)
        ensures
            r == self.spec_name(),
    {
        match self {
            L4Proto::Tcp => "TCP",
            L4Proto::Udp => "UDP",
            L4Proto::Icmp => "ICMP",
            L4Proto::IcmpV6 => "ICMP6",
            L4Proto::Igmp => "IGMP",
            L4Proto::Other(_) => "L4",
            L4Proto::Unknown => "?",
        }
    }

    /// The protocols with a dedicated name, in display order.
    pub fn all() -> (r: [L4Proto; 6])
        ensures
            r@ == seq![
                L4Proto::Tcp,
                L4Proto::Udp,
                L4Proto::Icmp,
                L4Proto::IcmpV6,
                L4Proto::Igmp,
                L4Proto::Unknown,
            ],
    {
        let r = [
            L4Proto::Tcp,
            L4Proto::Udp,
            L4Proto::Icmp,
            L4Proto::IcmpV6,
            L4Proto::Igmp,
            L4Proto::Unknown,
        ];
        assert(r@ =~= seq![
            L4Proto::Tcp,
            L4Proto::Udp,
            L4Proto::Icmp,
            L4Proto::IcmpV6,
            L4Proto::Igmp,
            L4Proto::Unknown,
        ]);
        r
    }

    /// Text form: the name, or `IP/<number>` for an unnamed protocol.
    pub open spec fn spec_display(self) -> Seq<char> {
        match self {
            L4Proto::Other(n) => "IP/"@ + decimal(n as nat),
            _ => self.spec_name()@,
        }
    }

    pub fn display(self) -> (r: String)
        ensures
            r@ == self.spec_display(),
    {
        match self {
            L4Proto::Other(n) => {
                let mut s = String::from_str("IP/");
                push_decimal(&mut s, n as u64);
                s
            },
            _ => String::from_str(self.name()),
        }
    }
}

// ---------------------------------------------------------------------------
// L3 protocol
// ---------------------------------------------------------------------------

#[derive(Copy, Clone, Debug, PartialEq, Eq, Structural, Hash, PartialOrd, Ord)]
pub enum L3Proto {
    Ipv4,
    Ipv6,
    Arp,
    Other(u16),
}

impl L3Proto {
    pub open spec fn spec_from_ethertype(et: u16) -> L3Proto {
        if et == 0x0800 {
            L3Proto::Ipv4
        } else if et == 0x86dd {
            L3Proto::Ipv6
        } else if et == 0x0806 {
            L3Proto::Arp
        } else {
            L3Proto::Other(et)
        }
    }

    /// Maps an EtherType.
    pub fn from_ethertype(et: u16) -> (r: L3Proto)
        ensures
            r == Self::spec_from_ethertype(et),
    {
        match et {
            0x0800 => L3Proto::Ipv4,
            0x86dd => L3Proto::Ipv6,
            0x0806 => L3Proto::Arp,
            other => L3Proto::Other(other),
        }
    }

    pub open spec fn spec_name(self) -> &'static str {
        match self {
            L3Proto::Ipv4 => "IPv4",
            L3Proto::Ipv6 => "IPv6",
            L3Proto::Arp => "ARP",
            L3Proto::Other(_) => "L3",
        }
    }

    pub fn name(self) -> (r: &'static str)
        ensures
            r == self.spec_name(),
    {
        match self {
            L3Proto::Ipv4 => "IPv4",
            L3Proto::Ipv6 => "IPv6",
            L3Proto::Arp => "ARP",
            L3Proto::Other(_) => "L3",
        }
    }
}

// ---------------------------------------------------------------------------
// Direction
// ---------------------------------------------------------------------------

#[derive(Copy, Clone, Debug, PartialEq, Eq, Structural, Hash, PartialOrd, Ord)]
pub enum Direction {
    Rx,
    Tx,
}

impl Direction {
    pub fn arrow(self) -> (r: char)
        ensures
            r == (match self {
                Direction::Rx => '↓',
                Direction::Tx => '↑',
            }),
    {
        match self {
            Direction::Rx => '↓',
            Direction::Tx => '↑',
        }
    }

    pub open spec fn spec_label(self) -> &'static str {
        match self {
            Direction::Rx => "RX",
            Direction::Tx => "TX",
        }
    }

    pub fn label(self) -> (r: &'static str)
        ensures
            r == self.spec_label(),
    {
        match self {
            Direction::Rx => "RX",
            Direction::Tx => "TX",
        }
    }
}

// ---------------------------------------------------------------------------
// IP addresses and endpoint pairs
// ---------------------------------------------------------------------------

/// An IPv4 or IPv6 address, each held as its big-endian integer value.
#[derive(Copy, Clone, Debug, PartialEq, Eq, Structural, Hash, PartialOrd, Ord)]
pub enum IpAddr {
    V4(u32),
    V6(u128),
}

/// The position of an address in the standard address order: every IPv4
/// address comes before every IPv6 address, and within a family addresses
/// are ordered by their numeric value.
pub open spec fn ip_rank(a: IpAddr) -> (int, int) {
    match a {
        IpAddr::V4(v) => (0, v as int),
        IpAddr::V6(v) => (1, v as int),
    }
}

/// `(a, pa) <= (b, pb)` in the lexicographic order of address then port.
pub open spec fn endpoint_le(a: IpAddr, pa: u16, b: IpAddr, pb: u16) -> bool {
    let (fa, va) = ip_rank(a);
    let (fb, vb) = ip_rank(b);
    fa < fb || (fa == fb && (va < vb || (va == vb && pa <= pb)))
}

/// Decides `endpoint_le`.
pub fn endpoint_leq(a: IpAddr, pa: u16, b: IpAddr, pb: u16) -> (r: bool)
    ensures
        r == endpoint_le(a, pa, b, pb),
{
    match (a, b) {
        (IpAddr::V4(_), IpAddr::V6(_)) => true,
        (IpAddr::V6(_), IpAddr::V4(_)) => false,
        (IpAddr::V4(x), IpAddr::V4(y)) => x < y || (x == y && pa <= pb),
        (IpAddr::V6(x), IpAddr::V6(y)) => x < y || (x == y && pa <= pb),
    }
}

#[derive(Copy, Clone, Debug, PartialEq, Eq, Structural, Hash, PartialOrd, Ord)]
pub struct FlowKey {
    pub proto: L4Proto,
    pub src: IpAddr,
    pub src_port: u16,
    pub dst: IpAddr,
    pub dst_port: u16,
}

impl FlowKey {
    /// The same key seen from the other end.
    pub open spec fn reversed(self) -> FlowKey {
        FlowKey {
            proto: self.proto,
            src: self.dst,
            src_port: self.dst_port,
            dst: self.src,
            dst_port: self.src_port,
        }
    }

    /// The orientation in which the lower endpoint is the source.
    pub open spec fn spec_canonical(self) -> FlowKey {
        if endpoint_le(self.src, self.src_port, self.dst, self.dst_port) {
            self
        } else {
            self.reversed()
        }
    }

    pub fn canonical(&self) -> (r: FlowKey)
        ensures
            r == self.spec_canonical(),
    {
        if endpoint_leq(self.src, self.src_port, self.dst, self.dst_port) {
            *self
        } else {
            FlowKey {
                proto: self.proto,
                src: self.dst,
                src_port: self.dst_port,
                dst: self.src,
                dst_port: self.src_port,
            }
        }
    }
}

/// Both directions of a conversation share one canonical key.
pub proof fn lemma_canonical_direction_free(k: FlowKey)
    ensures
        k.reversed().spec_canonical() == k.spec_canonical(),
{
}

/// Canonicalising twice changes nothing.
pub proof fn lemma_canonical_idempotent(k: FlowKey)
    ensures
        k.spec_canonical().spec_canonical() == k.spec_canonical(),
{
}

/// A canonical key has its lower endpoint as source.
pub proof fn lemma_canonical_ordered(k: FlowKey)
    ensures
        endpoint_le(
            k.spec_canonical().src,
            k.spec_canonical().src_port,
            k.spec_canonical().dst,
            k.spec_canonical().dst_port,
        ),
{
}

// ---------------------------------------------------------------------------
// MAC pair
// ---------------------------------------------------------------------------

#[derive(Copy, Clone, Debug, PartialEq, Eq, Hash, PartialOrd, Ord)]
pub struct MacPair {
    pub src: MacAddr,
    pub dst: MacAddr,
}

// ---------------------------------------------------------------------------
// Byte counters
// ---------------------------------------------------------------------------

#[derive(Copy, Clone, Debug, PartialEq, Eq, Structural)]
pub struct Counters {
    pub bytes: u64,
    pub packets: u64,
}

impl Counters {
    /// No bytes, no packets.
    pub open spec fn spec_zero() -> Counters {
        Counters { bytes: 0, packets: 0 }
    }

    pub fn zero() -> (r: Counters)
        ensures
            r == Counters::spec_zero(),
    {
        Counters { bytes: 0, packets: 0 }
    }

    /// The counters of one packet of `len` bytes.
    pub fn from_packet(len: u64) -> (r: Counters)
        ensures
            r == (Counters { bytes: len, packets: 1 }),
    {
        Counters { bytes: len, packets: 1 }
    }

    pub open spec fn fits_sum(self, o: Counters) -> bool {
        self.bytes + o.bytes <= u64::MAX && self.packets + o.packets <= u64::MAX
    }

    /// Field-wise sum.
    pub fn add(self, o: Counters) -> (r: Counters)
        requires
            self.fits_sum(o),
        ensures
            r.bytes == self.bytes + o.bytes,
            r.packets == self.packets + o.packets,
    {
        Counters { bytes: self.bytes + o.bytes, packets: self.packets + o.packets }
    }
}

impl Default for Counters {
    fn default() -> (r: Counters)
        ensures
            r == Counters::spec_zero(),
    {
        Counters { bytes: 0, packets: 0 }
    }
}

// ---------------------------------------------------------------------------
// TCP flags
// ---------------------------------------------------------------------------

#[derive(Copy, Clone, Debug, PartialEq, Eq, Structural, Hash)]
pub struct TcpFlags(pub u8);

impl TcpFlags {
    pub const FIN: u8 = 0x01;
    pub const SYN: u8 = 0x02;
    pub const RST: u8 = 0x04;
    pub const PSH: u8 = 0x08;
    pub const ACK: u8 = 0x10;
    pub const URG: u8 = 0x20;

    pub open spec fn spec_has(self, flag: u8) -> bool {
        self.0 & flag != 0u8
    }

    pub fn has(self, flag: u8) -> (r: bool)
        ensures
            r == self.spec_has(flag),
    {
        self.0 & flag != 0
    }

    /// A connection request: SYN without ACK.
    pub open spec fn spec_is_syn(self) -> bool {
        self.spec_has(0x02) && !self.spec_has(0x10)
    }

    pub fn is_syn(self) -> (r: bool)
        ensures
            r == self.spec_is_syn(),
    {
        self.has(Self::SYN) && !self.has(Self::ACK)
    }

    pub fn is_synack(self) -> (r: bool)
        ensures
            r == (self.spec_has(0x02) && self.spec_has(0x10)),
    {
        self.has(Self::SYN) && self.has(Self::ACK)
    }

    pub open spec fn spec_is_fin(self) -> bool {
        self.spec_has(0x01)
    }

    pub fn is_fin(self) -> (r: bool)
        ensures
            r == self.spec_is_fin(),
    {
        self.has(Self::FIN)
    }

    pub open spec fn spec_is_rst(self) -> bool {
        self.spec_has(0x04)
    }

    pub fn is_rst(self) -> (r: bool)
        ensures
            r == self.spec_is_rst(),
    {
        self.has(Self::RST)
    }

    /// Text form: the letters of the set flags in the order S A F R P U,
    /// or `-` when none is set.
    pub open spec fn spec_display(self) -> Seq<char> {
        let s = flag_letters(self.0);
        if s.len() == 0 {
            seq!['-']
        } else {
            s
        }
    }

    pub fn display(self) -> (r: String)
        ensures
            r@ == self.spec_display(),
    {
        let mut s = String::new();
        push_flag_letters(&mut s, self.0);
        if s.unicode_len() == 0 {
            push_char(&mut s, '-');
        }
        s
    }
}

/// `c` when `on`, nothing otherwise.
pub open spec fn letter_if(on: bool, c: char) -> Seq<char> {
    if on {
        seq![c]
    } else {
        Seq::empty()
    }
}

/// `base` followed by the letters S A F R P U of the flags set in `mask`.
pub open spec fn with_flag_letters(base: Seq<char>, mask: u8) -> Seq<char> {
    base + letter_if(mask & 0x02u8 != 0u8, 'S') + letter_if(mask & 0x10u8 != 0u8, 'A')
        + letter_if(mask & 0x01u8 != 0u8, 'F') + letter_if(mask & 0x04u8 != 0u8, 'R')
        + letter_if(mask & 0x08u8 != 0u8, 'P') + letter_if(mask & 0x20u8 != 0u8, 'U')
}

/// The letters S A F R P U of the flags set in `mask`.
pub open spec fn flag_letters(mask: u8) -> Seq<char> {
    with_flag_letters(Seq::empty(), mask)
}

/// Appends `c` when `on`.
fn push_if(s: &mut String, on: bool, c: char)
    ensures
        final(s)@ == old(s)@ + letter_if(on, c),
{
    if on {
        push_char(s, c);
    }
    assert(s@ =~= old(s)@ + letter_if(on, c));
}

/// Appends the flag letters of `mask` to `s`.
pub fn push_flag_letters(s: &mut String, mask: u8)
    ensures
        final(s)@ == with_flag_letters(old(s)@, mask),
{
    push_if(s, mask & 0x02 != 0, 'S');
    push_if(s, mask & 0x10 != 0, 'A');
    push_if(s, mask & 0x01 != 0, 'F');
    push_if(s, mask & 0x04 != 0, 'R');
    push_if(s, mask & 0x08 != 0, 'P');
    push_if(s, mask & 0x20 != 0, 'U');
}

// ---------------------------------------------------------------------------
// Application hint
// ---------------------------------------------------------------------------

#[derive(Copy, Clone, Debug, PartialEq, Eq, Structural, Hash, PartialOrd, Ord)]
pub enum AppHint {
    Http,
    Https,
    Ssh,
    Dns,
    Smtp,
    Imap,
    Pop3,
    Ntp,
    Mdns,
    Dhcp,
    Quic,
    Tls,
    Unknown,
}

impl Default for AppHint {
    fn default() -> (r: AppHint)
        ensures
            r == AppHint::Unknown,
    {
        AppHint::Unknown
    }
}

impl AppHint {
    /// Classifies a conversation by the lower of its two ports.
    pub open spec fn spec_from_ports(src: u16, dst: u16) -> AppHint {
        let p = if src < dst { src } else { dst };
        if p == 80 {
            AppHint::Http
        } else if p == 443 {
            AppHint::Https
        } else if p == 22 {
            AppHint::Ssh
        } else if p == 53 {
            AppHint::Dns
        } else if p == 25 || p == 587 {
            AppHint::Smtp
        } else if p == 143 {
            AppHint::Imap
        } else if p == 110 {
            AppHint::Pop3
        } else if p == 123 {
            AppHint::Ntp
        } else if p == 5353 {
            AppHint::Mdns
        } else if p == 67 || p == 68 {
            AppHint::Dhcp
        } else {
            AppHint::Unknown
        }
    }

    pub fn from_ports(src: u16, dst: u16) -> (r: AppHint)
        ensures
            r == Self::spec_from_ports(src, dst),
    {
        let p = if src < dst { src } else { dst };
        match p {
            80 => AppHint::Http,
            443 => AppHint::Https,
            22 => AppHint::Ssh,
            53 => AppHint::Dns,
            25 | 587 => AppHint::Smtp,
            143 => AppHint::Imap,
            110 => AppHint::Pop3,
            123 => AppHint::Ntp,
            5353 => AppHint::Mdns,
            67 | 68 => AppHint::Dhcp,
            _ => AppHint::Unknown,
        }
    }

    pub open spec fn spec_name(self) -> &'static str {
        match self {
            AppHint::Http => "HTTP",
            AppHint::Https => "HTTPS",
            AppHint::Ssh => "SSH",
            AppHint::Dns => "DNS",
            AppHint::Smtp => "SMTP",
            AppHint::Imap => "IMAP",
            AppHint::Pop3 => "POP3",
            AppHint::Ntp => "NTP",
            AppHint::Mdns => "mDNS",
            AppHint::Dhcp => "DHCP",
            AppHint::Quic => "QUIC",
            AppHint::Tls => "TLS",
            AppHint::Unknown => "—",
        }
    }

    pub fn name(self) -> (r: &'static str)
        ensures
            r == self.spec_name(),
    {
        match self {
            AppHint::Http => "HTTP",
            AppHint::Https => "HTTPS",
            AppHint::Ssh => "SSH",
            AppHint::Dns => "DNS",
            AppHint::Smtp => "SMTP",
            AppHint::Imap => "IMAP",
            AppHint::Pop3 => "POP3",
            AppHint::Ntp => "NTP",
            AppHint::Mdns => "mDNS",
            AppHint::Dhcp => "DHCP",
            AppHint::Quic => "QUIC",
            AppHint::Tls => "TLS",
            AppHint::Unknown => "—",
        }
    }
}

/// The application hint depends on the lower of the two ports alone, which
/// way round the ports are given does not matter, and each well-known port
/// names its service: 80 HTTP, 443 HTTPS, 22 SSH, 53 DNS, 25 and 587 SMTP,
/// 143 IMAP, 110 POP3, 123 NTP, 5353 mDNS, 67 and 68 DHCP; any other lower
/// port gives no hint, and ports never give QUIC or TLS.
pub proof fn lemma_app_hint_by_lower_port(src: u16, dst: u16)
    ensures
        ({
            let p = if src <= dst { src } else { dst };
            let a = AppHint::spec_from_ports(src, dst);
            &&& a == AppHint::spec_from_ports(dst, src)
            &&& a == AppHint::spec_from_ports(p, p)
            &&& (a == AppHint::Http <==> p == 80)
            &&& (a == AppHint::Https <==> p == 443)
            &&& (a == AppHint::Ssh <==> p == 22)
            &&& (a == AppHint::Dns <==> p == 53)
            &&& (a == AppHint::Smtp <==> (p == 25 || p == 587))
            &&& (a == AppHint::Imap <==> p == 143)
            &&& (a == AppHint::Pop3 <==> p == 110)
            &&& (a == AppHint::Ntp <==> p == 123)
            &&& (a == AppHint::Mdns <==> p == 5353)
            &&& (a == AppHint::Dhcp <==> (p == 67 || p == 68))
            &&& a != AppHint::Quic && a != AppHint::Tls
            &&& (a == AppHint::Unknown <==> !(p == 80 || p == 443 || p == 22 || p == 53 || p == 25 || p == 587
                || p == 143 || p == 110 || p == 123 || p == 5353 || p == 67 || p == 68))
        }),
{
}

// ---------------------------------------------------------------------------
// Frame: one captured observation
// ---------------------------------------------------------------------------

/// One decoded frame. `captured_at` is a reading of the monotonic clock in
/// nanoseconds.
#[derive(Copy, Clone, Debug)]
pub struct Frame {
    pub captured_at: u64,
    pub wire_len: u32,
    pub cap_len: u32,
    pub direction: Direction,
    pub l3: L3Proto,
    pub l4: L4Proto,
    pub macs: Option<MacPair>,
    pub flow: Option<FlowKey>,
    pub tcp_flags: TcpFlags,
    pub app: AppHint,
}

// ---------------------------------------------------------------------------
// Interface statistics
// ---------------------------------------------------------------------------

#[derive(Debug)]
pub struct IfStats {
    pub name: String,
    pub mtu: u32,
    pub baudrate: u64,
    pub rx: Counters,
    pub tx: Counters,
    pub rx_errors: u64,
    pub tx_errors: u64,
    pub rx_drops: u64,
    pub tx_drops: u64,
    pub collisions: u64,
    pub multicast: u64,
    pub flags: u32,
}

impl Clone for IfStats {
    fn clone(&self) -> (r: IfStats)
        ensures
            r == *self,
    {
        IfStats {
            name: self.name.clone(),
            mtu: self.mtu,
            baudrate: self.baudrate,
            rx: self.rx,
            tx: self.tx,
            rx_errors: self.rx_errors,
            tx_errors: self.tx_errors,
            rx_drops: self.rx_drops,
            tx_drops: self.tx_drops,
            collisions: self.collisions,
            multicast: self.multicast,
            flags: self.flags,
        }
    }
}

impl Default for IfStats {
    fn default() -> (r: IfStats)
        ensures
            r.is_empty_stats(),
    {
        IfStats {
            name: String::new(),
            mtu: 0,
            baudrate: 0,
            rx: Counters { bytes: 0, packets: 0 },
            tx: Counters { bytes: 0, packets: 0 },
            rx_errors: 0,
            tx_errors: 0,
            rx_drops: 0,
            tx_drops: 0,
            collisions: 0,
            multicast: 0,
            flags: 0,
        }
    }
}

impl IfStats {
    /// All counters zero and no name.
    pub open spec fn is_empty_stats(&self) -> bool {
        &&& self.name@ == Seq::<char>::empty()
        &&& self.mtu == 0 && self.baudrate == 0 && self.flags == 0
        &&& self.rx == Counters::spec_zero() && self.tx == Counters::spec_zero()
        &&& self.rx_errors == 0 && self.tx_errors == 0 && self.rx_drops == 0 && self.tx_drops == 0
        &&& self.collisions == 0 && self.multicast == 0
    }

    /// `IFF_UP`.
    pub fn is_up(&self) -> (r: bool)
        ensures
            r == (self.flags & 0x1u32 != 0u32),
    {
        self.flags & 0x1 != 0
    }

    /// `IFF_RUNNING`.
    pub fn is_running(&self) -> (r: bool)
        ensures
            r == (self.flags & 0x40u32 != 0u32),
    {
        self.flags & 0x40 != 0
    }

    /// `IFF_PROMISC`.
    pub fn is_promisc(&self) -> (r: bool)
        ensures
            r == (self.flags & 0x100u32 != 0u32),
    {
        self.flags & 0x100 != 0
    }
}

/// The IPv4 wildcard address `0.0.0.0`.
pub fn wildcard_v4() -> (r: IpAddr)
    ensures
        r == IpAddr::V4(0),
{
    IpAddr::V4(0)
}

/// The IPv6 wildcard address `::`.
pub fn wildcard_v6() -> (r: IpAddr)
    ensures
        r == IpAddr::V6(0),
{
    IpAddr::V6(0)
}

/// EtherTypes: 0x0800 is IPv4, 0x86dd IPv6, 0x0806 ARP, and any other is
/// kept as it is.
pub proof fn lemma_ethertypes(et: u16)
    ensures
        (L3Proto::spec_from_ethertype(et) == L3Proto::Ipv4) <==> et == 0x0800,
        (L3Proto::spec_from_ethertype(et) == L3Proto::Ipv6) <==> et == 0x86dd,
        (L3Proto::spec_from_ethertype(et) == L3Proto::Arp) <==> et == 0x0806,
        et != 0x0800 && et != 0x86dd && et != 0x0806 ==> L3Proto::spec_from_ethertype(et) == L3Proto::Other(et),
{
}

/// IP protocol numbers: 6 is TCP, 17 UDP, 1 ICMP, 58 ICMPv6, 2 IGMP, and any
/// other is kept as it is.
pub proof fn lemma_ip_protocols(n: u8)
    ensures
        (L4Proto::spec_from_ip_proto(n) == L4Proto::Tcp) <==> n == 6,
        (L4Proto::spec_from_ip_proto(n) == L4Proto::Udp) <==> n == 17,
        (L4Proto::spec_from_ip_proto(n) == L4Proto::Icmp) <==> n == 1,
        (L4Proto::spec_from_ip_proto(n) == L4Proto::IcmpV6) <==> n == 58,
        (L4Proto::spec_from_ip_proto(n) == L4Proto::Igmp) <==> n == 2,
        !(n == 6 || n == 17 || n == 1 || n == 58 || n == 2) ==> L4Proto::spec_from_ip_proto(n) == L4Proto::Other(n),
{
}

/// The flag tests: a connection request has SYN (bit 1) without ACK (bit
/// 4); FIN is bit 0 and RST bit 2.
pub proof fn lemma_flag_tests(f: TcpFlags)
    ensures
        f.spec_is_syn() <==> (f.0 & 2 != 0 && f.0 & 16 == 0),
        f.spec_is_fin() <==> f.0 & 1 != 0,
        f.spec_is_rst() <==> f.0 & 4 != 0,
{
}

} // verus!
