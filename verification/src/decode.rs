//! Frame decoding: from the captured bytes of one frame to a `Frame`.
//!
//! The link layer (Ethernet II, BSD loopback) is read here; the IP and
//! transport headers are sliced by etherparse, whose result is held as the
//! plain bytes of `IpHeaders`.

use vstd::prelude::*;
use vstd::slice::slice_subrange;
use etherparse::NetSlice::{Ipv4, Ipv6};
use etherparse::TransportSlice::{Icmpv4, Icmpv6, Tcp, Udp};
use etherparse::{Ethernet2Header, SlicedPacket};
use crate::domain::{
    AppHint, Direction, FlowKey, Frame, IpAddr, L3Proto, L4Proto, LinkType, MacAddr, MacPair,
    TcpFlags,
};
use crate::text::{decimal, push_decimal};

verus! {

broadcast use vstd::string::group_string_axioms;

// ---------------------------------------------------------------------------
// What etherparse hands back
// ---------------------------------------------------------------------------

/// The bytes of the IP header that slicing found.
#[derive(Clone, Debug)]
pub enum NetHeader {
    V4(Vec<u8>),
    V6(Vec<u8>),
}

/// The bytes of the transport header that slicing found; for ICMP only its
/// kind is kept.
#[derive(Clone, Debug)]
pub enum TransportHeader {
    Tcp(Vec<u8>),
    Udp(Vec<u8>),
    Icmpv4,
    Icmpv6,
}

/// The headers that slicing an IP packet found.
#[derive(Clone, Debug)]
pub struct IpHeaders {
    pub net: Option<NetHeader>,
    pub transport: Option<TransportHeader>,
}

pub enum NetHeaderView {
    V4(Seq<u8>),
    V6(Seq<u8>),
}

pub enum TransportHeaderView {
    Tcp(Seq<u8>),
    Udp(Seq<u8>),
    Icmpv4,
    Icmpv6,
}

pub struct IpHeadersView {
    pub net: Option<NetHeaderView>,
    pub transport: Option<TransportHeaderView>,
}

impl View for NetHeader {
    type V = NetHeaderView;

    open spec fn view(&self) -> NetHeaderView {
        match self {
            NetHeader::V4(b) => NetHeaderView::V4(b@),
            NetHeader::V6(b) => NetHeaderView::V6(b@),
        }
    }
}

impl View for TransportHeader {
    type V = TransportHeaderView;

    open spec fn view(&self) -> TransportHeaderView {
        match self {
            TransportHeader::Tcp(b) => TransportHeaderView::Tcp(b@),
            TransportHeader::Udp(b) => TransportHeaderView::Udp(b@),
            TransportHeader::Icmpv4 => TransportHeaderView::Icmpv4,
            TransportHeader::Icmpv6 => TransportHeaderView::Icmpv6,
        }
    }
}

impl View for IpHeaders {
    type V = IpHeadersView;

    open spec fn view(&self) -> IpHeadersView {
        IpHeadersView {
            net: match self.net {
                Some(n) => Some(n@),
                None => None,
            },
            transport: match self.transport {
                Some(t) => Some(t@),
                None => None,
            },
        }
    }
}

impl IpHeadersView {
    /// The sizes that the slicer checks before it hands a header out: an
    /// IPv4 header of at least 20 bytes, an IPv6 header of 40, a TCP header
    /// of at least 20 and a UDP header of 8.
    pub open spec fn well_sized(self) -> bool {
        &&& match self.net {
            Some(NetHeaderView::V4(b)) => b.len() >= 20,
            Some(NetHeaderView::V6(b)) => b.len() == 40,
            None => true,
        }
        &&& match self.transport {
            Some(TransportHeaderView::Tcp(b)) => b.len() >= 20,
            Some(TransportHeaderView::Udp(b)) => b.len() == 8,
            _ => true,
        }
    }
}

/// What `etherparse::SlicedPacket::from_ip` finds in `payload`; `None` when
/// it refuses the bytes.
pub uninterp spec fn sliced_ip(payload: Seq<u8>) -> Option<IpHeadersView>;

/// Slices `payload` as an IP packet with `etherparse::SlicedPacket::from_ip`
/// and copies out the bytes of the headers it found. The contract names the
/// result; besides, it claims only the header sizes that the slicer checks
/// (an IPv4 header is at least 20 bytes, its IHL being at least 5; an IPv6
/// header is 40; a TCP header is at least 20, its data offset being at least
/// 5; a UDP header is 8).
#[verifier::external_body]
fn slice_ip(payload: &[u8]) -> (r: Option<IpHeaders>)
    ensures
        sliced_ip(payload@) == (match r {
            Some(h) => Some(h@),
            None => None::<IpHeadersView>,
        }),
        r matches Some(h) ==> h@.well_sized(),
{
    let p = SlicedPacket::from_ip(payload).ok()?;
    Some(IpHeaders {
        net: match p.net {
            Some(Ipv4(v)) => Some(NetHeader::V4(v.header().slice().to_vec())),
            Some(Ipv6(v)) => Some(NetHeader::V6(v.header().slice().to_vec())),
            None => None,
        },
        transport: match p.transport {
            Some(Tcp(t)) => Some(TransportHeader::Tcp(t.header_slice().to_vec())),
            Some(Udp(u)) => Some(TransportHeader::Udp(u.header_slice().to_vec())),
            Some(Icmpv4(_)) => Some(TransportHeader::Icmpv4),
            Some(Icmpv6(_)) => Some(TransportHeader::Icmpv6),
            None => None,
        },
    })
}

/// The Ethernet II header of a frame: source, destination, ether type.
pub open spec fn spec_ethernet_header(p: Seq<u8>) -> Option<([u8; 6], [u8; 6], u16)> {
    if p.len() < 14 {
        None
    } else {
        Some((
            [p[6], p[7], p[8], p[9], p[10], p[11]],
            [p[0], p[1], p[2], p[3], p[4], p[5]],
            (p[12] as int * 256 + p[13] as int) as u16,
        ))
    }
}

/// Reads an Ethernet II header with `etherparse::Ethernet2Header::from_slice`,
/// which refuses fewer than 14 bytes and otherwise reads the destination from
/// bytes 0..6, the source from 6..12 and the big-endian ether type from 12..14.
#[verifier::external_body]
fn ethernet_header(p: &[u8]) -> (r: Option<([u8; 6], [u8; 6], u16)>)
    ensures
        r == spec_ethernet_header(p@),
{
    Ethernet2Header::from_slice(p).ok().map(|(h, _)| (h.source, h.destination, h.ether_type.0))
}

/// Reads four bytes as a `u32` in the byte order of the machine
/// (`u32::from_ne_bytes`): little-endian on some machines, big-endian on others.
#[verifier::external_body]
fn u32_from_ne_bytes(b: [u8; 4]) -> (r: u32)
    ensures
        r == le_u32(b) || r == be_u32(b),
{
    u32::from_ne_bytes(b)
}

// ---------------------------------------------------------------------------
// Byte order
// ---------------------------------------------------------------------------

/// Four bytes read most significant first.
pub open spec fn be_u32(b: [u8; 4]) -> u32 {
    (b[0] as int * 0x1000000 + b[1] as int * 0x10000 + b[2] as int * 0x100 + b[3] as int) as u32
}

/// Four bytes read least significant first.
pub open spec fn le_u32(b: [u8; 4]) -> u32 {
    (b[3] as int * 0x1000000 + b[2] as int * 0x10000 + b[1] as int * 0x100 + b[0] as int) as u32
}

/// The value of bytes read most significant first.
pub open spec fn be_value(s: Seq<u8>) -> nat
    decreases s.len(),
{
    if s.len() == 0 {
        0
    } else {
        be_value(s.drop_last()) * 256 + s.last() as nat
    }
}

pub open spec fn pow256(n: nat) -> nat
    decreases n,
{
    if n == 0 {
        1
    } else {
        256 * pow256((n - 1) as nat)
    }
}

proof fn lemma_be_value_bound(s: Seq<u8>)
    ensures
        be_value(s) < pow256(s.len()),
    decreases s.len(),
{
    if s.len() > 0 {
        lemma_be_value_bound(s.drop_last());
    }
}

proof fn lemma_pow256_mono(a: nat, b: nat)
    requires
        a <= b,
    ensures
        pow256(a) <= pow256(b),
    decreases b,
{
    if a < b {
        lemma_pow256_mono(a, (b - 1) as nat);
    }
}

/// The value of the `n` bytes of `s` from `off` on, read most significant
/// first.
pub open spec fn be_at(s: Seq<u8>, off: int, n: int) -> nat {
    be_value(s.subrange(off, off + n))
}

/// Reads the `n` bytes of `b` from `off` on, most significant first; `n` is
/// at most 16.
pub fn be_read(b: &[u8], off: usize, n: usize) -> (r: u128)
    requires
        off + n <= b@.len(),
        n <= 16,
    ensures
        r as nat == be_at(b@, off as int, n as int),
{
    let len = b.len();
    let mut v: u128 = 0;
    let mut i: usize = 0;
    assert(pow256(16) == 0x1_0000_0000_0000_0000_0000_0000_0000_0000) by {
        reveal_with_fuel(pow256, 17);
    }
    while i < n
        invariant
            i <= n,
            n <= 16,
            len == b@.len(),
            off + n <= len,
            v as nat == be_value(b@.subrange(off as int, off + i)),
            pow256(16) == 0x1_0000_0000_0000_0000_0000_0000_0000_0000,
        decreases n - i,
    {
        proof {
            let s = b@.subrange(off as int, off + i);
            lemma_be_value_bound(s);
            lemma_pow256_mono(i as nat, 15);
            assert(b@.subrange(off as int, off + i + 1).drop_last() =~= s);
            assert(pow256(16) == 256 * pow256(15));
        }
        v = v * 256 + b[off + i] as u128;
        i += 1;
    }
    v
}

// ---------------------------------------------------------------------------
// Errors
// ---------------------------------------------------------------------------

/// Why a frame could not be decoded.
#[derive(Copy, Clone, Debug)]
pub enum ParseError {
    TooShort(usize),
    UnsupportedLinkType(LinkType),
    L3(&'static str),
}

/// How a link type is printed in diagnostics.
pub open spec fn link_type_text(t: LinkType) -> Seq<char> {
    match t {
        LinkType::Ethernet => "Ethernet"@,
        LinkType::Loopback => "Loopback"@,
        LinkType::Other(n) => "Other("@ + decimal(n as nat) + ")"@,
    }
}

impl ParseError {
    pub open spec fn spec_display(self) -> Seq<char> {
        match self {
            ParseError::TooShort(n) => "frame too short: "@ + decimal(n as nat),
            ParseError::UnsupportedLinkType(t) => "unsupported link type: "@ + link_type_text(t),
            ParseError::L3(s) => "L3 parse: "@ + s@,
        }
    }

    /// The message for this error.
    pub fn display(&self) -> (r: String)
        ensures
            r@ == self.spec_display(),
    {
        match self {
            ParseError::TooShort(n) => {
                let mut s = String::from_str("frame too short: ");
                push_decimal(&mut s, *n as u64);
                s
            },
            ParseError::UnsupportedLinkType(t) => {
                let mut s = String::from_str("unsupported link type: ");
                match t {
                    LinkType::Ethernet => s.append("Ethernet"),
                    LinkType::Loopback => s.append("Loopback"),
                    LinkType::Other(n) => {
                        s.append("Other(");
                        push_decimal(&mut s, *n as u64);
                        s.append(")");
                    },
                }
                s
            },
            ParseError::L3(m) => {
                let mut s = String::from_str("L3 parse: ");
                s.append(m);
                s
            },
        }
    }
}

// ---------------------------------------------------------------------------
// Decoding
// ---------------------------------------------------------------------------

/// What the network and transport layers of a frame give the rest of the
/// frame: L4 protocol, flow, TCP flags, application hint, L3 length.
pub type L3Decoded = (L4Proto, Option<FlowKey>, TcpFlags, AppHint, usize);

/// The whole of one decoded frame but its clock reading, sizes and
/// direction: L3 protocol, MAC pair, then as `L3Decoded`.
pub type Decoded = (L3Proto, Option<MacPair>, L4Proto, Option<FlowKey>, TcpFlags, AppHint, usize);

/// The TCP flags of a TCP header: the FIN, SYN, RST, PSH, ACK and URG bits
/// of its byte 13.
pub open spec fn spec_tcp_flags(tcp: Seq<u8>) -> TcpFlags {
    TcpFlags(tcp[13] & 0x3f)
}

/// Reads the flags of a TCP header, each of FIN, SYN, RST, PSH, ACK and URG
/// from its bit of byte 13.
pub fn extract_tcp_flags(tcp: &[u8]) -> (r: TcpFlags)
    requires
        tcp@.len() >= 20,
    ensures
        r == spec_tcp_flags(tcp@),
{
    let b = tcp[13];
    let out: u8 = (b & TcpFlags::FIN) | (b & TcpFlags::SYN) | (b & TcpFlags::RST) | (b
        & TcpFlags::PSH) | (b & TcpFlags::ACK) | (b & TcpFlags::URG);
    assert(out == b & 0x3f) by (bit_vector)
        requires
            out == (b & 1u8) | (b & 2u8) | (b & 4u8) | (b & 8u8) | (b & 16u8) | (b & 32u8),
    ;
    TcpFlags(out)
}

/// The source and destination addresses that an IP header holds.
pub open spec fn header_addrs(net: NetHeaderView) -> (IpAddr, IpAddr) {
    match net {
        NetHeaderView::V4(b) => (IpAddr::V4(be_at(b, 12, 4) as u32), IpAddr::V4(be_at(b, 16, 4) as u32)),
        NetHeaderView::V6(b) => (IpAddr::V6(be_at(b, 8, 16) as u128), IpAddr::V6(be_at(b, 24, 16) as u128)),
    }
}

/// The source and destination ports at the head of a TCP or UDP header.
pub open spec fn header_ports(b: Seq<u8>) -> (u16, u16) {
    (be_at(b, 0, 2) as u16, be_at(b, 2, 2) as u16)
}

/// Reads the source and destination ports of a TCP or UDP header.
pub fn read_ports(b: &[u8]) -> (r: (u16, u16))
    requires
        b@.len() >= 4,
    ensures
        r == header_ports(b@),
{
    (be_read(b, 0, 2) as u16, be_read(b, 2, 2) as u16)
}

/// Reads the source and destination addresses of an IP header.
pub fn read_addrs(net: &NetHeader) -> (r: (IpAddr, IpAddr))
    requires
        match net@ {
            NetHeaderView::V4(b) => b.len() >= 20,
            NetHeaderView::V6(b) => b.len() == 40,
        },
    ensures
        r == header_addrs(net@),
{
    match net {
        NetHeader::V4(b) => (
            IpAddr::V4(be_read(b.as_slice(), 12, 4) as u32),
            IpAddr::V4(be_read(b.as_slice(), 16, 4) as u32),
        ),
        NetHeader::V6(b) => (
            IpAddr::V6(be_read(b.as_slice(), 8, 16)),
            IpAddr::V6(be_read(b.as_slice(), 24, 16)),
        ),
    }
}

/// The L4 protocol, the ports and the TCP flags that a transport header gives.
pub open spec fn header_l4(t: Option<TransportHeaderView>) -> (L4Proto, Option<(u16, u16)>, TcpFlags) {
    match t {
        Some(TransportHeaderView::Tcp(b)) => (
            L4Proto::Tcp,
            Some(header_ports(b)),
            spec_tcp_flags(b),
        ),
        Some(TransportHeaderView::Udp(b)) => (
            L4Proto::Udp,
            Some(header_ports(b)),
            TcpFlags(0),
        ),
        Some(TransportHeaderView::Icmpv4) => (L4Proto::Icmp, None, TcpFlags(0)),
        Some(TransportHeaderView::Icmpv6) => (L4Proto::IcmpV6, None, TcpFlags(0)),
        None => (L4Proto::Unknown, None, TcpFlags(0)),
    }
}

/// What the sliced headers of an IP packet of `len` bytes decode to.
pub open spec fn spec_l3_outcome(h: IpHeadersView, len: usize) -> L3Decoded {
    match h.net {
        None => (L4Proto::Unknown, None, TcpFlags(0), AppHint::Unknown, 0),
        Some(net) => {
            let (src, dst) = header_addrs(net);
            let (l4, ports, flags) = header_l4(h.transport);
            match ports {
                Some((sp, dp)) => (
                    l4,
                    Some(FlowKey { proto: l4, src, src_port: sp, dst, dst_port: dp }),
                    flags,
                    AppHint::spec_from_ports(sp, dp),
                    len,
                ),
                None => (l4, None, flags, AppHint::Unknown, len),
            }
        },
    }
}

/// Decodes the sliced headers of an IP packet of `len` bytes.
pub fn l3_from_headers(h: &IpHeaders, len: usize) -> (r: L3Decoded)
    requires
        h@.well_sized(),
    ensures
        r == spec_l3_outcome(h@, len),
{
    let (src, dst) = match &h.net {
        None => {
            return (L4Proto::Unknown, None, TcpFlags(0), AppHint::Unknown, 0);
        },
        Some(net) => read_addrs(net),
    };
    let (l4, ports, flags): (L4Proto, Option<(u16, u16)>, TcpFlags) = match &h.transport {
        Some(TransportHeader::Tcp(b)) => (
            L4Proto::Tcp,
            Some(read_ports(b.as_slice())),
            extract_tcp_flags(b.as_slice()),
        ),
        Some(TransportHeader::Udp(b)) => (
            L4Proto::Udp,
            Some(read_ports(b.as_slice())),
            TcpFlags(0),
        ),
        Some(TransportHeader::Icmpv4) => (L4Proto::Icmp, None, TcpFlags(0)),
        Some(TransportHeader::Icmpv6) => (L4Proto::IcmpV6, None, TcpFlags(0)),
        None => (L4Proto::Unknown, None, TcpFlags(0)),
    };
    match ports {
        Some((sp, dp)) => (
            l4,
            Some(FlowKey { proto: l4, src, src_port: sp, dst, dst_port: dp }),
            flags,
            AppHint::from_ports(sp, dp),
            len,
        ),
        None => (l4, None, flags, AppHint::Unknown, len),
    }
}

/// What decoding the network layer of `payload` gives: an error when it is
/// not an IP packet.
pub open spec fn spec_decode_l3(payload: Seq<u8>) -> Result<L3Decoded, ParseError> {
    match sliced_ip(payload) {
        None => Err(ParseError::L3("not IP")),
        Some(h) => Ok(spec_l3_outcome(h, payload.len() as usize)),
    }
}

/// Decodes the network and transport layers. The link layer's protocol
/// `_hint` does not steer it: the bytes are read as IPv4 or IPv6 whatever
/// it says.
pub fn decode_l3(payload: &[u8], _hint: L3Proto) -> (r: Result<L3Decoded, ParseError>)
    ensures
        r == spec_decode_l3(payload@),
{
    match slice_ip(payload) {
        None => Err(ParseError::L3("not IP")),
        Some(h) => Ok(l3_from_headers(&h, payload.len())),
    }
}

/// Joins link-layer facts with the result of the network layer.
pub open spec fn with_link(
    l3: L3Proto,
    macs: Option<MacPair>,
    r: Result<L3Decoded, ParseError>,
) -> Result<Decoded, ParseError> {
    match r {
        Err(e) => Err(e),
        Ok((l4, flow, flags, app, len)) => Ok((l3, macs, l4, flow, flags, app, len)),
    }
}

/// What an Ethernet II frame decodes to. An ARP frame is counted as ARP
/// with its MAC pair and the length of its body, and no flow; any other
/// body is read as an IP packet.
pub open spec fn spec_decode_ethernet(p: Seq<u8>) -> Result<Decoded, ParseError> {
    if p.len() < 14 {
        Err(ParseError::TooShort(p.len() as usize))
    } else {
        let h = spec_ethernet_header(p)->0;
        let l3 = L3Proto::spec_from_ethertype(h.2);
        let macs = Some(MacPair { src: MacAddr(h.0), dst: MacAddr(h.1) });
        if l3 == L3Proto::Arp {
            Ok((L3Proto::Arp, macs, L4Proto::Unknown, None, TcpFlags(0), AppHint::Unknown, (p.len() - 14) as usize))
        } else {
            with_link(l3, macs, spec_decode_l3(p.subrange(14, p.len() as int)))
        }
    }
}

/// Decodes an Ethernet II frame.
pub fn decode_ethernet(payload: &[u8]) -> (r: Result<Decoded, ParseError>)
    ensures
        r == spec_decode_ethernet(payload@),
{
    if payload.len() < 14 {
        return Err(ParseError::TooShort(payload.len()));
    }
    let eth = match ethernet_header(payload) {
        Some(h) => h,
        None => {
            return Err(ParseError::TooShort(payload.len()));
        },
    };
    let macs = Some(MacPair { src: MacAddr(eth.0), dst: MacAddr(eth.1) });
    let l3 = L3Proto::from_ethertype(eth.2);
    if let L3Proto::Arp = l3 {
        return Ok((L3Proto::Arp, macs, L4Proto::Unknown, None, TcpFlags(0), AppHint::Unknown, payload.len() - 14));
    }
    let after_eth = slice_subrange(payload, 14, payload.len());
    match decode_l3(after_eth, l3) {
        Err(e) => Err(e),
        Ok((l4, flow, tcp_flags, app, l3_len)) => Ok((l3, macs, l4, flow, tcp_flags, app, l3_len)),
    }
}

/// The address family in the first four bytes of a loopback frame, as the
/// machine's byte order reads it: one of these two.
pub open spec fn loopback_family_le(p: Seq<u8>) -> u32 {
    le_u32([p[0], p[1], p[2], p[3]])
}

pub open spec fn loopback_family_be(p: Seq<u8>) -> u32 {
    be_u32([p[0], p[1], p[2], p[3]])
}

/// What a loopback frame whose address family reads `family` decodes to:
/// 2 is IPv4, 30 is IPv6, any other family is kept with nothing decoded.
pub open spec fn spec_decode_loopback(family: u32, p: Seq<u8>) -> Result<Decoded, ParseError> {
    if p.len() < 4 {
        Err(ParseError::TooShort(p.len() as usize))
    } else if family == 2 || family == 30 {
        let l3 = if family == 2 { L3Proto::Ipv4 } else { L3Proto::Ipv6 };
        with_link(l3, None, spec_decode_l3(p.subrange(4, p.len() as int)))
    } else {
        Ok((L3Proto::Other(0), None, L4Proto::Unknown, None, TcpFlags(0), AppHint::Unknown, 0))
    }
}

/// Decodes a loopback frame once its address family has been read.
pub fn decode_loopback_with(family: u32, payload: &[u8]) -> (r: Result<Decoded, ParseError>)
    ensures
        r == spec_decode_loopback(family, payload@),
{
    if payload.len() < 4 {
        return Err(ParseError::TooShort(payload.len()));
    }
    let l3 = if family == 2 {
        L3Proto::Ipv4
    } else if family == 30 {
        L3Proto::Ipv6
    } else {
        return Ok((L3Proto::Other(0), None, L4Proto::Unknown, None, TcpFlags(0), AppHint::Unknown, 0));
    };
    let after = slice_subrange(payload, 4, payload.len());
    match decode_l3(after, l3) {
        Err(e) => Err(e),
        Ok((l4, flow, tcp_flags, app, l3_len)) => Ok((l3, None, l4, flow, tcp_flags, app, l3_len)),
    }
}

/// Decodes a BSD loopback frame: a four-byte address family in the byte
/// order of the machine, then the IP packet.
pub fn decode_loopback(payload: &[u8]) -> (r: Result<Decoded, ParseError>)
    ensures
        payload.len() >= 4 ==> (r == spec_decode_loopback(loopback_family_le(payload@), payload@)
            || r == spec_decode_loopback(loopback_family_be(payload@), payload@)),
        payload.len() < 4 ==> r == Err::<Decoded, ParseError>(ParseError::TooShort(payload.len())),
{
    if payload.len() < 4 {
        return Err(ParseError::TooShort(payload.len()));
    }
    let b: [u8; 4] = [payload[0], payload[1], payload[2], payload[3]];
    let family = u32_from_ne_bytes(b);
    assert(b == [payload@[0], payload@[1], payload@[2], payload@[3]]);
    decode_loopback_with(family, payload)
}

/// The frame that decoded link-layer facts `d` make.
pub open spec fn frame_of(d: Decoded, wire_len: u32, captured_at: u64) -> Frame {
    Frame {
        captured_at,
        wire_len,
        cap_len: d.6 as u32,
        direction: Direction::Rx,
        l3: d.0,
        l4: d.2,
        macs: d.1,
        flow: d.3,
        tcp_flags: d.4,
        app: d.5,
    }
}

/// Wraps a link-layer decoding as a frame.
pub open spec fn as_frame(
    d: Result<Decoded, ParseError>,
    wire_len: u32,
    captured_at: u64,
) -> Result<Option<Frame>, ParseError> {
    match d {
        Err(e) => Err(e),
        Ok(d) => Ok(Some(frame_of(d, wire_len, captured_at))),
    }
}

/// Decodes one captured frame read at `captured_at` (monotonic clock, ns).
/// An empty capture decodes to nothing; a link type other than Ethernet or
/// loopback is refused. The direction is set to receive: the caller decides
/// it from the MAC addresses.
pub fn decode(payload: &[u8], link_type: LinkType, wire_len: u32, captured_at: u64) -> (r: Result<
    Option<Frame>,
    ParseError,
>)
    ensures
        payload.len() == 0 ==> r == Ok::<Option<Frame>, ParseError>(None),
        payload.len() > 0 ==> match link_type {
            LinkType::Ethernet => r == as_frame(spec_decode_ethernet(payload@), wire_len, captured_at),
            LinkType::Loopback => {
                &&& payload.len() < 4 ==> r == Err::<Option<Frame>, ParseError>(
                    ParseError::TooShort(payload.len()),
                )
                &&& payload.len() >= 4 ==> (r == as_frame(
                    spec_decode_loopback(loopback_family_le(payload@), payload@),
                    wire_len,
                    captured_at,
                ) || r == as_frame(
                    spec_decode_loopback(loopback_family_be(payload@), payload@),
                    wire_len,
                    captured_at,
                ))
            },
            LinkType::Other(t) => r == Err::<Option<Frame>, ParseError>(
                ParseError::UnsupportedLinkType(LinkType::Other(t)),
            ),
        },
{
    if payload.len() == 0 {
        return Ok(None);
    }
    let d = match link_type {
        LinkType::Ethernet => decode_ethernet(payload),
        LinkType::Loopback => decode_loopback(payload),
        LinkType::Other(t) => {
            return Err(ParseError::UnsupportedLinkType(LinkType::Other(t)));
        },
    };
    match d {
        Err(e) => Err(e),
        Ok((l3, macs, l4, flow, tcp_flags, app, l3_len)) => Ok(
            Some(
                Frame {
                    captured_at,
                    wire_len,
                    cap_len: l3_len as u32,
                    direction: Direction::Rx,
                    l3,
                    l4,
                    macs,
                    flow,
                    tcp_flags,
                    app,
                },
            ),
        ),
    }
}

/// The TCP flags read from a header are bits 0 to 5 of its byte 13
/// (FIN, SYN, RST, PSH, ACK, URG), and no other bit.
pub proof fn lemma_tcp_flags_from_byte_13(tcp: Seq<u8>)
    requires
        tcp.len() >= 20,
    ensures
        forall|b: u8| #![trigger (1u8 << b)]
            b < 6 ==> (spec_tcp_flags(tcp).0 & (1u8 << b) != 0 <==> tcp[13] & (1u8 << b) != 0),
        spec_tcp_flags(tcp).0 & 0xc0 == 0,
{
    let x = tcp[13];
    assert(forall|b: u8| b < 6 ==> ((x & 0x3f) & (1u8 << b) != 0 <==> x & (1u8 << b) != 0)) by (bit_vector);
    assert((x & 0x3f) & 0xc0 == 0) by (bit_vector);
}

/// Decoding the headers of an IP packet: a TCP or UDP packet yields the
/// flow from its addresses and ports, with the application hint of its
/// ports; TCP flags come only from a TCP header; a packet without a
/// transport layer, or with ICMP, yields no flow and no hint.
pub proof fn lemma_l3_outcome(h: IpHeadersView, len: usize)
    ensures
        ({
            let (l4, flow, flags, app, n) = spec_l3_outcome(h, len);
            &&& h.net is None ==> flow is None && l4 == L4Proto::Unknown && app == AppHint::Unknown
            &&& h.net matches Some(net) ==> {
                &&& n == len
                &&& (flow is Some <==> (h.transport matches Some(TransportHeaderView::Tcp(_)) || h.transport matches Some(
                    TransportHeaderView::Udp(_),
                )))
                &&& h.transport matches Some(TransportHeaderView::Tcp(b)) ==> l4 == L4Proto::Tcp && flags
                    == spec_tcp_flags(b)
                &&& h.transport matches Some(TransportHeaderView::Udp(_)) ==> l4 == L4Proto::Udp && flags
                    == TcpFlags(0)
                &&& flow matches Some(k) ==> {
                    &&& k.proto == l4
                    &&& (k.src, k.dst) == header_addrs(net)
                    &&& app == AppHint::spec_from_ports(k.src_port, k.dst_port)
                }
                &&& flow is None ==> app == AppHint::Unknown && flags == TcpFlags(0)
            }
        }),
{
}

} // verus!
