//! Capture: how frames are attributed to a direction, the settings of the
//! capture backends, the synthetic traffic generator, the walk over a BPF
//! buffer, and what `ifconfig` and sysfs texts say about an interface.

use vstd::prelude::*;
use crate::domain::{
    mac_eq, AppHint, Counters, Direction, FlowKey, Frame, IfStats, IpAddr, L3Proto, L4Proto, MacAddr,
    MacPair, TcpFlags,
};
use crate::text::{
    chars_of, find_str, first_sub, has_sub, parse_hex, parse_i64, parse_u32, parse_u64, spec_parse_hex, spec_parse_i64,
    spec_parse_u32, spec_parse_u64, spec_split, spec_trim, spec_words, split_on, string_of, strip_all_prefix,
    strip_hex_prefix, sub_chars, trim_chars, words,
};

verus! {

broadcast use vstd::string::group_string_axioms;

// ---------------------------------------------------------------------------
// MAC addresses in text
// ---------------------------------------------------------------------------

/// The MAC address that colon-separated hexadecimal text names: exactly six
/// parts, each a byte.
pub open spec fn spec_parse_mac(s: Seq<char>) -> Option<[u8; 6]> {
    let parts = spec_split(s, ':');
    if exists|i: int| 0 <= i < parts.len() && #[trigger] spec_parse_hex(parts[i], 255) is None {
        None
    } else if parts.len() != 6 {
        None
    } else {
        Some(
            [
                spec_parse_hex(parts[0], 255)->0 as u8,
                spec_parse_hex(parts[1], 255)->0 as u8,
                spec_parse_hex(parts[2], 255)->0 as u8,
                spec_parse_hex(parts[3], 255)->0 as u8,
                spec_parse_hex(parts[4], 255)->0 as u8,
                spec_parse_hex(parts[5], 255)->0 as u8,
            ],
        )
    }
}

fn parse_mac_chars(s: &[char]) -> (r: Option<MacAddr>)
    ensures
        match r {
            Some(m) => spec_parse_mac(s@) == Some(m.0),
            None => spec_parse_mac(s@) is None,
        },
{
    let parts = split_on(s, ':');
    let ghost sp = spec_split(s@, ':');
    let mut bytes: Vec<u8> = Vec::new();
    let mut i: usize = 0;
    while i < parts.len()
        invariant
            i <= parts@.len(),
            parts@.len() == sp.len(),
            sp == spec_split(s@, ':'),
            forall|k: int| 0 <= k < parts@.len() ==> #[trigger] parts@[k]@ == sp[k],
            bytes@.len() == i,
            forall|k: int| 0 <= k < i ==> #[trigger] spec_parse_hex(sp[k], 255) == Some(bytes@[k] as nat),
        decreases parts@.len() - i,
    {
        match parse_hex(&parts[i], 255) {
            Some(v) => {
                bytes.push(v as u8);
            },
            None => {
                assert(spec_parse_hex(sp[i as int], 255) is None);
                return None;
            },
        }
        i += 1;
    }
    if bytes.len() != 6 {
        return None;
    }
    let m = MacAddr([bytes[0], bytes[1], bytes[2], bytes[3], bytes[4], bytes[5]]);
    assert(forall|k: int| 0 <= k < sp.len() ==> #[trigger] spec_parse_hex(sp[k], 255) is Some);
    assert(spec_parse_hex(sp[0], 255) == Some(bytes@[0] as nat));
    assert(spec_parse_hex(sp[1], 255) == Some(bytes@[1] as nat));
    assert(spec_parse_hex(sp[2], 255) == Some(bytes@[2] as nat));
    assert(spec_parse_hex(sp[3], 255) == Some(bytes@[3] as nat));
    assert(spec_parse_hex(sp[4], 255) == Some(bytes@[4] as nat));
    assert(spec_parse_hex(sp[5], 255) == Some(bytes@[5] as nat));
    Some(m)
}

/// Reads a MAC address written as six colon-separated hexadecimal bytes.
pub fn parse_mac(s: &str) -> (r: Option<MacAddr>)
    ensures
        match r {
            Some(m) => spec_parse_mac(s@) == Some(m.0),
            None => spec_parse_mac(s@) is None,
        },
{
    let c = chars_of(s);
    parse_mac_chars(&c)
}

/// The first word after position `i + key.len()` of `text`.
pub open spec fn word_after(text: Seq<char>, key: Seq<char>, i: int) -> Option<Seq<char>> {
    let w = spec_words(text.skip(i + key.len()));
    if w.len() > 0 { Some(w[0]) } else { None }
}

/// The first word after the first `key` in `text`.
pub open spec fn word_after_first(text: Seq<char>, key: Seq<char>) -> Option<Seq<char>> {
    match first_sub(text, key) {
        Some(i) => word_after(text, key, i),
        None => None,
    }
}

proof fn lemma_first_sub(s: Seq<char>, lit: Seq<char>, i: int)
    requires
        0 <= i && i + lit.len() <= s.len(),
        s.subrange(i, i + lit.len()) == lit,
        forall|j: int| 0 <= j < i ==> #[trigger] s.subrange(j, j + lit.len()) != lit,
    ensures
        first_sub(s, lit) == Some(i),
{
    let k = choose|k: int| 0 <= k && k + lit.len() <= s.len() && #[trigger] s.subrange(k, k + lit.len()) == lit
        && forall|j: int| 0 <= j < k ==> #[trigger] s.subrange(j, j + lit.len()) != lit;
    assert(0 <= k && k + lit.len() <= s.len() && s.subrange(k, k + lit.len()) == lit
        && forall|j: int| 0 <= j < k ==> #[trigger] s.subrange(j, j + lit.len()) != lit);
    if k < i {
        assert(s.subrange(k, k + lit.len()) != lit);
    }
    if i < k {
        assert(s.subrange(i, i + lit.len()) != lit);
    }
}

fn first_word_after(text: &[char], key: &str) -> (r: Option<Vec<char>>)
    ensures
        match r {
            Some(w) => word_after_first(text@, key@) == Some(w@),
            None => word_after_first(text@, key@) is None,
        },
{
    let i = match find_str(text, key) {
        Some(i) => i,
        None => {
            return None;
        },
    };
    proof { lemma_first_sub(text@, key@, i as int); }
    let n = key.unicode_len();
    assert(i + n <= text@.len());
    assert(text@.len() == text.len());
    let tail = sub_chars(text, i + n, text.len());
    assert(tail@ =~= text@.skip(i + key@.len()));
    let w = words(&tail);
    if w.len() > 0 {
        let first = sub_chars(&w[0], 0, w[0].len());
        assert(first@ =~= w@[0]@);
        Some(first)
    } else {
        None
    }
}

/// The interface's MAC address in `ifconfig` output: the word after the
/// first `ether `.
pub open spec fn spec_mac_from_ifconfig(text: Seq<char>) -> Option<[u8; 6]> {
    match word_after_first(text, "ether "@) {
        Some(w) => spec_parse_mac(w),
        None => None,
    }
}

pub fn mac_from_ifconfig(text: &str) -> (r: Option<MacAddr>)
    ensures
        match r {
            Some(m) => spec_mac_from_ifconfig(text@) == Some(m.0),
            None => spec_mac_from_ifconfig(text@) is None,
        },
{
    let t = chars_of(text);
    match first_word_after(&t, "ether ") {
        Some(w) => parse_mac_chars(&w),
        None => None,
    }
}

/// The interface flags in `ifconfig` output: the word after the first
/// `flags=`, without leading `0x`, read as hexadecimal.
pub open spec fn spec_bsd_flags(text: Seq<char>) -> Option<nat> {
    match word_after_first(text, "flags="@) {
        Some(w) => spec_parse_hex(strip_all_prefix(w, "0x"@), 0xffff_ffff),
        None => None,
    }
}

pub fn bsd_flags_from_ifconfig(text: &str) -> (r: Option<u32>)
    ensures
        match r {
            Some(f) => spec_bsd_flags(text@) == Some(f as nat),
            None => spec_bsd_flags(text@) is None,
        },
{
    let t = chars_of(text);
    match first_word_after(&t, "flags=") {
        Some(w) => {
            let h = strip_hex_prefix(&w);
            match parse_hex(&h, 0xffff_ffff) {
                Some(v) => Some(v as u32),
                None => None,
            }
        },
        None => None,
    }
}

/// The interface names that `ifconfig -l` printed.
pub fn interface_names(text: &str) -> (r: Vec<String>)
    ensures
        r@.len() == spec_words(text@).len(),
        forall|k: int| 0 <= k < r@.len() ==> #[trigger] r@[k]@ == spec_words(text@)[k],
{
    let t = chars_of(text);
    let w = words(&t);
    let mut out: Vec<String> = Vec::new();
    let mut i: usize = 0;
    while i < w.len()
        invariant
            i <= w@.len(),
            w@.len() == spec_words(text@).len(),
            forall|k: int| 0 <= k < w@.len() ==> #[trigger] w@[k]@ == spec_words(text@)[k],
            out@.len() == i,
            forall|k: int| 0 <= k < i ==> #[trigger] out@[k]@ == spec_words(text@)[k],
        decreases w@.len() - i,
    {
        out.push(string_of(&w[i]));
        i += 1;
    }
    out
}

// ---------------------------------------------------------------------------
// Interface statistics from sysfs
// ---------------------------------------------------------------------------

/// The link speed in bits per second, from sysfs's speed in Mbit/s: 0 when
/// it is unknown (0 or negative).
pub open spec fn spec_baudrate(speed_mbps: i64) -> u64 {
    if speed_mbps > 0 {
        (speed_mbps * 1_000_000) as u64
    } else {
        0
    }
}

pub fn baudrate_from_speed(speed_mbps: i64) -> (r: u64)
    requires
        speed_mbps * 1_000_000 <= u64::MAX,
    ensures
        r == spec_baudrate(speed_mbps),
{
    if speed_mbps > 0 {
        (speed_mbps as u64) * 1_000_000
    } else {
        0
    }
}

/// The texts of an interface's sysfs files, `None` for a file that could
/// not be read.
#[derive(Debug)]
pub struct SysfsIfText {
    pub mtu: Option<String>,
    pub speed: Option<String>,
    pub flags: Option<String>,
    pub rx_bytes: Option<String>,
    pub rx_packets: Option<String>,
    pub tx_bytes: Option<String>,
    pub tx_packets: Option<String>,
    pub rx_errors: Option<String>,
    pub tx_errors: Option<String>,
    pub rx_dropped: Option<String>,
    pub tx_dropped: Option<String>,
    pub collisions: Option<String>,
    pub multicast: Option<String>,
}

/// A counter file's value: its trimmed text read as a number, or 0.
pub open spec fn counter_value(t: Option<String>) -> u64 {
    match t {
        Some(s) => match spec_parse_u64(spec_trim(s@)) {
            Some(v) => v,
            None => 0,
        },
        None => 0,
    }
}

fn read_counter(t: &Option<String>) -> (r: u64)
    ensures
        r == counter_value(*t),
{
    match t {
        Some(s) => {
            let c = chars_of(s.as_str());
            let tr = trim_chars(&c);
            match parse_u64(&tr) {
                Some(v) => v,
                None => 0,
            }
        },
        None => 0,
    }
}

pub open spec fn mtu_value(t: Option<String>) -> u32 {
    match t {
        Some(s) => match spec_parse_u32(spec_trim(s@)) {
            Some(v) => v,
            None => 0,
        },
        None => 0,
    }
}

pub open spec fn speed_value(t: Option<String>) -> i64 {
    match t {
        Some(s) => match spec_parse_i64(spec_trim(s@)) {
            Some(v) => v,
            None => -1i64,
        },
        None => -1i64,
    }
}

pub open spec fn flags_value(t: Option<String>) -> u32 {
    match t {
        Some(s) => match spec_parse_hex(strip_all_prefix(spec_trim(s@), "0x"@), 0xffff_ffff) {
            Some(v) => v as u32,
            None => 0,
        },
        None => 0,
    }
}

/// The statistics of interface `name` from the texts of its sysfs files:
/// each counter is its file's number (0 when unreadable); the speed gives
/// the baud rate (unknown when unreadable); the flags are hexadecimal.
pub fn linux_if_stats(name: &str, t: &SysfsIfText) -> (r: IfStats)
    requires
        speed_value(t.speed) * 1_000_000 <= u64::MAX,
    ensures
        r.name@ == name@,
        r.mtu == mtu_value(t.mtu),
        r.baudrate == spec_baudrate(speed_value(t.speed)),
        r.flags == flags_value(t.flags),
        r.rx == (Counters { bytes: counter_value(t.rx_bytes), packets: counter_value(t.rx_packets) }),
        r.tx == (Counters { bytes: counter_value(t.tx_bytes), packets: counter_value(t.tx_packets) }),
        r.rx_errors == counter_value(t.rx_errors),
        r.tx_errors == counter_value(t.tx_errors),
        r.rx_drops == counter_value(t.rx_dropped),
        r.tx_drops == counter_value(t.tx_dropped),
        r.collisions == counter_value(t.collisions),
        r.multicast == counter_value(t.multicast),
{
    let mtu: u32 = match &t.mtu {
        Some(s) => {
            let c = chars_of(s.as_str());
            let tr = trim_chars(&c);
            match parse_u32(&tr) {
                Some(v) => v,
                None => 0,
            }
        },
        None => 0,
    };
    let speed: i64 = match &t.speed {
        Some(s) => {
            let c = chars_of(s.as_str());
            let tr = trim_chars(&c);
            match parse_i64(&tr) {
                Some(v) => v,
                None => -1,
            }
        },
        None => -1,
    };
    let flags: u32 = match &t.flags {
        Some(s) => {
            let c = chars_of(s.as_str());
            let tr = trim_chars(&c);
            let h = strip_hex_prefix(&tr);
            match parse_hex(&h, 0xffff_ffff) {
                Some(v) => v as u32,
                None => 0,
            }
        },
        None => 0,
    };
    IfStats {
        name: name.to_owned(),
        mtu,
        baudrate: baudrate_from_speed(speed),
        rx: Counters { bytes: read_counter(&t.rx_bytes), packets: read_counter(&t.rx_packets) },
        tx: Counters { bytes: read_counter(&t.tx_bytes), packets: read_counter(&t.tx_packets) },
        rx_errors: read_counter(&t.rx_errors),
        tx_errors: read_counter(&t.tx_errors),
        rx_drops: read_counter(&t.rx_dropped),
        tx_drops: read_counter(&t.tx_dropped),
        collisions: read_counter(&t.collisions),
        multicast: read_counter(&t.multicast),
        flags,
    }
}

// ---------------------------------------------------------------------------
// Direction
// ---------------------------------------------------------------------------

/// Which way a frame went: one whose source is our MAC is our own
/// transmission; anything else, or anything while our MAC is unknown, is
/// received.
pub open spec fn spec_classify_direction(src: MacAddr, dst: MacAddr, iface_mac: Option<MacAddr>) -> Direction {
    match iface_mac {
        Some(mac) => if crate::domain::mac_same(src, mac) {
            Direction::Tx
        } else {
            Direction::Rx
        },
        None => Direction::Rx,
    }
}

pub fn classify_direction(src: MacAddr, dst: MacAddr, iface_mac: Option<MacAddr>) -> (r: Direction)
    ensures
        r == spec_classify_direction(src, dst, iface_mac),
{
    match iface_mac {
        Some(mac) => {
            if mac_eq(src, mac) {
                Direction::Tx
            } else {
                Direction::Rx
            }
        },
        None => Direction::Rx,
    }
}

/// A frame is our own transmission exactly when our MAC is known and the
/// frame's source is that MAC, whatever its destination; every other frame
/// was received.
pub proof fn lemma_direction_by_source(src: MacAddr, dst: MacAddr, iface_mac: Option<MacAddr>)
    ensures
        (spec_classify_direction(src, dst, iface_mac) == Direction::Tx) <==> (iface_mac matches Some(m)
            && src.0@ == m.0@),
        (spec_classify_direction(src, dst, iface_mac) == Direction::Rx) <==> !(iface_mac matches Some(m)
            && src.0@ == m.0@),
{
}

/// What is known of our own interface for classifying frames.
#[derive(Copy, Clone, Debug)]
pub struct MacContext {
    pub iface_mac: Option<MacAddr>,
}

impl MacContext {
    /// The direction of a frame with MAC addresses `pair`.
    pub fn direction(&self, pair: MacPair) -> (r: Direction)
        ensures
            r == spec_classify_direction(pair.src, pair.dst, self.iface_mac),
    {
        classify_direction(pair.src, pair.dst, self.iface_mac)
    }
}

// ---------------------------------------------------------------------------
// Backend settings
// ---------------------------------------------------------------------------

/// Settings of the BPF backend. The read timeout is in milliseconds.
#[derive(Clone, Debug)]
pub struct BpfConfig {
    pub interface: String,
    pub promiscuous: bool,
    pub immediate: bool,
    pub read_timeout_ms: u64,
}

impl BpfConfig {
    /// Promiscuous, immediate, a 250 ms read timeout.
    pub fn new(interface: String) -> (r: Self)
        ensures
            r.interface == interface,
            r.promiscuous && r.immediate,
            r.read_timeout_ms == 250,
    {
        BpfConfig { interface, promiscuous: true, immediate: true, read_timeout_ms: 250 }
    }

    pub fn promiscuous(self, yes: bool) -> (r: Self)
        ensures
            r.promiscuous == yes,
            r.interface == self.interface && r.immediate == self.immediate && r.read_timeout_ms
                == self.read_timeout_ms,
    {
        BpfConfig { promiscuous: yes, ..self }
    }

    pub fn immediate(self, yes: bool) -> (r: Self)
        ensures
            r.immediate == yes,
            r.interface == self.interface && r.promiscuous == self.promiscuous && r.read_timeout_ms
                == self.read_timeout_ms,
    {
        BpfConfig { immediate: yes, ..self }
    }

    pub fn read_timeout(self, ms: u64) -> (r: Self)
        ensures
            r.read_timeout_ms == ms,
            r.interface == self.interface && r.promiscuous == self.promiscuous && r.immediate
                == self.immediate,
    {
        BpfConfig { read_timeout_ms: ms, ..self }
    }
}

/// Settings of the AF_PACKET backend. The read timeout is in milliseconds.
#[derive(Clone, Debug)]
pub struct AfPacketConfig {
    pub interface: String,
    pub promiscuous: bool,
    pub read_timeout_ms: u64,
    pub buffer_size: usize,
}

impl AfPacketConfig {
    /// Promiscuous, a 250 ms read timeout, a 4 MiB buffer.
    pub fn new(interface: String) -> (r: Self)
        ensures
            r.interface == interface,
            r.promiscuous,
            r.read_timeout_ms == 250,
            r.buffer_size == 4 * 1024 * 1024,
    {
        AfPacketConfig { interface, promiscuous: true, read_timeout_ms: 250, buffer_size: 4 * 1024 * 1024 }
    }

    pub fn promiscuous(self, yes: bool) -> (r: Self)
        ensures
            r.promiscuous == yes,
            r.interface == self.interface && r.read_timeout_ms == self.read_timeout_ms && r.buffer_size
                == self.buffer_size,
    {
        AfPacketConfig { promiscuous: yes, ..self }
    }

    pub fn read_timeout(self, ms: u64) -> (r: Self)
        ensures
            r.read_timeout_ms == ms,
            r.interface == self.interface && r.promiscuous == self.promiscuous && r.buffer_size
                == self.buffer_size,
    {
        AfPacketConfig { read_timeout_ms: ms, ..self }
    }

    pub fn buffer_size(self, n: usize) -> (r: Self)
        ensures
            r.buffer_size == n,
            r.interface == self.interface && r.promiscuous == self.promiscuous && r.read_timeout_ms
                == self.read_timeout_ms,
    {
        AfPacketConfig { buffer_size: n, ..self }
    }
}

// ---------------------------------------------------------------------------
// BPF buffers
// ---------------------------------------------------------------------------

/// The size of a BPF record header.
pub const BPF_HDR_SIZE: usize = 32;

/// Whether another record header fits in the `n` bytes read, at `offset`.
pub fn bpf_has_header(offset: usize, n: usize) -> (r: bool)
    ensures
        r == (offset + BPF_HDR_SIZE <= n),
{
    offset <= n && n - offset >= BPF_HDR_SIZE
}

/// `x` rounded up to a multiple of 4.
pub open spec fn word_align(x: int) -> int {
    ((x + 3) / 4) * 4
}

/// The record whose header at `offset` gives header length `hdr_len` and
/// capture length `caplen`, in a buffer of which `n` bytes were read: where
/// its packet starts and ends and where the next record starts. There is
/// none when a length is 0 or the packet runs past the bytes read.
pub open spec fn spec_bpf_record(offset: usize, hdr_len: u16, caplen: u32, n: usize) -> Option<(usize, usize, usize)> {
    if hdr_len == 0 || caplen == 0 || offset + hdr_len + caplen > n {
        None
    } else {
        Some(
            (
                (offset + hdr_len) as usize,
                (offset + hdr_len + caplen) as usize,
                (offset + word_align(hdr_len + caplen)) as usize,
            ),
        )
    }
}

pub fn bpf_record(offset: usize, hdr_len: u16, caplen: u32, n: usize) -> (r: Option<(usize, usize, usize)>)
    requires
        offset + hdr_len + caplen + 3 <= usize::MAX,
    ensures
        r == spec_bpf_record(offset, hdr_len, caplen, n),
{
    if hdr_len == 0 || caplen == 0 {
        return None;
    }
    let start = offset + hdr_len as usize;
    let end = start + caplen as usize;
    if end > n {
        return None;
    }
    let len: usize = hdr_len as usize + caplen as usize;
    let bumped: usize = len + 3;
    let aligned = bumped & !3usize;
    assert(aligned == (bumped / 4) * 4) by (bit_vector)
        requires
            aligned == bumped & !3usize,
    ;
    if offset > usize::MAX - aligned {
        return None;
    }
    Some((start, end, offset + aligned))
}

/// The unsigned 32-bit value of the four bytes at `off`, in little- or
/// big-endian order.
pub open spec fn u32_at(buf: Seq<u8>, off: int, little_endian: bool) -> u32 {
    if little_endian {
        crate::decode::le_u32([buf[off], buf[off + 1], buf[off + 2], buf[off + 3]])
    } else {
        crate::decode::be_u32([buf[off], buf[off + 1], buf[off + 2], buf[off + 3]])
    }
}

/// The unsigned 16-bit value of the two bytes at `off`.
pub open spec fn u16_at(buf: Seq<u8>, off: int, little_endian: bool) -> u16 {
    if little_endian {
        (buf[off + 1] as int * 0x100 + buf[off] as int) as u16
    } else {
        (buf[off] as int * 0x100 + buf[off + 1] as int) as u16
    }
}

/// The packets of a BPF read buffer of which `n` bytes were read, from the
/// record at `offset` on: for each, where its packet starts and ends and its
/// length on the wire. A record header holds the capture length at byte 16,
/// the wire length at byte 20 and the header length at byte 24 (the layout
/// of 64-bit FreeBSD), in the machine's byte order. The walk stops when no
/// whole header is left, at the first record that `spec_bpf_record` rejects,
/// and where the next offset would not fit in a `usize`.
pub open spec fn bpf_walk(buf: Seq<u8>, n: usize, little_endian: bool, offset: usize) -> Seq<(usize, usize, u32)>
    decreases n + 4 - offset,
{
    if offset + BPF_HDR_SIZE > n {
        Seq::empty()
    } else {
        let caplen = u32_at(buf, offset + 16, little_endian);
        let datalen = u32_at(buf, offset + 20, little_endian);
        let hdr_len = u16_at(buf, offset + 24, little_endian);
        if offset + hdr_len + caplen + 3 > usize::MAX {
            Seq::empty()
        } else {
            match spec_bpf_record(offset, hdr_len, caplen, n) {
                None => Seq::empty(),
                Some((start, end, next)) => {
                    proof {
                        let x = hdr_len + caplen;
                        assert(x <= word_align(x) <= x + 3) by (nonlinear_arith)
                            requires
                                x >= 0,
                        ;
                        assert(offset < next <= n + 3);
                    }
                    seq![(start, end, datalen)] + bpf_walk(buf, n, little_endian, next)
                },
            }
        }
    }
}

fn read_u32_at(buf: &[u8], off: usize, little_endian: bool) -> (r: u32)
    requires
        off + 4 <= buf@.len(),
    ensures
        r == u32_at(buf@, off as int, little_endian),
{
    let b0 = buf[off] as u32;
    let b1 = buf[off + 1] as u32;
    let b2 = buf[off + 2] as u32;
    let b3 = buf[off + 3] as u32;
    if little_endian {
        b3 * 0x1000000 + b2 * 0x10000 + b1 * 0x100 + b0
    } else {
        b0 * 0x1000000 + b1 * 0x10000 + b2 * 0x100 + b3
    }
}

fn read_u16_at(buf: &[u8], off: usize, little_endian: bool) -> (r: u16)
    requires
        off + 2 <= buf@.len(),
    ensures
        r == u16_at(buf@, off as int, little_endian),
{
    let b0 = buf[off] as u16;
    let b1 = buf[off + 1] as u16;
    if little_endian {
        b1 * 0x100 + b0
    } else {
        b0 * 0x100 + b1
    }
}

/// The packets of a BPF read buffer of which `n` bytes were read, as
/// `bpf_walk` gives them from the first record.
pub fn bpf_records(buf: &[u8], n: usize, little_endian: bool) -> (r: Vec<(usize, usize, u32)>)
    requires
        n <= buf@.len(),
    ensures
        r@ == bpf_walk(buf@, n, little_endian, 0),
{
    let mut out: Vec<(usize, usize, u32)> = Vec::new();
    let mut offset: usize = 0;
    while bpf_has_header(offset, n)
        invariant
            n <= buf@.len(),
            out@ + bpf_walk(buf@, n, little_endian, offset) == bpf_walk(buf@, n, little_endian, 0),
        ensures
            out@ == bpf_walk(buf@, n, little_endian, 0),
        decreases n + 4 - offset,
    {
        let caplen = read_u32_at(buf, offset + 16, little_endian);
        let datalen = read_u32_at(buf, offset + 20, little_endian);
        let hdr_len = read_u16_at(buf, offset + 24, little_endian);
        if offset as u128 + hdr_len as u128 + caplen as u128 + 3 > usize::MAX as u128 {
            assert(bpf_walk(buf@, n, little_endian, offset) =~= Seq::<(usize, usize, u32)>::empty());
            assert(out@ =~= out@ + bpf_walk(buf@, n, little_endian, offset));
            break;
        }
        match bpf_record(offset, hdr_len, caplen, n) {
            None => {
                assert(bpf_walk(buf@, n, little_endian, offset) =~= Seq::<(usize, usize, u32)>::empty());
                assert(out@ =~= out@ + bpf_walk(buf@, n, little_endian, offset));
                break;
            },
            Some((start, end, next)) => {
                let ghost before = out@;
                out.push((start, end, datalen));
                proof {
                    let x = hdr_len + caplen;
                    assert(x <= word_align(x) <= x + 3) by (nonlinear_arith)
                        requires
                            x >= 0,
                    ;
                    assert(offset < next <= n + 3);
                    assert(out@ + bpf_walk(buf@, n, little_endian, next) =~= before
                        + bpf_walk(buf@, n, little_endian, offset));
                }
                offset = next;
            },
        }
    }
    out
}

// ---------------------------------------------------------------------------
// Sources
// ---------------------------------------------------------------------------

/// A live capture of one interface.
#[derive(Clone, Debug)]
pub struct LiveSource {
    pub interface: String,
    pub promiscuous: bool,
}

impl LiveSource {
    pub fn new(interface: String, promiscuous: bool) -> (r: Self)
        ensures
            r.interface == interface,
            r.promiscuous == promiscuous,
    {
        LiveSource { interface, promiscuous }
    }

    /// `capture:` and the interface.
    pub fn name(&self) -> (r: String)
        ensures
            r@ == "capture:"@ + self.interface@,
    {
        let mut s = String::from_str("capture:");
        s.append(self.interface.as_str());
        s
    }
}

/// The traffic a synthetic source makes.
#[derive(Copy, Clone, Debug, PartialEq, Eq, Structural)]
pub enum Scenario {
    Mixed,
    HttpFlood,
    PortScan,
    Idle,
}

/// Deterministic traffic for demonstrations: `burst` frames every
/// `rate_ms` milliseconds.
#[derive(Copy, Clone, Debug)]
pub struct SyntheticSource {
    pub rate_ms: u64,
    pub burst: usize,
    pub scenario: Scenario,
}

impl SyntheticSource {
    /// Bursts of 20 frames every 50 ms.
    pub fn new(scenario: Scenario) -> (r: Self)
        ensures
            r.rate_ms == 50,
            r.burst == 20,
            r.scenario == scenario,
    {
        SyntheticSource { rate_ms: 50, burst: 20, scenario }
    }

    pub fn name(&self) -> (r: &'static str)
        ensures
            r == "synthetic",
    {
        "synthetic"
    }
}

/// 192.168.1.10, 93.184.216.34 and 203.0.113.42.
pub open spec fn lan_host() -> IpAddr {
    IpAddr::V4(0xc0a8010a)
}

pub open spec fn web_host() -> IpAddr {
    IpAddr::V4(0x5db8d822)
}

pub open spec fn scanner_host() -> IpAddr {
    IpAddr::V4(0xcb00712a)
}

/// The `seq`-th frame of an HTTPS download, captured at `at`: 1500 bytes
/// between a LAN host's port 40000 + `seq` mod 500 and a web server's 443,
/// every third one received.
pub open spec fn spec_http_frame(seq: u32, at: u64) -> Frame {
    Frame {
        captured_at: at,
        wire_len: 1500,
        cap_len: 1500,
        direction: if seq % 3 == 0 { Direction::Rx } else { Direction::Tx },
        l3: L3Proto::Ipv4,
        l4: L4Proto::Tcp,
        macs: Some(MacPair { src: MacAddr([0xaa, 0xbb, 0xcc, 0x00, 0x11, 0x22]), dst: MacAddr([0x11, 0x22, 0x33, 0x44, 0x55, 0x66]) }),
        flow: Some(FlowKey {
            proto: L4Proto::Tcp,
            src: lan_host(),
            src_port: (40_000 + (seq as u16) % 500) as u16,
            dst: web_host(),
            dst_port: 443,
        }),
        tcp_flags: TcpFlags(0x18),
        app: AppHint::Https,
    }
}

pub fn build_http_frame(seq: u32, at: u64) -> (r: Frame)
    ensures
        r == spec_http_frame(seq, at),
{
    let port: u16 = 40_000 + (seq as u16) % 500;
    assert(TcpFlags::ACK | TcpFlags::PSH == 0x18u8) by (bit_vector);
    Frame {
        captured_at: at,
        wire_len: 1500,
        cap_len: 1500,
        direction: if seq % 3 == 0 { Direction::Rx } else { Direction::Tx },
        l3: L3Proto::Ipv4,
        l4: L4Proto::Tcp,
        macs: Some(MacPair { src: MacAddr([0xaa, 0xbb, 0xcc, 0x00, 0x11, 0x22]), dst: MacAddr([0x11, 0x22, 0x33, 0x44, 0x55, 0x66]) }),
        flow: Some(FlowKey { proto: L4Proto::Tcp, src: IpAddr::V4(0xc0a8010a), src_port: port, dst: IpAddr::V4(0x5db8d822), dst_port: 443 }),
        tcp_flags: TcpFlags(TcpFlags::ACK | TcpFlags::PSH),
        app: AppHint::Https,
    }
}

/// The `seq`-th probe of a port scan, captured at `at`: a 60-byte SYN from
/// a scanner's port 50000 to a LAN host's port 1 + `seq` mod 2000.
pub open spec fn spec_scan_frame(seq: u32, at: u64) -> Frame {
    Frame {
        captured_at: at,
        wire_len: 60,
        cap_len: 60,
        direction: Direction::Rx,
        l3: L3Proto::Ipv4,
        l4: L4Proto::Tcp,
        macs: None,
        flow: Some(FlowKey {
            proto: L4Proto::Tcp,
            src: scanner_host(),
            src_port: 50_000,
            dst: lan_host(),
            dst_port: (1 + (seq as u16) % 2000) as u16,
        }),
        tcp_flags: TcpFlags(0x02),
        app: AppHint::Unknown,
    }
}

pub fn build_scan_frame(seq: u32, at: u64) -> (r: Frame)
    ensures
        r == spec_scan_frame(seq, at),
{
    let port: u16 = 1 + (seq as u16) % 2000;
    Frame {
        captured_at: at,
        wire_len: 60,
        cap_len: 60,
        direction: Direction::Rx,
        l3: L3Proto::Ipv4,
        l4: L4Proto::Tcp,
        macs: None,
        flow: Some(FlowKey { proto: L4Proto::Tcp, src: IpAddr::V4(0xcb00712a), src_port: 50_000, dst: IpAddr::V4(0xc0a8010a), dst_port: port }),
        tcp_flags: TcpFlags(TcpFlags::SYN),
        app: AppHint::Unknown,
    }
}

/// The frame a scenario makes for sequence number `seq`: none when idle;
/// in the mixed scenario every seventh is a scan probe.
pub open spec fn spec_synthetic_frame(scenario: Scenario, seq: u32, at: u64) -> Option<Frame> {
    match scenario {
        Scenario::Idle => None,
        Scenario::HttpFlood => Some(spec_http_frame(seq, at)),
        Scenario::PortScan => Some(spec_scan_frame(seq, at)),
        Scenario::Mixed => Some(if seq % 7 == 0 { spec_scan_frame(seq, at) } else { spec_http_frame(seq, at) }),
    }
}

pub fn synthetic_frame(scenario: Scenario, seq: u32, at: u64) -> (r: Option<Frame>)
    ensures
        r == spec_synthetic_frame(scenario, seq, at),
{
    match scenario {
        Scenario::Idle => None,
        Scenario::HttpFlood => Some(build_http_frame(seq, at)),
        Scenario::PortScan => Some(build_scan_frame(seq, at)),
        Scenario::Mixed => {
            if seq % 7 == 0 {
                Some(build_scan_frame(seq, at))
            } else {
                Some(build_http_frame(seq, at))
            }
        },
    }
}

/// The next sequence number, wrapping around.
pub fn next_seq(seq: u32) -> (r: u32)
    ensures
        r == (if seq == u32::MAX { 0 } else { seq + 1 }),
{
    seq.wrapping_add(1)
}

} // verus!
