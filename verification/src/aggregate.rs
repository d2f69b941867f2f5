//! Aggregation of frames into per-interface, per-flow, per-host and
//! per-MAC views, and the sorted snapshot that the display reads.

use vstd::prelude::*;
use std::collections::VecDeque;
use crate::domain::{AppHint, Counters, Direction, FlowKey, Frame, IfStats, IpAddr, LinkType, MacAddr};
use crate::window::{spec_app_idx, spec_l3_idx, spec_l4_idx, sum_bytes, sum_packets, IfaceWindow};
use crate::tables::{
    flow_code, flow_of, flow_table, flow_table_entries, flow_table_get, flow_table_insert,
    flow_table_new, host_table, host_table_entries, host_table_get, host_table_insert,
    host_table_new, ip_code, ip_of, mac_code, mac_of, mac_table, mac_table_entries, mac_table_get,
    mac_table_insert, mac_table_new, lemma_flow_code_injective, lemma_flow_code_roundtrip,
    lemma_ip_code_roundtrip,
    spec_flow_code, spec_flow_of, spec_ip_code, spec_ip_of, spec_mac_code, valid_flow_code,
    valid_ip_code, FlowCode, FlowTable, HostTable, IpCode, MacCode, MacTable,
};

verus! {

// ---------------------------------------------------------------------------
// Flow and host entries
// ---------------------------------------------------------------------------

#[derive(Copy, Clone, Debug)]
pub struct FlowEntry {
    pub direction: Option<Direction>,
    pub bytes_rx: u64,
    pub bytes_tx: u64,
    pub packets: u64,
    pub first_seen: Option<u64>,
    pub last_seen: Option<u64>,
    pub tcp_flags_seen: u8,
    pub app: AppHint,
}

impl Default for FlowEntry {
    fn default() -> (r: FlowEntry)
        ensures
            r == FlowEntry::spec_default(),
    {
        FlowEntry {
            direction: None,
            bytes_rx: 0,
            bytes_tx: 0,
            packets: 0,
            first_seen: None,
            last_seen: None,
            tcp_flags_seen: 0,
            app: AppHint::Unknown,
        }
    }
}

impl FlowEntry {
    pub open spec fn spec_default() -> FlowEntry {
        FlowEntry {
            direction: None,
            bytes_rx: 0,
            bytes_tx: 0,
            packets: 0,
            first_seen: None,
            last_seen: None,
            tcp_flags_seen: 0,
            app: AppHint::Unknown,
        }
    }

    /// Bytes in both directions.
    pub open spec fn weight(self) -> nat {
        (self.bytes_rx + self.bytes_tx) as nat
    }

    /// Counting one more frame overflows no counter.
    pub open spec fn observe_fits(self, f: Frame) -> bool {
        &&& self.packets < u64::MAX
        &&& self.bytes_rx + self.bytes_tx + f.cap_len <= u64::MAX
    }

    /// The entry after counting frame `f`: its bytes go to the side of its
    /// direction, the last-seen time moves to the frame, the first-seen time
    /// and direction are set if they were not, its TCP flags join the ones
    /// already seen, and a recognised application replaces the previous one.
    pub open spec fn spec_observe(self, f: Frame) -> FlowEntry {
        FlowEntry {
            direction: if self.direction is Some {
                self.direction
            } else {
                Some(f.direction)
            },
            bytes_rx: if f.direction == Direction::Rx {
                (self.bytes_rx + f.cap_len) as u64
            } else {
                self.bytes_rx
            },
            bytes_tx: if f.direction == Direction::Tx {
                (self.bytes_tx + f.cap_len) as u64
            } else {
                self.bytes_tx
            },
            packets: (self.packets + 1) as u64,
            first_seen: if self.first_seen is Some {
                self.first_seen
            } else {
                Some(f.captured_at)
            },
            last_seen: Some(f.captured_at),
            tcp_flags_seen: self.tcp_flags_seen | f.tcp_flags.0,
            app: if f.app != AppHint::Unknown {
                f.app
            } else {
                self.app
            },
        }
    }

    fn observe(&mut self, frame: &Frame)
        requires
            old(self).observe_fits(*frame),
        ensures
            *final(self) == old(self).spec_observe(*frame),
    {
        self.packets = self.packets + 1;
        match frame.direction {
            Direction::Rx => self.bytes_rx = self.bytes_rx + frame.cap_len as u64,
            Direction::Tx => self.bytes_tx = self.bytes_tx + frame.cap_len as u64,
        }
        self.last_seen = Some(frame.captured_at);
        if self.first_seen.is_none() {
            self.first_seen = Some(frame.captured_at);
        }
        if self.direction.is_none() {
            self.direction = Some(frame.direction);
        }
        self.tcp_flags_seen = self.tcp_flags_seen | frame.tcp_flags.0;
        if frame.app != AppHint::Unknown {
            self.app = frame.app;
        }
    }

    pub fn total_bytes(&self) -> (r: u64)
        requires
            self.weight() <= u64::MAX,
        ensures
            r == self.weight(),
    {
        self.bytes_rx + self.bytes_tx
    }
}

#[derive(Copy, Clone, Debug)]
pub struct HostEntry {
    pub mac: Option<MacAddr>,
    pub bytes_rx: u64,
    pub bytes_tx: u64,
    pub packets: u64,
    pub flows: u64,
    pub first_seen: Option<u64>,
    pub last_seen: Option<u64>,
}

impl Default for HostEntry {
    fn default() -> (r: HostEntry)
        ensures
            r == HostEntry::spec_default(),
    {
        HostEntry {
            mac: None,
            bytes_rx: 0,
            bytes_tx: 0,
            packets: 0,
            flows: 0,
            first_seen: None,
            last_seen: None,
        }
    }
}

impl HostEntry {
    pub open spec fn spec_default() -> HostEntry {
        HostEntry {
            mac: None,
            bytes_rx: 0,
            bytes_tx: 0,
            packets: 0,
            flows: 0,
            first_seen: None,
            last_seen: None,
        }
    }

    /// Bytes in both directions.
    pub open spec fn weight(self) -> nat {
        (self.bytes_rx + self.bytes_tx) as nat
    }

    pub open spec fn observe_fits(self, f: Frame) -> bool {
        &&& self.packets < u64::MAX
        &&& self.bytes_rx + self.bytes_tx + f.cap_len <= u64::MAX
    }

    /// The entry after counting frame `f` seen with hardware address `mac`:
    /// as for a flow, and the address is kept from the first frame that had
    /// one.
    pub open spec fn spec_observe(self, f: Frame, mac: Option<MacAddr>) -> HostEntry {
        HostEntry {
            mac: if self.mac is None {
                mac
            } else {
                self.mac
            },
            bytes_rx: if f.direction == Direction::Rx {
                (self.bytes_rx + f.cap_len) as u64
            } else {
                self.bytes_rx
            },
            bytes_tx: if f.direction == Direction::Tx {
                (self.bytes_tx + f.cap_len) as u64
            } else {
                self.bytes_tx
            },
            packets: (self.packets + 1) as u64,
            flows: self.flows,
            first_seen: if self.first_seen is Some {
                self.first_seen
            } else {
                Some(f.captured_at)
            },
            last_seen: Some(f.captured_at),
        }
    }

    fn observe(&mut self, frame: &Frame, mac: Option<MacAddr>)
        requires
            old(self).observe_fits(*frame),
        ensures
            *final(self) == old(self).spec_observe(*frame, mac),
    {
        self.packets = self.packets + 1;
        match frame.direction {
            Direction::Rx => self.bytes_rx = self.bytes_rx + frame.cap_len as u64,
            Direction::Tx => self.bytes_tx = self.bytes_tx + frame.cap_len as u64,
        }
        self.last_seen = Some(frame.captured_at);
        if self.first_seen.is_none() {
            self.first_seen = Some(frame.captured_at);
        }
        if self.mac.is_none() {
            self.mac = mac;
        }
    }

    pub fn total_bytes(&self) -> (r: u64)
        requires
            self.weight() <= u64::MAX,
        ensures
            r == self.weight(),
    {
        self.bytes_rx + self.bytes_tx
    }
}


// ---------------------------------------------------------------------------
// Ordering snapshot rows by traffic
// ---------------------------------------------------------------------------

/// A table row that can be ranked by the bytes it has carried.
pub trait Weighted {
    spec fn weight_of(&self) -> nat;

    fn weight_exec(&self) -> (r: u64)
        requires
            self.weight_of() <= u64::MAX,
        ensures
            r == self.weight_of(),
    ;
}

impl Weighted for FlowEntry {
    open spec fn weight_of(&self) -> nat {
        self.weight()
    }

    fn weight_exec(&self) -> (r: u64) {
        self.total_bytes()
    }
}

impl Weighted for HostEntry {
    open spec fn weight_of(&self) -> nat {
        self.weight()
    }

    fn weight_exec(&self) -> (r: u64) {
        self.total_bytes()
    }
}

/// Rows in order of non-increasing weight.
pub open spec fn sorted_by_weight<K, E: Weighted>(s: Seq<(K, E)>) -> bool {
    forall|a: int, b: int| 0 <= a < b < s.len() ==> s[a].1.weight_of() >= s[b].1.weight_of()
}

/// `p` is a permutation of `0..n`.
pub open spec fn is_perm(p: Seq<int>, n: nat) -> bool {
    &&& p.len() == n
    &&& forall|i: int| 0 <= i < n ==> 0 <= #[trigger] p[i] < n
    &&& forall|i: int, j: int| 0 <= i < j < n ==> p[i] != p[j]
}

/// `t` holds the rows of `s` rearranged.
pub open spec fn rearranges<T>(t: Seq<T>, s: Seq<T>) -> bool {
    exists|p: Seq<int>|
        is_perm(p, s.len()) && t.len() == s.len() && forall|i: int|
            0 <= i < t.len() ==> #[trigger] t[i] == s[p[i]]
}

/// Sorts rows by non-increasing weight (insertion sort).
fn sort_by_weight<K: Copy, E: Weighted + Copy>(v: &mut Vec<(K, E)>)
    requires
        forall|i: int| 0 <= i < old(v)@.len() ==> #[trigger] old(v)@[i].1.weight_of() <= u64::MAX,
    ensures
        sorted_by_weight(final(v)@),
        rearranges(final(v)@, old(v)@),
{
    let n = v.len();
    let ghost orig = v@;
    let ghost mut p: Seq<int> = Seq::new(n as nat, |i: int| i);
    if n == 0 {
        proof {
            assert(is_perm(p, orig.len()) && v@.len() == orig.len() && forall|k: int|
                0 <= k < v@.len() ==> #[trigger] v@[k] == orig[p[k]]);
        }
        return;
    }
    let mut i: usize = 1;
    while i < n
        invariant
            1 <= i <= n,
            v@.len() == n,
            orig.len() == n,
            forall|k: int| 0 <= k < n ==> #[trigger] orig[k].1.weight_of() <= u64::MAX,
            is_perm(p, n as nat),
            forall|k: int| 0 <= k < n ==> #[trigger] v@[k] == orig[p[k]],
            forall|a: int, b: int|
                0 <= a < b < i ==> v@[a].1.weight_of() >= v@[b].1.weight_of(),
        decreases n - i,
    {
        let mut j: usize = i;
        while j > 0 && v[j - 1].1.weight_exec() < v[j].1.weight_exec()
            invariant
                0 <= j <= i < n,
                v@.len() == n,
                orig.len() == n,
                forall|k: int| 0 <= k < n ==> #[trigger] orig[k].1.weight_of() <= u64::MAX,
                is_perm(p, n as nat),
                forall|k: int| 0 <= k < n ==> #[trigger] v@[k] == orig[p[k]],
                forall|a: int, b: int|
                    0 <= a < b <= i && a != j && b != j ==> v@[a].1.weight_of()
                        >= v@[b].1.weight_of(),
                forall|b: int| j < b <= i ==> v@[j as int].1.weight_of() > #[trigger] v@[b].1.weight_of(),
            decreases j,
        {
            proof {
                assert(orig[p[j - 1]].1.weight_of() <= u64::MAX);
                assert(orig[p[j as int]].1.weight_of() <= u64::MAX);
            }
            let left = v[j - 1];
            let right = v[j];
            v.set(j - 1, right);
            v.set(j, left);
            proof {
                let pl = p[j - 1];
                let pr = p[j as int];
                p = p.update(j - 1, pr).update(j as int, pl);
            }
            j = j - 1;
        }
        proof {
            assert forall|a: int, b: int| 0 <= a < b < i + 1 implies v@[a].1.weight_of()
                >= v@[b].1.weight_of() by {
                if b == j && a < j - 1 {
                    assert(v@[a].1.weight_of() >= v@[j - 1].1.weight_of());
                }
            }
        }
        i += 1;
    }
    proof {
        assert(is_perm(p, orig.len()) && v@.len() == orig.len() && forall|k: int|
            0 <= k < v@.len() ==> #[trigger] v@[k] == orig[p[k]]);
    }
}


/// Rows `rows` list exactly the entries of `m`, each under the key whose
/// code `enc` gives, no key twice.
pub open spec fn rows_match<K, C, E>(rows: Seq<(K, E)>, m: Map<C, E>, enc: spec_fn(K) -> C) -> bool {
    &&& rows.len() == m.dom().len()
    &&& forall|i: int|
        0 <= i < rows.len() ==> m.dom().contains(enc(#[trigger] rows[i].0)) && m[enc(rows[i].0)]
            == rows[i].1
    &&& forall|i: int, j: int| 0 <= i < j < rows.len() ==> rows[i].0 != rows[j].0
}

/// Rearranging rows keeps them matching their table.
proof fn lemma_rows_match_rearranged<K, C, E>(
    t: Seq<(K, E)>,
    s: Seq<(K, E)>,
    m: Map<C, E>,
    enc: spec_fn(K) -> C,
)
    requires
        rows_match(s, m, enc),
        rearranges(t, s),
    ensures
        rows_match(t, m, enc),
{
    let p = choose|p: Seq<int>|
        is_perm(p, s.len()) && t.len() == s.len() && forall|i: int|
            0 <= i < t.len() ==> #[trigger] t[i] == s[p[i]];
    assert forall|i: int| 0 <= i < t.len() implies m.dom().contains(enc(#[trigger] t[i].0))
        && m[enc(t[i].0)] == t[i].1 by {
        assert(t[i] == s[p[i]]);
        assert(0 <= p[i] < s.len());
    }
    assert forall|i: int, j: int| 0 <= i < j < t.len() implies t[i].0 != t[j].0 by {
        assert(t[i] == s[p[i]]);
        assert(t[j] == s[p[j]]);
        assert(p[i] != p[j]);
        if p[i] < p[j] {
            assert(s[p[i]].0 != s[p[j]].0);
        } else {
            assert(s[p[j]].0 != s[p[i]].0);
        }
    }
}

/// Counting a frame in a host entry: the first-seen time, once set, never
/// changes, and is the frame's time on the first frame; the last-seen time
/// becomes the frame's time; the packet count rises by one and the byte
/// count of the frame's direction by its length, the other direction
/// unchanged; a known hardware address is kept and an unknown one taken
/// from the frame; the flow count is untouched.
pub proof fn lemma_host_observe(e: HostEntry, f: Frame, mac: Option<MacAddr>)
    requires
        e.observe_fits(f),
    ensures
        ({
            let n = e.spec_observe(f, mac);
            &&& e.first_seen is Some ==> n.first_seen == e.first_seen
            &&& e.first_seen is None ==> n.first_seen == Some(f.captured_at)
            &&& n.last_seen == Some(f.captured_at)
            &&& n.packets == e.packets + 1
            &&& n.bytes_rx + n.bytes_tx == e.bytes_rx + e.bytes_tx + f.cap_len
            &&& f.direction == Direction::Rx ==> n.bytes_rx == e.bytes_rx + f.cap_len && n.bytes_tx == e.bytes_tx
            &&& f.direction == Direction::Tx ==> n.bytes_tx == e.bytes_tx + f.cap_len && n.bytes_rx == e.bytes_rx
            &&& e.mac is Some ==> n.mac == e.mac
            &&& e.mac is None ==> n.mac == mac
            &&& n.flows == e.flows
        }),
{
}

/// A host first counted at `f1` and then at `f2` was first seen at `f1`
/// and last seen at `f2`, whatever the order of their times.
pub proof fn lemma_host_age_from_first_frame(f1: Frame, f2: Frame, m1: Option<MacAddr>, m2: Option<MacAddr>)
    ensures
        HostEntry::spec_default().spec_observe(f1, m1).spec_observe(f2, m2).first_seen == Some(f1.captured_at),
        HostEntry::spec_default().spec_observe(f1, m1).spec_observe(f2, m2).last_seen == Some(f2.captured_at),
        HostEntry::spec_default().spec_observe(f1, m1).spec_observe(f2, m2).packets == 2,
{
}

/// Counting a frame in a flow entry: the first-seen time and the direction,
/// once set, never change, and come from the first frame; the last-seen
/// time becomes the frame's time; the packet count rises by one and the
/// byte count of the frame's direction by its length; every TCP flag seen
/// before or in the frame is seen after, and no other; a recognised
/// application replaces the one held, an unrecognised one keeps it.
pub proof fn lemma_flow_observe(e: FlowEntry, f: Frame)
    requires
        e.observe_fits(f),
    ensures
        ({
            let n = e.spec_observe(f);
            &&& e.first_seen is Some ==> n.first_seen == e.first_seen
            &&& e.first_seen is None ==> n.first_seen == Some(f.captured_at)
            &&& e.direction is Some ==> n.direction == e.direction
            &&& e.direction is None ==> n.direction == Some(f.direction)
            &&& n.last_seen == Some(f.captured_at)
            &&& n.packets == e.packets + 1
            &&& f.direction == Direction::Rx ==> n.bytes_rx == e.bytes_rx + f.cap_len && n.bytes_tx == e.bytes_tx
            &&& f.direction == Direction::Tx ==> n.bytes_tx == e.bytes_tx + f.cap_len && n.bytes_rx == e.bytes_rx
            &&& forall|b: u8| #![trigger (1u8 << b)]
                b < 8 ==> (n.tcp_flags_seen & (1u8 << b) != 0 <==> (e.tcp_flags_seen & (1u8 << b) != 0
                    || f.tcp_flags.0 & (1u8 << b) != 0))
            &&& f.app != AppHint::Unknown ==> n.app == f.app
            &&& f.app == AppHint::Unknown ==> n.app == e.app
        }),
{
    let x = e.tcp_flags_seen;
    let y = f.tcp_flags.0;
    assert(forall|b: u8| b < 8 ==> ((x | y) & (1u8 << b) != 0 <==> (x & (1u8 << b) != 0 || y & (1u8 << b) != 0)))
        by (bit_vector);
}

// ---------------------------------------------------------------------------
// Aggregator
// ---------------------------------------------------------------------------

/// The entry under `c`, or a fresh one.
pub open spec fn flow_entry_at(m: Map<FlowCode, FlowEntry>, c: FlowCode) -> FlowEntry {
    if m.dom().contains(c) {
        m[c]
    } else {
        FlowEntry::spec_default()
    }
}

pub open spec fn host_entry_at<C>(m: Map<C, HostEntry>, c: C) -> HostEntry {
    if m.dom().contains(c) {
        m[c]
    } else {
        HostEntry::spec_default()
    }
}

/// The table after counting `f` under `c` with hardware address `mac`.
pub open spec fn host_step<C>(m: Map<C, HostEntry>, c: C, f: Frame, mac: Option<MacAddr>) -> Map<
    C,
    HostEntry,
> {
    m.insert(c, host_entry_at(m, c).spec_observe(f, mac))
}

/// The code of the key under which a frame of flow `fl` is counted: both
/// directions of a conversation share it.
pub open spec fn flow_slot(fl: FlowKey) -> FlowCode {
    spec_flow_code(fl.spec_canonical())
}

/// Flow table after a frame: a frame with a flow is counted under its
/// canonical key.
pub open spec fn flows_after(m: Map<FlowCode, FlowEntry>, f: Frame) -> Map<FlowCode, FlowEntry> {
    match f.flow {
        Some(fl) => m.insert(flow_slot(fl), flow_entry_at(m, flow_slot(fl)).spec_observe(f)),
        None => m,
    }
}

/// Both directions of a conversation are counted in one flow entry.
pub proof fn lemma_flow_slot_direction_free(k: FlowKey)
    ensures
        flow_slot(k.reversed()) == flow_slot(k),
{
    crate::domain::lemma_canonical_direction_free(k);
}

/// Rows that list a table with a finite key set, under an encoding that
/// tells keys apart, show each key of it.
proof fn lemma_rows_cover<K, C, E>(rows: Seq<(K, E)>, m: Map<C, E>, enc: spec_fn(K) -> C, c: C)
    requires
        m.dom().finite(),
        m.dom().contains(c),
        rows_match(rows, m, enc),
        forall|a: K, b: K| #[trigger] enc(a) == #[trigger] enc(b) ==> a == b,
    ensures
        exists|i: int| 0 <= i < rows.len() && enc(#[trigger] rows[i].0) == c,
{
    let codes = rows.map_values(|r: (K, E)| enc(r.0));
    assert forall|i: int, j: int| 0 <= i < j < codes.len() implies codes[i] != codes[j] by {
        assert(codes[i] == enc(rows[i].0) && codes[j] == enc(rows[j].0));
    }
    assert(codes.no_duplicates());
    codes.unique_seq_to_set();
    assert forall|x: C| codes.to_set().contains(x) implies m.dom().contains(x) by {
        let i = choose|i: int| 0 <= i < codes.len() && codes[i] == x;
        assert(codes[i] == enc(rows[i].0));
    }
    if !codes.to_set().contains(c) {
        codes.to_set().lemma_subset_not_in_lt(m.dom(), c);
        assert(false);
    }
    let i = choose|i: int| 0 <= i < codes.len() && codes[i] == c;
    assert(codes[i] == enc(rows[i].0));
}

/// A snapshot taken after a frame with a flow was counted shows that flow
/// under its canonical key, with the frame counted in its entry: `before`
/// is the flow table before the frame, `rows` the flow rows of the snapshot.
pub proof fn lemma_snapshot_shows_ingested_flow(
    before: Map<FlowCode, FlowEntry>,
    rows: Seq<(FlowKey, FlowEntry)>,
    f: Frame,
)
    requires
        before.dom().finite(),
        f.flow is Some,
        rows_match(rows, flows_after(before, f), flow_enc()),
    ensures
        exists|i: int|
            0 <= i < rows.len() && #[trigger] rows[i].0 == f.flow->0.spec_canonical() && rows[i].1
                == flow_entry_at(before, flow_slot(f.flow->0)).spec_observe(f),
{
    let fl = f.flow->0;
    let after = flows_after(before, f);
    let c = flow_slot(fl);
    assert(after.dom().contains(c));
    assert(after.dom() =~= before.dom().insert(c));
    assert forall|a: FlowKey, b: FlowKey| #[trigger] flow_enc()(a) == #[trigger] flow_enc()(b) implies a == b by {
        lemma_flow_code_injective(a, b);
    }
    lemma_rows_cover(rows, after, flow_enc(), c);
    let i = choose|i: int| 0 <= i < rows.len() && flow_enc()(#[trigger] rows[i].0) == c;
    lemma_flow_code_injective(rows[i].0, fl.spec_canonical());
    assert(rows[i].0 == fl.spec_canonical());
}

/// A snapshot taken after a frame with a flow and an Ethernet header was
/// counted shows both of the flow's addresses among its hosts: `before` is
/// the host table before the frame, `rows` the host rows of the snapshot.
pub proof fn lemma_snapshot_shows_ingested_hosts(
    before: Map<IpCode, HostEntry>,
    rows: Seq<(IpAddr, HostEntry)>,
    f: Frame,
)
    requires
        before.dom().finite(),
        f.flow is Some,
        f.macs is Some,
        rows_match(rows, hosts_after(before, f), ip_enc()),
    ensures
        exists|i: int| 0 <= i < rows.len() && #[trigger] rows[i].0 == f.flow->0.src,
        exists|i: int| 0 <= i < rows.len() && #[trigger] rows[i].0 == f.flow->0.dst,
{
    let fl = f.flow->0;
    let after = hosts_after(before, f);
    let s = spec_ip_code(fl.src);
    let d = spec_ip_code(fl.dst);
    assert(after.dom() =~= before.dom().insert(s).insert(d));
    assert forall|a: IpAddr, b: IpAddr| #[trigger] ip_enc()(a) == #[trigger] ip_enc()(b) implies a == b by {
        lemma_ip_code_roundtrip(a, spec_ip_code(a));
        lemma_ip_code_roundtrip(b, spec_ip_code(b));
    }
    lemma_rows_cover(rows, after, ip_enc(), s);
    let i = choose|i: int| 0 <= i < rows.len() && ip_enc()(#[trigger] rows[i].0) == s;
    lemma_ip_code_roundtrip(rows[i].0, s);
    lemma_ip_code_roundtrip(fl.src, s);
    assert(rows[i].0 == fl.src);
    lemma_rows_cover(rows, after, ip_enc(), d);
    let j = choose|j: int| 0 <= j < rows.len() && ip_enc()(#[trigger] rows[j].0) == d;
    lemma_ip_code_roundtrip(rows[j].0, d);
    lemma_ip_code_roundtrip(fl.dst, d);
    assert(rows[j].0 == fl.dst);
}

/// Host table after a frame: a frame with a flow and an Ethernet header is
/// counted under its source address, then under its destination address.
pub open spec fn hosts_after(m: Map<IpCode, HostEntry>, f: Frame) -> Map<IpCode, HostEntry> {
    match (f.flow, f.macs) {
        (Some(fl), Some(mp)) => host_step(
            host_step(m, spec_ip_code(fl.src), f, Some(mp.src)),
            spec_ip_code(fl.dst),
            f,
            Some(mp.dst),
        ),
        _ => m,
    }
}

/// MAC table after a frame: a frame with an Ethernet header is counted
/// under its source address, then under its destination address.
pub open spec fn macs_after(m: Map<MacCode, HostEntry>, f: Frame) -> Map<MacCode, HostEntry> {
    match f.macs {
        Some(mp) => host_step(
            host_step(m, spec_mac_code(mp.src), f, Some(mp.src)),
            spec_mac_code(mp.dst),
            f,
            Some(mp.dst),
        ),
        None => m,
    }
}

/// The ring of recent frames after a frame, for a ring of capacity `cap`:
/// the frame joins at the back, and the oldest leaves when the ring was
/// full. A ring of capacity 0 keeps nothing.
pub open spec fn recent_after(q: Seq<Frame>, cap: usize, f: Frame) -> Seq<Frame> {
    if cap == 0 {
        Seq::empty()
    } else if q.len() >= cap {
        q.drop_first().push(f)
    } else {
        q.push(f)
    }
}

/// The ring after the frames `fs` arrive, in order, at ring `q`.
pub open spec fn recent_after_all(q: Seq<Frame>, cap: usize, fs: Seq<Frame>) -> Seq<Frame>
    decreases fs.len(),
{
    if fs.len() == 0 {
        q
    } else {
        recent_after(recent_after_all(q, cap, fs.drop_last()), cap, fs.last())
    }
}

/// A ring of capacity `cap` that starts empty holds, after any sequence of
/// frames, the newest `min(n, cap)` of them in arrival order, so never more
/// than `cap`.
pub proof fn lemma_recent_keeps_newest(cap: usize, fs: Seq<Frame>)
    ensures
        recent_after_all(Seq::empty(), cap, fs) == fs.subrange(
            if fs.len() > cap { fs.len() - cap } else { 0 },
            fs.len() as int,
        ),
        recent_after_all(Seq::empty(), cap, fs).len() <= cap,
    decreases fs.len(),
{
    if fs.len() > 0 {
        let n = fs.len() as int;
        lemma_recent_keeps_newest(cap, fs.drop_last());
        let prev = recent_after_all(Seq::empty(), cap, fs.drop_last());
        let lo = if n > cap { n - cap } else { 0 };
        if cap == 0 {
            assert(fs.subrange(lo, n) =~= Seq::<Frame>::empty());
        } else if prev.len() >= cap {
            assert(prev =~= fs.subrange(n - 1 - cap, n - 1));
            assert(prev.drop_first().push(fs.last()) =~= fs.subrange(lo, n));
        } else {
            assert(prev =~= fs.subrange(0, n - 1));
            assert(prev.push(fs.last()) =~= fs.subrange(lo, n));
        }
    }
}

pub struct Aggregator {
    iface: IfaceWindow,
    flows: FlowTable,
    hosts: HostTable,
    macs: MacTable,
    recent: VecDeque<Frame>,
    recent_cap: usize,
}

impl Aggregator {
    pub closed spec fn iface_view(&self) -> IfaceWindow {
        self.iface
    }

    pub closed spec fn flow_map(&self) -> Map<FlowCode, FlowEntry> {
        flow_table(self.flows)
    }

    pub closed spec fn host_map(&self) -> Map<IpCode, HostEntry> {
        host_table(self.hosts)
    }

    pub closed spec fn mac_map(&self) -> Map<MacCode, HostEntry> {
        mac_table(self.macs)
    }

    pub closed spec fn recent_view(&self) -> Seq<Frame> {
        self.recent@
    }

    pub closed spec fn recent_capacity(&self) -> usize {
        self.recent_cap
    }

    /// Tables are finite, keyed by valid codes, and no entry's byte total
    /// overflows.
    pub closed spec fn wf(&self) -> bool {
        &&& self.iface.wf()
        &&& self.flow_map().dom().finite()
        &&& self.host_map().dom().finite()
        &&& self.mac_map().dom().finite()
        &&& forall|c: FlowCode| #[trigger]
            self.flow_map().dom().contains(c) ==> valid_flow_code(c)
                && self.flow_map()[c].weight() <= u64::MAX
        &&& forall|c: IpCode| #[trigger]
            self.host_map().dom().contains(c) ==> valid_ip_code(c)
                && self.host_map()[c].weight() <= u64::MAX
        &&& forall|c: MacCode| #[trigger]
            self.mac_map().dom().contains(c) ==> self.mac_map()[c].weight() <= u64::MAX
        &&& self.recent@.len() <= self.recent_cap
    }

    /// Nothing counted yet, over a window of `window` time units and with a
    /// recent-frame ring of capacity `recent_cap`.
    pub open spec fn is_fresh(&self, window: u64, recent_cap: usize) -> bool {
        &&& self.iface_view().fresh(window)
        &&& self.flow_map() == Map::<FlowCode, FlowEntry>::empty()
        &&& self.host_map() == Map::<IpCode, HostEntry>::empty()
        &&& self.mac_map() == Map::<MacCode, HostEntry>::empty()
        &&& self.recent_view() == Seq::<Frame>::empty()
        &&& self.recent_capacity() == recent_cap
    }

    pub fn new(window: u64, recent_cap: usize) -> (r: Aggregator)
        ensures
            r.wf(),
            r.is_fresh(window, recent_cap),
    {
        let r = Aggregator {
            iface: IfaceWindow::new(window),
            flows: flow_table_new(),
            hosts: host_table_new(),
            macs: mac_table_new(),
            recent: VecDeque::with_capacity(recent_cap),
            recent_cap,
        };
        assert(r.flow_map() =~= Map::<FlowCode, FlowEntry>::empty());
        assert(r.host_map() =~= Map::<IpCode, HostEntry>::empty());
        assert(r.mac_map() =~= Map::<MacCode, HostEntry>::empty());
        r
    }

    /// No counter that ingesting `f` raises overflows.
    pub open spec fn ingest_fits(&self, f: Frame) -> bool {
        &&& self.iface_view().ingest_fits(f)
        &&& (f.flow matches Some(fl) ==> flow_entry_at(self.flow_map(), flow_slot(fl)).observe_fits(f))
        &&& ((f.flow, f.macs) matches (Some(fl), Some(mp)) ==> {
            &&& host_entry_at(self.host_map(), spec_ip_code(fl.src)).observe_fits(f)
            &&& host_entry_at(
                host_step(self.host_map(), spec_ip_code(fl.src), f, Some(mp.src)),
                spec_ip_code(fl.dst),
            ).observe_fits(f)
        })
        &&& (f.macs matches Some(mp) ==> {
            &&& host_entry_at(self.mac_map(), spec_mac_code(mp.src)).observe_fits(f)
            &&& host_entry_at(
                host_step(self.mac_map(), spec_mac_code(mp.src), f, Some(mp.src)),
                spec_mac_code(mp.dst),
            ).observe_fits(f)
        })
    }

    fn count_host(&mut self, c: IpCode, frame: &Frame, mac: Option<MacAddr>)
        requires
            old(self).wf(),
            valid_ip_code(c),
            host_entry_at(old(self).host_map(), c).observe_fits(*frame),
        ensures
            final(self).wf(),
            final(self).host_map() == host_step(old(self).host_map(), c, *frame, mac),
            final(self).iface == old(self).iface,
            final(self).flow_map() == old(self).flow_map(),
            final(self).mac_map() == old(self).mac_map(),
            final(self).recent == old(self).recent,
            final(self).recent_cap == old(self).recent_cap,
    {
        let mut e = match host_table_get(&self.hosts, &c) {
            Some(e) => e,
            None => HostEntry::default(),
        };
        e.observe(frame, mac);
        host_table_insert(&mut self.hosts, c, e);
    }

    fn count_mac(&mut self, c: MacCode, frame: &Frame, mac: Option<MacAddr>)
        requires
            old(self).wf(),
            host_entry_at(old(self).mac_map(), c).observe_fits(*frame),
        ensures
            final(self).wf(),
            final(self).mac_map() == host_step(old(self).mac_map(), c, *frame, mac),
            final(self).iface == old(self).iface,
            final(self).flow_map() == old(self).flow_map(),
            final(self).host_map() == old(self).host_map(),
            final(self).recent == old(self).recent,
            final(self).recent_cap == old(self).recent_cap,
    {
        let mut e = match mac_table_get(&self.macs, &c) {
            Some(e) => e,
            None => HostEntry::default(),
        };
        e.observe(frame, mac);
        mac_table_insert(&mut self.macs, c, e);
    }

    /// `new` is `old` after counting frame `f` in every view it belongs to:
    /// the interface window, the flow, host and MAC tables, and the ring of
    /// recent frames.
    pub open spec fn ingested(old: Aggregator, new: Aggregator, f: Frame) -> bool {
        &&& IfaceWindow::ingested(old.iface_view(), new.iface_view(), f)
        &&& new.flow_map() == flows_after(old.flow_map(), f)
        &&& new.host_map() == hosts_after(old.host_map(), f)
        &&& new.mac_map() == macs_after(old.mac_map(), f)
        &&& new.recent_view() == recent_after(old.recent_view(), old.recent_capacity(), f)
        &&& new.recent_capacity() == old.recent_capacity()
    }

    /// Counts one frame in every view it belongs to.
    pub fn ingest(&mut self, frame: Frame)
        requires
            old(self).wf(),
            old(self).ingest_fits(frame),
        ensures
            final(self).wf(),
            Self::ingested(*old(self), *final(self), frame),
    {
        self.iface.ingest(&frame);

        if let Some(flow) = frame.flow {
            let key = flow_code(flow.canonical());
            proof {
                lemma_flow_code_roundtrip(flow.spec_canonical(), key);
            }
            let mut e = match flow_table_get(&self.flows, &key) {
                Some(e) => e,
                None => FlowEntry::default(),
            };
            e.observe(&frame);
            flow_table_insert(&mut self.flows, key, e);

            if let Some(macs) = frame.macs {
                let src = ip_code(flow.src);
                let dst = ip_code(flow.dst);
                proof {
                    lemma_ip_code_roundtrip(flow.src, src);
                    lemma_ip_code_roundtrip(flow.dst, dst);
                }
                self.count_host(src, &frame, Some(macs.src));
                self.count_host(dst, &frame, Some(macs.dst));
            }
        }

        if let Some(macs) = frame.macs {
            self.count_mac(mac_code(macs.src), &frame, Some(macs.src));
            self.count_mac(mac_code(macs.dst), &frame, Some(macs.dst));
        }

        if self.recent_cap > 0 {
            if self.recent.len() >= self.recent_cap {
                self.recent.pop_front();
            }
            self.recent.push_back(frame);
        } else {
            assert(self.recent@ =~= Seq::<Frame>::empty());
        }
    }
}


/// Every entry of `m` has counted at most `k` frames of at most 2^32 - 1
/// bytes each.
spec fn entries_small<C>(m: Map<C, HostEntry>, k: nat) -> bool {
    forall|c: C| #[trigger]
        m.dom().contains(c) ==> m[c].packets <= k && m[c].bytes_rx + m[c].bytes_tx <= k
            * 0xffff_ffff
}

proof fn lemma_host_step_small<C>(m: Map<C, HostEntry>, c: C, f: Frame, mac: Option<MacAddr>, k: nat)
    requires
        entries_small(m, k),
        k < 0x1_0000,
    ensures
        host_entry_at(m, c).observe_fits(f),
        entries_small(host_step(m, c, f, mac), k + 1),
{
    let m2 = host_step(m, c, f, mac);
    assert forall|d: C| #[trigger] m2.dom().contains(d) implies m2[d].packets <= k + 1
        && m2[d].bytes_rx + m2[d].bytes_tx <= (k + 1) * 0xffff_ffff by {
        if d != c {
            assert(m.dom().contains(d));
        }
    }
}

/// A fresh aggregator can count any frame: no counter that the frame
/// raises is near its maximum.
pub proof fn lemma_fresh_accepts(a: Aggregator, window: u64, recent_cap: usize, f: Frame)
    requires
        a.is_fresh(window, recent_cap),
    ensures
        a.ingest_fits(f),
{
    let w = a.iface_view();
    assert(w.l3_rx@[spec_l3_idx(f.l3)] == 0 && w.l3_tx@[spec_l3_idx(f.l3)] == 0);
    assert(w.l4_rx@[spec_l4_idx(f.l4)] == 0 && w.l4_tx@[spec_l4_idx(f.l4)] == 0);
    assert(w.app_rx@[spec_app_idx(f.app)] == 0 && w.app_tx@[spec_app_idx(f.app)] == 0);
    if let Some(mp) = f.macs {
        assert(entries_small(Map::<IpCode, HostEntry>::empty(), 0));
        assert(entries_small(Map::<MacCode, HostEntry>::empty(), 0));
        if let Some(fl) = f.flow {
            lemma_host_step_small(Map::<IpCode, HostEntry>::empty(), spec_ip_code(fl.src), f, Some(mp.src), 0);
            lemma_host_step_small(host_step(Map::<IpCode, HostEntry>::empty(), spec_ip_code(fl.src), f, Some(mp.src)), spec_ip_code(fl.dst), f, Some(mp.dst), 1);
        }
        lemma_host_step_small(Map::<MacCode, HostEntry>::empty(), spec_mac_code(mp.src), f, Some(mp.src), 0);
        lemma_host_step_small(host_step(Map::<MacCode, HostEntry>::empty(), spec_mac_code(mp.src), f, Some(mp.src)), spec_mac_code(mp.dst), f, Some(mp.dst), 1);
    }
}

/// A fresh aggregator accepts a frame of a conversation and then a reply on
/// the reversed flow key, and counts both in one flow entry: two packets,
/// the first frame's bytes as sent and the reply's as received, the
/// direction of the first frame, and the TCP flags of both. `a0` is the
/// aggregator as made and `a1` the aggregator after the first frame.
pub proof fn lemma_reply_joins_flow(
    a0: Aggregator,
    a1: Aggregator,
    window: u64,
    recent_cap: usize,
    f1: Frame,
    f2: Frame,
)
    requires
        a0.is_fresh(window, recent_cap),
        Aggregator::ingested(a0, a1, f1),
        f1.flow is Some,
        f2.flow == Some(f1.flow->0.reversed()),
        f1.direction == Direction::Tx,
        f2.direction == Direction::Rx,
    ensures
        a0.ingest_fits(f1),
        a1.ingest_fits(f2),
        flows_after(a1.flow_map(), f2) == map![flow_slot(f1.flow->0) => FlowEntry {
            direction: Some(Direction::Tx),
            bytes_rx: f2.cap_len as u64,
            bytes_tx: f1.cap_len as u64,
            packets: 2,
            first_seen: Some(f1.captured_at),
            last_seen: Some(f2.captured_at),
            tcp_flags_seen: f1.tcp_flags.0 | f2.tcp_flags.0,
            app: if f2.app != AppHint::Unknown { f2.app } else { f1.app },
        }],
{
    let k = f1.flow->0;
    lemma_flow_slot_direction_free(k);
    let w0 = a0.iface_view();
    let w1 = a1.iface_view();
    // Host and MAC entries after one frame have counted at most two frames.
    let h0 = Map::<IpCode, HostEntry>::empty();
    let m0 = Map::<MacCode, HostEntry>::empty();
    assert(entries_small(h0, 0));
    assert(entries_small(m0, 0));
    if let Some(mp) = f1.macs {
        lemma_host_step_small(h0, spec_ip_code(k.src), f1, Some(mp.src), 0);
        lemma_host_step_small(host_step(h0, spec_ip_code(k.src), f1, Some(mp.src)), spec_ip_code(k.dst), f1, Some(mp.dst), 1);
        lemma_host_step_small(m0, spec_mac_code(mp.src), f1, Some(mp.src), 0);
        lemma_host_step_small(host_step(m0, spec_mac_code(mp.src), f1, Some(mp.src)), spec_mac_code(mp.dst), f1, Some(mp.dst), 1);
    }
    assert(entries_small(a1.host_map(), 2));
    assert(entries_small(a1.mac_map(), 2));
    let k2 = f2.flow->0;
    if let Some(mp) = f2.macs {
        lemma_host_step_small(a1.host_map(), spec_ip_code(k2.src), f2, Some(mp.src), 2);
        lemma_host_step_small(host_step(a1.host_map(), spec_ip_code(k2.src), f2, Some(mp.src)), spec_ip_code(k2.dst), f2, Some(mp.dst), 3);
        lemma_host_step_small(a1.mac_map(), spec_mac_code(mp.src), f2, Some(mp.src), 2);
        lemma_host_step_small(host_step(a1.mac_map(), spec_mac_code(mp.src), f2, Some(mp.src)), spec_mac_code(mp.dst), f2, Some(mp.dst), 3);
    }
    // The interface counters of the reply's direction are still zero.
    assert(w1.totals_rx == w0.totals_rx);
    assert(w1.l3_rx@ == w0.l3_rx@ && w1.l4_rx@ == w0.l4_rx@ && w1.app_rx@ == w0.app_rx@);
    assert(w0.l3_rx@[spec_l3_idx(f2.l3)] == 0);
    assert(w0.l4_rx@[spec_l4_idx(f2.l4)] == 0);
    assert(w0.app_rx@[spec_app_idx(f2.app)] == 0);
    assert(w0.l3_tx@[spec_l3_idx(f1.l3)] == 0);
    assert(w0.l4_tx@[spec_l4_idx(f1.l4)] == 0);
    assert(w0.app_tx@[spec_app_idx(f1.app)] == 0);
    let a: u8 = f1.tcp_flags.0;
    let b: u8 = f2.tcp_flags.0;
    assert((0u8 | a) | b == a | b) by (bit_vector);
    assert(flows_after(a1.flow_map(), f2) =~= map![flow_slot(k) => FlowEntry {
        direction: Some(Direction::Tx),
        bytes_rx: f2.cap_len as u64,
        bytes_tx: f1.cap_len as u64,
        packets: 2,
        first_seen: Some(f1.captured_at),
        last_seen: Some(f2.captured_at),
        tcp_flags_seen: f1.tcp_flags.0 | f2.tcp_flags.0,
        app: if f2.app != AppHint::Unknown { f2.app } else { f1.app },
    }]);
}

// ---------------------------------------------------------------------------
// Snapshot
// ---------------------------------------------------------------------------

/// The interface part of a snapshot. The `*_window` counters are the sums
/// over the sliding window; rates follow by dividing by the window length.
#[derive(Clone, Debug)]
pub struct IfaceView {
    pub rx_window: Counters,
    pub tx_window: Counters,
    pub rx_total: Counters,
    pub tx_total: Counters,
    pub l3_rx: [u64; 4],
    pub l3_tx: [u64; 4],
    pub l4_rx: [u64; 8],
    pub l4_tx: [u64; 8],
    pub app_rx: [u64; 12],
    pub app_tx: [u64; 12],
    pub syn: u64,
    pub fin: u64,
    pub rst: u64,
    pub syn_rx: u64,
    pub syn_tx: u64,
    pub rst_rx: u64,
    pub rst_tx: u64,
    pub errors: IfStats,
    pub iface_mac: Option<MacAddr>,
    pub link_type: LinkType,
    pub window: u64,
}

#[derive(Clone, Debug)]
pub struct Snapshot {
    pub iface: IfaceView,
    pub flows: Vec<(FlowKey, FlowEntry)>,
    pub hosts: Vec<(IpAddr, HostEntry)>,
    pub macs: Vec<(MacAddr, HostEntry)>,
    pub recent: Vec<Frame>,
    pub generated_at: u64,
}

/// `v` shows the interface window `w`.
pub open spec fn view_of(v: IfaceView, w: IfaceWindow) -> bool {
    &&& v.rx_window.bytes == sum_bytes(w.rx.view())
    &&& v.rx_window.packets == sum_packets(w.rx.view())
    &&& v.tx_window.bytes == sum_bytes(w.tx.view())
    &&& v.tx_window.packets == sum_packets(w.tx.view())
    &&& v.rx_total == w.totals_rx
    &&& v.tx_total == w.totals_tx
    &&& v.l3_rx == w.l3_rx && v.l3_tx == w.l3_tx
    &&& v.l4_rx == w.l4_rx && v.l4_tx == w.l4_tx
    &&& v.app_rx == w.app_rx && v.app_tx == w.app_tx
    &&& v.syn == w.syn && v.fin == w.fin && v.rst == w.rst
    &&& v.syn_rx == w.syn_rx && v.syn_tx == w.syn_tx
    &&& v.rst_rx == w.rst_rx && v.rst_tx == w.rst_tx
    &&& v.errors == w.errors
    &&& v.iface_mac == w.iface_mac
    &&& v.link_type == w.link_type
    &&& v.window == w.window
}

pub open spec fn flow_enc() -> spec_fn(FlowKey) -> FlowCode {
    |k: FlowKey| spec_flow_code(k)
}

pub open spec fn ip_enc() -> spec_fn(IpAddr) -> IpCode {
    |a: IpAddr| spec_ip_code(a)
}

pub open spec fn mac_enc() -> spec_fn(MacAddr) -> MacCode {
    |m: MacAddr| spec_mac_code(m)
}

impl Aggregator {
    fn flow_rows(&self) -> (r: Vec<(FlowKey, FlowEntry)>)
        requires
            self.wf(),
        ensures
            rows_match(r@, self.flow_map(), flow_enc()),
            sorted_by_weight(r@),
    {
        let entries = flow_table_entries(&self.flows);
        let mut rows: Vec<(FlowKey, FlowEntry)> = Vec::new();
        let mut i: usize = 0;
        while i < entries.len()
            invariant
                self.wf(),
                i <= entries@.len(),
                rows@.len() == i,
                entries@.len() == self.flow_map().dom().len(),
                forall|j: int|
                    0 <= j < entries@.len() ==> self.flow_map().dom().contains(
                        #[trigger] entries@[j].0,
                    ) && self.flow_map()[entries@[j].0] == entries@[j].1,
                forall|a: int, b: int| 0 <= a < b < entries@.len() ==> entries@[a].0 != entries@[b].0,
                forall|j: int|
                    0 <= j < i ==> spec_flow_code(#[trigger] rows@[j].0) == entries@[j].0
                        && rows@[j].1 == entries@[j].1,
            decreases entries@.len() - i,
        {
            let (c, e) = entries[i];
            proof {
                lemma_flow_code_roundtrip(spec_flow_of(c), c);
            }
            rows.push((flow_of(c), e));
            i += 1;
        }
        proof {
            assert forall|a: int, b: int| 0 <= a < b < rows@.len() implies rows@[a].0 != rows@[b].0 by {
                assert(spec_flow_code(rows@[a].0) == entries@[a].0);
                assert(spec_flow_code(rows@[b].0) == entries@[b].0);
            }
            assert forall|j: int| 0 <= j < rows@.len() implies self.flow_map().dom().contains(
                (flow_enc())(#[trigger] rows@[j].0),
            ) && self.flow_map()[(flow_enc())(rows@[j].0)] == rows@[j].1 by {
                assert(spec_flow_code(rows@[j].0) == entries@[j].0);
            }
        }
        proof {
            assert forall|j: int| 0 <= j < rows@.len() implies #[trigger] rows@[j].1.weight_of()
                <= u64::MAX by {
                assert(self.flow_map().dom().contains(entries@[j].0));
                assert(spec_flow_code(rows@[j].0) == entries@[j].0);
                assert(rows@[j].1 == entries@[j].1);
                assert(self.flow_map()[entries@[j].0].weight() <= u64::MAX);
                assert(rows@[j].1.weight() <= u64::MAX);
            }
        }
        let ghost before = rows@;
        sort_by_weight(&mut rows);
        proof {
            lemma_rows_match_rearranged(rows@, before, self.flow_map(), flow_enc());
        }
        rows
    }

    fn host_rows(&self) -> (r: Vec<(IpAddr, HostEntry)>)
        requires
            self.wf(),
        ensures
            rows_match(r@, self.host_map(), ip_enc()),
            sorted_by_weight(r@),
    {
        let entries = host_table_entries(&self.hosts);
        let mut rows: Vec<(IpAddr, HostEntry)> = Vec::new();
        let mut i: usize = 0;
        while i < entries.len()
            invariant
                self.wf(),
                i <= entries@.len(),
                rows@.len() == i,
                entries@.len() == self.host_map().dom().len(),
                forall|j: int|
                    0 <= j < entries@.len() ==> self.host_map().dom().contains(
                        #[trigger] entries@[j].0,
                    ) && self.host_map()[entries@[j].0] == entries@[j].1,
                forall|a: int, b: int| 0 <= a < b < entries@.len() ==> entries@[a].0 != entries@[b].0,
                forall|j: int|
                    0 <= j < i ==> spec_ip_code(#[trigger] rows@[j].0) == entries@[j].0
                        && rows@[j].1 == entries@[j].1,
            decreases entries@.len() - i,
        {
            let (c, e) = entries[i];
            proof {
                lemma_ip_code_roundtrip(spec_ip_of(c), c);
            }
            rows.push((ip_of(c), e));
            i += 1;
        }
        proof {
            assert forall|a: int, b: int| 0 <= a < b < rows@.len() implies rows@[a].0 != rows@[b].0 by {
                assert(spec_ip_code(rows@[a].0) == entries@[a].0);
                assert(spec_ip_code(rows@[b].0) == entries@[b].0);
            }
            assert forall|j: int| 0 <= j < rows@.len() implies self.host_map().dom().contains(
                (ip_enc())(#[trigger] rows@[j].0),
            ) && self.host_map()[(ip_enc())(rows@[j].0)] == rows@[j].1 by {
                assert(spec_ip_code(rows@[j].0) == entries@[j].0);
            }
        }
        proof {
            assert forall|j: int| 0 <= j < rows@.len() implies #[trigger] rows@[j].1.weight_of()
                <= u64::MAX by {
                assert(self.host_map().dom().contains(entries@[j].0));
                assert(spec_ip_code(rows@[j].0) == entries@[j].0);
                assert(rows@[j].1 == entries@[j].1);
                assert(self.host_map()[entries@[j].0].weight() <= u64::MAX);
                assert(rows@[j].1.weight() <= u64::MAX);
            }
        }
        let ghost before = rows@;
        sort_by_weight(&mut rows);
        proof {
            lemma_rows_match_rearranged(rows@, before, self.host_map(), ip_enc());
        }
        rows
    }

    fn mac_rows(&self) -> (r: Vec<(MacAddr, HostEntry)>)
        requires
            self.wf(),
        ensures
            rows_match(r@, self.mac_map(), mac_enc()),
            sorted_by_weight(r@),
    {
        let entries = mac_table_entries(&self.macs);
        let mut rows: Vec<(MacAddr, HostEntry)> = Vec::new();
        let mut i: usize = 0;
        while i < entries.len()
            invariant
                self.wf(),
                i <= entries@.len(),
                rows@.len() == i,
                entries@.len() == self.mac_map().dom().len(),
                forall|j: int|
                    0 <= j < entries@.len() ==> self.mac_map().dom().contains(
                        #[trigger] entries@[j].0,
                    ) && self.mac_map()[entries@[j].0] == entries@[j].1,
                forall|a: int, b: int| 0 <= a < b < entries@.len() ==> entries@[a].0 != entries@[b].0,
                forall|j: int|
                    0 <= j < i ==> spec_mac_code(#[trigger] rows@[j].0) == entries@[j].0
                        && rows@[j].1 == entries@[j].1,
            decreases entries@.len() - i,
        {
            let (c, e) = entries[i];
            rows.push((mac_of(c), e));
            i += 1;
        }
        proof {
            assert forall|a: int, b: int| 0 <= a < b < rows@.len() implies rows@[a].0 != rows@[b].0 by {
                assert(spec_mac_code(rows@[a].0) == entries@[a].0);
                assert(spec_mac_code(rows@[b].0) == entries@[b].0);
            }
            assert forall|j: int| 0 <= j < rows@.len() implies self.mac_map().dom().contains(
                (mac_enc())(#[trigger] rows@[j].0),
            ) && self.mac_map()[(mac_enc())(rows@[j].0)] == rows@[j].1 by {
                assert(spec_mac_code(rows@[j].0) == entries@[j].0);
            }
        }
        proof {
            assert forall|j: int| 0 <= j < rows@.len() implies #[trigger] rows@[j].1.weight_of()
                <= u64::MAX by {
                assert(self.mac_map().dom().contains(entries@[j].0));
                assert(spec_mac_code(rows@[j].0) == entries@[j].0);
                assert(rows@[j].1 == entries@[j].1);
                assert(self.mac_map()[entries@[j].0].weight() <= u64::MAX);
                assert(rows@[j].1.weight() <= u64::MAX);
            }
        }
        let ghost before = rows@;
        sort_by_weight(&mut rows);
        proof {
            lemma_rows_match_rearranged(rows@, before, self.mac_map(), mac_enc());
        }
        rows
    }

    /// A consistent picture of every view, tables ordered by bytes carried,
    /// largest first. `now` is the clock reading to stamp it with.
    pub fn snapshot(&self, now: u64) -> (r: Snapshot)
        requires
            self.wf(),
        ensures
            view_of(r.iface, self.iface_view()),
            rows_match(r.flows@, self.flow_map(), flow_enc()),
            sorted_by_weight(r.flows@),
            rows_match(r.hosts@, self.host_map(), ip_enc()),
            sorted_by_weight(r.hosts@),
            rows_match(r.macs@, self.mac_map(), mac_enc()),
            sorted_by_weight(r.macs@),
            r.recent@ == self.recent_view(),
            r.generated_at == now,
    {
        let iface = &self.iface;
        let rx = iface.rx.sum();
        let tx = iface.tx.sum();
        let view = IfaceView {
            rx_window: rx,
            tx_window: tx,
            rx_total: iface.totals_rx,
            tx_total: iface.totals_tx,
            l3_rx: iface.l3_rx,
            l3_tx: iface.l3_tx,
            l4_rx: iface.l4_rx,
            l4_tx: iface.l4_tx,
            app_rx: iface.app_rx,
            app_tx: iface.app_tx,
            syn: iface.syn,
            fin: iface.fin,
            rst: iface.rst,
            syn_rx: iface.syn_rx,
            syn_tx: iface.syn_tx,
            rst_rx: iface.rst_rx,
            rst_tx: iface.rst_tx,
            errors: iface.errors.clone(),
            iface_mac: iface.iface_mac,
            link_type: iface.link_type,
            window: iface.window,
        };
        let mut recent: Vec<Frame> = Vec::new();
        let mut i: usize = 0;
        while i < self.recent.len()
            invariant
                i <= self.recent@.len(),
                recent@ == self.recent@.take(i as int),
            decreases self.recent@.len() - i,
        {
            recent.push(self.recent[i]);
            i += 1;
            assert(recent@ =~= self.recent@.take(i as int));
        }
        assert(self.recent@.take(self.recent@.len() as int) =~= self.recent@);
        Snapshot {
            iface: view,
            flows: self.flow_rows(),
            hosts: self.host_rows(),
            macs: self.mac_rows(),
            recent,
            generated_at: now,
        }
    }
}

/// The newest `n` of `s`, newest first.
pub open spec fn newest_first(s: Seq<Frame>, n: nat) -> Seq<Frame> {
    let k = if n < s.len() {
        n
    } else {
        s.len()
    };
    Seq::new(k, |i: int| s[s.len() - 1 - i])
}

impl Snapshot {
    pub fn top_flows(&self, n: usize) -> (r: &[(FlowKey, FlowEntry)])
        ensures
            r@ == self.flows@.take(if n < self.flows@.len() { n as int } else { self.flows@.len() as int }),
    {
        let k = if n < self.flows.len() { n } else { self.flows.len() };
        vstd::slice::slice_subrange(self.flows.as_slice(), 0, k)
    }

    pub fn top_hosts(&self, n: usize) -> (r: &[(IpAddr, HostEntry)])
        ensures
            r@ == self.hosts@.take(if n < self.hosts@.len() { n as int } else { self.hosts@.len() as int }),
    {
        let k = if n < self.hosts.len() { n } else { self.hosts.len() };
        vstd::slice::slice_subrange(self.hosts.as_slice(), 0, k)
    }

    pub fn top_macs(&self, n: usize) -> (r: &[(MacAddr, HostEntry)])
        ensures
            r@ == self.macs@.take(if n < self.macs@.len() { n as int } else { self.macs@.len() as int }),
    {
        let k = if n < self.macs.len() { n } else { self.macs.len() };
        vstd::slice::slice_subrange(self.macs.as_slice(), 0, k)
    }

    /// The newest `n` recent frames, newest first.
    pub fn recent_frames(&self, n: usize) -> (r: Vec<Frame>)
        ensures
            r@ == newest_first(self.recent@, n as nat),
    {
        let len = self.recent.len();
        let k = if n < len { n } else { len };
        let mut out: Vec<Frame> = Vec::new();
        let mut i: usize = 0;
        while i < k
            invariant
                k <= len == self.recent@.len(),
                k == (if n < len { n } else { len }),
                i <= k,
                out@ == Seq::new(i as nat, |j: int| self.recent@[len - 1 - j]),
            decreases k - i,
        {
            out.push(self.recent[len - 1 - i]);
            i += 1;
            assert(out@ =~= Seq::new(i as nat, |j: int| self.recent@[len - 1 - j]));
        }
        assert(out@ =~= newest_first(self.recent@, n as nat));
        out
    }

    /// Packets counted in both directions over the lifetime.
    pub fn total_packets(&self) -> (r: u64)
        requires
            self.iface.rx_total.packets + self.iface.tx_total.packets <= u64::MAX,
        ensures
            r == self.iface.rx_total.packets + self.iface.tx_total.packets,
    {
        self.iface.rx_total.packets + self.iface.tx_total.packets
    }
}

} // verus!
