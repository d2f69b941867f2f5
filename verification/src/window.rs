//! Rolling per-interface statistics: a bounded ring of timestamped
//! counters that forgets entries older than its window, and the per-protocol
//! tallies of one interface.

use vstd::prelude::*;
use crate::domain::{AppHint, Counters, Direction, Frame, IfStats, L3Proto, L4Proto, LinkType, MacAddr};

verus! {

// ---------------------------------------------------------------------------
// Sliding window
// ---------------------------------------------------------------------------

/// Ring position `i` places after `head` in a ring of `cap` slots.
pub open spec fn ring_slot(head: int, i: int, cap: int) -> int {
    if head + i < cap {
        head + i
    } else {
        head + i - cap
    }
}

/// Drops leading entries stamped strictly before `cutoff`.
pub open spec fn evict_before(s: Seq<(u64, Counters)>, cutoff: int) -> Seq<(u64, Counters)>
    decreases s.len(),
{
    if s.len() > 0 && (s[0].0 as int) < cutoff {
        evict_before(s.drop_first(), cutoff)
    } else {
        s
    }
}

/// Sum of the byte counts.
pub open spec fn sum_bytes(s: Seq<(u64, Counters)>) -> nat
    decreases s.len(),
{
    if s.len() == 0 {
        0
    } else {
        sum_bytes(s.drop_last()) + (s.last().1.bytes as nat)
    }
}

/// Sum of the packet counts.
pub open spec fn sum_packets(s: Seq<(u64, Counters)>) -> nat
    decreases s.len(),
{
    if s.len() == 0 {
        0
    } else {
        sum_packets(s.drop_last()) + (s.last().1.packets as nat)
    }
}

/// A ring of at most `CAP` timestamped counters. Timestamps and the window
/// length are nanoseconds of the monotonic clock.
pub struct SlidingWindow<const CAP: usize> {
    buf: Vec<Option<(u64, Counters)>>,
    head: usize,
    len: usize,
    window: u64,
}

impl<const CAP: usize> SlidingWindow<CAP> {
    /// The entries held, oldest first.
    pub closed spec fn view(&self) -> Seq<(u64, Counters)> {
        Seq::new(
            self.len as nat,
            |i: int| self.buf@[ring_slot(self.head as int, i, CAP as int)]->0,
        )
    }

    pub closed spec fn window_len(&self) -> u64 {
        self.window
    }

    /// The ring's internal consistency.
    pub closed spec fn wf(&self) -> bool {
        &&& self.buf@.len() == CAP
        &&& CAP <= usize::MAX / 2
        &&& self.len <= CAP
        &&& (CAP > 0 ==> self.head < CAP)
        &&& (CAP == 0 ==> self.head == 0 && self.len == 0)
        &&& forall|i: int|
            0 <= i < self.len ==> (#[trigger] self.buf@[ring_slot(
                self.head as int,
                i,
                CAP as int,
            )]) is Some
    }

    /// The ring never holds more than `CAP` entries.
    pub proof fn lemma_len_bound(&self)
        requires
            self.wf(),
        ensures
            self.view().len() <= CAP,
    {
    }

    pub fn new(window: u64) -> (r: Self)
        requires
            CAP <= usize::MAX / 2,
        ensures
            r.wf(),
            r.view() == Seq::<(u64, Counters)>::empty(),
            r.window_len() == window,
    {
        let mut buf: Vec<Option<(u64, Counters)>> = Vec::new();
        let mut i: usize = 0;
        while i < CAP
            invariant
                i <= CAP,
                buf@.len() == i,
            decreases CAP - i,
        {
            buf.push(None);
            i += 1;
        }
        let r = SlidingWindow { buf, head: 0, len: 0, window };
        assert(r.view() =~= Seq::<(u64, Counters)>::empty());
        r
    }

    /// Appends `(at, v)`, overwriting the oldest entry when the ring is
    /// full, then drops leading entries older than `at - window`.
    pub open spec fn spec_push(s: Seq<(u64, Counters)>, v: Counters, at: u64, window: u64) -> Seq<
        (u64, Counters),
    > {
        let kept = if s.len() == CAP && s.len() > 0 {
            s.drop_first()
        } else {
            s
        };
        let added = kept.push((at, v));
        if at >= window {
            evict_before(added, at - window)
        } else {
            added
        }
    }

    pub fn push(&mut self, v: Counters, at: u64)
        requires
            old(self).wf(),
            CAP > 0,
        ensures
            final(self).wf(),
            final(self).window_len() == old(self).window_len(),
            final(self).view() == Self::spec_push(
                old(self).view(),
                v,
                at,
                old(self).window_len(),
            ),
    {
        let ghost s0 = self.view();
        if self.len == CAP {
            self.pop_front();
        }
        let ghost s1 = self.view();
        let ghost old_buf = self.buf@;
        let idx = if self.head + self.len < CAP {
            self.head + self.len
        } else {
            self.head + self.len - CAP
        };
        self.buf.set(idx, Some((at, v)));
        self.len = self.len + 1;
        proof {
            assert forall|i: int| 0 <= i < self.len implies #[trigger] self.buf@[ring_slot(
                self.head as int,
                i,
                CAP as int,
            )] is Some by {
                if i < self.len - 1 {
                    assert(ring_slot(self.head as int, i, CAP as int) != idx);
                    assert(old_buf[ring_slot(self.head as int, i, CAP as int)] is Some);
                }
            }
            assert forall|i: int| 0 <= i < self.len - 1 implies #[trigger] ring_slot(
                self.head as int,
                i,
                CAP as int,
            ) != idx by {}
        }
        assert(self.view() =~= s1.push((at, v)));
        self.evict(at);
    }

    /// Sum of all entries.
    pub fn sum(&self) -> (r: Counters)
        requires
            self.wf(),
            sum_bytes(self.view()) <= u64::MAX,
            sum_packets(self.view()) <= u64::MAX,
        ensures
            r.bytes == sum_bytes(self.view()),
            r.packets == sum_packets(self.view()),
    {
        let mut acc = Counters { bytes: 0, packets: 0 };
        let mut i: usize = 0;
        while i < self.len
            invariant
                self.wf(),
                i <= self.len,
                sum_bytes(self.view()) <= u64::MAX,
                sum_packets(self.view()) <= u64::MAX,
                acc.bytes == sum_bytes(self.view().take(i as int)),
                acc.packets == sum_packets(self.view().take(i as int)),
            decreases self.len - i,
        {
            let idx = if self.head + i < CAP {
                self.head + i
            } else {
                self.head + i - CAP
            };
            proof {
                lemma_sum_prefix_le(self.view(), i as int + 1);
                assert(self.view().take(i + 1).drop_last() =~= self.view().take(i as int));
            }
            if let Some((_, v)) = self.buf[idx] {
                acc = acc.add(v);
            }
            i += 1;
        }
        assert(self.view().take(self.len as int) =~= self.view());
        acc
    }

    pub fn len(&self) -> (r: usize)
        requires
            self.wf(),
        ensures
            r == self.view().len(),
    {
        self.len
    }

    pub fn is_empty(&self) -> (r: bool)
        requires
            self.wf(),
        ensures
            r == (self.view().len() == 0),
    {
        self.len == 0
    }

    pub fn window(&self) -> (r: u64)
        ensures
            r == self.window_len(),
    {
        self.window
    }

    fn evict(&mut self, now: u64)
        requires
            old(self).wf(),
        ensures
            final(self).wf(),
            final(self).window_len() == old(self).window_len(),
            final(self).view() == (if now >= old(self).window_len() {
                evict_before(old(self).view(), now - old(self).window_len())
            } else {
                old(self).view()
            }),
    {
        if now < self.window {
            return;
        }
        let cutoff = now - self.window;
        let ghost s0 = self.view();
        while self.len > 0
            invariant_except_break
                self.wf(),
                self.window == old(self).window,
                evict_before(self.view(), cutoff as int) == evict_before(s0, cutoff as int),
            ensures
                self.wf(),
                self.window == old(self).window,
                self.view() == evict_before(s0, cutoff as int),
            decreases self.len,
        {
            let stale = match self.buf[self.head] {
                Some((t, _)) => t < cutoff,
                None => false,
            };
            if !stale {
                break;
            }
            self.pop_front();
        }
    }

    /// Drops the oldest entry.
    fn pop_front(&mut self)
        requires
            old(self).wf(),
            old(self).len > 0,
        ensures
            final(self).wf(),
            final(self).window == old(self).window,
            final(self).len == old(self).len - 1,
            final(self).view() == old(self).view().drop_first(),
    {
        let ghost before = self.view();
        let ghost old_head = self.head as int;
        let ghost old_buf = self.buf@;
        self.buf.set(self.head, None);
        self.head = if self.head + 1 == CAP { 0 } else { self.head + 1 };
        self.len = self.len - 1;
        proof {
            assert forall|i: int| 0 <= i < self.len implies #[trigger] ring_slot(
                self.head as int,
                i,
                CAP as int,
            ) == ring_slot(old_head, i + 1, CAP as int) && ring_slot(old_head, i + 1, CAP as int)
                != old_head by {}
            assert forall|i: int| 0 <= i < self.len implies #[trigger] self.buf@[ring_slot(
                self.head as int,
                i,
                CAP as int,
            )] is Some by {
                assert(old_buf[ring_slot(old_head, i + 1, CAP as int)] is Some);
            }
        }
        assert(self.view() =~= before.drop_first());
    }
}

/// A prefix of the entries sums to no more than all of them.
pub proof fn lemma_sum_prefix_le(s: Seq<(u64, Counters)>, k: int)
    requires
        0 <= k <= s.len(),
    ensures
        sum_bytes(s.take(k)) <= sum_bytes(s),
        sum_packets(s.take(k)) <= sum_packets(s),
    decreases s.len() - k,
{
    if k < s.len() {
        lemma_sum_prefix_le(s, k + 1);
        assert(s.take(k + 1).drop_last() =~= s.take(k));
    } else {
        assert(s.take(k) =~= s);
    }
}


/// Appending adds the new entry to both sums.
pub proof fn lemma_sum_push(s: Seq<(u64, Counters)>, x: (u64, Counters))
    ensures
        sum_bytes(s.push(x)) == sum_bytes(s) + x.1.bytes,
        sum_packets(s.push(x)) == sum_packets(s) + x.1.packets,
{
    assert(s.push(x).drop_last() =~= s);
}

/// Sums split off the first entry.
pub proof fn lemma_sum_drop_first(s: Seq<(u64, Counters)>)
    requires
        s.len() > 0,
    ensures
        sum_bytes(s) == s[0].1.bytes + sum_bytes(s.drop_first()),
        sum_packets(s) == s[0].1.packets + sum_packets(s.drop_first()),
    decreases s.len(),
{
    if s.len() > 1 {
        lemma_sum_drop_first(s.drop_last());
        assert(s.drop_last().drop_first() =~= s.drop_first().drop_last());
        assert(s.drop_first().last() == s.last());
        assert(s.drop_last()[0] == s[0]);
    } else {
        assert(s.drop_first() =~= Seq::<(u64, Counters)>::empty());
        assert(s.drop_last() =~= Seq::<(u64, Counters)>::empty());
    }
}

/// Eviction never raises the sums.
pub proof fn lemma_sum_evict(s: Seq<(u64, Counters)>, cutoff: int)
    ensures
        sum_bytes(evict_before(s, cutoff)) <= sum_bytes(s),
        sum_packets(evict_before(s, cutoff)) <= sum_packets(s),
    decreases s.len(),
{
    if s.len() > 0 && (s[0].0 as int) < cutoff {
        lemma_sum_evict(s.drop_first(), cutoff);
        lemma_sum_drop_first(s);
    }
}

/// A push raises each sum by at most the pushed value.
pub proof fn lemma_sum_after_push<const CAP: usize>(
    s: Seq<(u64, Counters)>,
    v: Counters,
    at: u64,
    window: u64,
)
    ensures
        sum_bytes(SlidingWindow::<CAP>::spec_push(s, v, at, window)) <= sum_bytes(s) + v.bytes,
        sum_packets(SlidingWindow::<CAP>::spec_push(s, v, at, window)) <= sum_packets(s)
            + v.packets,
{
    let kept = if s.len() == CAP && s.len() > 0 {
        s.drop_first()
    } else {
        s
    };
    if s.len() == CAP && s.len() > 0 {
        lemma_sum_drop_first(s);
    }
    lemma_sum_push(kept, (at, v));
    if at >= window {
        lemma_sum_evict(kept.push((at, v)), at - window);
    }
}

/// What a ring of `CAP` slots over `window` holds after the entries `es`
/// are pushed, in order, into an empty one.
pub open spec fn pushed_all<const CAP: usize>(es: Seq<(u64, Counters)>, window: u64) -> Seq<
    (u64, Counters),
>
    decreases es.len(),
{
    if es.len() == 0 {
        Seq::empty()
    } else {
        SlidingWindow::<CAP>::spec_push(
            pushed_all::<CAP>(es.drop_last(), window),
            es.last().1,
            es.last().0,
            window,
        )
    }
}

/// Timestamps never decrease along `es`.
pub open spec fn stamps_sorted(es: Seq<(u64, Counters)>) -> bool {
    forall|i: int, j: int| 0 <= i <= j < es.len() ==> #[trigger] es[i].0 <= #[trigger] es[j].0
}

/// Entry `i` of `es` is inside the window of the newest entry: stamped no
/// earlier than `window` before it (every entry is while the newest stamp is
/// below `window`).
pub open spec fn in_window(es: Seq<(u64, Counters)>, window: u64, i: int) -> bool {
    es.last().0 < window || es[i].0 >= es.last().0 - window
}

/// The last `cap` entries of `es` start at this index.
pub open spec fn ring_start(n: int, cap: int) -> int {
    if n > cap {
        n - cap
    } else {
        0
    }
}

/// `es[lo..]` are exactly those of the last `cap` entries that are inside
/// the window of the newest.
pub open spec fn kept_from(es: Seq<(u64, Counters)>, window: u64, cap: int, lo: int) -> bool {
    let n = es.len() as int;
    &&& ring_start(n, cap) <= lo <= n
    &&& forall|i: int| ring_start(n, cap) <= i < n ==> (i >= lo <==> #[trigger] in_window(es, window, i))
}

/// Dropping stale leading entries from a sorted run `es[a..]` leaves a
/// tail `es[b..]` that starts at the first entry stamped at or after the
/// cutoff.
proof fn lemma_evict_sorted_tail(es: Seq<(u64, Counters)>, a: int, cutoff: int) -> (b: int)
    requires
        stamps_sorted(es),
        0 <= a <= es.len(),
    ensures
        a <= b <= es.len(),
        evict_before(es.subrange(a, es.len() as int), cutoff) == es.subrange(b, es.len() as int),
        forall|i: int| a <= i < b ==> (#[trigger] es[i].0 as int) < cutoff,
        forall|i: int| b <= i < es.len() ==> (#[trigger] es[i].0 as int) >= cutoff,
    decreases es.len() - a,
{
    let n = es.len() as int;
    let t = es.subrange(a, n);
    if a < n && (es[a].0 as int) < cutoff {
        assert(t[0] == es[a]);
        assert(t.drop_first() =~= es.subrange(a + 1, n));
        lemma_evict_sorted_tail(es, a + 1, cutoff)
    } else {
        if a < n {
            assert(t[0] == es[a]);
            assert forall|i: int| a <= i < n implies (#[trigger] es[i].0 as int) >= cutoff by {
                assert(es[a].0 <= es[i].0);
            }
        }
        a
    }
}

/// After entries with non-decreasing stamps are pushed into an empty ring
/// of `CAP` slots over `window`, the ring holds, oldest first, exactly those
/// of the last `CAP` entries that are stamped no earlier than `window`
/// before the newest (all of them while the newest stamp is below
/// `window`); so its sums are the sums of those entries.
pub proof fn lemma_window_after_pushes<const CAP: usize>(es: Seq<(u64, Counters)>, window: u64)
    requires
        CAP > 0,
        stamps_sorted(es),
    ensures
        exists|lo: int|
            #[trigger] kept_from(es, window, CAP as int, lo) && pushed_all::<CAP>(es, window)
                == es.subrange(lo, es.len() as int),
    decreases es.len(),
{
    let n = es.len() as int;
    let cap = CAP as int;
    if n == 0 {
        assert(kept_from(es, window, cap, 0));
        assert(pushed_all::<CAP>(es, window) =~= es.subrange(0, 0));
    } else {
        let pre = es.drop_last();
        assert(stamps_sorted(pre)) by {
            assert forall|i: int, j: int| 0 <= i <= j < pre.len() implies #[trigger] pre[i].0
                <= #[trigger] pre[j].0 by {
                assert(pre[i] == es[i] && pre[j] == es[j]);
            }
        }
        lemma_window_after_pushes::<CAP>(pre, window);
        let lo0 = choose|lo: int|
            #[trigger] kept_from(pre, window, cap, lo) && pushed_all::<CAP>(pre, window)
                == pre.subrange(lo, n - 1);
        let prev = pushed_all::<CAP>(pre, window);
        assert(prev =~= es.subrange(lo0, n - 1));
        let e = es.last();
        let lo1 = if lo0 > ring_start(n, cap) { lo0 } else { ring_start(n, cap) };
        let kept = if prev.len() == CAP && prev.len() > 0 { prev.drop_first() } else { prev };
        assert(kept =~= es.subrange(lo1, n - 1));
        let added = kept.push((e.0, e.1));
        assert(added =~= es.subrange(lo1, n));
        let lo = if e.0 >= window {
            lemma_evict_sorted_tail(es, lo1, e.0 - window)
        } else {
            lo1
        };
        assert(pushed_all::<CAP>(es, window) == es.subrange(lo, n));
        assert forall|i: int| ring_start(n, cap) <= i < n implies (i >= lo <==> #[trigger] in_window(es, window, i)) by {
            assert(es[i].0 <= e.0);
            if i < n - 1 {
                assert(pre[i] == es[i]);
                assert(pre.last() == es[n - 2]);
                assert(es[n - 2].0 <= e.0);
                if i < lo1 {
                    assert(!in_window(pre, window, i));
                }
            }
        }
        assert(kept_from(es, window, cap, lo));
    }
}

// ---------------------------------------------------------------------------
// Per-interface rolling view
// ---------------------------------------------------------------------------

/// Capacity of the per-direction rate rings.
pub const RATE_RING: usize = 512;

pub struct IfaceWindow {
    pub rx: SlidingWindow<512>,
    pub tx: SlidingWindow<512>,
    pub totals_rx: Counters,
    pub totals_tx: Counters,
    pub l3_rx: [u64; 4],
    pub l3_tx: [u64; 4],
    pub l4_rx: [u64; 8],
    pub l4_tx: [u64; 8],
    pub app_rx: [u64; 12],
    pub app_tx: [u64; 12],
    pub syn: u64,
    pub fin: u64,
    pub rst: u64,
    pub syn_rx: u64,
    pub syn_tx: u64,
    pub rst_rx: u64,
    pub rst_tx: u64,
    pub errors: IfStats,
    pub iface_mac: Option<MacAddr>,
    pub link_type: LinkType,
    pub window: u64,
}

/// Column of the L3 tallies.
pub open spec fn spec_l3_idx(p: L3Proto) -> int {
    match p {
        L3Proto::Ipv4 => 0,
        L3Proto::Ipv6 => 1,
        L3Proto::Arp => 2,
        L3Proto::Other(_) => 3,
    }
}

/// Column of the L4 tallies.
pub open spec fn spec_l4_idx(p: L4Proto) -> int {
    match p {
        L4Proto::Tcp => 0,
        L4Proto::Udp => 1,
        L4Proto::Icmp => 2,
        L4Proto::IcmpV6 => 3,
        L4Proto::Igmp => 4,
        L4Proto::Other(_) => 5,
        L4Proto::Unknown => 6,
    }
}

/// Column of the application tallies; an unclassified frame shares the
/// first column.
pub open spec fn spec_app_idx(a: AppHint) -> int {
    match a {
        AppHint::Http => 0,
        AppHint::Https => 1,
        AppHint::Ssh => 2,
        AppHint::Dns => 3,
        AppHint::Smtp => 4,
        AppHint::Imap => 5,
        AppHint::Pop3 => 6,
        AppHint::Ntp => 7,
        AppHint::Mdns => 8,
        AppHint::Dhcp => 9,
        AppHint::Quic => 10,
        AppHint::Tls => 11,
        AppHint::Unknown => 0,
    }
}

fn l3_idx(p: L3Proto) -> (r: usize)
    ensures
        r == spec_l3_idx(p),
{
    match p {
        L3Proto::Ipv4 => 0,
        L3Proto::Ipv6 => 1,
        L3Proto::Arp => 2,
        L3Proto::Other(_) => 3,
    }
}

fn l4_idx(p: L4Proto) -> (r: usize)
    ensures
        r == spec_l4_idx(p),
{
    match p {
        L4Proto::Tcp => 0,
        L4Proto::Udp => 1,
        L4Proto::Icmp => 2,
        L4Proto::IcmpV6 => 3,
        L4Proto::Igmp => 4,
        L4Proto::Other(_) => 5,
        L4Proto::Unknown => 6,
    }
}

fn app_idx(a: AppHint) -> (r: usize)
    ensures
        r == spec_app_idx(a),
{
    match a {
        AppHint::Http => 0,
        AppHint::Https => 1,
        AppHint::Ssh => 2,
        AppHint::Dns => 3,
        AppHint::Smtp => 4,
        AppHint::Imap => 5,
        AppHint::Pop3 => 6,
        AppHint::Ntp => 7,
        AppHint::Mdns => 8,
        AppHint::Dhcp => 9,
        AppHint::Quic => 10,
        AppHint::Tls => 11,
        AppHint::Unknown => 0,
    }
}

/// `a` with position `i` raised by one.
pub open spec fn bumped(a: Seq<u64>, i: int) -> Seq<u64> {
    a.update(i, (a[i] + 1) as u64)
}

/// `x + 1` when `c`, else `x`.
pub open spec fn inc_if(x: u64, c: bool) -> u64 {
    if c {
        (x + 1) as u64
    } else {
        x
    }
}

/// `x + 1` fits when `c`.
pub open spec fn fits_inc(x: u64, c: bool) -> bool {
    c ==> x < u64::MAX
}

impl IfaceWindow {
    /// The rings share the window, and what a ring holds never exceeds the
    /// lifetime totals of its direction.
    pub open spec fn wf(&self) -> bool {
        &&& self.rx.wf()
        &&& self.tx.wf()
        &&& self.rx.window_len() == self.window
        &&& self.tx.window_len() == self.window
        &&& sum_bytes(self.rx.view()) <= self.totals_rx.bytes
        &&& sum_packets(self.rx.view()) <= self.totals_rx.packets
        &&& sum_bytes(self.tx.view()) <= self.totals_tx.bytes
        &&& sum_packets(self.tx.view()) <= self.totals_tx.packets
    }

    /// Nothing counted yet over a window of `window` time units: empty
    /// rings, zero totals, tallies and flag counts, no error counters, no
    /// known MAC, and an Ethernet link.
    pub open spec fn fresh(&self, window: u64) -> bool {
        &&& self.window == window
        &&& self.rx.view().len() == 0 && self.tx.view().len() == 0
        &&& self.totals_rx == Counters::spec_zero() && self.totals_tx == Counters::spec_zero()
        &&& self.l3_rx@ == seq![0u64; 4] && self.l3_tx@ == seq![0u64; 4]
        &&& self.l4_rx@ == seq![0u64; 8] && self.l4_tx@ == seq![0u64; 8]
        &&& self.app_rx@ == seq![0u64; 12] && self.app_tx@ == seq![0u64; 12]
        &&& self.syn == 0 && self.fin == 0 && self.rst == 0
        &&& self.syn_rx == 0 && self.syn_tx == 0 && self.rst_rx == 0 && self.rst_tx == 0
        &&& self.errors.is_empty_stats()
        &&& self.iface_mac is None
        &&& self.link_type == LinkType::Ethernet
    }

    pub fn new(window: u64) -> (r: IfaceWindow)
        ensures
            r.wf(),
            r.fresh(window),
    {
        let r = IfaceWindow {
            rx: SlidingWindow::new(window),
            tx: SlidingWindow::new(window),
            totals_rx: Counters::zero(),
            totals_tx: Counters::zero(),
            l3_rx: [0; 4],
            l3_tx: [0; 4],
            l4_rx: [0; 8],
            l4_tx: [0; 8],
            app_rx: [0; 12],
            app_tx: [0; 12],
            syn: 0,
            fin: 0,
            rst: 0,
            syn_rx: 0,
            syn_tx: 0,
            rst_rx: 0,
            rst_tx: 0,
            errors: IfStats::default(),
            iface_mac: None,
            link_type: LinkType::Ethernet,
            window,
        };
        assert(r.l3_rx@ =~= seq![0u64; 4]);
        assert(r.l3_tx@ =~= seq![0u64; 4]);
        assert(r.l4_rx@ =~= seq![0u64; 8]);
        assert(r.l4_tx@ =~= seq![0u64; 8]);
        assert(r.app_rx@ =~= seq![0u64; 12]);
        assert(r.app_tx@ =~= seq![0u64; 12]);
        r
    }

    /// No counter that ingesting `f` raises is at its maximum.
    pub open spec fn ingest_fits(&self, f: Frame) -> bool {
        let n = Counters { bytes: f.cap_len as u64, packets: 1 };
        let c = f.tcp_flags;
        &&& match f.direction {
            Direction::Rx => {
                &&& self.totals_rx.fits_sum(n)
                &&& self.l3_rx@[spec_l3_idx(f.l3)] < u64::MAX
                &&& self.l4_rx@[spec_l4_idx(f.l4)] < u64::MAX
                &&& self.app_rx@[spec_app_idx(f.app)] < u64::MAX
                &&& fits_inc(self.syn_rx, c.spec_is_syn())
                &&& fits_inc(self.rst_rx, c.spec_is_rst())
            },
            Direction::Tx => {
                &&& self.totals_tx.fits_sum(n)
                &&& self.l3_tx@[spec_l3_idx(f.l3)] < u64::MAX
                &&& self.l4_tx@[spec_l4_idx(f.l4)] < u64::MAX
                &&& self.app_tx@[spec_app_idx(f.app)] < u64::MAX
                &&& fits_inc(self.syn_tx, c.spec_is_syn())
                &&& fits_inc(self.rst_tx, c.spec_is_rst())
            },
        }
        &&& fits_inc(self.syn, c.spec_is_syn())
        &&& fits_inc(self.fin, c.spec_is_fin())
        &&& fits_inc(self.rst, c.spec_is_rst())
    }

    /// `new` is `old` after counting frame `f`: the frame's bytes enter the
    /// rate ring and totals of its direction, its L3, L4 and application
    /// columns of that direction rise by one, and so do the flag tallies
    /// that its TCP flags select.
    pub open spec fn ingested(old: IfaceWindow, new: IfaceWindow, f: Frame) -> bool {
        let n = Counters { bytes: f.cap_len as u64, packets: 1 };
        let c = f.tcp_flags;
        &&& match f.direction {
            Direction::Rx => {
                &&& new.rx.view() == SlidingWindow::<512>::spec_push(old.rx.view(), n, f.captured_at, old.window)
                &&& new.tx.view() == old.tx.view()
                &&& new.totals_rx == (Counters {
                    bytes: (old.totals_rx.bytes + n.bytes) as u64,
                    packets: (old.totals_rx.packets + 1) as u64,
                })
                &&& new.totals_tx == old.totals_tx
                &&& new.l3_rx@ == bumped(old.l3_rx@, spec_l3_idx(f.l3))
                &&& new.l4_rx@ == bumped(old.l4_rx@, spec_l4_idx(f.l4))
                &&& new.app_rx@ == bumped(old.app_rx@, spec_app_idx(f.app))
                &&& new.l3_tx@ == old.l3_tx@ && new.l4_tx@ == old.l4_tx@ && new.app_tx@ == old.app_tx@
                &&& new.syn_rx == inc_if(old.syn_rx, c.spec_is_syn())
                &&& new.rst_rx == inc_if(old.rst_rx, c.spec_is_rst())
                &&& new.syn_tx == old.syn_tx && new.rst_tx == old.rst_tx
            },
            Direction::Tx => {
                &&& new.tx.view() == SlidingWindow::<512>::spec_push(old.tx.view(), n, f.captured_at, old.window)
                &&& new.rx.view() == old.rx.view()
                &&& new.totals_tx == (Counters {
                    bytes: (old.totals_tx.bytes + n.bytes) as u64,
                    packets: (old.totals_tx.packets + 1) as u64,
                })
                &&& new.totals_rx == old.totals_rx
                &&& new.l3_tx@ == bumped(old.l3_tx@, spec_l3_idx(f.l3))
                &&& new.l4_tx@ == bumped(old.l4_tx@, spec_l4_idx(f.l4))
                &&& new.app_tx@ == bumped(old.app_tx@, spec_app_idx(f.app))
                &&& new.l3_rx@ == old.l3_rx@ && new.l4_rx@ == old.l4_rx@ && new.app_rx@ == old.app_rx@
                &&& new.syn_tx == inc_if(old.syn_tx, c.spec_is_syn())
                &&& new.rst_tx == inc_if(old.rst_tx, c.spec_is_rst())
                &&& new.syn_rx == old.syn_rx && new.rst_rx == old.rst_rx
            },
        }
        &&& new.syn == inc_if(old.syn, c.spec_is_syn())
        &&& new.fin == inc_if(old.fin, c.spec_is_fin())
        &&& new.rst == inc_if(old.rst, c.spec_is_rst())
        &&& new.errors == old.errors
        &&& new.iface_mac == old.iface_mac
        &&& new.link_type == old.link_type
        &&& new.window == old.window
    }

    pub fn ingest(&mut self, frame: &Frame)
        requires
            old(self).wf(),
            old(self).ingest_fits(*frame),
        ensures
            final(self).wf(),
            Self::ingested(*old(self), *final(self), *frame),
    {
        let n = Counters::from_packet(frame.cap_len as u64);
        let at = frame.captured_at;
        let flags = frame.tcp_flags;
        proof {
            lemma_sum_after_push::<512>(self.rx.view(), n, at, self.window);
            lemma_sum_after_push::<512>(self.tx.view(), n, at, self.window);
        }
        match frame.direction {
            Direction::Rx => {
                self.rx.push(n, at);
                self.totals_rx = self.totals_rx.add(n);
                let i = l3_idx(frame.l3);
                self.l3_rx[i] = self.l3_rx[i] + 1;
                let i = l4_idx(frame.l4);
                self.l4_rx[i] = self.l4_rx[i] + 1;
                let i = app_idx(frame.app);
                self.app_rx[i] = self.app_rx[i] + 1;
                if flags.is_syn() {
                    self.syn_rx = self.syn_rx + 1;
                }
                if flags.is_rst() {
                    self.rst_rx = self.rst_rx + 1;
                }
            },
            Direction::Tx => {
                self.tx.push(n, at);
                self.totals_tx = self.totals_tx.add(n);
                let i = l3_idx(frame.l3);
                self.l3_tx[i] = self.l3_tx[i] + 1;
                let i = l4_idx(frame.l4);
                self.l4_tx[i] = self.l4_tx[i] + 1;
                let i = app_idx(frame.app);
                self.app_tx[i] = self.app_tx[i] + 1;
                if flags.is_syn() {
                    self.syn_tx = self.syn_tx + 1;
                }
                if flags.is_rst() {
                    self.rst_tx = self.rst_tx + 1;
                }
            },
        }
        if flags.is_syn() {
            self.syn = self.syn + 1;
        }
        if flags.is_fin() {
            self.fin = self.fin + 1;
        }
        if flags.is_rst() {
            self.rst = self.rst + 1;
        }
    }
}

/// Every ingested frame is counted exactly once in the lifetime totals.
pub proof fn lemma_ingest_counts_one_packet(old: IfaceWindow, new: IfaceWindow, f: Frame)
    requires
        old.ingest_fits(f),
        IfaceWindow::ingested(old, new, f),
    ensures
        new.totals_rx.packets + new.totals_tx.packets == old.totals_rx.packets
            + old.totals_tx.packets + 1,
        new.totals_rx.bytes + new.totals_tx.bytes == old.totals_rx.bytes + old.totals_tx.bytes
            + f.cap_len,
{
}

} // verus!
