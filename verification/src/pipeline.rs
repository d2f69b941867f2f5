//! The settings of the capture pipeline and the choice of a default
//! interface.

use vstd::prelude::*;
use crate::error::Platform;
use crate::text::{chars_of, starts_with, str_eq};

verus! {

broadcast use vstd::string::group_string_axioms;

/// How the pipeline runs: the sliding window (ns), how many recent frames
/// are kept, how often snapshots are taken (ms), and the capacity of the
/// frame channel.
#[derive(Copy, Clone, Debug)]
pub struct PipelineConfig {
    pub window_ns: u64,
    pub recent_cap: usize,
    pub snapshot_interval_ms: u64,
    pub channel_capacity: usize,
}

impl Default for PipelineConfig {
    /// A five-second window, 4096 recent frames, a snapshot every 250 ms, a
    /// channel of 16384 frames.
    fn default() -> (r: Self)
        ensures
            r.window_ns == 5_000_000_000,
            r.recent_cap == 4096,
            r.snapshot_interval_ms == 250,
            r.channel_capacity == 16_384,
    {
        PipelineConfig {
            window_ns: 5_000_000_000,
            recent_cap: 4096,
            snapshot_interval_ms: 250,
            channel_capacity: 16_384,
        }
    }
}

pub open spec fn has_prefix(s: Seq<char>, p: Seq<char>) -> bool {
    p.len() <= s.len() && s.take(p.len() as int) == p
}

/// How much an interface name is preferred on Linux: wired first, then
/// wireless, then anything else, loopback last.
pub open spec fn spec_preference(n: Seq<char>) -> u8 {
    if has_prefix(n, "eth"@) || has_prefix(n, "en"@) {
        0
    } else if has_prefix(n, "wlan"@) || has_prefix(n, "wl"@) {
        1
    } else if n == "lo"@ {
        3
    } else {
        2
    }
}

pub fn preference(n: &str) -> (r: u8)
    ensures
        r == spec_preference(n@),
{
    let c = chars_of(n);
    if starts_with(&c, "eth") || starts_with(&c, "en") {
        0
    } else if starts_with(&c, "wlan") || starts_with(&c, "wl") {
        1
    } else if str_eq(n, "lo") {
        3
    } else {
        2
    }
}

/// Whether a name is a candidate on FreeBSD: neither loopback nor a pf
/// log.
pub open spec fn freebsd_candidate(n: Seq<char>) -> bool {
    !has_prefix(n, "lo"@) && !has_prefix(n, "pflog"@)
}

/// On FreeBSD, the first name in `list` that is neither loopback nor a pf
/// log, else `lo0`.
#[verifier::opaque]
pub open spec fn freebsd_pick(list: Seq<Seq<char>>) -> Seq<char> {
    if exists|i: int| 0 <= i < list.len() && #[trigger] freebsd_candidate(list[i]) {
        list[choose|i: int| 0 <= i < list.len() && #[trigger] freebsd_candidate(list[i]) && forall|j: int|
            0 <= j < i ==> !#[trigger] freebsd_candidate(list[j])]
    } else {
        "lo0"@
    }
}

/// On Linux, the first of the most preferred names in `list` other than
/// loopback, else `lo`.
#[verifier::opaque]
pub open spec fn linux_pick(list: Seq<Seq<char>>) -> Seq<char> {
    if exists|i: int| 0 <= i < list.len() && #[trigger] list[i] != "lo"@ {
        list[choose|i: int| 0 <= i < list.len() && #[trigger] list[i] != "lo"@ && (forall|j: int|
            0 <= j < list.len() && list[j] != "lo"@ ==> spec_preference(list[i]) <= #[trigger] spec_preference(
            list[j],
        )) && (forall|j: int| 0 <= j < i && list[j] != "lo"@ ==> spec_preference(list[i]) < #[trigger] spec_preference(
            list[j],
        ))]
    } else {
        "lo"@
    }
}

/// The interface to watch when none is named, among `list` in order: see
/// `freebsd_pick` and `linux_pick`; elsewhere `lo`.
pub open spec fn spec_autodetect(list: Seq<Seq<char>>, p: Platform) -> Seq<char> {
    match p {
        Platform::FreeBsd => freebsd_pick(list),
        Platform::Linux => linux_pick(list),
        Platform::Other => "lo"@,
    }
}

pub open spec fn names(v: Seq<String>) -> Seq<Seq<char>> {
    v.map_values(|s: String| s@)
}

proof fn lemma_first_freebsd(l: Seq<Seq<char>>, i: int)
    requires
        0 <= i < l.len(),
        freebsd_candidate(l[i]),
        forall|j: int| 0 <= j < i ==> !#[trigger] freebsd_candidate(l[j]),
    ensures
        freebsd_pick(l) == l[i],
{
    reveal(freebsd_pick);
    let w = choose|k: int| 0 <= k < l.len() && #[trigger] freebsd_candidate(l[k]) && forall|j: int|
        0 <= j < k ==> !#[trigger] freebsd_candidate(l[j]);
    assert(0 <= w < l.len() && freebsd_candidate(l[w]) && forall|j: int| 0 <= j < w ==> !#[trigger] freebsd_candidate(l[j]));
    if w < i {
        assert(!freebsd_candidate(l[w]));
    }
    if i < w {
        assert(!freebsd_candidate(l[i]));
    }
}

proof fn lemma_no_freebsd(l: Seq<Seq<char>>)
    requires
        forall|j: int| 0 <= j < l.len() ==> !#[trigger] freebsd_candidate(l[j]),
    ensures
        freebsd_pick(l) == "lo0"@,
{
    reveal(freebsd_pick);
}

proof fn lemma_best_linux(l: Seq<Seq<char>>, b: int)
    requires
        0 <= b < l.len(),
        l[b] != "lo"@,
        forall|j: int| 0 <= j < l.len() && l[j] != "lo"@ ==> spec_preference(l[b]) <= #[trigger] spec_preference(l[j]),
        forall|j: int| 0 <= j < b && l[j] != "lo"@ ==> spec_preference(l[b]) < #[trigger] spec_preference(l[j]),
    ensures
        linux_pick(l) == l[b],
{
    reveal(linux_pick);
    let w = choose|k: int| 0 <= k < l.len() && #[trigger] l[k] != "lo"@ && (forall|j: int|
        0 <= j < l.len() && l[j] != "lo"@ ==> spec_preference(l[k]) <= #[trigger] spec_preference(l[j])) && (
    forall|j: int| 0 <= j < k && l[j] != "lo"@ ==> spec_preference(l[k]) < #[trigger] spec_preference(l[j]));
    assert(0 <= w < l.len() && l[w] != "lo"@);
    if w < b {
        assert(spec_preference(l[b]) <= spec_preference(l[w]));
        assert(spec_preference(l[w]) <= spec_preference(l[b]));
    }
    if b < w {
        assert(spec_preference(l[w]) <= spec_preference(l[b]));
    }
}

proof fn lemma_no_linux(l: Seq<Seq<char>>)
    requires
        forall|j: int| 0 <= j < l.len() ==> #[trigger] l[j] == "lo"@,
    ensures
        linux_pick(l) == "lo"@,
{
    reveal(linux_pick);
}

fn autodetect_freebsd(list: &Vec<String>) -> (r: String)
    ensures
        r@ == freebsd_pick(names(list@)),
{
    let ghost l = names(list@);
    let mut i: usize = 0;
    while i < list.len()
        invariant
            i <= list@.len(),
            l == names(list@),
            forall|j: int| 0 <= j < i ==> !#[trigger] freebsd_candidate(l[j]),
        decreases list@.len() - i,
    {
        let c = chars_of(list[i].as_str());
        assert(l[i as int] == list@[i as int]@);
        if !starts_with(&c, "lo") && !starts_with(&c, "pflog") {
            proof {
                lemma_first_freebsd(l, i as int);
            }
            return list[i].clone();
        }
        i += 1;
    }
    proof {
        lemma_no_freebsd(l);
    }
    String::from_str("lo0")
}

fn autodetect_linux(list: &Vec<String>) -> (r: String)
    ensures
        r@ == linux_pick(names(list@)),
{
    let ghost l = names(list@);
    let mut best: Option<usize> = None;
    let mut i: usize = 0;
    while i < list.len()
        invariant
            i <= list@.len(),
            l == names(list@),
            match best {
                None => forall|j: int| 0 <= j < i ==> #[trigger] l[j] == "lo"@,
                Some(b) => {
                    &&& b < i
                    &&& l[b as int] != "lo"@
                    &&& forall|j: int| 0 <= j < i && l[j] != "lo"@ ==> spec_preference(l[b as int])
                        <= #[trigger] spec_preference(l[j])
                    &&& forall|j: int| 0 <= j < b && l[j] != "lo"@ ==> spec_preference(l[b as int])
                        < #[trigger] spec_preference(l[j])
                },
            },
        decreases list@.len() - i,
    {
        let n = list[i].as_str();
        assert(l[i as int] == n@);
        if !str_eq(n, "lo") {
            let pr = preference(n);
            match best {
                None => {
                    best = Some(i);
                },
                Some(b) => {
                    assert(l[b as int] == list@[b as int]@);
                    if pr < preference(list[b].as_str()) {
                        best = Some(i);
                    }
                },
            }
        }
        i += 1;
    }
    match best {
        None => {
            proof {
                lemma_no_linux(l);
            }
            String::from_str("lo")
        },
        Some(b) => {
            proof {
                lemma_best_linux(l, b as int);
                assert(l[b as int] == list@[b as int]@);
            }
            list[b].clone()
        },
    }
}

/// The interface to watch when none is named (see `spec_autodetect`).
pub fn autodetect_interface(list: &Vec<String>, p: Platform) -> (r: String)
    ensures
        r@ == spec_autodetect(names(list@), p),
{
    match p {
        Platform::FreeBsd => autodetect_freebsd(list),
        Platform::Linux => autodetect_linux(list),
        Platform::Other => String::from_str("lo"),
    }
}

} // verus!
