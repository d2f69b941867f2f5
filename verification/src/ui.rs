//! The state of the interactive view and how keys change it: tabs, sort
//! modes, selections, scrolling and the rate histories, and the short texts
//! the view shows.

use vstd::prelude::*;
use std::collections::VecDeque;
use crate::aggregate::Snapshot;
use crate::domain::{L4Proto, TcpFlags};
use crate::text::{decimal, push_char, push_decimal, zero_padded, push_zero_padded};

verus! {

broadcast use vstd::string::group_string_axioms;

// ---------------------------------------------------------------------------
// Tabs
// ---------------------------------------------------------------------------

#[derive(Copy, Clone, Debug, PartialEq, Eq, Structural)]
pub enum Tab {
    Overview,
    Flows,
    Hosts,
    Protocols,
    Live,
}

/// The position of a tab in the tab bar.
pub open spec fn tab_pos(t: Tab) -> nat {
    match t {
        Tab::Overview => 0,
        Tab::Flows => 1,
        Tab::Hosts => 2,
        Tab::Protocols => 3,
        Tab::Live => 4,
    }
}

/// The tab at position `i` (0..5).
pub open spec fn tab_at(i: nat) -> Tab {
    if i == 0 {
        Tab::Overview
    } else if i == 1 {
        Tab::Flows
    } else if i == 2 {
        Tab::Hosts
    } else if i == 3 {
        Tab::Protocols
    } else {
        Tab::Live
    }
}

pub open spec fn spec_tab_next(t: Tab) -> Tab {
    tab_at((tab_pos(t) + 1) % 5)
}

pub open spec fn spec_tab_prev(t: Tab) -> Tab {
    tab_at(((tab_pos(t) + 4) % 5) as nat)
}

impl Tab {
    /// Every tab, in the order of the tab bar.
    pub fn all() -> (r: [Tab; 5])
        ensures
            forall|i: int| 0 <= i < 5 ==> #[trigger] r[i] == tab_at(i as nat),
    {
        [Tab::Overview, Tab::Flows, Tab::Hosts, Tab::Protocols, Tab::Live]
    }

    pub open spec fn spec_title(self) -> &'static str {
        match self {
            Tab::Overview => "Overview",
            Tab::Flows => "Flows",
            Tab::Hosts => "Hosts",
            Tab::Protocols => "Protocols",
            Tab::Live => "Live",
        }
    }

    /// The tab's title.
    pub fn title(self) -> (r: &'static str)
        ensures
            r == self.spec_title(),
    {
        match self {
            Tab::Overview => "Overview",
            Tab::Flows => "Flows",
            Tab::Hosts => "Hosts",
            Tab::Protocols => "Protocols",
            Tab::Live => "Live",
        }
    }

    /// The tab's position in the tab bar.
    pub fn index(self) -> (r: usize)
        ensures
            r == tab_pos(self),
    {
        match self {
            Tab::Overview => 0,
            Tab::Flows => 1,
            Tab::Hosts => 2,
            Tab::Protocols => 3,
            Tab::Live => 4,
        }
    }

    fn at(i: usize) -> (r: Tab)
        requires
            i < 5,
        ensures
            r == tab_at(i as nat),
    {
        if i == 0 {
            Tab::Overview
        } else if i == 1 {
            Tab::Flows
        } else if i == 2 {
            Tab::Hosts
        } else if i == 3 {
            Tab::Protocols
        } else {
            Tab::Live
        }
    }

    /// The tab to the right, wrapping around.
    pub fn next(self) -> (r: Tab)
        ensures
            r == spec_tab_next(self),
    {
        Tab::at((self.index() + 1) % 5)
    }

    /// The tab to the left, wrapping around.
    pub fn prev(self) -> (r: Tab)
        ensures
            r == spec_tab_prev(self),
    {
        Tab::at((self.index() + 4) % 5)
    }
}

/// Moving one tab right then one left, or left then right, comes back.
pub proof fn lemma_tab_next_prev(t: Tab)
    ensures
        spec_tab_prev(spec_tab_next(t)) == t,
        spec_tab_next(spec_tab_prev(t)) == t,
{
}

/// Five moves to the right visit every tab and come back.
pub proof fn lemma_tab_cycle(t: Tab)
    ensures
        spec_tab_next(spec_tab_next(spec_tab_next(spec_tab_next(spec_tab_next(t))))) == t,
        spec_tab_next(t) != t,
{
}

// ---------------------------------------------------------------------------
// Sort modes
// ---------------------------------------------------------------------------

#[derive(Copy, Clone, Debug, PartialEq, Eq, Structural)]
pub enum SortMode {
    Bytes,
    Packets,
    Name,
}

pub open spec fn spec_sort_next(m: SortMode) -> SortMode {
    match m {
        SortMode::Bytes => SortMode::Packets,
        SortMode::Packets => SortMode::Name,
        SortMode::Name => SortMode::Bytes,
    }
}

impl SortMode {
    /// The next sort mode, in the cycle bytes, packets, name.
    pub fn next(self) -> (r: SortMode)
        ensures
            r == spec_sort_next(self),
    {
        match self {
            SortMode::Bytes => SortMode::Packets,
            SortMode::Packets => SortMode::Name,
            SortMode::Name => SortMode::Bytes,
        }
    }

    pub open spec fn spec_label(self) -> &'static str {
        match self {
            SortMode::Bytes => "bytes",
            SortMode::Packets => "packets",
            SortMode::Name => "name",
        }
    }

    /// The word the footer shows for the mode.
    pub fn label(self) -> (r: &'static str)
        ensures
            r == self.spec_label(),
    {
        match self {
            SortMode::Bytes => "bytes",
            SortMode::Packets => "packets",
            SortMode::Name => "name",
        }
    }
}

/// Three presses of the sort key come back to the mode one started with.
pub proof fn lemma_sort_cycle(m: SortMode)
    ensures
        spec_sort_next(spec_sort_next(spec_sort_next(m))) == m,
        spec_sort_next(m) != m,
{
}

// ---------------------------------------------------------------------------
// Histories and selections
// ---------------------------------------------------------------------------

/// At most this many samples of each rate are kept.
pub const HISTORY_CAP: usize = 120;

/// The last `HISTORY_CAP` of `s`.
pub open spec fn last_cap(s: Seq<u64>) -> Seq<u64> {
    if s.len() <= HISTORY_CAP {
        s
    } else {
        s.skip(s.len() - HISTORY_CAP)
    }
}

/// `s` with `v` appended, its oldest sample dropped when it held exactly
/// `HISTORY_CAP`.
pub open spec fn pushed(s: Seq<u64>, v: u64) -> Seq<u64> {
    if s.len() == HISTORY_CAP {
        s.drop_first().push(v)
    } else {
        s.push(v)
    }
}

/// Appends a sample, dropping the oldest when exactly `HISTORY_CAP` are
/// kept.
pub fn push_hist(q: &mut VecDeque<u64>, v: u64)
    ensures
        final(q)@ == pushed(old(q)@, v),
        old(q)@.len() <= HISTORY_CAP ==> final(q)@ == last_cap(old(q)@.push(v)),
        old(q)@.len() <= HISTORY_CAP ==> final(q)@.len() <= HISTORY_CAP,
{
    let ghost before = q@;
    if q.len() == HISTORY_CAP {
        q.pop_front();
    }
    q.push_back(v);
    assert(before.len() == HISTORY_CAP ==> q@ =~= before.drop_first().push(v));
    assert(before.len() <= HISTORY_CAP ==> q@ =~= last_cap(before.push(v)));
}

/// Keeping the last samples: the newest is the one pushed, and the rest
/// are the newest of those before it.
pub proof fn lemma_history_keeps_newest(s: Seq<u64>, v: u64)
    requires
        s.len() <= HISTORY_CAP,
    ensures
        last_cap(s.push(v)).last() == v,
        last_cap(s.push(v)).len() == if s.len() < HISTORY_CAP { s.len() + 1 } else { HISTORY_CAP as nat },
        s.len() < HISTORY_CAP ==> last_cap(s.push(v)).drop_last() == s,
        s.len() == HISTORY_CAP ==> last_cap(s.push(v)).drop_last() == s.drop_first(),
{
    if s.len() == HISTORY_CAP {
        assert(s.push(v).skip(1).drop_last() =~= s.drop_first());
    } else {
        assert(s.push(v).drop_last() =~= s);
    }
}

/// The selected row after moving down `n` rows in a table of `len` rows:
/// no row is selected yet counts as the first; the last row is as far as it
/// goes. An empty table keeps its selection.
pub open spec fn spec_select_next(sel: Option<usize>, n: usize, len: usize) -> Option<usize> {
    if len == 0 {
        sel
    } else {
        let from = match sel {
            Some(i) => i as int,
            None => 0,
        };
        let to = if from + n > usize::MAX { usize::MAX as int } else { from + n };
        Some((if to > len - 1 { len - 1 } else { to }) as usize)
    }
}

pub fn select_next(sel: Option<usize>, n: usize, len: usize) -> (r: Option<usize>)
    ensures
        r == spec_select_next(sel, n, len),
{
    if len == 0 {
        return sel;
    }
    let from = match sel {
        Some(i) => i,
        None => 0,
    };
    let to = from.saturating_add(n);
    Some(if to > len - 1 { len - 1 } else { to })
}

/// The selected row after moving up `n` rows: not above the first.
pub open spec fn spec_select_prev(sel: Option<usize>, n: usize) -> Option<usize> {
    let from = match sel {
        Some(i) => i as int,
        None => 0,
    };
    Some((if from < n { 0 } else { from - n }) as usize)
}

pub fn select_prev(sel: Option<usize>, n: usize) -> (r: Option<usize>)
    ensures
        r == spec_select_prev(sel, n),
{
    let from = match sel {
        Some(i) => i,
        None => 0,
    };
    Some(from.saturating_sub(n))
}

// ---------------------------------------------------------------------------
// Keys
// ---------------------------------------------------------------------------

/// A key press, as far as the view tells keys apart.
#[derive(Copy, Clone, Debug, PartialEq, Eq, Structural)]
pub enum Key {
    Char(char),
    Esc,
    Tab,
    BackTab,
    Down,
    Up,
    PageDown,
    PageUp,
    Other,
}

// ---------------------------------------------------------------------------
// The view's state
// ---------------------------------------------------------------------------

/// The state of the interactive view.
#[derive(Debug)]
pub struct App {
    pub iface: String,
    pub tab: Tab,
    pub paused: bool,
    pub should_quit: bool,
    pub snapshot: Option<Snapshot>,
    pub rx_history: VecDeque<u64>,
    pub tx_history: VecDeque<u64>,
    pub flow_selected: Option<usize>,
    pub host_selected: Option<usize>,
    pub mac_selected: Option<usize>,
    pub live_offset: usize,
    pub sort_mode: SortMode,
    pub show_help: bool,
    pub status: String,
    pub last_error: Option<String>,
}

/// The number of flows and hosts of the snapshot shown, 0 without one.
pub open spec fn flow_rows(a: &App) -> usize {
    match a.snapshot {
        Some(s) => s.flows@.len() as usize,
        None => 0,
    }
}

pub open spec fn host_rows(a: &App) -> usize {
    match a.snapshot {
        Some(s) => s.hosts@.len() as usize,
        None => 0,
    }
}

/// The scrollable part of the state: flow and host selections and the live
/// offset.
pub open spec fn scrolled_down(a: &App, n: usize) -> (Option<usize>, Option<usize>, usize) {
    match a.tab {
        Tab::Flows => (spec_select_next(a.flow_selected, n, flow_rows(a)), a.host_selected, a.live_offset),
        Tab::Hosts => (a.flow_selected, spec_select_next(a.host_selected, n, host_rows(a)), a.live_offset),
        Tab::Live => (
            a.flow_selected,
            a.host_selected,
            (if a.live_offset + n > usize::MAX { usize::MAX as int } else { a.live_offset + n }) as usize,
        ),
        _ => (a.flow_selected, a.host_selected, a.live_offset),
    }
}

pub open spec fn scrolled_up(a: &App, n: usize) -> (Option<usize>, Option<usize>, usize) {
    match a.tab {
        Tab::Flows => (spec_select_prev(a.flow_selected, n), a.host_selected, a.live_offset),
        Tab::Hosts => (a.flow_selected, spec_select_prev(a.host_selected, n), a.live_offset),
        Tab::Live => (
            a.flow_selected,
            a.host_selected,
            (if a.live_offset < n { 0 } else { a.live_offset - n }) as usize,
        ),
        _ => (a.flow_selected, a.host_selected, a.live_offset),
    }
}

/// What a key does, given the state before it: while the help is shown any
/// key only closes it; `q`, Esc and Ctrl-C quit; space pauses or resumes;
/// `?` and `h` open the help; `s` cycles the sort mode; Tab and `l` move one
/// tab right, BackTab and `H` one left, `1`..`5` pick a tab; Down and `j`,
/// Up and `k` scroll by one, PageDown and PageUp by ten.
pub enum KeyEffect {
    CloseHelp,
    Quit,
    TogglePause,
    OpenHelp,
    CycleSort,
    ToTab(Tab),
    ScrollDown(usize),
    ScrollUp(usize),
    Nothing,
}

pub open spec fn key_effect(show_help: bool, tab: Tab, key: Key, ctrl: bool) -> KeyEffect {
    if show_help {
        KeyEffect::CloseHelp
    } else {
        match key {
            Key::Char('q') | Key::Esc => KeyEffect::Quit,
            Key::Char('c') if ctrl => KeyEffect::Quit,
            Key::Char(' ') => KeyEffect::TogglePause,
            Key::Char('?') | Key::Char('h') => KeyEffect::OpenHelp,
            Key::Char('s') => KeyEffect::CycleSort,
            Key::Tab | Key::Char('l') => KeyEffect::ToTab(spec_tab_next(tab)),
            Key::BackTab | Key::Char('H') => KeyEffect::ToTab(spec_tab_prev(tab)),
            Key::Char('1') => KeyEffect::ToTab(Tab::Overview),
            Key::Char('2') => KeyEffect::ToTab(Tab::Flows),
            Key::Char('3') => KeyEffect::ToTab(Tab::Hosts),
            Key::Char('4') => KeyEffect::ToTab(Tab::Protocols),
            Key::Char('5') => KeyEffect::ToTab(Tab::Live),
            Key::Down | Key::Char('j') => KeyEffect::ScrollDown(1),
            Key::Up | Key::Char('k') => KeyEffect::ScrollUp(1),
            Key::PageDown => KeyEffect::ScrollDown(10),
            Key::PageUp => KeyEffect::ScrollUp(10),
            _ => KeyEffect::Nothing,
        }
    }
}

/// The part of the state that keys control: tab, paused, quitting, help
/// shown, sort mode, flow and host selections, live offset and status line.
pub open spec fn key_state(a: &App) -> (
    Tab,
    bool,
    bool,
    bool,
    SortMode,
    Option<usize>,
    Option<usize>,
    usize,
    Seq<char>,
) {
    (
        a.tab,
        a.paused,
        a.should_quit,
        a.show_help,
        a.sort_mode,
        a.flow_selected,
        a.host_selected,
        a.live_offset,
        a.status@,
    )
}

/// The key-controlled state after effect `e` on state `a`: each effect
/// changes only what it names, and everything else keeps its value.
pub open spec fn after_key(a: &App, e: KeyEffect) -> (
    Tab,
    bool,
    bool,
    bool,
    SortMode,
    Option<usize>,
    Option<usize>,
    usize,
    Seq<char>,
) {
    let k = key_state(a);
    match e {
        KeyEffect::CloseHelp => (k.0, k.1, k.2, false, k.4, k.5, k.6, k.7, k.8),
        KeyEffect::Quit => (k.0, k.1, true, k.3, k.4, k.5, k.6, k.7, k.8),
        KeyEffect::TogglePause => (k.0, !k.1, k.2, k.3, k.4, k.5, k.6, k.7, k.8),
        KeyEffect::OpenHelp => (k.0, k.1, k.2, true, k.4, k.5, k.6, k.7, k.8),
        KeyEffect::CycleSort => (
            k.0,
            k.1,
            k.2,
            k.3,
            spec_sort_next(k.4),
            k.5,
            k.6,
            k.7,
            "sort by "@ + spec_sort_next(k.4).spec_label()@,
        ),
        KeyEffect::ToTab(t) => (t, k.1, k.2, k.3, k.4, k.5, k.6, k.7, k.8),
        KeyEffect::ScrollDown(n) => {
            let d = scrolled_down(a, n);
            (k.0, k.1, k.2, k.3, k.4, d.0, d.1, d.2, k.8)
        },
        KeyEffect::ScrollUp(n) => {
            let u = scrolled_up(a, n);
            (k.0, k.1, k.2, k.3, k.4, u.0, u.1, u.2, k.8)
        },
        KeyEffect::Nothing => k,
    }
}

impl App {
    /// The view of interface `iface` before anything is shown: the
    /// overview, live, sorted by bytes.
    pub fn new(iface: String) -> (r: Self)
        ensures
            r.iface == iface,
            r.tab == Tab::Overview,
            !r.paused && !r.should_quit && !r.show_help,
            r.snapshot is None,
            r.rx_history@.len() == 0 && r.tx_history@.len() == 0,
            r.flow_selected is None && r.host_selected is None && r.mac_selected is None,
            r.live_offset == 0,
            r.sort_mode == SortMode::Bytes,
            r.status@.len() == 0,
            r.last_error is None,
    {
        App {
            iface,
            tab: Tab::Overview,
            paused: false,
            should_quit: false,
            snapshot: None,
            rx_history: VecDeque::new(),
            tx_history: VecDeque::new(),
            flow_selected: None,
            host_selected: None,
            mac_selected: None,
            live_offset: 0,
            sort_mode: SortMode::Bytes,
            show_help: false,
            status: String::new(),
            last_error: None,
        }
    }

    /// The histories hold at most `HISTORY_CAP` samples.
    pub open spec fn wf(&self) -> bool {
        self.rx_history@.len() <= HISTORY_CAP && self.tx_history@.len() <= HISTORY_CAP
    }

    /// Shows a new snapshot, whose receive and transmit rates (bytes per
    /// second) are `rx_rate` and `tx_rate`: each rate joins its history.
    pub fn update(&mut self, snap: Snapshot, rx_rate: u64, tx_rate: u64)
        ensures
            old(self).wf() ==> final(self).wf(),
            old(self).wf() ==> final(self).rx_history@ == last_cap(old(self).rx_history@.push(rx_rate)),
            old(self).wf() ==> final(self).tx_history@ == last_cap(old(self).tx_history@.push(tx_rate)),
            final(self).rx_history@ == pushed(old(self).rx_history@, rx_rate),
            final(self).tx_history@ == pushed(old(self).tx_history@, tx_rate),
            final(self).snapshot == Some(snap),
            final(self).tab == old(self).tab,
            final(self).paused == old(self).paused,
            final(self).should_quit == old(self).should_quit,
            final(self).sort_mode == old(self).sort_mode,
            final(self).show_help == old(self).show_help,
            final(self).flow_selected == old(self).flow_selected,
            final(self).host_selected == old(self).host_selected,
            final(self).live_offset == old(self).live_offset,
    {
        push_hist(&mut self.rx_history, rx_rate);
        push_hist(&mut self.tx_history, tx_rate);
        self.snapshot = Some(snap);
    }

    /// Moves the selection of the current table, or the live offset, down
    /// by `n`.
    pub fn scroll_down_by(&mut self, n: usize)
        ensures
            (final(self).flow_selected, final(self).host_selected, final(self).live_offset) == scrolled_down(
                &*old(self),
                n,
            ),
            final(self).tab == old(self).tab,
            final(self).snapshot == old(self).snapshot,
            final(self).rx_history == old(self).rx_history,
            final(self).tx_history == old(self).tx_history,
            final(self).iface@ == old(self).iface@,
            final(self).paused == old(self).paused,
            final(self).should_quit == old(self).should_quit,
            final(self).sort_mode == old(self).sort_mode,
            final(self).show_help == old(self).show_help,
            final(self).status@ == old(self).status@,
            final(self).mac_selected == old(self).mac_selected,
            final(self).last_error == old(self).last_error,
    {
        match self.tab {
            Tab::Flows => {
                let len = match &self.snapshot {
                    Some(s) => s.flows.len(),
                    None => 0,
                };
                self.flow_selected = select_next(self.flow_selected, n, len);
            },
            Tab::Hosts => {
                let len = match &self.snapshot {
                    Some(s) => s.hosts.len(),
                    None => 0,
                };
                self.host_selected = select_next(self.host_selected, n, len);
            },
            Tab::Live => {
                self.live_offset = self.live_offset.saturating_add(n);
            },
            _ => {},
        }
    }

    /// Moves the selection of the current table, or the live offset, up by
    /// `n`.
    pub fn scroll_up_by(&mut self, n: usize)
        ensures
            (final(self).flow_selected, final(self).host_selected, final(self).live_offset) == scrolled_up(
                &*old(self),
                n,
            ),
            final(self).tab == old(self).tab,
            final(self).snapshot == old(self).snapshot,
            final(self).rx_history == old(self).rx_history,
            final(self).tx_history == old(self).tx_history,
            final(self).iface@ == old(self).iface@,
            final(self).paused == old(self).paused,
            final(self).should_quit == old(self).should_quit,
            final(self).sort_mode == old(self).sort_mode,
            final(self).show_help == old(self).show_help,
            final(self).status@ == old(self).status@,
            final(self).mac_selected == old(self).mac_selected,
            final(self).last_error == old(self).last_error,
    {
        match self.tab {
            Tab::Flows => {
                self.flow_selected = select_prev(self.flow_selected, n);
            },
            Tab::Hosts => {
                self.host_selected = select_prev(self.host_selected, n);
            },
            Tab::Live => {
                self.live_offset = self.live_offset.saturating_sub(n);
            },
            _ => {},
        }
    }

    /// Applies a key press (with Ctrl held or not): the state that keys
    /// control becomes `after_key` of the key's effect, and nothing else
    /// changes.
    pub fn on_key(&mut self, key: Key, ctrl: bool)
        ensures
            key_state(&*final(self)) == after_key(&*old(self), key_effect(old(self).show_help, old(self).tab, key, ctrl)),
            final(self).snapshot == old(self).snapshot,
            final(self).rx_history == old(self).rx_history,
            final(self).tx_history == old(self).tx_history,
            final(self).iface@ == old(self).iface@,
            final(self).mac_selected == old(self).mac_selected,
            final(self).last_error == old(self).last_error,
    {
        if self.show_help {
            self.show_help = false;
            return;
        }
        match key {
            Key::Char('q') | Key::Esc => {
                self.should_quit = true;
            },
            Key::Char('c') if ctrl => {
                self.should_quit = true;
            },
            Key::Char(' ') => {
                self.paused = !self.paused;
            },
            Key::Char('?') | Key::Char('h') => {
                self.show_help = true;
            },
            Key::Char('s') => {
                self.sort_mode = self.sort_mode.next();
                let mut st = String::from_str("sort by ");
                st.append(self.sort_mode.label());
                self.status = st;
            },
            Key::Tab | Key::Char('l') => {
                self.tab = self.tab.next();
            },
            Key::BackTab | Key::Char('H') => {
                self.tab = self.tab.prev();
            },
            Key::Char('1') => {
                self.tab = Tab::Overview;
            },
            Key::Char('2') => {
                self.tab = Tab::Flows;
            },
            Key::Char('3') => {
                self.tab = Tab::Hosts;
            },
            Key::Char('4') => {
                self.tab = Tab::Protocols;
            },
            Key::Char('5') => {
                self.tab = Tab::Live;
            },
            Key::Down | Key::Char('j') => {
                self.scroll_down_by(1);
            },
            Key::Up | Key::Char('k') => {
                self.scroll_up_by(1);
            },
            Key::PageDown => {
                self.scroll_down_by(10);
            },
            Key::PageUp => {
                self.scroll_up_by(10);
            },
            _ => {},
        }
    }
}

// ---------------------------------------------------------------------------
// Short texts
// ---------------------------------------------------------------------------

/// An age in seconds: `42s`, `3m07s`, `2h05m`.
pub open spec fn dur_text(s: u64) -> Seq<char> {
    if s < 60 {
        decimal(s as nat) + "s"@
    } else if s < 3600 {
        decimal((s / 60) as nat) + "m"@ + zero_padded((s % 60) as nat, 2) + "s"@
    } else {
        decimal((s / 3600) as nat) + "h"@ + zero_padded(((s % 3600) / 60) as nat, 2) + "m"@
    }
}

/// Writes an age of `secs` seconds.
pub fn fmt_dur(secs: u64) -> (r: String)
    ensures
        r@ == dur_text(secs),
{
    let mut out = String::new();
    if secs < 60 {
        push_decimal(&mut out, secs);
        out.append("s");
    } else if secs < 3600 {
        push_decimal(&mut out, secs / 60);
        out.append("m");
        push_zero_padded(&mut out, secs % 60, 2);
        out.append("s");
    } else {
        push_decimal(&mut out, secs / 3600);
        out.append("h");
        push_zero_padded(&mut out, (secs % 3600) / 60, 2);
        out.append("m");
    }
    proof {
        reveal_strlit("");
    }
    assert(out@ =~= dur_text(secs));
    out
}

/// `secs` right-aligned in four places, a dot, and `millis` in three
/// digits.
pub open spec fn clock_text(secs: u64, millis: u32) -> Seq<char> {
    let d = decimal(secs as nat);
    let pad = if d.len() >= 4 { Seq::<char>::empty() } else { Seq::new((4 - d.len()) as nat, |_i: int| ' ') };
    pad + d + "."@ + zero_padded(millis as nat, 3)
}

/// Writes how long ago a frame was captured: `secs` seconds and `millis`
/// milliseconds.
pub fn chrono_like(secs: u64, millis: u32) -> (r: String)
    ensures
        r@ == clock_text(secs, millis),
{
    let mut d = String::new();
    push_decimal(&mut d, secs);
    let n = d.unicode_len();
    let mut out = String::new();
    let mut i: usize = n;
    while i < 4
        invariant
            n <= i <= 4 || (n > 4 && i == n),
            out@ == Seq::new((i - n) as nat, |_j: int| ' '),
        decreases 4 - i,
    {
        push_char(&mut out, ' ');
        i += 1;
        assert(out@ =~= Seq::new((i - n) as nat, |_j: int| ' '));
    }
    out.append(d.as_str());
    out.append(".");
    push_zero_padded(&mut out, millis as u64, 3);
    proof {
        if n >= 4 {
            assert(Seq::new((i - n) as nat, |_j: int| ' ') =~= Seq::<char>::empty());
        }
    }
    assert(out@ =~= clock_text(secs, millis));
    out
}

/// The letters of the TCP flags in `mask`, in the order S A F R P U, or a
/// dash when there are none.
pub open spec fn flags_text(mask: u8) -> Seq<char> {
    let s = (if mask & TcpFlags::SYN != 0 { seq!['S'] } else { Seq::<char>::empty() }) + (if mask
        & TcpFlags::ACK != 0 { seq!['A'] } else { Seq::<char>::empty() }) + (if mask & TcpFlags::FIN
        != 0 { seq!['F'] } else { Seq::<char>::empty() }) + (if mask & TcpFlags::RST != 0 {
        seq!['R']
    } else {
        Seq::<char>::empty()
    }) + (if mask & TcpFlags::PSH != 0 { seq!['P'] } else { Seq::<char>::empty() }) + (if mask
        & TcpFlags::URG != 0 { seq!['U'] } else { Seq::<char>::empty() });
    if s.len() == 0 {
        seq!['\u{2014}']
    } else {
        s
    }
}

fn push_flag(s: &mut String, mask: u8, flag: u8, c: char)
    ensures
        final(s)@ == old(s)@ + (if mask & flag != 0 { seq![c] } else { Seq::<char>::empty() }),
{
    if mask & flag != 0 {
        push_char(s, c);
    } else {
        assert(old(s)@ + Seq::<char>::empty() =~= old(s)@);
    }
}

/// Writes the TCP flags seen on a flow.
pub fn fmt_flags(mask: u8) -> (r: String)
    ensures
        r@ == flags_text(mask),
{
    let mut s = String::new();
    push_flag(&mut s, mask, TcpFlags::SYN, 'S');
    push_flag(&mut s, mask, TcpFlags::ACK, 'A');
    push_flag(&mut s, mask, TcpFlags::FIN, 'F');
    push_flag(&mut s, mask, TcpFlags::RST, 'R');
    push_flag(&mut s, mask, TcpFlags::PSH, 'P');
    push_flag(&mut s, mask, TcpFlags::URG, 'U');
    if s.unicode_len() == 0 {
        let mut d = String::new();
        push_char(&mut d, '\u{2014}');
        assert(d@ =~= flags_text(mask));
        d
    } else {
        assert(s@ =~= flags_text(mask));
        s
    }
}

/// The colour a protocol is shown in.
#[derive(Copy, Clone, Debug, PartialEq, Eq, Structural)]
pub enum ProtoColor {
    Cyan,
    Blue,
    Yellow,
    Magenta,
    Gray,
}

pub fn proto_color(p: L4Proto) -> (r: ProtoColor)
    ensures
        r == match p {
            L4Proto::Tcp => ProtoColor::Cyan,
            L4Proto::Udp => ProtoColor::Blue,
            L4Proto::Icmp | L4Proto::IcmpV6 => ProtoColor::Yellow,
            L4Proto::Igmp => ProtoColor::Magenta,
            _ => ProtoColor::Gray,
        },
{
    match p {
        L4Proto::Tcp => ProtoColor::Cyan,
        L4Proto::Udp => ProtoColor::Blue,
        L4Proto::Icmp | L4Proto::IcmpV6 => ProtoColor::Yellow,
        L4Proto::Igmp => ProtoColor::Magenta,
        _ => ProtoColor::Gray,
    }
}

// ---------------------------------------------------------------------------
// Sparkline history
// ---------------------------------------------------------------------------

/// The samples of a sparkline.
#[derive(Debug)]
pub struct History {
    pub data: Vec<u64>,
}

impl History {
    pub fn new(data: Vec<u64>) -> (r: Self)
        ensures
            r.data == data,
    {
        History { data }
    }

    /// Appends a sample, dropping the oldest when exactly `HISTORY_CAP` are
    /// kept; a longer history (as `new` may be given) only grows.
    pub fn push(&mut self, v: u64)
        ensures
            final(self).data@ == pushed(old(self).data@, v),
            old(self).data@.len() <= HISTORY_CAP ==> final(self).data@ == last_cap(
                old(self).data@.push(v),
            ),
    {
        let ghost before = self.data@;
        if self.data.len() == HISTORY_CAP {
            self.data.remove(0);
        }
        self.data.push(v);
        assert(before.len() == HISTORY_CAP ==> self.data@ =~= before.drop_first().push(v));
        assert(before.len() <= HISTORY_CAP ==> self.data@ =~= last_cap(before.push(v)));
    }
}

/// A horizontal rule.
#[derive(Copy, Clone, Debug)]
pub struct Rule;

impl Rule {
    /// The rule's line across `width` cells.
    pub fn line(self, width: u16) -> (r: String)
        ensures
            r@ == Seq::new(width as nat, |_i: int| '\u{2500}'),
    {
        let mut s = String::new();
        let mut i: u16 = 0;
        while i < width
            invariant
                i <= width,
                s@ == Seq::new(i as nat, |_j: int| '\u{2500}'),
            decreases width - i,
        {
            push_char(&mut s, '\u{2500}');
            i += 1;
            assert(s@ =~= Seq::new(i as nat, |_j: int| '\u{2500}'));
        }
        s
    }
}

/// Moving a selection: in a table with rows, moving down lands on a row,
/// never above where it was (no selection counts as the first row), `n`
/// rows further when that row exists and on the last row otherwise; moving
/// up lands `n` rows higher, or on the first row when there are not that
/// many above.
pub proof fn lemma_selection_moves(sel: Option<usize>, n: usize, len: usize)
    ensures
        ({
            let from: int = match sel {
                Some(i) => i as int,
                None => 0,
            };
            &&& len == 0 ==> spec_select_next(sel, n, len) == sel
            &&& len > 0 ==> (spec_select_next(sel, n, len) matches Some(r) && {
                &&& r < len
                &&& from + n < len ==> r == from + n
                &&& from + n >= len ==> r == len - 1
            })
            &&& spec_select_prev(sel, n) matches Some(r) && {
                &&& r <= from
                &&& from >= n ==> r == from - n
                &&& from < n ==> r == 0
            }
        }),
{
}

} // verus!
