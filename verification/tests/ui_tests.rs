use std::collections::VecDeque;

use nicwatch::aggregate::Aggregator;
use nicwatch::capture::build_http_frame;
use nicwatch::domain::L4Proto;
use nicwatch::ui::{
    chrono_like, fmt_dur, fmt_flags, proto_color, push_hist, select_next, select_prev, App,
    History, Key, ProtoColor, Rule, SortMode, Tab, HISTORY_CAP,
};

#[test]
fn tabs_cycle_forward_and_back() {
    let all = Tab::all();
    assert_eq!(all, [Tab::Overview, Tab::Flows, Tab::Hosts, Tab::Protocols, Tab::Live]);
    for t in all {
        assert_eq!(t.next().prev(), t);
        assert_eq!(t.prev().next(), t);
        assert_eq!(t.next().next().next().next().next(), t);
        assert_eq!(all[t.index()], t);
    }
    assert_eq!(Tab::Live.next(), Tab::Overview);
    assert_eq!(Tab::Overview.prev(), Tab::Live);
    assert_eq!(Tab::Protocols.title(), "Protocols");
}

#[test]
fn sort_modes_cycle_in_three() {
    assert_eq!(SortMode::Bytes.next(), SortMode::Packets);
    assert_eq!(SortMode::Packets.next(), SortMode::Name);
    assert_eq!(SortMode::Name.next(), SortMode::Bytes);
    assert_eq!(SortMode::Packets.label(), "packets");
}

#[test]
fn history_keeps_the_newest_samples() {
    let mut q: VecDeque<u64> = VecDeque::new();
    for v in 0..(HISTORY_CAP as u64 + 5) {
        push_hist(&mut q, v);
    }
    assert_eq!(q.len(), HISTORY_CAP);
    assert_eq!(q.front(), Some(&5));
    assert_eq!(q.back(), Some(&(HISTORY_CAP as u64 + 4)));

    let mut h = History::new(vec![1, 2, 3]);
    h.push(4);
    assert_eq!(h.data, vec![1, 2, 3, 4]);
    let mut full = History::new((0..120).collect());
    full.push(120);
    assert_eq!(full.data.len(), 120);
    assert_eq!(full.data[0], 1);
    assert_eq!(full.data[119], 120);
}

#[test]
fn selection_moves_within_the_table() {
    assert_eq!(select_next(None, 1, 5), Some(1));
    assert_eq!(select_next(Some(3), 10, 5), Some(4));
    assert_eq!(select_next(Some(2), 1, 0), Some(2));
    assert_eq!(select_next(None, 1, 0), None);
    assert_eq!(select_next(Some(usize::MAX), 1, 3), Some(2));
    assert_eq!(select_prev(Some(3), 1), Some(2));
    assert_eq!(select_prev(Some(3), 10), Some(0));
    assert_eq!(select_prev(None, 1), Some(0));
}

#[test]
fn keys_drive_the_view() {
    let mut a = App::new("em0".to_string());
    assert_eq!(a.tab, Tab::Overview);
    assert_eq!(a.sort_mode, SortMode::Bytes);
    a.on_key(Key::Tab, false);
    assert_eq!(a.tab, Tab::Flows);
    a.on_key(Key::Char('H'), false);
    assert_eq!(a.tab, Tab::Overview);
    a.on_key(Key::Char('5'), false);
    assert_eq!(a.tab, Tab::Live);
    a.on_key(Key::PageDown, false);
    assert_eq!(a.live_offset, 10);
    a.on_key(Key::Char('k'), false);
    assert_eq!(a.live_offset, 9);
    a.on_key(Key::Char(' '), false);
    assert!(a.paused);
    a.on_key(Key::Char('s'), false);
    assert_eq!(a.sort_mode, SortMode::Packets);
    assert_eq!(a.status, "sort by packets");
    a.on_key(Key::Char('?'), false);
    assert!(a.show_help);
    // with the help shown, a key only closes it
    a.on_key(Key::Char('q'), false);
    assert!(!a.show_help);
    assert!(!a.should_quit);
    a.on_key(Key::Char('c'), false);
    assert!(!a.should_quit);
    a.on_key(Key::Char('c'), true);
    assert!(a.should_quit);
}

#[test]
fn the_help_key_changes_nothing_else() {
    let mut a = App::new("em0".to_string());
    a.on_key(Key::Char('5'), false);
    a.on_key(Key::PageDown, false);
    a.on_key(Key::Char(' '), false);
    a.on_key(Key::Char('s'), false);
    let before = (a.tab, a.paused, a.should_quit, a.sort_mode, a.live_offset, a.status.clone());
    a.on_key(Key::Char('h'), false);
    assert!(a.show_help);
    assert_eq!((a.tab, a.paused, a.should_quit, a.sort_mode, a.live_offset, a.status.clone()), before);
    a.on_key(Key::Char('1'), false);
    assert!(!a.show_help);
    assert_eq!((a.tab, a.paused, a.should_quit, a.sort_mode, a.live_offset, a.status.clone()), before);
}

#[test]
fn escape_quits() {
    let mut a = App::new("eth0".to_string());
    a.on_key(Key::Esc, false);
    assert!(a.should_quit);
    let mut b = App::new("eth0".to_string());
    b.on_key(Key::Other, false);
    assert!(!b.should_quit);
    assert_eq!(b.tab, Tab::Overview);
}

#[test]
fn scrolling_the_flow_table_stays_in_it() {
    let mut agg = Aggregator::new(5_000_000_000, 16);
    for seq in 0..3 {
        agg.ingest(build_http_frame(seq, 1));
    }
    let mut a = App::new("em0".to_string());
    a.update(agg.snapshot(2), 1000, 2000);
    assert_eq!(a.snapshot.as_ref().unwrap().flows.len(), 3);
    assert_eq!(a.rx_history.back(), Some(&1000));
    assert_eq!(a.tx_history.back(), Some(&2000));
    a.on_key(Key::Char('2'), false);
    a.on_key(Key::Down, false);
    assert_eq!(a.flow_selected, Some(1));
    a.scroll_down_by(10);
    assert_eq!(a.flow_selected, Some(2));
    a.scroll_up_by(1);
    assert_eq!(a.flow_selected, Some(1));
    a.on_key(Key::Char('3'), false);
    a.on_key(Key::Char('j'), false);
    assert_eq!(a.host_selected, Some(1));
    assert_eq!(a.flow_selected, Some(1));
}

#[test]
fn ages_and_clocks() {
    assert_eq!(fmt_dur(42), "42s");
    assert_eq!(fmt_dur(187), "3m07s");
    assert_eq!(fmt_dur(7500), "2h05m");
    assert_eq!(fmt_dur(0), "0s");
    assert_eq!(chrono_like(3, 7), "   3.007");
    assert_eq!(chrono_like(12345, 999), "12345.999");
}

#[test]
fn flag_letters_in_the_flow_table() {
    assert_eq!(fmt_flags(0x12), "SA");
    assert_eq!(fmt_flags(0x19), "AFP");
    assert_eq!(fmt_flags(0), "—");
}

#[test]
fn protocol_colours() {
    assert_eq!(proto_color(L4Proto::Tcp), ProtoColor::Cyan);
    assert_eq!(proto_color(L4Proto::Udp), ProtoColor::Blue);
    assert_eq!(proto_color(L4Proto::IcmpV6), ProtoColor::Yellow);
    assert_eq!(proto_color(L4Proto::Igmp), ProtoColor::Magenta);
    assert_eq!(proto_color(L4Proto::Other(47)), ProtoColor::Gray);
}

#[test]
fn rules_fill_their_width() {
    assert_eq!(Rule.line(3), "───");
    assert_eq!(Rule.line(0), "");
}
