//! The keyed tables of the aggregator. Each table is a `dashmap::DashMap`
//! keyed by a tuple of integers that encodes the library's key type.

use vstd::prelude::*;
use dashmap::DashMap;
use crate::domain::{FlowKey, IpAddr, L4Proto, MacAddr};
use crate::aggregate::{FlowEntry, HostEntry};

verus! {

#[verifier::external_type_specification]
#[verifier::external_body]
#[verifier::reject_recursive_types(K)]
#[verifier::reject_recursive_types(V)]
#[verifier::reject_recursive_types(S)]
pub struct ExDashMap<K, V, S>(DashMap<K, V, S>);

// ---------------------------------------------------------------------------
// Key codes
// ---------------------------------------------------------------------------

/// An L4 protocol as (variant number, payload of `Other`).
pub type ProtoCode = (u8, u8);

/// An address as (family 4 or 6, value).
pub type IpCode = (u8, u128);

/// A flow key as (protocol, source, source port, destination, destination port).
pub type FlowCode = (ProtoCode, IpCode, u16, IpCode, u16);

/// A hardware address as its six bytes.
pub type MacCode = (u8, u8, u8, u8, u8, u8);

pub open spec fn spec_proto_code(p: L4Proto) -> ProtoCode {
    match p {
        L4Proto::Tcp => (0, 0),
        L4Proto::Udp => (1, 0),
        L4Proto::Icmp => (2, 0),
        L4Proto::IcmpV6 => (3, 0),
        L4Proto::Igmp => (4, 0),
        L4Proto::Other(n) => (5, n),
        L4Proto::Unknown => (6, 0),
    }
}

pub open spec fn spec_proto_of(c: ProtoCode) -> L4Proto {
    if c.0 == 0 {
        L4Proto::Tcp
    } else if c.0 == 1 {
        L4Proto::Udp
    } else if c.0 == 2 {
        L4Proto::Icmp
    } else if c.0 == 3 {
        L4Proto::IcmpV6
    } else if c.0 == 4 {
        L4Proto::Igmp
    } else if c.0 == 5 {
        L4Proto::Other(c.1)
    } else {
        L4Proto::Unknown
    }
}

pub fn proto_code(p: L4Proto) -> (r: ProtoCode)
    ensures
        r == spec_proto_code(p),
{
    match p {
        L4Proto::Tcp => (0, 0),
        L4Proto::Udp => (1, 0),
        L4Proto::Icmp => (2, 0),
        L4Proto::IcmpV6 => (3, 0),
        L4Proto::Igmp => (4, 0),
        L4Proto::Other(n) => (5, n),
        L4Proto::Unknown => (6, 0),
    }
}

pub fn proto_of(c: ProtoCode) -> (r: L4Proto)
    ensures
        r == spec_proto_of(c),
{
    if c.0 == 0 {
        L4Proto::Tcp
    } else if c.0 == 1 {
        L4Proto::Udp
    } else if c.0 == 2 {
        L4Proto::Icmp
    } else if c.0 == 3 {
        L4Proto::IcmpV6
    } else if c.0 == 4 {
        L4Proto::Igmp
    } else if c.0 == 5 {
        L4Proto::Other(c.1)
    } else {
        L4Proto::Unknown
    }
}

pub open spec fn spec_ip_code(a: IpAddr) -> IpCode {
    match a {
        IpAddr::V4(v) => (4, v as u128),
        IpAddr::V6(v) => (6, v),
    }
}

pub open spec fn spec_ip_of(c: IpCode) -> IpAddr {
    if c.0 == 4 {
        IpAddr::V4(c.1 as u32)
    } else {
        IpAddr::V6(c.1)
    }
}

pub fn ip_code(a: IpAddr) -> (r: IpCode)
    ensures
        r == spec_ip_code(a),
{
    match a {
        IpAddr::V4(v) => (4, v as u128),
        IpAddr::V6(v) => (6, v),
    }
}

pub fn ip_of(c: IpCode) -> (r: IpAddr)
    ensures
        r == spec_ip_of(c),
{
    if c.0 == 4 {
        IpAddr::V4(c.1 as u32)
    } else {
        IpAddr::V6(c.1)
    }
}

pub open spec fn spec_flow_code(k: FlowKey) -> FlowCode {
    (spec_proto_code(k.proto), spec_ip_code(k.src), k.src_port, spec_ip_code(k.dst), k.dst_port)
}

pub open spec fn spec_flow_of(c: FlowCode) -> FlowKey {
    FlowKey {
        proto: spec_proto_of(c.0),
        src: spec_ip_of(c.1),
        src_port: c.2,
        dst: spec_ip_of(c.3),
        dst_port: c.4,
    }
}

pub fn flow_code(k: FlowKey) -> (r: FlowCode)
    ensures
        r == spec_flow_code(k),
{
    (proto_code(k.proto), ip_code(k.src), k.src_port, ip_code(k.dst), k.dst_port)
}

pub fn flow_of(c: FlowCode) -> (r: FlowKey)
    ensures
        r == spec_flow_of(c),
{
    FlowKey { proto: proto_of(c.0), src: ip_of(c.1), src_port: c.2, dst: ip_of(c.3), dst_port: c.4 }
}

pub open spec fn spec_mac_code(m: MacAddr) -> MacCode {
    (m.0@[0], m.0@[1], m.0@[2], m.0@[3], m.0@[4], m.0@[5])
}

pub fn mac_code(m: MacAddr) -> (r: MacCode)
    ensures
        r == spec_mac_code(m),
{
    (m.0[0], m.0[1], m.0[2], m.0[3], m.0[4], m.0[5])
}

pub fn mac_of(c: MacCode) -> (r: MacAddr)
    ensures
        spec_mac_code(r) == c,
{
    MacAddr([c.0, c.1, c.2, c.3, c.4, c.5])
}

/// Codes that some key encodes to.
pub open spec fn valid_ip_code(c: IpCode) -> bool {
    (c.0 == 4 && c.1 <= u32::MAX) || c.0 == 6
}

pub open spec fn valid_flow_code(c: FlowCode) -> bool {
    &&& c.0.0 <= 6
    &&& (c.0.0 != 5 ==> c.0.1 == 0)
    &&& valid_ip_code(c.1)
    &&& valid_ip_code(c.3)
}

/// Decoding undoes encoding, and encoding a decoded valid code gives it back.
pub proof fn lemma_flow_code_roundtrip(k: FlowKey, c: FlowCode)
    ensures
        spec_flow_of(spec_flow_code(k)) == k,
        valid_flow_code(spec_flow_code(k)),
        valid_flow_code(c) ==> spec_flow_code(spec_flow_of(c)) == c,
{
}

/// Decoding an address code undoes encoding, and encoding a decoded valid
/// code gives it back.
pub proof fn lemma_ip_code_roundtrip(a: IpAddr, c: IpCode)
    ensures
        spec_ip_of(spec_ip_code(a)) == a,
        valid_ip_code(spec_ip_code(a)),
        valid_ip_code(c) ==> spec_ip_code(spec_ip_of(c)) == c,
{
}

/// Distinct keys have distinct codes.
pub proof fn lemma_flow_code_injective(a: FlowKey, b: FlowKey)
    ensures
        spec_flow_code(a) == spec_flow_code(b) ==> a == b,
{
    lemma_flow_code_roundtrip(a, spec_flow_code(a));
    lemma_flow_code_roundtrip(b, spec_flow_code(b));
}

/// Distinct hardware addresses have distinct codes.
pub proof fn lemma_mac_code_injective(a: MacAddr, b: MacAddr)
    ensures
        spec_mac_code(a) == spec_mac_code(b) ==> a == b,
{
    broadcast use vstd::array::group_array_axioms;

    if spec_mac_code(a) == spec_mac_code(b) {
        assert(a.0 =~= b.0);
    }
}

// ---------------------------------------------------------------------------
// Flow table
// ---------------------------------------------------------------------------

pub type FlowTable = DashMap<FlowCode, FlowEntry>;

/// What a flow table holds.
pub uninterp spec fn flow_table(m: FlowTable) -> Map<FlowCode, FlowEntry>;

/// `DashMap::new`: an empty table.
#[verifier::external_body]
pub(crate) fn flow_table_new() -> (r: FlowTable)
    ensures
        flow_table(r) =~= Map::empty(),
{
    DashMap::new()
}

/// `DashMap::get`: a copy of the entry under `k`, if any.
#[verifier::external_body]
pub(crate) fn flow_table_get(m: &FlowTable, k: &FlowCode) -> (r: Option<FlowEntry>)
    ensures
        r == (if flow_table(*m).dom().contains(*k) {
            Some(flow_table(*m)[*k])
        } else {
            None
        }),
{
    m.get(k).map(|e| *e)
}

/// `DashMap::insert`: the entry under `k` becomes `v`.
#[verifier::external_body]
pub(crate) fn flow_table_insert(m: &mut FlowTable, k: FlowCode, v: FlowEntry)
    ensures
        flow_table(*final(m)) == flow_table(*old(m)).insert(k, v),
{
    m.insert(k, v);
}

/// `DashMap::iter`: every entry once, in an order the table chooses.
#[verifier::external_body]
pub(crate) fn flow_table_entries(m: &FlowTable) -> (r: Vec<(FlowCode, FlowEntry)>)
    ensures
        r@.len() == flow_table(*m).dom().len(),
        forall|i: int|
            0 <= i < r@.len() ==> flow_table(*m).dom().contains(#[trigger] r@[i].0)
                && flow_table(*m)[r@[i].0] == r@[i].1,
        forall|i: int, j: int| 0 <= i < j < r@.len() ==> r@[i].0 != r@[j].0,
{
    m.iter().map(|e| (*e.key(), *e.value())).collect()
}

// ---------------------------------------------------------------------------
// Host table (keyed by IP address)
// ---------------------------------------------------------------------------

pub type HostTable = DashMap<IpCode, HostEntry>;

/// What a host table holds.
pub uninterp spec fn host_table(m: HostTable) -> Map<IpCode, HostEntry>;

/// `DashMap::new`: an empty table.
#[verifier::external_body]
pub(crate) fn host_table_new() -> (r: HostTable)
    ensures
        host_table(r) =~= Map::empty(),
{
    DashMap::new()
}

/// `DashMap::get`: a copy of the entry under `k`, if any.
#[verifier::external_body]
pub(crate) fn host_table_get(m: &HostTable, k: &IpCode) -> (r: Option<HostEntry>)
    ensures
        r == (if host_table(*m).dom().contains(*k) {
            Some(host_table(*m)[*k])
        } else {
            None
        }),
{
    m.get(k).map(|e| *e)
}

/// `DashMap::insert`: the entry under `k` becomes `v`.
#[verifier::external_body]
pub(crate) fn host_table_insert(m: &mut HostTable, k: IpCode, v: HostEntry)
    ensures
        host_table(*final(m)) == host_table(*old(m)).insert(k, v),
{
    m.insert(k, v);
}

/// `DashMap::iter`: every entry once, in an order the table chooses.
#[verifier::external_body]
pub(crate) fn host_table_entries(m: &HostTable) -> (r: Vec<(IpCode, HostEntry)>)
    ensures
        r@.len() == host_table(*m).dom().len(),
        forall|i: int|
            0 <= i < r@.len() ==> host_table(*m).dom().contains(#[trigger] r@[i].0)
                && host_table(*m)[r@[i].0] == r@[i].1,
        forall|i: int, j: int| 0 <= i < j < r@.len() ==> r@[i].0 != r@[j].0,
{
    m.iter().map(|e| (*e.key(), *e.value())).collect()
}

// ---------------------------------------------------------------------------
// MAC table
// ---------------------------------------------------------------------------

pub type MacTable = DashMap<MacCode, HostEntry>;

/// What a MAC table holds.
pub uninterp spec fn mac_table(m: MacTable) -> Map<MacCode, HostEntry>;

/// `DashMap::new`: an empty table.
#[verifier::external_body]
pub(crate) fn mac_table_new() -> (r: MacTable)
    ensures
        mac_table(r) =~= Map::empty(),
{
    DashMap::new()
}

/// `DashMap::get`: a copy of the entry under `k`, if any.
#[verifier::external_body]
pub(crate) fn mac_table_get(m: &MacTable, k: &MacCode) -> (r: Option<HostEntry>)
    ensures
        r == (if mac_table(*m).dom().contains(*k) {
            Some(mac_table(*m)[*k])
        } else {
            None
        }),
{
    m.get(k).map(|e| *e)
}

/// `DashMap::insert`: the entry under `k` becomes `v`.
#[verifier::external_body]
pub(crate) fn mac_table_insert(m: &mut MacTable, k: MacCode, v: HostEntry)
    ensures
        mac_table(*final(m)) == mac_table(*old(m)).insert(k, v),
{
    m.insert(k, v);
}

/// `DashMap::iter`: every entry once, in an order the table chooses.
#[verifier::external_body]
pub(crate) fn mac_table_entries(m: &MacTable) -> (r: Vec<(MacCode, HostEntry)>)
    ensures
        r@.len() == mac_table(*m).dom().len(),
        forall|i: int|
            0 <= i < r@.len() ==> mac_table(*m).dom().contains(#[trigger] r@[i].0)
                && mac_table(*m)[r@[i].0] == r@[i].1,
        forall|i: int, j: int| 0 <= i < j < r@.len() ==> r@[i].0 != r@[j].0,
{
    m.iter().map(|e| (*e.key(), *e.value())).collect()
}

} // verus!
