//! The record parser: classify one trace line into a typed event.
//!
//! A record is a comma-separated line whose first two fields are a fixed
//! marker (`CSV`) and a type tag. Fields are extracted positionally and
//! parsed as integers or node addresses; any field that fails to parse
//! discards the whole line. Lines carrying an end-of-run marker end input
//! processing. Unknown tags are ignored.

use vstd::prelude::*;
use crate::parse::{trim_spec, trim_ascii, split_bytes, split_at_byte, starts_with_spec,
    starts_with, bytes_eq, copy_bytes, parse_u64_spec, parse_u16_spec, parse_u8_spec,
    parse_u16_hex_spec, parse_u64_dec, parse_u16_dec, parse_u8_dec, parse_u16_hex};

verus! {

/// One parsed trace event.
pub enum Event {
    /// An end-to-end transmission attempt: `(origin node, sequence)`.
    Tx { node: u64, seq: u64 },
    /// A packet from source `src` arrived at the root.
    Rx { src: u16, seq: u64 },
    /// A forward-counter report: cumulative totals from one relaying node.
    Fwd { node: u16, udp_to_root: u64, dropped: u64 },
    /// One packet from `src` was relayed by `node`.
    FwdPkt { node: u16, src: u64, seq: u64 },
    /// A routing-join event; `parent` is the joined parent's node id when
    /// the address resolved.
    Routing { joined: bool, parent: Option<u16> },
    /// A parent-assignment sample: `node` currently uses `parent`.
    Parent { node: u16, parent: Vec<u8> },
    /// An end-of-run marker.
    Terminal,
    /// A malformed or unrecognized line.
    Ignored,
}

/// Mathematical model of a parsed trace event.
pub ghost enum EventModel {
    Tx { node: u64, seq: u64 },
    Rx { src: u16, seq: u64 },
    Fwd { node: u16, udp_to_root: u64, dropped: u64 },
    FwdPkt { node: u16, src: u64, seq: u64 },
    Routing { joined: bool, parent: Option<u16> },
    Parent { node: u16, parent: Seq<u8> },
    Terminal,
    Ignored,
}

impl View for Event {
    type V = EventModel;

    open spec fn view(&self) -> EventModel {
        match self {
            Event::Tx { node, seq } => EventModel::Tx { node: *node, seq: *seq },
            Event::Rx { src, seq } => EventModel::Rx { src: *src, seq: *seq },
            Event::Fwd { node, udp_to_root, dropped } => EventModel::Fwd {
                node: *node,
                udp_to_root: *udp_to_root,
                dropped: *dropped,
            },
            Event::FwdPkt { node, src, seq } => EventModel::FwdPkt {
                node: *node,
                src: *src,
                seq: *seq,
            },
            Event::Routing { joined, parent } => EventModel::Routing {
                joined: *joined,
                parent: *parent,
            },
            Event::Parent { node, parent } => EventModel::Parent { node: *node, parent: parent@ },
            Event::Terminal => EventModel::Terminal,
            Event::Ignored => EventModel::Ignored,
        }
    }
}

/// The record marker `CSV`.
pub open spec fn csv_tag() -> Seq<u8> {
    seq![67u8, 83u8, 86u8]
}

/// The tag `TX`.
pub open spec fn tx_tag() -> Seq<u8> {
    seq![84u8, 88u8]
}

/// The tag `RX`.
pub open spec fn rx_tag() -> Seq<u8> {
    seq![82u8, 88u8]
}

/// The tag `FWD`.
pub open spec fn fwd_tag() -> Seq<u8> {
    seq![70u8, 87u8, 68u8]
}

/// The tag `FWD_PKT`.
pub open spec fn fwd_pkt_tag() -> Seq<u8> {
    seq![70u8, 87u8, 68u8, 95u8, 80u8, 75u8, 84u8]
}

/// The tag `ROUTING`.
pub open spec fn routing_tag() -> Seq<u8> {
    seq![82u8, 79u8, 85u8, 84u8, 73u8, 78u8, 71u8]
}

/// The tag `PARENT`.
pub open spec fn parent_tag() -> Seq<u8> {
    seq![80u8, 65u8, 82u8, 69u8, 78u8, 84u8]
}

/// The root-receiver field `node=1`.
pub open spec fn root_node_field() -> Seq<u8> {
    seq![110u8, 111u8, 100u8, 101u8, 61u8, 49u8]
}

/// The end-of-run marker `SIMULATION_FINISHED`.
pub open spec fn finished_marker() -> Seq<u8> {
    seq![
        83u8, 73u8, 77u8, 85u8, 76u8, 65u8, 84u8, 73u8, 79u8, 78u8, 95u8, 70u8, 73u8, 78u8, 73u8,
        83u8, 72u8, 69u8, 68u8,
    ]
}

/// The end-of-run marker `TEST OK`.
pub open spec fn test_ok_marker() -> Seq<u8> {
    seq![84u8, 69u8, 83u8, 84u8, 32u8, 79u8, 75u8]
}

fn csv_tag_vec() -> (v: Vec<u8>)
    ensures
        v@ == csv_tag(),
{
    let v = vec![67u8, 83u8, 86u8];
    proof {
        assert(v@ =~= csv_tag());
    }
    v
}

fn tx_tag_vec() -> (v: Vec<u8>)
    ensures
        v@ == tx_tag(),
{
    let v = vec![84u8, 88u8];
    proof {
        assert(v@ =~= tx_tag());
    }
    v
}

fn rx_tag_vec() -> (v: Vec<u8>)
    ensures
        v@ == rx_tag(),
{
    let v = vec![82u8, 88u8];
    proof {
        assert(v@ =~= rx_tag());
    }
    v
}

fn fwd_tag_vec() -> (v: Vec<u8>)
    ensures
        v@ == fwd_tag(),
{
    let v = vec![70u8, 87u8, 68u8];
    proof {
        assert(v@ =~= fwd_tag());
    }
    v
}

fn fwd_pkt_tag_vec() -> (v: Vec<u8>)
    ensures
        v@ == fwd_pkt_tag(),
{
    let v = vec![70u8, 87u8, 68u8, 95u8, 80u8, 75u8, 84u8];
    proof {
        assert(v@ =~= fwd_pkt_tag());
    }
    v
}

fn routing_tag_vec() -> (v: Vec<u8>)
    ensures
        v@ == routing_tag(),
{
    let v = vec![82u8, 79u8, 85u8, 84u8, 73u8, 78u8, 71u8];
    proof {
        assert(v@ =~= routing_tag());
    }
    v
}

fn parent_tag_vec() -> (v: Vec<u8>)
    ensures
        v@ == parent_tag(),
{
    let v = vec![80u8, 65u8, 82u8, 69u8, 78u8, 84u8];
    proof {
        assert(v@ =~= parent_tag());
    }
    v
}

fn root_node_field_vec() -> (v: Vec<u8>)
    ensures
        v@ == root_node_field(),
{
    let v = vec![110u8, 111u8, 100u8, 101u8, 61u8, 49u8];
    proof {
        assert(v@ =~= root_node_field());
    }
    v
}

fn finished_marker_vec() -> (v: Vec<u8>)
    ensures
        v@ == finished_marker(),
{
    let v = vec![
        83u8, 73u8, 77u8, 85u8, 76u8, 65u8, 84u8, 73u8, 79u8, 78u8, 95u8, 70u8, 73u8, 78u8, 73u8,
        83u8, 72u8, 69u8, 68u8,
    ];
    proof {
        assert(v@ =~= finished_marker());
    }
    v
}

fn test_ok_marker_vec() -> (v: Vec<u8>)
    ensures
        v@ == test_ok_marker(),
{
    let v = vec![84u8, 69u8, 83u8, 84u8, 32u8, 79u8, 75u8];
    proof {
        assert(v@ =~= test_ok_marker());
    }
    v
}

/// The last non-empty field of a split address.
pub open spec fn last_nonempty(parts: Seq<Seq<u8>>) -> Option<Seq<u8>>
    decreases parts.len(),
{
    if parts.len() == 0 {
        None
    } else if parts.last().len() > 0 {
        Some(parts.last())
    } else {
        last_nonempty(parts.drop_last())
    }
}

/// The node identifier carried by an address-like field: the last
/// colon-delimited non-empty segment, read as hexadecimal if possible and
/// as decimal otherwise.
pub open spec fn node_id_spec(s: Seq<u8>) -> Option<u16> {
    match last_nonempty(split_bytes(s, 58)) {
        Option::None => None,
        Option::Some(seg) => match parse_u16_hex_spec(seg) {
            Option::Some(v) => Some(v),
            Option::None => parse_u16_spec(seg),
        },
    }
}

/// Extract a node identifier from an address-like field.
pub fn parse_node_id(addr: &[u8]) -> (r: Option<u16>)
    ensures
        r == node_id_spec(addr@),
{
    let parts = split_at_byte(addr, 58);
    let ghost f = |p: Vec<u8>| p@;
    let ghost sparts = split_bytes(addr@, 58);
    proof {
        assert(sparts.take(parts@.len() as int) =~= sparts);
    }
    let mut j = parts.len();
    while j > 0
        invariant
            j <= parts@.len(),
            sparts == split_bytes(addr@, 58),
            parts@.map_values(f) == sparts,
            f == (|p: Vec<u8>| p@),
            last_nonempty(sparts) == last_nonempty(sparts.take(j as int)),
        decreases j,
    {
        let pj = &parts[j - 1];
        proof {
            assert(sparts.take(j as int).last() == sparts[j as int - 1]);
            assert(sparts[j as int - 1] == pj@);
        }
        if pj.len() > 0 {
            proof {
                assert(sparts.take(j as int).len() == j);
                assert(last_nonempty(sparts.take(j as int)) == Some(pj@));
            }
            return match parse_u16_hex(pj.as_slice()) {
                Some(v) => Some(v),
                None => parse_u16_dec(pj.as_slice()),
            };
        }
        proof {
            assert(sparts.take(j as int).drop_last() =~= sparts.take(j as int - 1));
        }
        j = j - 1;
    }
    None
}

/// What a `TX` record's remaining fields yield.
pub open spec fn tx_event_spec(parts: Seq<Seq<u8>>) -> EventModel {
    if parts.len() >= 4 {
        match (parse_u64_spec(parts[2]), parse_u64_spec(parts[3])) {
            (Option::Some(node), Option::Some(seqno)) => EventModel::Tx { node, seq: seqno },
            _ => EventModel::Ignored,
        }
    } else {
        EventModel::Ignored
    }
}

/// What an `RX` record's remaining fields yield: only arrivals at the
/// root receiver count, and the source address must resolve to a node id.
pub open spec fn rx_event_spec(parts: Seq<Seq<u8>>) -> EventModel {
    if parts.len() >= 6 && parts[2] == root_node_field() {
        match (node_id_spec(parts[3]), parse_u64_spec(parts[4])) {
            (Option::Some(src), Option::Some(seqno)) => EventModel::Rx { src, seq: seqno },
            _ => EventModel::Ignored,
        }
    } else {
        EventModel::Ignored
    }
}

/// What a `FWD` record's remaining fields yield. Two historical arities
/// are accepted: with six or more fields the counters sit after a
/// sequence field; with exactly five they follow the node id directly.
pub open spec fn fwd_event_spec(parts: Seq<Seq<u8>>) -> EventModel {
    if parts.len() >= 6 {
        match (parse_u16_spec(parts[2]), parse_u64_spec(parts[4]), parse_u64_spec(parts[5])) {
            (Option::Some(node), Option::Some(udp), Option::Some(dr)) => EventModel::Fwd {
                node,
                udp_to_root: udp,
                dropped: dr,
            },
            _ => EventModel::Ignored,
        }
    } else if parts.len() == 5 {
        match (parse_u16_spec(parts[2]), parse_u64_spec(parts[3]), parse_u64_spec(parts[4])) {
            (Option::Some(node), Option::Some(udp), Option::Some(dr)) => EventModel::Fwd {
                node,
                udp_to_root: udp,
                dropped: dr,
            },
            _ => EventModel::Ignored,
        }
    } else {
        EventModel::Ignored
    }
}

/// What a `FWD_PKT` record's remaining fields yield.
pub open spec fn fwd_pkt_event_spec(parts: Seq<Seq<u8>>) -> EventModel {
    if parts.len() >= 5 {
        match (parse_u16_spec(parts[2]), parse_u64_spec(parts[3]), parse_u64_spec(parts[4])) {
            (Option::Some(node), Option::Some(src), Option::Some(seqno)) => EventModel::FwdPkt {
                node,
                src,
                seq: seqno,
            },
            _ => EventModel::Ignored,
        }
    } else {
        EventModel::Ignored
    }
}

/// What a `ROUTING` record's remaining fields yield: a joined flag and,
/// when set, the parent address resolved to a node id.
pub open spec fn routing_event_spec(parts: Seq<Seq<u8>>) -> EventModel {
    if parts.len() >= 5 {
        match parse_u8_spec(parts[3]) {
            Option::Some(j) => EventModel::Routing {
                joined: j == 1,
                parent: if j == 1 {
                    node_id_spec(parts[4])
                } else {
                    None
                },
            },
            Option::None => EventModel::Ignored,
        }
    } else {
        EventModel::Ignored
    }
}

/// What a `PARENT` record's remaining fields yield: the raw parent
/// address is kept verbatim for change detection.
pub open spec fn parent_event_spec(parts: Seq<Seq<u8>>) -> EventModel {
    if parts.len() >= 4 {
        match parse_u16_spec(parts[2]) {
            Option::Some(node) => EventModel::Parent { node, parent: parts[3] },
            Option::None => EventModel::Ignored,
        }
    } else {
        EventModel::Ignored
    }
}

/// What one raw trace line parses to.
pub open spec fn parse_line_spec(raw: Seq<u8>) -> EventModel {
    let s = trim_spec(raw);
    if starts_with_spec(s, finished_marker()) || starts_with_spec(s, test_ok_marker()) {
        EventModel::Terminal
    } else {
        let parts = split_bytes(s, 44);
        if parts.len() < 2 || parts[0] != csv_tag() {
            EventModel::Ignored
        } else if parts[1] == tx_tag() {
            tx_event_spec(parts)
        } else if parts[1] == rx_tag() {
            rx_event_spec(parts)
        } else if parts[1] == fwd_pkt_tag() {
            fwd_pkt_event_spec(parts)
        } else if parts[1] == fwd_tag() {
            fwd_event_spec(parts)
        } else if parts[1] == routing_tag() {
            routing_event_spec(parts)
        } else if parts[1] == parent_tag() {
            parent_event_spec(parts)
        } else {
            EventModel::Ignored
        }
    }
}

fn parse_tx(parts: &Vec<Vec<u8>>) -> (ev: Event)
    ensures
        ev@ == tx_event_spec(parts@.map_values(|p: Vec<u8>| p@)),
{
    if parts.len() >= 4 {
        match (parse_u64_dec(parts[2].as_slice()), parse_u64_dec(parts[3].as_slice())) {
            (Some(node), Some(seqno)) => Event::Tx { node, seq: seqno },
            _ => Event::Ignored,
        }
    } else {
        Event::Ignored
    }
}

fn parse_rx(parts: &Vec<Vec<u8>>) -> (ev: Event)
    ensures
        ev@ == rx_event_spec(parts@.map_values(|p: Vec<u8>| p@)),
{
    if parts.len() >= 6 {
        let root = root_node_field_vec();
        if bytes_eq(parts[2].as_slice(), root.as_slice()) {
            match (parse_node_id(parts[3].as_slice()), parse_u64_dec(parts[4].as_slice())) {
                (Some(src), Some(seqno)) => Event::Rx { src, seq: seqno },
                _ => Event::Ignored,
            }
        } else {
            Event::Ignored
        }
    } else {
        Event::Ignored
    }
}

fn parse_fwd(parts: &Vec<Vec<u8>>) -> (ev: Event)
    ensures
        ev@ == fwd_event_spec(parts@.map_values(|p: Vec<u8>| p@)),
{
    if parts.len() >= 6 {
        match (
            parse_u16_dec(parts[2].as_slice()),
            parse_u64_dec(parts[4].as_slice()),
            parse_u64_dec(parts[5].as_slice()),
        ) {
            (Some(node), Some(udp), Some(dr)) => Event::Fwd {
                node,
                udp_to_root: udp,
                dropped: dr,
            },
            _ => Event::Ignored,
        }
    } else if parts.len() == 5 {
        match (
            parse_u16_dec(parts[2].as_slice()),
            parse_u64_dec(parts[3].as_slice()),
            parse_u64_dec(parts[4].as_slice()),
        ) {
            (Some(node), Some(udp), Some(dr)) => Event::Fwd {
                node,
                udp_to_root: udp,
                dropped: dr,
            },
            _ => Event::Ignored,
        }
    } else {
        Event::Ignored
    }
}

fn parse_fwd_pkt(parts: &Vec<Vec<u8>>) -> (ev: Event)
    ensures
        ev@ == fwd_pkt_event_spec(parts@.map_values(|p: Vec<u8>| p@)),
{
    if parts.len() >= 5 {
        match (
            parse_u16_dec(parts[2].as_slice()),
            parse_u64_dec(parts[3].as_slice()),
            parse_u64_dec(parts[4].as_slice()),
        ) {
            (Some(node), Some(src), Some(seqno)) => Event::FwdPkt { node, src, seq: seqno },
            _ => Event::Ignored,
        }
    } else {
        Event::Ignored
    }
}

fn parse_routing(parts: &Vec<Vec<u8>>) -> (ev: Event)
    ensures
        ev@ == routing_event_spec(parts@.map_values(|p: Vec<u8>| p@)),
{
    if parts.len() >= 5 {
        match parse_u8_dec(parts[3].as_slice()) {
            Some(j) => Event::Routing {
                joined: j == 1,
                parent: if j == 1 {
                    parse_node_id(parts[4].as_slice())
                } else {
                    None
                },
            },
            None => Event::Ignored,
        }
    } else {
        Event::Ignored
    }
}

fn parse_parent(parts: &Vec<Vec<u8>>) -> (ev: Event)
    ensures
        ev@ == parent_event_spec(parts@.map_values(|p: Vec<u8>| p@)),
{
    if parts.len() >= 4 {
        match parse_u16_dec(parts[2].as_slice()) {
            Some(node) => Event::Parent { node, parent: copy_bytes(parts[3].as_slice()) },
            None => Event::Ignored,
        }
    } else {
        Event::Ignored
    }
}

/// Parse one raw trace line into its event.
pub fn parse_line(raw: &[u8]) -> (ev: Event)
    ensures
        ev@ == parse_line_spec(raw@),
{
    let t = trim_ascii(raw);
    let fin = finished_marker_vec();
    let okm = test_ok_marker_vec();
    if starts_with(t.as_slice(), fin.as_slice()) || starts_with(t.as_slice(), okm.as_slice()) {
        return Event::Terminal;
    }
    let parts = split_at_byte(t.as_slice(), 44);
    if parts.len() < 2 {
        return Event::Ignored;
    }
    let csv = csv_tag_vec();
    if !bytes_eq(parts[0].as_slice(), csv.as_slice()) {
        return Event::Ignored;
    }
    let tx = tx_tag_vec();
    if bytes_eq(parts[1].as_slice(), tx.as_slice()) {
        return parse_tx(&parts);
    }
    let rx = rx_tag_vec();
    if bytes_eq(parts[1].as_slice(), rx.as_slice()) {
        return parse_rx(&parts);
    }
    let fp = fwd_pkt_tag_vec();
    if bytes_eq(parts[1].as_slice(), fp.as_slice()) {
        return parse_fwd_pkt(&parts);
    }
    let fw = fwd_tag_vec();
    if bytes_eq(parts[1].as_slice(), fw.as_slice()) {
        return parse_fwd(&parts);
    }
    let ro = routing_tag_vec();
    if bytes_eq(parts[1].as_slice(), ro.as_slice()) {
        return parse_routing(&parts);
    }
    let pa = parent_tag_vec();
    if bytes_eq(parts[1].as_slice(), pa.as_slice()) {
        return parse_parent(&parts);
    }
    Event::Ignored
}

} // verus!
