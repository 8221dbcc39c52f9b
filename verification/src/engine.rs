//! The trust engine: a synchronous fold over the parsed event stream.
//!
//! One engine owns all tracker state: per-node trust states and the
//! one-way blacklist, the exposure dedup sets, and per-node parent
//! stability histories. Each line moves the engine one step; `Fwd` events
//! additionally yield output records for the caller's sinks.

use vstd::prelude::*;
use std::collections::{HashMap, HashSet};
use crate::event::{Event, EventModel, parse_line, parse_line_spec};
use crate::exposure::{ExposureModel, rx_step, attacker_step, lemma_initial_wf, lemma_rx_step_wf,
    lemma_attacker_step_wf};
use crate::fixed::{sat_add_u64, sat_add64, ratio_scaled_spec, ratio_scaled, sat_sub, PPM};
use crate::parent::{ParentState, ParentModel, parent_step, switch_rate_spec};
use crate::parse::bytes_eq;
use crate::trust::{Config, NodeTrustState, NodeModel, node_step, fwd_update, trips_blacklist,
    trips_blacklist_spec, selected_estimate, selected_estimate_spec, quantize_trust, quantize_spec,
    beta_est_spec, bayes_spec, beta_est_ppm, bayes_ppm};

verus! {

broadcast use vstd::set::group_set_axioms, vstd::std_specs::hash::group_hash_axioms;

/// A packet identity: the reporting node's id in the high 32 bits, the
/// sequence number in the low 32 bits.
pub open spec fn pack_key_spec(node: u64, seqno: u64) -> u64 {
    (node << 32) | (seqno & 0xffffffffu64)
}

/// Pack a node id and a sequence number into one 64-bit key.
pub fn pack_key(node: u64, seqno: u64) -> (key: u64)
    ensures
        key == pack_key_spec(node, seqno),
{
    (node << 32u64) | (seqno & 0xffffffffu64)
}

/// One row of the per-report metrics output.
#[derive(Clone, Copy, Debug, PartialEq, Eq, Structural)]
pub struct MetricsRec {
    pub node: u16,
    /// Packets credited as successes this report.
    pub delta_success: u64,
    /// Packets charged as failures this report.
    pub delta_dropped: u64,
    /// EWMA estimate, in parts per million.
    pub ewma_ppm: u64,
    /// Bayesian estimate, in parts per million.
    pub bayes_ppm: u64,
    /// Beta posterior mean, in parts per million.
    pub beta_ppm: u64,
    /// Trust on the quantized 0..=1000 output scale; 0 when blacklisted.
    pub trust_q: u16,
}

/// One exposure or periodic-stats snapshot.
#[derive(Clone, Copy, Debug, PartialEq, Eq, Structural)]
pub struct SnapshotRec {
    /// Number of lines consumed so far.
    pub line: u64,
    /// Distinct transmission identities seen.
    pub tx_total: u64,
    /// The attacker's accumulated forwarded-packet deltas.
    pub attacker_udp_total: u64,
    /// The attacker's accumulated dropped-packet deltas.
    pub attacker_udp_dropped: u64,
    /// Routing-join events observed.
    pub parent_samples: u64,
    /// Routing-join events whose parent was the attacker.
    pub parent_attacker: u64,
    /// Interception rate: share of delivered traffic that transited the
    /// attacker, in hundredths of a percent.
    pub e1_bp: u64,
    pub e1_num: u64,
    pub e1_den: u64,
    /// Share of joins that chose the attacker, in hundredths of a percent.
    pub e3_bp: u64,
    pub e3_num: u64,
    pub e3_den: u64,
    pub attacker_id: u16,
}

/// One output record triggered by an accepted `Fwd` event.
#[derive(Clone, Copy, Debug, PartialEq, Eq, Structural)]
pub enum OutputRec {
    /// The primary trust update for a node.
    Trust { node: u16, trust_q: u16 },
    /// The per-report metrics row.
    Metrics(MetricsRec),
    /// The metrics row emitted once, on the report that blacklisted the
    /// node.
    Blacklisted(MetricsRec),
    /// An exposure snapshot, emitted once at least one delivery is known.
    Exposure(SnapshotRec),
    /// A periodic snapshot with the aggregate parent switch rate.
    Stats { snap: SnapshotRec, switch_rate_ppm: u64 },
}

/// What processing one line yields.
pub struct StepResult {
    /// Whether the line carried an end-of-run marker.
    pub terminal: bool,
    /// Output records, in emission order.
    pub out: Vec<OutputRec>,
}

/// Mathematical model of the whole engine state.
#[verifier::ext_equal]
pub ghost struct EngineModel {
    pub cfg: Config,
    pub nodes: Map<u16, NodeModel>,
    pub node_order: Seq<u16>,
    pub blacklist: Set<u16>,
    pub parents: Map<u16, ParentModel>,
    pub parent_order: Seq<u16>,
    pub exposure: ExposureModel,
    pub tx_seen: Set<u64>,
    pub total_tx: int,
    pub total_parent_samples: int,
    pub total_parent_attacker: int,
    pub pair_total: int,
    pub change_total: int,
    pub line_idx: int,
    pub attacker_udp_total: int,
    pub attacker_udp_dropped: int,
}

/// The trust engine.
pub struct Engine {
    cfg: Config,
    states: HashMap<u16, NodeTrustState>,
    node_order: Vec<u16>,
    blacklist: HashSet<u16>,
    parents: HashMap<u16, ParentState>,
    parent_order: Vec<u16>,
    delivered_to_root: HashSet<u64>,
    passed_attacker: HashSet<u64>,
    tx_seen: HashSet<u64>,
    e1_num: u64,
    e1_den: u64,
    total_tx: u64,
    total_parent_samples: u64,
    total_parent_attacker: u64,
    pair_total: u64,
    change_total: u64,
    line_idx: u64,
    attacker_udp_total: u64,
    attacker_udp_dropped: u64,
}

impl View for Engine {
    type V = EngineModel;

    closed spec fn view(&self) -> EngineModel {
        EngineModel {
            cfg: self.cfg,
            nodes: self.states@.map_values(|s: NodeTrustState| s@),
            node_order: self.node_order@,
            blacklist: self.blacklist@,
            parents: self.parents@.map_values(|s: ParentState| s@),
            parent_order: self.parent_order@,
            exposure: ExposureModel {
                delivered: self.delivered_to_root@,
                passed: self.passed_attacker@,
                num: self.e1_num as int,
                den: self.e1_den as int,
            },
            tx_seen: self.tx_seen@,
            total_tx: self.total_tx as int,
            total_parent_samples: self.total_parent_samples as int,
            total_parent_attacker: self.total_parent_attacker as int,
            pair_total: self.pair_total as int,
            change_total: self.change_total as int,
            line_idx: self.line_idx as int,
            attacker_udp_total: self.attacker_udp_total as int,
            attacker_udp_dropped: self.attacker_udp_dropped as int,
        }
    }
}

impl EngineModel {
    /// The structural part of well-formedness: every per-node state is
    /// well formed, the bookkeeping orders list exactly the tracked nodes,
    /// and the exposure counters agree with their sets.
    pub open spec fn wf_core(self) -> bool {
        &&& self.cfg.wf()
        &&& self.exposure.wf()
        &&& self.tx_seen.finite()
        &&& self.total_tx == self.tx_seen.len()
        &&& self.node_order.no_duplicates()
        &&& self.node_order.to_set() == self.nodes.dom()
        &&& self.parent_order.no_duplicates()
        &&& self.parent_order.to_set() == self.parents.dom()
        &&& (forall|n: u16| self.nodes.dom().contains(n) ==> (#[trigger] self.nodes[n]).wf())
        &&& (forall|n: u16| self.parents.dom().contains(n) ==> (#[trigger] self.parents[n]).wf())
        &&& 0 <= self.total_parent_attacker <= self.total_parent_samples
        &&& 0 <= self.change_total <= self.pair_total
        &&& 0 <= self.line_idx <= u64::MAX
    }

    /// Well-formedness between lines: every event counter is bounded by
    /// the number of lines consumed, which bounds all counters by the
    /// 64-bit range.
    pub open spec fn wf(self) -> bool {
        &&& self.wf_core()
        &&& self.exposure.den <= self.line_idx
        &&& self.total_tx <= self.line_idx
        &&& self.total_parent_samples <= self.line_idx
        &&& self.pair_total <= self.line_idx
        &&& (forall|n: u16| self.parents.dom().contains(n) ==> (#[trigger] self.parents[n]).samples
            <= self.line_idx)
    }

    /// Well-formedness in the middle of a line, after the line counter
    /// was advanced but before the event was applied: each event counter
    /// has room to grow by one.
    pub open spec fn mid(self) -> bool {
        &&& self.wf_core()
        &&& self.exposure.den < self.line_idx
        &&& self.total_tx < self.line_idx
        &&& self.total_parent_samples < self.line_idx
        &&& self.pair_total < self.line_idx
        &&& (forall|n: u16| self.parents.dom().contains(n) ==> (#[trigger] self.parents[n]).samples
            < self.line_idx)
    }

    /// The engine state before any line: everything empty.
    pub open spec fn initial(cfg: Config) -> EngineModel {
        EngineModel {
            cfg,
            nodes: Map::empty(),
            node_order: Seq::empty(),
            blacklist: Set::empty(),
            parents: Map::empty(),
            parent_order: Seq::empty(),
            exposure: ExposureModel::initial(),
            tx_seen: Set::empty(),
            total_tx: 0,
            total_parent_samples: 0,
            total_parent_attacker: 0,
            pair_total: 0,
            change_total: 0,
            line_idx: 0,
            attacker_udp_total: 0,
            attacker_udp_dropped: 0,
        }
    }
}

/// The engine transition for a `Tx` event: count each distinct
/// transmission identity once.
pub open spec fn with_tx(m: EngineModel, node: u64, seqno: u64) -> EngineModel {
    let key = pack_key_spec(node, seqno);
    if m.tx_seen.contains(key) {
        m
    } else {
        EngineModel { tx_seen: m.tx_seen.insert(key), total_tx: m.total_tx + 1, ..m }
    }
}

/// The engine transition for an `Rx` event: record the delivery in the
/// exposure state.
pub open spec fn with_rx(m: EngineModel, src: u16, seqno: u64) -> EngineModel {
    EngineModel { exposure: rx_step(m.exposure, pack_key_spec(src as u64, seqno)), ..m }
}

/// The engine transition for a `FwdPkt` event: only relays by the
/// configured attacker count toward exposure.
pub open spec fn with_fwd_pkt(m: EngineModel, node: u16, src: u64, seqno: u64) -> EngineModel {
    if node == m.cfg.attacker_id {
        EngineModel { exposure: attacker_step(m.exposure, pack_key_spec(src, seqno)), ..m }
    } else {
        m
    }
}

/// The engine transition for a `Routing` event: a successful join counts
/// a parent sample, and one against the attacker when the parent address
/// resolved to it.
pub open spec fn with_routing(m: EngineModel, joined: bool, parent: Option<u16>) -> EngineModel {
    if joined {
        EngineModel {
            total_parent_samples: m.total_parent_samples + 1,
            total_parent_attacker: m.total_parent_attacker + if parent == Some(m.cfg.attacker_id) {
                1int
            } else {
                0int
            },
            ..m
        }
    } else {
        m
    }
}

/// The engine transition for a `Parent` event: extend the node's history,
/// and advance the aggregate pair and change totals.
pub open spec fn with_parent(m: EngineModel, node: u16, parent: Seq<u8>) -> EngineModel {
    if m.parents.dom().contains(node) {
        let st = m.parents[node];
        EngineModel {
            parents: m.parents.insert(node, parent_step(st, parent)),
            pair_total: m.pair_total + 1,
            change_total: m.change_total + if st.last_parent != parent {
                1int
            } else {
                0int
            },
            ..m
        }
    } else {
        EngineModel {
            parents: m.parents.insert(
                node,
                ParentModel { samples: 1, changes: 0, last_parent: parent },
            ),
            parent_order: m.parent_order.push(node),
            ..m
        }
    }
}

/// The state of a node before its first Fwd report.
pub open spec fn initial_node() -> NodeModel {
    NodeModel { seen: false, ewma: 0, succ: 0, fail: 0, last_udp_to_root: 0, last_dropped: 0 }
}

/// The snapshot row that an exposure or stats record carries: the engine's
/// running totals, with the interception rate (`e1`) and the
/// attacker-parent share (`e3`) in hundredths of a percent.
pub open spec fn snapshot_spec(m: EngineModel) -> SnapshotRec {
    SnapshotRec {
        line: m.line_idx as u64,
        tx_total: m.total_tx as u64,
        attacker_udp_total: m.attacker_udp_total as u64,
        attacker_udp_dropped: m.attacker_udp_dropped as u64,
        parent_samples: m.total_parent_samples as u64,
        parent_attacker: m.total_parent_attacker as u64,
        e1_bp: ratio_scaled_spec(m.exposure.num, m.exposure.den, 10000) as u64,
        e1_num: m.exposure.num as u64,
        e1_den: m.exposure.den as u64,
        e3_bp: ratio_scaled_spec(m.total_parent_attacker, m.total_parent_samples, 10000) as u64,
        e3_num: m.total_parent_attacker as u64,
        e3_den: m.total_parent_samples as u64,
        attacker_id: m.cfg.attacker_id,
    }
}

/// The engine transition for a `Fwd` report, and the records it emits.
///
/// The node's counters always advance. A report with a positive
/// forwarded-delta updates the estimators, evaluates the blacklist latch,
/// and emits: the blacklist row on a latching transition, the trust
/// update, the metrics row, an exposure snapshot once any delivery has
/// been confirmed, and a periodic stats snapshot on every configured
/// interval.
pub open spec fn with_fwd(m: EngineModel, node: u16, udp: u64, dropped: u64) -> (EngineModel, Seq<
    OutputRec,
>) {
    let st0 = if m.nodes.dom().contains(node) {
        m.nodes[node]
    } else {
        initial_node()
    };
    let st1 = node_step(
        m.cfg.alpha_ppm as int,
        m.cfg.beta_a_ppm as int,
        m.cfg.beta_b_ppm as int,
        st0,
        udp as int,
        dropped as int,
    );
    let order1 = if m.nodes.dom().contains(node) {
        m.node_order
    } else {
        m.node_order.push(node)
    };
    let du = sat_sub(udp as int, st0.last_udp_to_root);
    let dd = sat_sub(dropped as int, st0.last_dropped);
    let m1 = EngineModel { nodes: m.nodes.insert(node, st1), node_order: order1, ..m };
    if du == 0 {
        (m1, Seq::empty())
    } else {
        let beta = beta_est_spec(m.cfg.beta_a_ppm as int, m.cfg.beta_b_ppm as int, st1.succ, st1.fail);
        let bay = bayes_spec(st1.succ, st1.fail);
        let was_black = m.blacklist.contains(node);
        let newly = !was_black && trips_blacklist_spec(m.cfg, beta, st1.ewma, bay);
        let is_black = was_black || newly;
        let trust_q = if is_black {
            0int
        } else {
            quantize_spec(selected_estimate_spec(m.cfg.metric, st1.ewma, bay, beta))
        };
        let m2 = EngineModel {
            blacklist: if newly {
                m.blacklist.insert(node)
            } else {
                m.blacklist
            },
            attacker_udp_total: if node == m.cfg.attacker_id {
                sat_add_u64(m.attacker_udp_total, du)
            } else {
                m.attacker_udp_total
            },
            attacker_udp_dropped: if node == m.cfg.attacker_id {
                sat_add_u64(m.attacker_udp_dropped, dd)
            } else {
                m.attacker_udp_dropped
            },
            ..m1
        };
        let rec = MetricsRec {
            node,
            delta_success: sat_sub(du, dd) as u64,
            delta_dropped: dd as u64,
            ewma_ppm: st1.ewma as u64,
            bayes_ppm: bay as u64,
            beta_ppm: beta as u64,
            trust_q: trust_q as u16,
        };
        let outs0 = if newly {
            seq![OutputRec::Blacklisted(rec)]
        } else {
            Seq::<OutputRec>::empty()
        };
        let outs1 = outs0 + seq![
            OutputRec::Trust { node, trust_q: trust_q as u16 },
            OutputRec::Metrics(rec),
        ];
        let outs2 = if m2.exposure.den > 0 {
            outs1.push(OutputRec::Exposure(snapshot_spec(m2)))
        } else {
            outs1
        };
        let outs3 = if m2.cfg.stats_interval > 0 && m2.line_idx % (m2.cfg.stats_interval as int)
            == 0 {
            outs2.push(
                OutputRec::Stats {
                    snap: snapshot_spec(m2),
                    switch_rate_ppm: ratio_scaled_spec(
                        m2.change_total,
                        m2.pair_total,
                        PPM as int,
                    ) as u64,
                },
            )
        } else {
            outs2
        };
        (m2, outs3)
    }
}

/// Law: the root-delivery confirmation and the attacker-transit
/// confirmation of one packet commute at the engine level. Processing the
/// `Rx` event and the attacker's `FwdPkt` event for the same source and
/// sequence leaves the same engine state in either order; for a packet new
/// to both dedup sets, the interception count rises by exactly one, on the
/// second of the two events, and the delivery count by exactly one.
pub proof fn lemma_engine_exposure_order_independent(m: EngineModel, src: u16, seqno: u64)
    requires
        m.exposure.wf(),
    ensures
        ({
            let key = pack_key_spec(src as u64, seqno);
            let rx_first = with_fwd_pkt(
                with_rx(m, src, seqno),
                m.cfg.attacker_id,
                src as u64,
                seqno,
            );
            let att_first = with_rx(
                with_fwd_pkt(m, m.cfg.attacker_id, src as u64, seqno),
                src,
                seqno,
            );
            &&& rx_first == att_first
            &&& (!m.exposure.delivered.contains(key) && !m.exposure.passed.contains(key)) ==> {
                &&& rx_first.exposure.num == m.exposure.num + 1
                &&& rx_first.exposure.den == m.exposure.den + 1
                &&& with_rx(m, src, seqno).exposure.num == m.exposure.num
                &&& with_fwd_pkt(m, m.cfg.attacker_id, src as u64, seqno).exposure.num
                    == m.exposure.num
            }
        }),
{
    let key = pack_key_spec(src as u64, seqno);
    crate::exposure::lemma_exposure_order_independent(m.exposure, key);
    let rx_first = with_fwd_pkt(with_rx(m, src, seqno), m.cfg.attacker_id, src as u64, seqno);
    let att_first = with_rx(with_fwd_pkt(m, m.cfg.attacker_id, src as u64, seqno), src, seqno);
    assert(rx_first.exposure =~~= att_first.exposure);
    assert(rx_first =~~= att_first);
}

/// One row of the end-of-stream parent-stability summary.
#[derive(Clone, Copy, Debug, PartialEq, Eq, Structural)]
pub struct ParentRow {
    pub node: u16,
    pub samples: u64,
    pub changes: u64,
    /// Switch rate in parts per million.
    pub switch_rate_ppm: u64,
}

/// One row of the end-of-stream trust summary.
#[derive(Clone, Copy, Debug, PartialEq, Eq, Structural)]
pub struct FinalRow {
    pub node: u16,
    /// The configured metric's final value, on the 0..=1000 scale.
    pub trust_q: u16,
}

/// The parent-stability summary row for one tracked node.
pub open spec fn parent_row_spec(m: EngineModel, n: u16) -> ParentRow {
    let st = m.parents[n];
    ParentRow {
        node: n,
        samples: st.samples as u64,
        changes: st.changes as u64,
        switch_rate_ppm: switch_rate_spec(st.samples, st.changes) as u64,
    }
}

/// The final trust summary row for one tracked node: the configured
/// metric's value recomputed from the node's accumulated counters, on the
/// quantized output scale. The final summary reports the raw estimate
/// even for blacklisted nodes.
pub open spec fn final_row_spec(m: EngineModel, n: u16) -> FinalRow {
    let st = m.nodes[n];
    let beta = beta_est_spec(m.cfg.beta_a_ppm as int, m.cfg.beta_b_ppm as int, st.succ, st.fail);
    let bay = bayes_spec(st.succ, st.fail);
    FinalRow {
        node: n,
        trust_q: quantize_spec(selected_estimate_spec(m.cfg.metric, st.ewma, bay, beta)) as u16,
    }
}

/// The engine transition for one whole line: the line counter advances,
/// and the parsed event is applied.
pub open spec fn apply_line(m: EngineModel, ev: EventModel) -> (EngineModel, Seq<OutputRec>) {
    let m1 = EngineModel { line_idx: m.line_idx + 1, ..m };
    match ev {
        EventModel::Terminal => (m1, Seq::empty()),
        EventModel::Tx { node, seq } => (with_tx(m1, node, seq), Seq::empty()),
        EventModel::Rx { src, seq } => (with_rx(m1, src, seq), Seq::empty()),
        EventModel::FwdPkt { node, src, seq } => (with_fwd_pkt(m1, node, src, seq), Seq::empty()),
        EventModel::Fwd { node, udp_to_root, dropped } => with_fwd(m1, node, udp_to_root, dropped),
        EventModel::Routing { joined, parent } => (with_routing(m1, joined, parent), Seq::empty()),
        EventModel::Parent { node, parent } => (with_parent(m1, node, parent), Seq::empty()),
        EventModel::Ignored => (m1, Seq::empty()),
    }
}

/// The engine state and the concatenated outputs after a whole sequence
/// of lines.
pub open spec fn apply_lines(m: EngineModel, evs: Seq<EventModel>) -> (EngineModel, Seq<OutputRec>)
    decreases evs.len(),
{
    if evs.len() == 0 {
        (m, Seq::empty())
    } else {
        let first = apply_line(m, evs[0]);
        let rest = apply_lines(first.0, evs.drop_first());
        (rest.0, first.1 + rest.1)
    }
}

/// Every output in `outs` reports node `n` as fully untrusted: its trust
/// is zero in every trust and metrics record, and no blacklisting
/// transition is reported for it again.
pub open spec fn reports_zero_trust(outs: Seq<OutputRec>, n: u16) -> bool {
    forall|i: int|
        0 <= i < outs.len() ==> match #[trigger] outs[i] {
            OutputRec::Trust { node, trust_q } => node == n ==> trust_q == 0,
            OutputRec::Metrics(rec) => rec.node == n ==> rec.trust_q == 0,
            OutputRec::Blacklisted(rec) => rec.node != n,
            _ => true,
        }
}

/// One line never removes a blacklisted node, and reports zero trust for
/// it.
#[verifier::rlimit(100)]
pub proof fn lemma_line_keeps_blacklist(m: EngineModel, ev: EventModel, n: u16)
    requires
        m.blacklist.contains(n),
    ensures
        apply_line(m, ev).0.blacklist.contains(n),
        reports_zero_trust(apply_line(m, ev).1, n),
{
}

/// Law: the blacklist is a one-way latch. Once a node is blacklisted,
/// any further sequence of lines leaves it blacklisted, and every trust
/// output for it is zero, regardless of later estimator values.
pub proof fn lemma_blacklist_latched(m: EngineModel, evs: Seq<EventModel>, n: u16)
    requires
        m.blacklist.contains(n),
    ensures
        apply_lines(m, evs).0.blacklist.contains(n),
        reports_zero_trust(apply_lines(m, evs).1, n),
    decreases evs.len(),
{
    if evs.len() > 0 {
        let first = apply_line(m, evs[0]);
        lemma_line_keeps_blacklist(m, evs[0], n);
        lemma_blacklist_latched(first.0, evs.drop_first(), n);
        let rest = apply_lines(first.0, evs.drop_first());
        assert forall|i: int| 0 <= i < (first.1 + rest.1).len() implies match #[trigger] (first.1
            + rest.1)[i] {
            OutputRec::Trust { node, trust_q } => node == n ==> trust_q == 0,
            OutputRec::Metrics(rec) => rec.node == n ==> rec.trust_q == 0,
            OutputRec::Blacklisted(rec) => rec.node != n,
            _ => true,
        } by {
            if i < first.1.len() {
                assert((first.1 + rest.1)[i] == first.1[i]);
            } else {
                assert((first.1 + rest.1)[i] == rest.1[i - first.1.len()]);
            }
        }
    }
}

impl Engine {
    /// A fresh engine with the given parameters and no observations.
    pub fn new(cfg: Config) -> (e: Engine)
        requires
            cfg.wf(),
        ensures
            e@ == EngineModel::initial(cfg),
            e@.wf(),
    {
        let e = Engine {
            cfg,
            states: HashMap::new(),
            node_order: Vec::new(),
            blacklist: HashSet::new(),
            parents: HashMap::new(),
            parent_order: Vec::new(),
            delivered_to_root: HashSet::new(),
            passed_attacker: HashSet::new(),
            tx_seen: HashSet::new(),
            e1_num: 0,
            e1_den: 0,
            total_tx: 0,
            total_parent_samples: 0,
            total_parent_attacker: 0,
            pair_total: 0,
            change_total: 0,
            line_idx: 0,
            attacker_udp_total: 0,
            attacker_udp_dropped: 0,
        };
        proof {
            lemma_initial_wf();
            assert(e@.nodes =~= Map::<u16, NodeModel>::empty());
            assert(e@.parents =~= Map::<u16, ParentModel>::empty());
            assert(e@ =~= EngineModel::initial(cfg));
            assert(e@.node_order.to_set() =~= e@.nodes.dom());
            assert(e@.parent_order.to_set() =~= e@.parents.dom());
        }
        e
    }

    /// How many lines the engine has consumed.
    pub fn lines_processed(&self) -> (n: u64)
        ensures
            n == self@.line_idx,
    {
        self.line_idx
    }

    /// Whether a node is on the blacklist.
    pub fn is_blacklisted(&self, node: u16) -> (r: bool)
        ensures
            r == self@.blacklist.contains(node),
    {
        self.blacklist.contains(&node)
    }

    /// Consume one trace line: advance the line counter, parse the line,
    /// apply its event, and return the emitted records together with
    /// whether the line ended the run.
    pub fn process_line(&mut self, line: &[u8]) -> (r: StepResult)
        requires
            old(self)@.wf(),
            old(self)@.line_idx < u64::MAX,
        ensures
            final(self)@ == apply_line(old(self)@, parse_line_spec(line@)).0,
            r.out@ == apply_line(old(self)@, parse_line_spec(line@)).1,
            r.terminal == (parse_line_spec(line@) is Terminal),
            final(self)@.wf(),
    {
        self.line_idx = self.line_idx + 1;
        let ghost m1 = EngineModel { line_idx: old(self)@.line_idx + 1, ..old(self)@ };
        proof {
            assert(self@ =~~= m1);
            assert(self@.mid());
        }
        let ev = parse_line(line);
        match ev {
            Event::Terminal => {
                let out: Vec<OutputRec> = Vec::new();
                proof {
                    assert(out@ =~= apply_line(old(self)@, parse_line_spec(line@)).1);
                }
                StepResult { terminal: true, out }
            },
            Event::Tx { node, seq } => {
                self.on_tx(node, seq);
                let out: Vec<OutputRec> = Vec::new();
                proof {
                    assert(out@ =~= apply_line(old(self)@, parse_line_spec(line@)).1);
                }
                StepResult { terminal: false, out }
            },
            Event::Rx { src, seq } => {
                self.on_rx(src, seq);
                let out: Vec<OutputRec> = Vec::new();
                proof {
                    assert(out@ =~= apply_line(old(self)@, parse_line_spec(line@)).1);
                }
                StepResult { terminal: false, out }
            },
            Event::FwdPkt { node, src, seq } => {
                self.on_fwd_pkt(node, src, seq);
                let out: Vec<OutputRec> = Vec::new();
                proof {
                    assert(out@ =~= apply_line(old(self)@, parse_line_spec(line@)).1);
                }
                StepResult { terminal: false, out }
            },
            Event::Fwd { node, udp_to_root, dropped } => {
                let out = self.on_fwd(node, udp_to_root, dropped);
                StepResult { terminal: false, out }
            },
            Event::Routing { joined, parent } => {
                self.on_routing(joined, parent);
                let out: Vec<OutputRec> = Vec::new();
                proof {
                    assert(out@ =~= apply_line(old(self)@, parse_line_spec(line@)).1);
                }
                StepResult { terminal: false, out }
            },
            Event::Parent { node, parent } => {
                self.on_parent(node, parent.as_slice());
                let out: Vec<OutputRec> = Vec::new();
                proof {
                    assert(out@ =~= apply_line(old(self)@, parse_line_spec(line@)).1);
                }
                StepResult { terminal: false, out }
            },
            Event::Ignored => {
                let out: Vec<OutputRec> = Vec::new();
                proof {
                    assert(out@ =~= apply_line(old(self)@, parse_line_spec(line@)).1);
                }
                StepResult { terminal: false, out }
            },
        }
    }

    fn snapshot(&self) -> (s: SnapshotRec)
        requires
            0 <= self@.exposure.num <= self@.exposure.den,
            0 <= self@.total_parent_attacker <= self@.total_parent_samples,
        ensures
            s == snapshot_spec(self@),
    {
        SnapshotRec {
            line: self.line_idx,
            tx_total: self.total_tx,
            attacker_udp_total: self.attacker_udp_total,
            attacker_udp_dropped: self.attacker_udp_dropped,
            parent_samples: self.total_parent_samples,
            parent_attacker: self.total_parent_attacker,
            e1_bp: ratio_scaled(self.e1_num, self.e1_den, 10000),
            e1_num: self.e1_num,
            e1_den: self.e1_den,
            e3_bp: ratio_scaled(self.total_parent_attacker, self.total_parent_samples, 10000),
            e3_num: self.total_parent_attacker,
            e3_den: self.total_parent_samples,
            attacker_id: self.cfg.attacker_id,
        }
    }

    #[verifier::rlimit(100)]
    fn on_fwd(&mut self, node: u16, udp: u64, dropped: u64) -> (out: Vec<OutputRec>)
        requires
            old(self)@.mid(),
        ensures
            final(self)@ == with_fwd(old(self)@, node, udp, dropped).0,
            out@ == with_fwd(old(self)@, node, udp, dropped).1,
            final(self)@.wf(),
    {
        let ghost fnode = |s: NodeTrustState| s@;
        let had = self.states.contains_key(&node);
        let mut st = match self.states.get(&node) {
            Some(s) => *s,
            None => NodeTrustState::new(),
        };
        proof {
            if had {
                assert(st@ == old(self)@.nodes[node]);
            }
        }
        let est_opt = fwd_update(&mut st, &self.cfg, udp, dropped);
        self.states.insert(node, st);
        if !had {
            self.node_order.push(node);
        }
        proof {
            assert(self.states@.map_values(fnode) =~= old(self)@.nodes.insert(node, st@));
            if !had {
                let po = old(self)@.node_order;
                po.lemma_push_to_set_commute(node);
                assert(self@.node_order.to_set() =~= self@.nodes.dom());
                assert forall|i: int, j: int|
                    0 <= i < j < po.push(node).len() implies po.push(node)[i] != po.push(
                    node,
                )[j] by {
                    if j == po.len() {
                        assert(po.contains(po[i]));
                        assert(po.to_set().contains(po[i]));
                    }
                }
                assert(self@.node_order.no_duplicates());
            } else {
                assert(self@.node_order.to_set() =~= self@.nodes.dom());
            }
        }
        match est_opt {
            None => {
                proof {
                    assert(final(self)@ =~~= with_fwd(old(self)@, node, udp, dropped).0);
                    assert(with_fwd(old(self)@, node, udp, dropped).1 =~= Seq::<
                        OutputRec,
                    >::empty());
                }
                Vec::new()
            },
            Some(e) => {
                let was_black = self.blacklist.contains(&node);
                let newly = if !was_black {
                    trips_blacklist(&self.cfg, &e)
                } else {
                    false
                };
                if newly {
                    self.blacklist.insert(node);
                }
                let is_black = was_black || newly;
                let trust_q: u16 = if is_black {
                    0
                } else {
                    quantize_trust(selected_estimate(self.cfg.metric, &e))
                };
                if node == self.cfg.attacker_id {
                    self.attacker_udp_total = sat_add64(self.attacker_udp_total, e.delta_udp);
                    self.attacker_udp_dropped = sat_add64(
                        self.attacker_udp_dropped,
                        e.delta_dropped,
                    );
                }
                let rec = MetricsRec {
                    node,
                    delta_success: e.delta_success,
                    delta_dropped: e.delta_dropped,
                    ewma_ppm: e.ewma_ppm,
                    bayes_ppm: e.bayes_ppm,
                    beta_ppm: e.beta_est_ppm,
                    trust_q,
                };
                let mut out: Vec<OutputRec> = Vec::new();
                if newly {
                    out.push(OutputRec::Blacklisted(rec));
                }
                out.push(OutputRec::Trust { node, trust_q });
                out.push(OutputRec::Metrics(rec));
                if self.e1_den > 0 {
                    let snap = self.snapshot();
                    out.push(OutputRec::Exposure(snap));
                }
                if self.cfg.stats_interval > 0 && self.line_idx % self.cfg.stats_interval == 0 {
                    let snap = self.snapshot();
                    let sr = ratio_scaled(self.change_total, self.pair_total, PPM);
                    out.push(OutputRec::Stats { snap, switch_rate_ppm: sr });
                }
                proof {
                    assert(final(self)@ =~~= with_fwd(old(self)@, node, udp, dropped).0);
                    assert(out@ =~= with_fwd(old(self)@, node, udp, dropped).1);
                }
                out
            },
        }
    }

    /// The end-of-stream parent-stability summary, one row per tracked
    /// node in order of first appearance.
    pub fn parent_rows(&self) -> (rows: Vec<ParentRow>)
        requires
            self@.wf(),
        ensures
            rows@.len() == self@.parent_order.len(),
            forall|i: int|
                0 <= i < rows@.len() ==> rows@[i] == parent_row_spec(
                    self@,
                    self@.parent_order[i],
                ),
    {
        let mut rows: Vec<ParentRow> = Vec::new();
        let n = self.parent_order.len();
        let mut i: usize = 0;
        while i < n
            invariant
                i <= n,
                self@.wf(),
                n == self@.parent_order.len(),
                rows@.len() == i,
                forall|j: int|
                    0 <= j < i ==> rows@[j] == parent_row_spec(self@, self@.parent_order[j]),
            decreases n - i,
        {
            let node = self.parent_order[i];
            proof {
                assert(self@.parent_order.contains(node));
                assert(self@.parent_order.to_set().contains(node));
                assert(self@.parents.dom().contains(node));
            }
            let st = self.parents.get(&node).unwrap();
            proof {
                assert(st@ == self@.parents[node]);
            }
            let rate = st.switch_rate_ppm();
            rows.push(
                ParentRow { node, samples: st.samples, changes: st.changes, switch_rate_ppm: rate },
            );
            i = i + 1;
        }
        rows
    }

    /// The end-of-stream trust summary, one row per node that ever sent a
    /// Fwd report, in order of first appearance.
    pub fn final_rows(&self) -> (rows: Vec<FinalRow>)
        requires
            self@.wf(),
        ensures
            rows@.len() == self@.node_order.len(),
            forall|i: int|
                0 <= i < rows@.len() ==> rows@[i] == final_row_spec(self@, self@.node_order[i]),
    {
        let mut rows: Vec<FinalRow> = Vec::new();
        let n = self.node_order.len();
        let mut i: usize = 0;
        while i < n
            invariant
                i <= n,
                self@.wf(),
                n == self@.node_order.len(),
                rows@.len() == i,
                forall|j: int|
                    0 <= j < i ==> rows@[j] == final_row_spec(self@, self@.node_order[j]),
            decreases n - i,
        {
            let node = self.node_order[i];
            proof {
                assert(self@.node_order.contains(node));
                assert(self@.node_order.to_set().contains(node));
                assert(self@.nodes.dom().contains(node));
            }
            let st = *self.states.get(&node).unwrap();
            proof {
                assert(st@ == self@.nodes[node]);
            }
            let beta = beta_est_ppm(self.cfg.beta_a_ppm, self.cfg.beta_b_ppm, st.succ, st.fail);
            let bay = bayes_ppm(st.succ, st.fail);
            let est = match self.cfg.metric {
                crate::trust::Metric::Ewma => st.ewma_ppm,
                crate::trust::Metric::Bayes => bay,
                crate::trust::Metric::Beta => beta,
            };
            let trust_q = quantize_trust(est);
            rows.push(FinalRow { node, trust_q });
            i = i + 1;
        }
        rows
    }

    fn on_tx(&mut self, node: u64, seqno: u64)
        requires
            old(self)@.mid(),
        ensures
            final(self)@ == with_tx(old(self)@, node, seqno),
            final(self)@.wf(),
    {
        let key = pack_key(node, seqno);
        if self.tx_seen.insert(key) {
            self.total_tx = self.total_tx + 1;
        }
        proof {
            assert(final(self)@ =~= with_tx(old(self)@, node, seqno));
        }
    }

    fn on_rx(&mut self, src: u16, seqno: u64)
        requires
            old(self)@.mid(),
        ensures
            final(self)@ == with_rx(old(self)@, src, seqno),
            final(self)@.wf(),
    {
        let key = pack_key(src as u64, seqno);
        proof {
            lemma_rx_step_wf(old(self)@.exposure, key);
        }
        if self.delivered_to_root.insert(key) {
            self.e1_den = self.e1_den + 1;
            if self.passed_attacker.contains(&key) {
                self.e1_num = self.e1_num + 1;
            }
        }
        proof {
            assert(final(self)@ =~~= with_rx(old(self)@, src, seqno));
        }
    }

    fn on_fwd_pkt(&mut self, node: u16, src: u64, seqno: u64)
        requires
            old(self)@.mid(),
        ensures
            final(self)@ == with_fwd_pkt(old(self)@, node, src, seqno),
            final(self)@.wf(),
    {
        if node == self.cfg.attacker_id {
            let key = pack_key(src, seqno);
            proof {
                lemma_attacker_step_wf(old(self)@.exposure, key);
            }
            if self.passed_attacker.insert(key) {
                if self.delivered_to_root.contains(&key) {
                    self.e1_num = self.e1_num + 1;
                }
            }
        }
        proof {
            assert(final(self)@ =~~= with_fwd_pkt(old(self)@, node, src, seqno));
        }
    }

    fn on_routing(&mut self, joined: bool, parent: Option<u16>)
        requires
            old(self)@.mid(),
        ensures
            final(self)@ == with_routing(old(self)@, joined, parent),
            final(self)@.wf(),
    {
        if joined {
            self.total_parent_samples = self.total_parent_samples + 1;
            let is_attacker = match parent {
                Some(p) => p == self.cfg.attacker_id,
                None => false,
            };
            if is_attacker {
                self.total_parent_attacker = self.total_parent_attacker + 1;
            }
        }
        proof {
            assert(final(self)@ =~= with_routing(old(self)@, joined, parent));
        }
    }

    fn on_parent(&mut self, node: u16, parent: &[u8])
        requires
            old(self)@.mid(),
        ensures
            final(self)@ == with_parent(old(self)@, node, parent@),
            final(self)@.wf(),
    {
        let ghost f = |s: ParentState| s@;
        match self.parents.remove(&node) {
            Some(st) => {
                let mut st = st;
                proof {
                    assert(old(self)@.parents.dom().contains(node));
                    assert(st@ == old(self)@.parents[node]);
                }
                let changed = !bytes_eq(st.last_parent.as_slice(), parent);
                st.sample(parent);
                self.parents.insert(node, st);
                self.pair_total = self.pair_total + 1;
                if changed {
                    self.change_total = self.change_total + 1;
                }
                proof {
                    assert(self.parents@.map_values(f) =~= old(self)@.parents.insert(node, st@));
                    assert(final(self)@ =~= with_parent(old(self)@, node, parent@));
                    assert(final(self)@.parent_order.to_set() =~= final(self)@.parents.dom());
                }
            },
            None => {
                let st = ParentState::first_sample(parent);
                self.parents.insert(node, st);
                self.parent_order.push(node);
                proof {
                    assert(self.parents@.map_values(f) =~= old(self)@.parents.insert(node, st@));
                    assert(final(self)@ =~= with_parent(old(self)@, node, parent@));
                    let po = old(self)@.parent_order;
                    po.lemma_push_to_set_commute(node);
                    assert(final(self)@.parent_order.to_set() =~= final(self)@.parents.dom());
                    assert forall|i: int, j: int|
                        0 <= i < j < po.push(node).len() implies po.push(node)[i] != po.push(
                        node,
                    )[j] by {
                        if j == po.len() {
                            assert(po.contains(po[i]));
                            assert(po.to_set().contains(po[i]));
                        }
                    }
                    assert(final(self)@.parent_order.no_duplicates());
                }
            },
        }
    }
}

} // verus!
