//! Per-node trust tracking.
//!
//! A relaying node reports *cumulative* counters (packets forwarded toward
//! the root, packets dropped). The tracker reconstructs per-report deltas
//! with saturating subtraction, accumulates success/failure totals, and
//! derives three trust estimates in parts per million: a Beta posterior
//! mean, an add-one-smoothed Bayesian ratio, and an EWMA.

use vstd::prelude::*;
use crate::fixed::{div_round, sat_sub, sat_add_u64, sat_add64, lemma_div_round_le, div_round_u128,
    PPM};

verus! {

/// Which estimator drives the primary trust output.
#[derive(Clone, Copy, Debug, PartialEq, Eq, Structural)]
pub enum Metric {
    Ewma,
    Bayes,
    Beta,
}

/// Engine parameters. All fractional parameters are in parts per million.
#[derive(Clone, Copy, Debug, PartialEq, Eq, Structural)]
pub struct Config {
    /// EWMA weight kept on the previous estimate.
    pub alpha_ppm: u64,
    /// Beta prior pseudo-successes.
    pub beta_a_ppm: u64,
    /// Beta prior pseudo-failures.
    pub beta_b_ppm: u64,
    /// Blacklist when the EWMA estimate falls below this.
    pub ewma_min_ppm: u64,
    /// Blacklist when the Bayesian estimate falls below this.
    pub bayes_min_ppm: u64,
    /// Blacklist when the Beta estimate falls below this.
    pub beta_min_ppm: u64,
    /// Blacklist when the Beta estimate is at most one minus this.
    pub fwd_drop_ppm: u64,
    /// Estimator selected for the trust output.
    pub metric: Metric,
    /// Node identifier of the designated attacker.
    pub attacker_id: u16,
    /// Emit a periodic stats snapshot every this many lines; 0 disables.
    pub stats_interval: u64,
}

impl Config {
    /// Weights are fractions of one whole, and the Beta prior is proper:
    /// its pseudo-counts are not both zero.
    pub open spec fn wf(self) -> bool {
        &&& self.alpha_ppm <= PPM
        &&& self.fwd_drop_ppm <= PPM
        &&& 1 <= self.beta_a_ppm + self.beta_b_ppm
    }
}

/// Trust state of one relaying node.
#[derive(Clone, Copy, Debug, PartialEq, Eq, Structural)]
pub struct NodeTrustState {
    /// Whether an estimate has been initialized.
    pub seen: bool,
    /// Exponentially weighted trust estimate, in parts per million.
    pub ewma_ppm: u64,
    /// Cumulative successes credited to the node.
    pub succ: u64,
    /// Cumulative failures charged to the node.
    pub fail: u64,
    /// Last cumulative forwarded-to-root counter reported.
    pub last_udp_to_root: u64,
    /// Last cumulative dropped counter reported.
    pub last_dropped: u64,
}

/// Mathematical model of a node's trust state.
pub ghost struct NodeModel {
    pub seen: bool,
    pub ewma: int,
    pub succ: int,
    pub fail: int,
    pub last_udp_to_root: int,
    pub last_dropped: int,
}

impl View for NodeTrustState {
    type V = NodeModel;

    open spec fn view(&self) -> NodeModel {
        NodeModel {
            seen: self.seen,
            ewma: self.ewma_ppm as int,
            succ: self.succ as int,
            fail: self.fail as int,
            last_udp_to_root: self.last_udp_to_root as int,
            last_dropped: self.last_dropped as int,
        }
    }
}

impl NodeModel {
    /// Counters fit 64 bits and the estimate is a fraction of one whole.
    pub open spec fn wf(self) -> bool {
        &&& 0 <= self.succ <= u64::MAX
        &&& 0 <= self.fail <= u64::MAX
        &&& 0 <= self.last_udp_to_root <= u64::MAX
        &&& 0 <= self.last_dropped <= u64::MAX
        &&& 0 <= self.ewma <= PPM
    }
}

impl NodeTrustState {
    /// The state of a node never reported on: all counters zero.
    pub fn new() -> (st: NodeTrustState)
        ensures
            st@ == (NodeModel {
                seen: false,
                ewma: 0,
                succ: 0,
                fail: 0,
                last_udp_to_root: 0,
                last_dropped: 0,
            }),
            st@.wf(),
    {
        NodeTrustState {
            seen: false,
            ewma_ppm: 0,
            succ: 0,
            fail: 0,
            last_udp_to_root: 0,
            last_dropped: 0,
        }
    }
}

/// Beta posterior mean `(beta_a + succ) / (beta_a + beta_b + succ + fail)`,
/// in parts per million, rounded to nearest.
pub open spec fn beta_est_spec(beta_a: int, beta_b: int, succ: int, fail: int) -> int {
    div_round((beta_a + succ * PPM) * PPM, beta_a + beta_b + (succ + fail) * PPM)
}

/// Add-one-smoothed success ratio `(1 + succ) / (2 + succ + fail)`,
/// in parts per million, rounded to nearest.
pub open spec fn bayes_spec(succ: int, fail: int) -> int {
    div_round((1 + succ) * PPM, 2 + succ + fail)
}

/// Next EWMA value: `alpha` parts of the previous value plus the rest of
/// the new estimate, rounded to nearest.
pub open spec fn ewma_next_spec(alpha: int, prev: int, est: int) -> int {
    div_round(alpha * prev + (PPM - alpha) * est, PPM as int)
}

/// Trust quantized to a 0..=1000 scale, rounded to nearest.
pub open spec fn quantize_spec(ppm: int) -> int {
    div_round(ppm, 1000)
}

/// Beta posterior mean in parts per million.
pub fn beta_est_ppm(beta_a_ppm: u64, beta_b_ppm: u64, succ: u64, fail: u64) -> (r: u64)
    requires
        beta_a_ppm + beta_b_ppm + succ + fail > 0,
    ensures
        r == beta_est_spec(beta_a_ppm as int, beta_b_ppm as int, succ as int, fail as int),
        r <= PPM,
{
    proof {
        let mx = u64::MAX as int;
        let p = PPM as int;
        vstd::arithmetic::mul::lemma_mul_upper_bound(succ as int, mx, p, p);
        vstd::arithmetic::mul::lemma_mul_upper_bound(succ as int + fail as int, mx + mx, p, p);
        vstd::arithmetic::mul::lemma_mul_upper_bound(
            beta_a_ppm as int + succ as int * p,
            mx + mx * p,
            p,
            p,
        );
        vstd::arithmetic::mul::lemma_mul_nonnegative(succ as int, p);
        vstd::arithmetic::mul::lemma_mul_nonnegative(succ as int + fail as int, p);
        if succ as int + fail as int >= 1 {
            vstd::arithmetic::mul::lemma_mul_inequality(1, succ as int + fail as int, p);
        }
    }
    let num: u128 = beta_a_ppm as u128 + succ as u128 * PPM as u128;
    let den: u128 = beta_a_ppm as u128 + beta_b_ppm as u128 + (succ as u128 + fail as u128)
        * PPM as u128;
    let q = div_round_u128(num * PPM as u128, den);
    proof {
        lemma_div_round_le(num as int * PPM as int, den as int, PPM as int);
        assert(num as int * PPM as int <= den as int * PPM as int) by (nonlinear_arith)
            requires
                0 <= num as int <= den as int,
        ;
    }
    q as u64
}

/// Add-one-smoothed Bayesian estimate in parts per million.
pub fn bayes_ppm(succ: u64, fail: u64) -> (r: u64)
    ensures
        r == bayes_spec(succ as int, fail as int),
        r <= PPM,
{
    proof {
        let mx = u64::MAX as int;
        let p = PPM as int;
        vstd::arithmetic::mul::lemma_mul_upper_bound(1 + succ as int, 1 + mx, p, p);
        vstd::arithmetic::mul::lemma_mul_nonnegative(1 + succ as int, p);
    }
    let num: u128 = (1 + succ as u128) * PPM as u128;
    let den: u128 = 2 + succ as u128 + fail as u128;
    let q = div_round_u128(num, den);
    proof {
        lemma_div_round_le(num as int, den as int, PPM as int);
        assert((1 + succ as int) * PPM as int <= (2 + succ as int + fail as int) * PPM as int)
            by (nonlinear_arith)
            requires
                0 <= succ as int,
                0 <= fail as int,
        ;
    }
    q as u64
}

/// Next EWMA value in parts per million.
pub fn ewma_next_ppm(alpha_ppm: u64, prev_ppm: u64, est_ppm: u64) -> (r: u64)
    requires
        alpha_ppm <= PPM,
        prev_ppm <= PPM,
        est_ppm <= PPM,
    ensures
        r == ewma_next_spec(alpha_ppm as int, prev_ppm as int, est_ppm as int),
        r <= PPM,
{
    proof {
        let p = PPM as int;
        assert(0 <= alpha_ppm as int * prev_ppm as int + (p - alpha_ppm as int) * est_ppm as int
            <= p * p) by (nonlinear_arith)
            requires
                0 <= alpha_ppm as int <= p,
                0 <= prev_ppm as int <= p,
                0 <= est_ppm as int <= p,
        ;
    }
    let num: u128 = alpha_ppm as u128 * prev_ppm as u128 + (PPM - alpha_ppm) as u128
        * est_ppm as u128;
    let q = div_round_u128(num, PPM as u128);
    proof {
        lemma_div_round_le(num as int, PPM as int, PPM as int);
        assert(alpha_ppm as int * prev_ppm as int + (PPM - alpha_ppm) as int * est_ppm as int
            <= PPM as int * PPM as int) by (nonlinear_arith)
            requires
                0 <= alpha_ppm as int <= PPM as int,
                0 <= prev_ppm as int <= PPM as int,
                0 <= est_ppm as int <= PPM as int,
        ;
    }
    q as u64
}

/// Trust quantized to the 0..=1000 output scale.
pub fn quantize_trust(ppm: u64) -> (r: u16)
    requires
        ppm <= PPM,
    ensures
        r == quantize_spec(ppm as int),
        r <= 1000,
{
    proof {
        lemma_div_round_le(ppm as int, 1000, 1000);
    }
    ((ppm + 500) / 1000) as u16
}

/// What a Fwd report with a positive forwarded-delta yields.
#[derive(Clone, Copy, Debug, PartialEq, Eq, Structural)]
pub struct FwdEstimates {
    /// Newly forwarded packets since the last report.
    pub delta_udp: u64,
    /// Packets credited as successes this report.
    pub delta_success: u64,
    /// Packets charged as failures this report.
    pub delta_dropped: u64,
    /// Beta posterior mean after the update, in parts per million.
    pub beta_est_ppm: u64,
    /// Bayesian estimate after the update, in parts per million.
    pub bayes_ppm: u64,
    /// EWMA estimate after the update, in parts per million.
    pub ewma_ppm: u64,
}

/// The node-state transition for one Fwd report carrying cumulative
/// counters `(udp, dropped)`.
pub open spec fn node_step(
    alpha: int,
    beta_a: int,
    beta_b: int,
    m: NodeModel,
    udp: int,
    dropped: int,
) -> NodeModel {
    let du = sat_sub(udp, m.last_udp_to_root);
    let dd = sat_sub(dropped, m.last_dropped);
    if du == 0 {
        NodeModel { last_udp_to_root: udp, last_dropped: dropped, ..m }
    } else {
        let succ = sat_add_u64(m.succ, sat_sub(du, dd));
        let fail = sat_add_u64(m.fail, dd);
        let est = beta_est_spec(beta_a, beta_b, succ, fail);
        NodeModel {
            seen: true,
            ewma: if m.seen {
                ewma_next_spec(alpha, m.ewma, est)
            } else {
                est
            },
            succ,
            fail,
            last_udp_to_root: udp,
            last_dropped: dropped,
        }
    }
}

/// Apply one Fwd report to a node's state. Returns the per-report deltas
/// and fresh estimates when the report carried a positive forwarded-delta,
/// and `None` when no observation occurred (the stored cumulative counters
/// still advance).
pub fn fwd_update(st: &mut NodeTrustState, cfg: &Config, udp_to_root: u64, dropped: u64) -> (est:
    Option<FwdEstimates>)
    requires
        old(st)@.wf(),
        cfg.wf(),
    ensures
        final(st)@ == node_step(
            cfg.alpha_ppm as int,
            cfg.beta_a_ppm as int,
            cfg.beta_b_ppm as int,
            old(st)@,
            udp_to_root as int,
            dropped as int,
        ),
        final(st)@.wf(),
        est is Some <==> sat_sub(udp_to_root as int, old(st)@.last_udp_to_root) > 0,
        est matches Some(e) ==> {
            &&& e.delta_udp == sat_sub(udp_to_root as int, old(st)@.last_udp_to_root)
            &&& e.delta_dropped == sat_sub(dropped as int, old(st)@.last_dropped)
            &&& e.delta_success == sat_sub(e.delta_udp as int, e.delta_dropped as int)
            &&& e.beta_est_ppm == beta_est_spec(
                cfg.beta_a_ppm as int,
                cfg.beta_b_ppm as int,
                final(st)@.succ,
                final(st)@.fail,
            )
            &&& e.bayes_ppm == bayes_spec(final(st)@.succ, final(st)@.fail)
            &&& e.ewma_ppm == final(st)@.ewma
            &&& e.beta_est_ppm <= PPM
            &&& e.bayes_ppm <= PPM
            &&& e.ewma_ppm <= PPM
        },
{
    let du = if udp_to_root > st.last_udp_to_root {
        udp_to_root - st.last_udp_to_root
    } else {
        0
    };
    let dd = if dropped > st.last_dropped {
        dropped - st.last_dropped
    } else {
        0
    };
    st.last_udp_to_root = udp_to_root;
    st.last_dropped = dropped;
    if du == 0 {
        return None;
    }
    let ds = if du > dd {
        du - dd
    } else {
        0
    };
    st.succ = sat_add64(st.succ, ds);
    st.fail = sat_add64(st.fail, dd);
    let beta = beta_est_ppm(cfg.beta_a_ppm, cfg.beta_b_ppm, st.succ, st.fail);
    let bay = bayes_ppm(st.succ, st.fail);
    if !st.seen {
        st.ewma_ppm = beta;
        st.seen = true;
    } else {
        st.ewma_ppm = ewma_next_ppm(cfg.alpha_ppm, st.ewma_ppm, beta);
    }
    Some(
        FwdEstimates {
            delta_udp: du,
            delta_success: ds,
            delta_dropped: dd,
            beta_est_ppm: beta,
            bayes_ppm: bay,
            ewma_ppm: st.ewma_ppm,
        },
    )
}

/// The node state after a whole sequence of Fwd reports, each a pair of
/// cumulative counters `(udp_to_root, dropped)`.
pub open spec fn node_fold(
    alpha: int,
    beta_a: int,
    beta_b: int,
    m: NodeModel,
    reports: Seq<(int, int)>,
) -> NodeModel
    decreases reports.len(),
{
    if reports.len() == 0 {
        m
    } else {
        node_fold(
            alpha,
            beta_a,
            beta_b,
            node_step(alpha, beta_a, beta_b, m, reports[0].0, reports[0].1),
            reports.drop_first(),
        )
    }
}

/// Reports whose cumulative counters never decrease below the last values
/// seen, and whose per-interval drop count never exceeds the per-interval
/// forwarded count.
pub open spec fn reports_ok(last_udp: int, last_dropped: int, reports: Seq<(int, int)>) -> bool
    decreases reports.len(),
{
    reports.len() == 0 || {
        &&& last_udp <= reports[0].0 <= u64::MAX
        &&& last_dropped <= reports[0].1 <= u64::MAX
        &&& reports[0].1 - last_dropped <= reports[0].0 - last_udp
        &&& reports_ok(reports[0].0, reports[0].1, reports.drop_first())
    }
}

/// Law: over any sequence of Fwd reports, the cumulative success and
/// failure counters never decrease.
pub proof fn lemma_fold_counters_monotone(
    alpha: int,
    beta_a: int,
    beta_b: int,
    m: NodeModel,
    reports: Seq<(int, int)>,
)
    requires
        m.succ <= u64::MAX,
        m.fail <= u64::MAX,
    ensures
        node_fold(alpha, beta_a, beta_b, m, reports).succ >= m.succ,
        node_fold(alpha, beta_a, beta_b, m, reports).fail >= m.fail,
        node_fold(alpha, beta_a, beta_b, m, reports).succ <= u64::MAX,
        node_fold(alpha, beta_a, beta_b, m, reports).fail <= u64::MAX,
    decreases reports.len(),
{
    if reports.len() > 0 {
        let next = node_step(alpha, beta_a, beta_b, m, reports[0].0, reports[0].1);
        lemma_fold_counters_monotone(alpha, beta_a, beta_b, next, reports.drop_first());
    }
}

/// Law: over any sequence of Fwd reports with monotonically non-decreasing
/// cumulative counters whose per-interval drops never exceed per-interval
/// forwards, the accumulated `succ + fail` never exceeds the cumulative
/// forwarded-to-root counter last reported.
pub proof fn lemma_fold_counters_bounded(
    alpha: int,
    beta_a: int,
    beta_b: int,
    m: NodeModel,
    reports: Seq<(int, int)>,
)
    requires
        0 <= m.succ,
        0 <= m.fail,
        m.succ + m.fail <= m.last_udp_to_root <= u64::MAX,
        reports_ok(m.last_udp_to_root, m.last_dropped, reports),
    ensures
        ({
            let f = node_fold(alpha, beta_a, beta_b, m, reports);
            f.succ + f.fail <= f.last_udp_to_root <= u64::MAX
        }),
    decreases reports.len(),
{
    if reports.len() > 0 {
        let next = node_step(alpha, beta_a, beta_b, m, reports[0].0, reports[0].1);
        assert(reports[0].0 <= u64::MAX);
        lemma_fold_counters_bounded(alpha, beta_a, beta_b, next, reports.drop_first());
    }
}

/// Law: a report whose cumulative forwarded counter did not increase (for
/// example after a node reboot) changes nothing but the stored cumulative
/// counters: no estimator update, no success or failure charged.
pub proof fn lemma_reset_no_observation(
    alpha: int,
    beta_a: int,
    beta_b: int,
    m: NodeModel,
    udp: int,
    dropped: int,
)
    requires
        udp <= m.last_udp_to_root,
    ensures
        ({
            let next = node_step(alpha, beta_a, beta_b, m, udp, dropped);
            &&& next.succ == m.succ
            &&& next.fail == m.fail
            &&& next.ewma == m.ewma
            &&& next.seen == m.seen
            &&& next.last_udp_to_root == udp
            &&& next.last_dropped == dropped
        }),
{
}

/// Whether fresh estimates put a not-yet-blacklisted node over the line.
pub open spec fn trips_blacklist_spec(cfg: Config, beta_est: int, ewma: int, bayes: int) -> bool {
    ||| beta_est <= PPM - cfg.fwd_drop_ppm
    ||| ewma < cfg.ewma_min_ppm
    ||| bayes < cfg.bayes_min_ppm
    ||| beta_est < cfg.beta_min_ppm
}

/// Evaluate the blacklist conditions on one report's estimates.
pub fn trips_blacklist(cfg: &Config, e: &FwdEstimates) -> (r: bool)
    requires
        cfg.wf(),
    ensures
        r == trips_blacklist_spec(*cfg, e.beta_est_ppm as int, e.ewma_ppm as int, e.bayes_ppm as int),
{
    e.beta_est_ppm <= PPM - cfg.fwd_drop_ppm || e.ewma_ppm < cfg.ewma_min_ppm || e.bayes_ppm
        < cfg.bayes_min_ppm || e.beta_est_ppm < cfg.beta_min_ppm
}

/// The estimate the configured metric selects, in parts per million.
pub open spec fn selected_estimate_spec(metric: Metric, ewma: int, bayes: int, beta_est: int) -> int {
    match metric {
        Metric::Ewma => ewma,
        Metric::Bayes => bayes,
        Metric::Beta => beta_est,
    }
}

/// Pick the configured estimator's value from one report's estimates.
pub fn selected_estimate(metric: Metric, e: &FwdEstimates) -> (r: u64)
    ensures
        r == selected_estimate_spec(metric, e.ewma_ppm as int, e.bayes_ppm as int, e.beta_est_ppm as int),
{
    match metric {
        Metric::Ewma => e.ewma_ppm,
        Metric::Bayes => e.bayes_ppm,
        Metric::Beta => e.beta_est_ppm,
    }
}

} // verus!
