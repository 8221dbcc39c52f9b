use trust_engine::trust::{fwd_update, Config, Metric, NodeTrustState};

fn cfg() -> Config {
    Config {
        alpha_ppm: 200_000,
        beta_a_ppm: 1_000_000,
        beta_b_ppm: 1_000_000,
        ewma_min_ppm: 700_000,
        bayes_min_ppm: 700_000,
        beta_min_ppm: 700_000,
        fwd_drop_ppm: 200_000,
        metric: Metric::Ewma,
        attacker_id: 2,
        stats_interval: 200,
    }
}

#[test]
fn counters_monotone_and_bounded_by_cumulative_udp() {
    // Monotone cumulative reports whose drop deltas never exceed the
    // forwarded deltas: succ and fail never decrease, and succ + fail
    // never exceeds the cumulative forwarded counter last reported.
    let c = cfg();
    let mut st = NodeTrustState::new();
    let reports = [(5u64, 1u64), (9, 3), (9, 3), (15, 4)];
    let mut prev_succ = 0u64;
    let mut prev_fail = 0u64;
    for (udp, dropped) in reports {
        fwd_update(&mut st, &c, udp, dropped);
        assert!(st.succ >= prev_succ);
        assert!(st.fail >= prev_fail);
        assert!(st.succ + st.fail <= st.last_udp_to_root);
        prev_succ = st.succ;
        prev_fail = st.fail;
    }
    assert_eq!((st.succ, st.fail), (11, 4));
}

#[test]
fn reset_advances_counters_without_observation() {
    let c = cfg();
    let mut st = NodeTrustState::new();
    assert!(fwd_update(&mut st, &c, 100, 6).is_some());
    let before = st;
    // A smaller cumulative counter, as after a reboot: no estimator work,
    // but the stored cumulative counters move to the reported values.
    assert!(fwd_update(&mut st, &c, 40, 2).is_none());
    assert_eq!(st.succ, before.succ);
    assert_eq!(st.fail, before.fail);
    assert_eq!(st.ewma_ppm, before.ewma_ppm);
    assert_eq!(st.last_udp_to_root, 40);
    assert_eq!(st.last_dropped, 2);
}

#[test]
fn ewma_initializes_then_blends() {
    let c = cfg();
    let mut st = NodeTrustState::new();
    let e1 = fwd_update(&mut st, &c, 10, 0).unwrap();
    // First observation: the EWMA starts at the Beta estimate, 11/12.
    assert_eq!(e1.ewma_ppm, 916_667);
    let e2 = fwd_update(&mut st, &c, 20, 10).unwrap();
    // Second report: 10 new drops, no new forwards beyond them.
    // succ = 10, fail = 10: beta = 11/22 = 0.5.
    assert_eq!(e2.beta_est_ppm, 500_000);
    // ewma = 0.2 * 916667 + 0.8 * 500000, rounded to nearest.
    assert_eq!(e2.ewma_ppm, 583_333);
}

#[test]
fn large_counters_stay_exact() {
    let c = cfg();
    let mut st = NodeTrustState::new();
    let e = fwd_update(&mut st, &c, u64::MAX, 0).unwrap();
    assert_eq!(e.delta_success, u64::MAX);
    // With astronomically many successes the Beta estimate is within one
    // millionth of one.
    assert_eq!(e.beta_est_ppm, 1_000_000);
    assert_eq!(e.bayes_ppm, 1_000_000);
}

#[test]
fn drops_beyond_forwards_count_only_as_failures() {
    let c = cfg();
    let mut st = NodeTrustState::new();
    // Forwarded delta 1, dropped delta 5: no successes, five failures.
    let e = fwd_update(&mut st, &c, 1, 5).unwrap();
    assert_eq!(e.delta_success, 0);
    assert_eq!(e.delta_dropped, 5);
    assert_eq!((st.succ, st.fail), (0, 5));
}
