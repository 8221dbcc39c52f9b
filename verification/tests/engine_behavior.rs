use trust_engine::engine::{Engine, OutputRec};
use trust_engine::trust::{Config, Metric};

fn test_config() -> Config {
    Config {
        alpha_ppm: 200_000,
        beta_a_ppm: 1_000_000,
        beta_b_ppm: 1_000_000,
        ewma_min_ppm: 700_000,
        bayes_min_ppm: 700_000,
        beta_min_ppm: 700_000,
        fwd_drop_ppm: 200_000,
        metric: Metric::Ewma,
        attacker_id: 2,
        stats_interval: 200,
    }
}

fn feed(e: &mut Engine, line: &str) -> Vec<OutputRec> {
    let r = e.process_line(line.as_bytes());
    assert!(!r.terminal);
    r.out
}

#[test]
fn first_good_report_emits_trust_and_metrics() {
    let mut e = Engine::new(test_config());
    let out = feed(&mut e, "CSV,FWD,3,10,0");
    // Beta(1,1) with 10 successes: 11/12 = 916667 ppm, quantized 917.
    assert_eq!(out.len(), 2);
    assert!(matches!(out[0], OutputRec::Trust { node: 3, trust_q: 917 }));
    match out[1] {
        OutputRec::Metrics(rec) => {
            assert_eq!(rec.node, 3);
            assert_eq!(rec.delta_success, 10);
            assert_eq!(rec.delta_dropped, 0);
            assert_eq!(rec.beta_ppm, 916_667);
            assert_eq!(rec.bayes_ppm, 916_667);
            assert_eq!(rec.ewma_ppm, 916_667);
            assert_eq!(rec.trust_q, 917);
        },
        _ => panic!("expected a metrics record"),
    }
}

#[test]
fn heavy_dropper_is_blacklisted_and_stays_at_zero() {
    let mut e = Engine::new(test_config());
    // Everything dropped: Beta estimate 1/12, far below the drop line.
    let out = feed(&mut e, "CSV,FWD,4,10,10");
    assert!(matches!(out[0], OutputRec::Blacklisted(_)));
    assert!(matches!(out[1], OutputRec::Trust { node: 4, trust_q: 0 }));
    assert!(e.is_blacklisted(4));
    // Later perfect behaviour: estimators recover, trust output stays 0,
    // and no second blacklist transition is reported.
    let out = feed(&mut e, "CSV,FWD,4,1000,10");
    assert_eq!(out.len(), 2);
    assert!(matches!(out[0], OutputRec::Trust { node: 4, trust_q: 0 }));
    match out[1] {
        OutputRec::Metrics(rec) => {
            assert_eq!(rec.trust_q, 0);
            assert!(rec.beta_ppm > 900_000);
        },
        _ => panic!("expected a metrics record"),
    }
    assert!(e.is_blacklisted(4));
}

#[test]
fn counter_reset_produces_no_observation_but_advances_counters() {
    let mut e = Engine::new(test_config());
    let out = feed(&mut e, "CSV,FWD,5,100,0");
    assert_eq!(out.len(), 2);
    // The cumulative counter goes backwards: no estimator update at all.
    let out = feed(&mut e, "CSV,FWD,5,50,0");
    assert_eq!(out.len(), 0);
    // The stored counters did advance to 50: the next delta is 10, not 0.
    let out = feed(&mut e, "CSV,FWD,5,60,0");
    match out[1] {
        OutputRec::Metrics(rec) => assert_eq!(rec.delta_success, 10),
        _ => panic!("expected a metrics record"),
    }
}

#[test]
fn unchanged_counters_produce_no_output() {
    let mut e = Engine::new(test_config());
    feed(&mut e, "CSV,FWD,5,100,0");
    let out = feed(&mut e, "CSV,FWD,5,100,0");
    assert_eq!(out.len(), 0);
}

fn exposure_of(out: &[OutputRec]) -> Option<(u64, u64, u64, u64)> {
    out.iter().find_map(|rec| match rec {
        OutputRec::Exposure(s) => Some((s.e1_num, s.e1_den, s.e1_bp, s.tx_total)),
        _ => None,
    })
}

#[test]
fn exposure_join_counts_once_in_either_order() {
    // Root delivery first, attacker transit second.
    let mut a = Engine::new(test_config());
    feed(&mut a, "CSV,RX,node=1,aaaa::3,7,16");
    feed(&mut a, "CSV,FWD_PKT,2,3,7");
    let out = feed(&mut a, "CSV,FWD,3,10,0");
    let (num, den, bp, _) = exposure_of(&out).expect("exposure snapshot");
    assert_eq!((num, den), (1, 1));
    assert_eq!(bp, 10_000);

    // Attacker transit first, root delivery second.
    let mut b = Engine::new(test_config());
    feed(&mut b, "CSV,FWD_PKT,2,3,7");
    feed(&mut b, "CSV,RX,node=1,aaaa::3,7,16");
    let out = feed(&mut b, "CSV,FWD,3,10,0");
    assert_eq!(exposure_of(&out).map(|(n, d, _, _)| (n, d)), Some((1, 1)));
}

#[test]
fn repeated_confirmations_do_not_double_count() {
    let mut e = Engine::new(test_config());
    feed(&mut e, "CSV,RX,node=1,aaaa::3,7,16");
    feed(&mut e, "CSV,RX,node=1,aaaa::3,7,16");
    feed(&mut e, "CSV,FWD_PKT,2,3,7");
    feed(&mut e, "CSV,FWD_PKT,2,3,7");
    // A second delivered packet that never transited the attacker.
    feed(&mut e, "CSV,RX,node=1,aaaa::4,9,16");
    let out = feed(&mut e, "CSV,FWD,3,10,0");
    let (num, den, bp, _) = exposure_of(&out).expect("exposure snapshot");
    assert_eq!((num, den), (1, 2));
    assert_eq!(bp, 5_000);
}

#[test]
fn transit_by_a_non_attacker_does_not_count() {
    let mut e = Engine::new(test_config());
    feed(&mut e, "CSV,RX,node=1,aaaa::3,7,16");
    feed(&mut e, "CSV,FWD_PKT,5,3,7");
    let out = feed(&mut e, "CSV,FWD,3,10,0");
    assert_eq!(exposure_of(&out).map(|(n, d, _, _)| (n, d)), Some((0, 1)));
}

#[test]
fn transmissions_are_deduplicated() {
    let mut e = Engine::new(test_config());
    feed(&mut e, "CSV,TX,5,7");
    feed(&mut e, "CSV,TX,5,7");
    feed(&mut e, "CSV,TX,5,8");
    feed(&mut e, "CSV,RX,node=1,aaaa::5,7,16");
    let out = feed(&mut e, "CSV,FWD,3,10,0");
    let (_, _, _, tx_total) = exposure_of(&out).expect("exposure snapshot");
    assert_eq!(tx_total, 2);
}

#[test]
fn no_exposure_snapshot_before_any_delivery() {
    let mut e = Engine::new(test_config());
    let out = feed(&mut e, "CSV,FWD,3,10,0");
    assert!(exposure_of(&out).is_none());
}

#[test]
fn routing_joins_count_parent_samples_and_attacker_share() {
    let mut e = Engine::new(test_config());
    feed(&mut e, "CSV,ROUTING,9,1,fe80::2");
    feed(&mut e, "CSV,ROUTING,9,1,fe80::3");
    feed(&mut e, "CSV,ROUTING,9,0,fe80::2");
    feed(&mut e, "CSV,RX,node=1,aaaa::3,7,16");
    let out = feed(&mut e, "CSV,FWD,3,10,0");
    let snap = out
        .iter()
        .find_map(|rec| match rec {
            OutputRec::Exposure(s) => Some(*s),
            _ => None,
        })
        .expect("exposure snapshot");
    assert_eq!(snap.parent_samples, 2);
    assert_eq!(snap.parent_attacker, 1);
    assert_eq!(snap.e3_bp, 5_000);
    assert_eq!(snap.attacker_id, 2);
}

#[test]
fn parent_switch_rates() {
    let mut e = Engine::new(test_config());
    // Node 7: five samples, two changes; rate one half.
    for p in ["a", "a", "b", "b", "c"] {
        feed(&mut e, &format!("CSV,PARENT,7,{}", p));
    }
    // Node 8: a single sample; rate zero.
    feed(&mut e, "CSV,PARENT,8,x");
    let rows = e.parent_rows();
    assert_eq!(rows.len(), 2);
    assert_eq!(rows[0].node, 7);
    assert_eq!(rows[0].samples, 5);
    assert_eq!(rows[0].changes, 2);
    assert_eq!(rows[0].switch_rate_ppm, 500_000);
    assert_eq!(rows[1].node, 8);
    assert_eq!(rows[1].samples, 1);
    assert_eq!(rows[1].changes, 0);
    assert_eq!(rows[1].switch_rate_ppm, 0);
}

#[test]
fn stats_snapshot_on_interval_carries_switch_rate() {
    let mut cfg = test_config();
    cfg.stats_interval = 5;
    let mut e = Engine::new(cfg);
    feed(&mut e, "CSV,PARENT,7,a");
    feed(&mut e, "CSV,PARENT,7,b");
    feed(&mut e, "CSV,PARENT,7,b");
    feed(&mut e, "CSV,TX,1,1");
    // Line five, an accepted Fwd report: the periodic snapshot is due.
    let out = feed(&mut e, "CSV,FWD,3,10,0");
    let stats = out
        .iter()
        .find_map(|rec| match rec {
            OutputRec::Stats { snap, switch_rate_ppm } => Some((*snap, *switch_rate_ppm)),
            _ => None,
        })
        .expect("stats snapshot");
    assert_eq!(stats.0.line, 5);
    assert_eq!(stats.0.tx_total, 1);
    // One change over two sampled transitions.
    assert_eq!(stats.1, 500_000);
}

#[test]
fn final_rows_report_the_selected_metric() {
    let mut e = Engine::new(test_config());
    feed(&mut e, "CSV,FWD,3,10,0");
    feed(&mut e, "CSV,FWD,6,10,10");
    let rows = e.final_rows();
    assert_eq!(rows.len(), 2);
    assert_eq!(rows[0].node, 3);
    assert_eq!(rows[0].trust_q, 917);
    // Node 6 is blacklisted, but the final summary reports the raw
    // estimate: EWMA was initialized to 1/12 = 83333 ppm.
    assert_eq!(rows[1].node, 6);
    assert_eq!(rows[1].trust_q, 83);
}

#[test]
fn attacker_totals_accumulate_deltas() {
    let mut e = Engine::new(test_config());
    feed(&mut e, "CSV,FWD,2,10,1");
    feed(&mut e, "CSV,FWD,2,25,2");
    feed(&mut e, "CSV,RX,node=1,aaaa::3,7,16");
    let out = feed(&mut e, "CSV,FWD,3,10,0");
    let snap = out
        .iter()
        .find_map(|rec| match rec {
            OutputRec::Exposure(s) => Some(*s),
            _ => None,
        })
        .expect("exposure snapshot");
    assert_eq!(snap.attacker_udp_total, 25);
    assert_eq!(snap.attacker_udp_dropped, 2);
}

#[test]
fn terminal_line_reports_end_of_run() {
    let mut e = Engine::new(test_config());
    let r = e.process_line(b"TEST OK");
    assert!(r.terminal);
    assert_eq!(e.lines_processed(), 1);
    let r = e.process_line(b"SIMULATION_FINISHED");
    assert!(r.terminal);
}

#[test]
fn bayes_metric_selects_bayes_for_trust() {
    let mut cfg = test_config();
    cfg.metric = Metric::Bayes;
    let mut e = Engine::new(cfg);
    let out = feed(&mut e, "CSV,FWD,3,9,1");
    // Deltas 9 forwarded, 1 dropped: 8 successes, 1 failure. Bayes is
    // (1 + 8) / (2 + 9) = 818182 ppm, quantized 818; the estimates sit
    // above every threshold, so the node is not blacklisted.
    assert!(matches!(out[0], OutputRec::Trust { node: 3, trust_q: 818 }));
}
