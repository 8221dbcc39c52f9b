use trust_engine::fixed::{ratio_scaled, sat_add64};
use trust_engine::trust::{bayes_ppm, beta_est_ppm, ewma_next_ppm, quantize_trust};
use trust_engine::PPM;

#[test]
fn beta_posterior_mean_default_prior() {
    // Beta(1, 1) prior with 9 successes and 1 failure: 10/12 of one whole.
    let r = beta_est_ppm(1_000_000, 1_000_000, 9, 1);
    assert_eq!(r, 833_333);
}

#[test]
fn bayes_with_no_observations_is_one_half() {
    assert_eq!(bayes_ppm(0, 0), 500_000);
}

#[test]
fn bayes_add_one_smoothing() {
    // 9 successes, 1 failure: (1 + 9) / (2 + 10) = 10/12.
    assert_eq!(bayes_ppm(9, 1), 833_333);
}

#[test]
fn ewma_blend() {
    // 0.2 * 0.9 + 0.8 * 0.5 = 0.58, exactly.
    assert_eq!(ewma_next_ppm(200_000, 900_000, 500_000), 580_000);
}

#[test]
fn ewma_first_weight_extremes() {
    // All weight on the previous value, and none.
    assert_eq!(ewma_next_ppm(PPM, 900_000, 100_000), 900_000);
    assert_eq!(ewma_next_ppm(0, 900_000, 100_000), 100_000);
}

#[test]
fn quantize_rounds_to_nearest() {
    assert_eq!(quantize_trust(833_333), 833);
    assert_eq!(quantize_trust(833_500), 834);
    assert_eq!(quantize_trust(0), 0);
    assert_eq!(quantize_trust(PPM), 1000);
    assert_eq!(quantize_trust(499), 0);
    assert_eq!(quantize_trust(500), 1);
}

#[test]
fn ratio_scaled_values() {
    assert_eq!(ratio_scaled(1, 3, 10_000), 3_333);
    assert_eq!(ratio_scaled(1, 1, 10_000), 10_000);
    assert_eq!(ratio_scaled(0, 5, 10_000), 0);
    assert_eq!(ratio_scaled(0, 0, 10_000), 0);
    assert_eq!(ratio_scaled(2, 4, 1_000_000), 500_000);
}

#[test]
fn saturating_counter_addition() {
    assert_eq!(sat_add64(3, 4), 7);
    assert_eq!(sat_add64(u64::MAX - 1, 5), u64::MAX);
}
