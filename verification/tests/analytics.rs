use soroban_oracle::analytics::{compute_smoothed_value, integer_sqrt};

#[test]
fn integer_sqrt_handles_perfect_squares() {
    assert_eq!(integer_sqrt(64), 8);
    assert_eq!(integer_sqrt(144), 12);
}

#[test]
fn integer_sqrt_rounds_down_for_non_squares() {
    assert_eq!(integer_sqrt(15), 3);
    assert_eq!(integer_sqrt(20), 4);
}

#[test]
fn smoothing_update_uses_root_scaled_weights() {
    assert_eq!(compute_smoothed_value(200, 100, 10_000), 200);
    assert_eq!(compute_smoothed_value(200, 100, 5_000), 150);
    assert_eq!(compute_smoothed_value(300, 100, 1), 100);
}

#[test]
fn integer_sqrt_of_non_positive_values_is_zero() {
    assert_eq!(integer_sqrt(0), 0);
    assert_eq!(integer_sqrt(-1), 0);
    assert_eq!(integer_sqrt(i128::MIN), 0);
}

#[test]
fn integer_sqrt_small_and_extreme_values() {
    assert_eq!(integer_sqrt(1), 1);
    assert_eq!(integer_sqrt(2), 1);
    assert_eq!(integer_sqrt(3), 1);
    assert_eq!(integer_sqrt(4), 2);
    assert_eq!(integer_sqrt(10_000), 100);
    assert_eq!(integer_sqrt(i128::MAX), 13_043_817_825_332_782_212);
}

#[test]
fn integer_sqrt_brackets_every_value_up_to_a_thousand() {
    for v in 1..=1000i128 {
        let r = integer_sqrt(v);
        assert!(r * r <= v && v < (r + 1) * (r + 1));
    }
}

#[test]
fn smoothing_keeps_price_for_non_positive_alpha() {
    assert_eq!(compute_smoothed_value(123, 999, 0), 123);
    assert_eq!(compute_smoothed_value(-5, 999, -7), -5);
}

#[test]
fn smoothing_rounds_negative_results_toward_zero() {
    // weight of the price is 32768 of 65536; numerator -100 * 32768 + 0 * 32768 = -3276800
    assert_eq!(compute_smoothed_value(-100, 0, 5_000), -50);
    // -3 * 32768 = -98304; -98304 / 65536 = -1.5 rounds to -1
    assert_eq!(compute_smoothed_value(-3, 0, 5_000), -1);
}

#[test]
fn smoothing_saturates_on_overflowing_products() {
    // i128::MAX * 65536 does not fit: the numerator becomes i128::MAX
    assert_eq!(compute_smoothed_value(i128::MAX, 0, 10_000), i128::MAX / 65_536);
}

#[test]
fn smoothing_stays_between_previous_and_price() {
    // weight 16384 of 65536: (300 * 16384 + 100 * 49152) / 65536 = 150
    assert_eq!(compute_smoothed_value(300, 100, 2_500), 150);
    let s = compute_smoothed_value(-40, 1_000, 7_777);
    assert!(-40 <= s && s <= 1_000);
}

#[test]
fn smoothing_toward_itself_returns_the_value() {
    assert_eq!(compute_smoothed_value(777, 777, 3_333), 777);
    assert_eq!(compute_smoothed_value(-50, -50, 10_000), -50);
    assert_eq!(compute_smoothed_value(5, 5, 20_000), 5);
}
