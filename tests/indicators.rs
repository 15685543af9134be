use zenithalgo::error::InvalidArgument;
use zenithalgo::indicators::{atr_defined, ema_defined, rsi_defined, sma_defined, stddev_plan};
use zenithalgo::window::{rolling_dispersion, rolling_mean_defined, Dispersion};

fn presence(values: &[f64]) -> Vec<bool> {
    values.iter().map(|v| !v.is_nan()).collect()
}

#[test]
fn sma_warm_up_of_three() {
    // values [1, 2, 3, 4, 5] with a window of 3 give [NaN, NaN, 2, 3, 4]
    let d = sma_defined(5, 3).unwrap();
    assert_eq!(d, vec![false, false, true, true, true]);
}

#[test]
fn sma_rejects_zero_window() {
    assert_eq!(sma_defined(5, 0), Err(InvalidArgument::ZeroPeriod));
}

#[test]
fn sma_empty_series() {
    assert_eq!(sma_defined(0, 3).unwrap(), Vec::<bool>::new());
}

#[test]
fn sma_window_longer_than_series() {
    assert_eq!(sma_defined(2, 3).unwrap(), vec![false, false]);
}

#[test]
fn rolling_mean_defined_only_on_clean_windows() {
    let values = [1.0, 2.0, f64::NAN, 4.0, 5.0, 6.0];
    let d = rolling_mean_defined(&presence(&values), 2);
    assert_eq!(d, vec![false, true, false, false, true, true]);
}

#[test]
fn rolling_mean_zero_window_defines_nothing() {
    let d = rolling_mean_defined(&vec![true, true, true], 0);
    assert_eq!(d, vec![false, false, false]);
}

#[test]
fn rolling_mean_window_of_one() {
    let d = rolling_mean_defined(&vec![true, false, true], 1);
    assert_eq!(d, vec![true, false, true]);
}

#[test]
fn ema_missing_sample_is_absorbing() {
    let values = [1.0, 2.0, 3.0, f64::NAN, 5.0, 6.0];
    let d = ema_defined(&presence(&values), 2).unwrap();
    assert_eq!(d, vec![false, true, true, false, false, false]);
}

#[test]
fn ema_defined_from_period_before_any_gap() {
    let d = ema_defined(&vec![true; 5], 3).unwrap();
    assert_eq!(d, vec![false, false, true, true, true]);
}

#[test]
fn ema_rejects_zero_period() {
    assert_eq!(ema_defined(&vec![true], 0), Err(InvalidArgument::ZeroPeriod));
}

#[test]
fn rsi_needs_period_changes() {
    // the first sample has no change, so a period of 2 is first defined at index 2
    let d = rsi_defined(&vec![true; 5], 2).unwrap();
    assert_eq!(d, vec![false, false, true, true, true]);
}

#[test]
fn rsi_gap_in_changes() {
    let values = [1.0, 2.0, f64::NAN, 4.0, 5.0, 6.0];
    let moves: Vec<bool> = (0..values.len())
        .map(|i| i > 0 && !(values[i] - values[i - 1]).is_nan())
        .collect();
    let d = rsi_defined(&moves, 2).unwrap();
    assert_eq!(d, vec![false, false, false, false, false, true]);
}

#[test]
fn rsi_rejects_zero_period() {
    assert_eq!(rsi_defined(&vec![true, true], 0), Err(InvalidArgument::ZeroPeriod));
}

#[test]
fn atr_follows_clean_ranges() {
    let d = atr_defined(&vec![true, true, false, true], 2).unwrap();
    assert_eq!(d, vec![false, true, false, false]);
    assert_eq!(atr_defined(&vec![true], 0), Err(InvalidArgument::ZeroPeriod));
}

#[test]
fn stddev_counts_present_samples() {
    let values = [f64::NAN, f64::NAN, 3.0, f64::NAN, 5.0, 6.0];
    let plan = stddev_plan(&presence(&values), 2).unwrap();
    assert_eq!(
        plan,
        vec![
            Dispersion::Undefined,
            Dispersion::Undefined,
            Dispersion::Zero,
            Dispersion::Zero,
            Dispersion::Zero,
            Dispersion::Sample { count: 2 },
        ]
    );
}

#[test]
fn stddev_full_window_of_identical_values() {
    let plan = stddev_plan(&presence(&[7.0, 7.0, 7.0]), 3).unwrap();
    assert_eq!(plan[2], Dispersion::Sample { count: 3 });
}

#[test]
fn stddev_rejects_zero_period() {
    assert_eq!(stddev_plan(&vec![true], 0), Err(InvalidArgument::ZeroPeriod));
}

#[test]
fn rolling_dispersion_zero_period_is_undefined() {
    assert_eq!(
        rolling_dispersion(&vec![true, true], 0),
        vec![Dispersion::Undefined, Dispersion::Undefined]
    );
}
