//! Tests of the angle/walk-off calculator on concrete wavelengths.
//!
//! Quantities are fixed-point integers in ten-thousandths of their unit: a
//! wavelength of 800 nm is 8000000, an angle of 31.6 degrees is 316000, a
//! walk-off of 16.48 mrad is 164800.

use crystal_angle::Harmonic;
use crystal_angle::calculate_angle_walkoff;
use crystal_angle::which_crystal;

#[test]
fn exact_table_hit_second_harmonic() {
    // 800 nm is a calibration knot of the LBO table: 31.6 degrees, 16.48 mrad.
    let (angle, walkoff) = calculate_angle_walkoff(8000000, &Harmonic::Second);
    assert_eq!(angle, 316000);
    assert_eq!(walkoff, 164800);
}

#[test]
fn midpoint_between_knots_second_harmonic() {
    // 805 nm lies halfway between the 800 nm and 810 nm knots:
    // angle (31.6 + 30.7) / 2 = 31.15 degrees exactly,
    // walk-off (16.48 + 16.16) / 2 = 16.32 mrad exactly.
    let (angle, walkoff) = calculate_angle_walkoff(8050000, &Harmonic::Second);
    assert_eq!(angle, 311500);
    assert_eq!(walkoff, 163200);
}

#[test]
fn midpoint_with_odd_hundredths_sum_is_exact() {
    // 725 nm lies halfway between the 720 nm and 730 nm knots; the LBO
    // walk-off average (18.55 + 18.36) / 2 = 18.455 mrad needs a third
    // decimal, which the fixed-point resolution represents exactly.
    let (angle, walkoff) = calculate_angle_walkoff(7250000, &Harmonic::Second);
    assert_eq!(angle, 400500);
    assert_eq!(walkoff, 184550);
}

#[test]
fn exact_table_hit_third_harmonic_peak() {
    // 750 nm is a calibration knot of the BBO table, at the walk-off peak:
    // 48.6 degrees, 87.52 mrad.
    let (angle, walkoff) = calculate_angle_walkoff(7500000, &Harmonic::Third);
    assert_eq!(angle, 486000);
    assert_eq!(walkoff, 875200);
}

#[test]
fn harmonics_select_different_tables() {
    // At 1000 nm the two tables give 15.6 degrees (LBO) and 33.5 degrees (BBO).
    let (second_angle, _) = calculate_angle_walkoff(10000000, &Harmonic::Second);
    let (third_angle, _) = calculate_angle_walkoff(10000000, &Harmonic::Third);
    assert_eq!(second_angle, 156000);
    assert_eq!(third_angle, 335000);
}

#[test]
fn repeated_calls_are_identical() {
    let first = calculate_angle_walkoff(9123400, &Harmonic::Third);
    let second = calculate_angle_walkoff(9123400, &Harmonic::Third);
    assert_eq!(first, second);
}

#[test]
fn first_and_last_knots() {
    assert_eq!(calculate_angle_walkoff(7000000, &Harmonic::Second), (434000, 188300));
    assert_eq!(calculate_angle_walkoff(10000000, &Harmonic::Second), (156000, 92700));
    assert_eq!(calculate_angle_walkoff(7000000, &Harmonic::Third), (533000, 858100));
    assert_eq!(calculate_angle_walkoff(10000000, &Harmonic::Third), (335000, 757300));
}

#[test]
fn extrapolation_below_calibrated_range() {
    // 690 nm extends the first LBO segment: angle 43.4 + 1.4 = 44.8 degrees,
    // walk-off 18.83 + 0.12 = 18.95 mrad.
    let (angle, walkoff) = calculate_angle_walkoff(6900000, &Harmonic::Second);
    assert_eq!(angle, 448000);
    assert_eq!(walkoff, 189500);
}

#[test]
fn extrapolation_above_calibrated_range() {
    // 1010 nm extends the last LBO segment: angle 16.2 - 1.2 = 15.0 degrees,
    // walk-off 9.65 - 0.76 = 8.89 mrad.
    let (angle, walkoff) = calculate_angle_walkoff(10100000, &Harmonic::Second);
    assert_eq!(angle, 150000);
    assert_eq!(walkoff, 88900);
}

#[test]
fn crystal_names() {
    assert_eq!(which_crystal(&Harmonic::Second), "LBO");
    assert_eq!(which_crystal(&Harmonic::Third), "BBO");
}
