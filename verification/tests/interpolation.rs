//! Tests of the piecewise-linear interpolation primitive on small hand-made
//! knot sequences.

use crystal_angle::interp::interpolate;
use crystal_angle::interp::interpolate_at;

#[test]
fn knot_queries_return_knot_values_exactly() {
    let xs: Vec<i64> = vec![0, 10, 20];
    let ys: Vec<i64> = vec![5, -7, 9];
    assert_eq!(interpolate_at(&xs, &ys, 0), 5);
    assert_eq!(interpolate_at(&xs, &ys, 10), -7);
    assert_eq!(interpolate_at(&xs, &ys, 20), 9);
}

#[test]
fn interior_query_stays_between_endpoint_values() {
    let xs: Vec<i64> = vec![0, 10];
    let ys: Vec<i64> = vec![100, 0];
    let r = interpolate_at(&xs, &ys, 3);
    assert_eq!(r, 70);
    assert!(0 <= r && r <= 100);
}

#[test]
fn midpoint_query_returns_midpoint_value() {
    let xs: Vec<i64> = vec![0, 10];
    let ys: Vec<i64> = vec![4, 8];
    assert_eq!(interpolate_at(&xs, &ys, 5), 6);
}

#[test]
fn inexact_division_rounds_toward_negative_infinity() {
    let xs: Vec<i64> = vec![0, 3];
    let ys: Vec<i64> = vec![0, 1];
    // 2/3 floors to 0 inside the range; -1/3 floors to -1 below it.
    assert_eq!(interpolate_at(&xs, &ys, 2), 0);
    assert_eq!(interpolate_at(&xs, &ys, -1), -1);
}

#[test]
fn negative_knots_and_values() {
    let xs: Vec<i64> = vec![-10, 0, 10];
    let ys: Vec<i64> = vec![10, -10, 30];
    assert_eq!(interpolate_at(&xs, &ys, -5), 0);
    assert_eq!(interpolate_at(&xs, &ys, 5), 10);
}

#[test]
fn many_queries_interpolate_pointwise() {
    let xs: Vec<i64> = vec![0, 10, 20];
    let ys: Vec<i64> = vec![0, 100, 0];
    let queries: Vec<i64> = vec![-5, 0, 5, 10, 15, 20, 25];
    let r = interpolate(&xs, &ys, &queries);
    assert_eq!(r, vec![-50, 0, 50, 100, 50, 0, -50]);
}
