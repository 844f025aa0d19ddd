//! Properties of the interpolation primitive and of the calculator.
//!
//! The interpolated value returned for a query on a segment is the floor of
//! an exact rational; the laws here say when that floor is exact (at a knot,
//! and at the midpoint of an even-width interval) and that it can never leave
//! the interval spanned by the segment's two endpoint values.

use vstd::prelude::*;
use vstd::arithmetic::div_mod::lemma_add_mod_noop;
use vstd::arithmetic::div_mod::lemma_fundamental_div_mod;
use vstd::arithmetic::div_mod::lemma_fundamental_div_mod_converse;
use vstd::arithmetic::div_mod::lemma_mod_bound;
use vstd::arithmetic::div_mod::lemma_sub_mod_noop;

use crate::Harmonic;
use crate::angle_walkoff_spec;
use crate::harmonic_angles;
use crate::harmonic_walkoffs;
use crate::harmonic_wavelengths;
use crate::interp::interp_at;
use crate::interp::knots_ok;
use crate::interp::seg_from;
use crate::tables::lemma_bbo_well_formed;
use crate::tables::lemma_lbo_well_formed;
use crate::tables::lemma_tables_even;

verus! {

/// Strictly increasing adjacent knots order every pair of knots.
proof fn lemma_knots_mono(xs: Seq<i64>, a: int, b: int)
    requires
        knots_ok(xs),
        0 <= a <= b < xs.len(),
    ensures
        xs[a] <= xs[b],
    decreases b - a,
{
    if a < b {
        lemma_knots_mono(xs, a, b - 1);
    }
}

/// The segment search starting at `i` stops exactly at `j` when every segment
/// before `j` ends at or below the query and `j` is the last segment or ends
/// strictly beyond it.
proof fn lemma_seg_from_reaches(xs: Seq<i64>, x: int, i: int, j: int)
    requires
        0 <= i <= j,
        j + 2 <= xs.len(),
        forall|m: int| i <= m < j ==> #[trigger] xs[m + 1] <= x,
        j + 2 == xs.len() || x < xs[j + 1],
    ensures
        seg_from(xs, x, i) == j,
    decreases j - i,
{
    if i < j {
        assert(xs[i + 1] <= x);
        lemma_seg_from_reaches(xs, x, i + 1, j);
    }
}

/// At every knot, interpolation returns that knot's value exactly.
pub proof fn lemma_knot_hit(xs: Seq<i64>, ys: Seq<i64>, k: int)
    requires
        knots_ok(xs),
        xs.len() == ys.len(),
        0 <= k < xs.len(),
    ensures
        interp_at(xs, ys, xs[k] as int) == ys[k],
{
    let x = xs[k] as int;
    let n = xs.len() as int;
    if k + 2 <= n {
        assert forall|m: int| 0 <= m < k implies #[trigger] xs[m + 1] <= x by {
            lemma_knots_mono(xs, m + 1, k);
        };
        lemma_seg_from_reaches(xs, x, 0, k);
        let den = xs[k + 1] as int - xs[k] as int;
        assert((ys[k + 1] - ys[k]) * (x - xs[k]) == 0 * den + 0);
        lemma_fundamental_div_mod_converse((ys[k + 1] - ys[k]) * (x - xs[k]), den, 0, 0);
    } else {
        assert forall|m: int| 0 <= m < k - 1 implies #[trigger] xs[m + 1] <= x by {
            lemma_knots_mono(xs, m + 1, k);
        };
        lemma_seg_from_reaches(xs, x, 0, k - 1);
        let den = xs[k] as int - xs[k - 1] as int;
        let dy = ys[k] as int - ys[k - 1] as int;
        assert(dy * (x - xs[k - 1]) == dy * den + 0);
        lemma_fundamental_div_mod_converse(dy * den, den, dy, 0);
    }
}

/// On a bracketing interval, the interpolated value lies between the two
/// endpoint values of the series, whichever of them is the larger.
pub proof fn lemma_interval_bounds(xs: Seq<i64>, ys: Seq<i64>, x: int, i: int)
    requires
        knots_ok(xs),
        xs.len() == ys.len(),
        0 <= i,
        i + 1 < xs.len(),
        xs[i] <= x <= xs[i + 1],
    ensures
        ys[i] <= ys[i + 1] ==> ys[i] <= interp_at(xs, ys, x) <= ys[i + 1],
        ys[i + 1] <= ys[i] ==> ys[i + 1] <= interp_at(xs, ys, x) <= ys[i],
{
    if x == xs[i + 1] as int {
        lemma_knot_hit(xs, ys, i + 1);
    } else {
        assert forall|m: int| 0 <= m < i implies #[trigger] xs[m + 1] <= x by {
            lemma_knots_mono(xs, m + 1, i);
        };
        lemma_seg_from_reaches(xs, x, 0, i);
        let den = xs[i + 1] as int - xs[i] as int;
        let t = x - xs[i] as int;
        let dy = ys[i + 1] as int - ys[i] as int;
        lemma_fundamental_div_mod(dy * t, den);
        lemma_mod_bound(dy * t, den);
        let q = dy * t / den;
        let b = dy * t % den;
        if dy >= 0 {
            assert(0 <= q <= dy) by (nonlinear_arith)
                requires
                    0 < den,
                    0 <= t <= den,
                    0 <= dy,
                    dy * t == den * q + b,
                    0 <= b < den,
            ;
        } else {
            assert(dy <= q <= 0) by (nonlinear_arith)
                requires
                    0 < den,
                    0 <= t <= den,
                    dy < 0,
                    dy * t == den * q + b,
                    0 <= b < den,
            ;
        }
    }
}

/// At the exact midpoint of an interval whose width is even, interpolation
/// returns the floor midpoint of the two endpoint values.
pub proof fn lemma_midpoint(xs: Seq<i64>, ys: Seq<i64>, i: int)
    requires
        knots_ok(xs),
        xs.len() == ys.len(),
        0 <= i,
        i + 1 < xs.len(),
        (xs[i + 1] - xs[i]) % 2 == 0,
    ensures
        interp_at(xs, ys, (xs[i] + xs[i + 1]) / 2 as int) == (ys[i] + ys[i + 1]) / 2 as int,
{
    let den = xs[i + 1] as int - xs[i] as int;
    lemma_fundamental_div_mod(den, 2);
    let e = den / 2;
    assert(den == 2 * e);
    lemma_fundamental_div_mod_converse(xs[i] + xs[i + 1], 2, xs[i] + e, 0);
    let x = (xs[i] + xs[i + 1]) / 2 as int;
    assert(x == xs[i] + e);
    assert forall|m: int| 0 <= m < i implies #[trigger] xs[m + 1] <= x by {
        lemma_knots_mono(xs, m + 1, i);
    };
    lemma_seg_from_reaches(xs, x, 0, i);
    let dy = ys[i + 1] as int - ys[i] as int;
    lemma_fundamental_div_mod(dy, 2);
    lemma_mod_bound(dy, 2);
    let q2 = dy / 2;
    let r2 = dy % 2;
    assert(dy * e == q2 * den + r2 * e) by (nonlinear_arith)
        requires
            dy == 2 * q2 + r2,
            den == 2 * e,
    ;
    assert(0 <= r2 * e && r2 * e < den) by (nonlinear_arith)
        requires
            0 <= r2 < 2,
            den == 2 * e,
            0 < den,
    ;
    lemma_fundamental_div_mod_converse(dy * e, den, q2, r2 * e);
    lemma_fundamental_div_mod_converse(ys[i] + ys[i + 1], 2, ys[i] as int + q2, r2);
}

/// At every calibration knot of the selected table, the calculator returns
/// that knot's angle and walk-off exactly.
pub proof fn lemma_table_hit(h: Harmonic, k: int)
    requires
        0 <= k < harmonic_wavelengths(h).len(),
    ensures
        angle_walkoff_spec(harmonic_wavelengths(h)[k] as int, h) == (
            harmonic_angles(h)[k] as int,
            harmonic_walkoffs(h)[k] as int,
        ),
{
    match h {
        Harmonic::Second => lemma_lbo_well_formed(),
        Harmonic::Third => lemma_bbo_well_formed(),
    }
    lemma_knot_hit(harmonic_wavelengths(h), harmonic_angles(h), k);
    lemma_knot_hit(harmonic_wavelengths(h), harmonic_walkoffs(h), k);
}

/// At the midpoint of every calibration interval, the calculator returns
/// exactly the average of the interval's two table values, in both series:
/// at the library's resolution every calibration value is an even number of
/// fixed-point units, so the averages are whole values and the interpolation
/// hits them with no rounding at all.
pub proof fn lemma_table_midpoint(h: Harmonic, k: int)
    requires
        0 <= k,
        k + 1 < harmonic_wavelengths(h).len(),
    ensures
        (harmonic_angles(h)[k] + harmonic_angles(h)[k + 1]) % 2 == 0,
        (harmonic_walkoffs(h)[k] + harmonic_walkoffs(h)[k + 1]) % 2 == 0,
        angle_walkoff_spec(
            (harmonic_wavelengths(h)[k] + harmonic_wavelengths(h)[k + 1]) / 2 as int,
            h,
        ) == (
            (harmonic_angles(h)[k] + harmonic_angles(h)[k + 1]) / 2 as int,
            (harmonic_walkoffs(h)[k] + harmonic_walkoffs(h)[k + 1]) / 2 as int,
        ),
{
    match h {
        Harmonic::Second => lemma_lbo_well_formed(),
        Harmonic::Third => lemma_bbo_well_formed(),
    }
    lemma_tables_even();
    let xs = harmonic_wavelengths(h);
    lemma_sub_mod_noop(xs[k + 1] as int, xs[k] as int, 2);
    lemma_add_mod_noop(harmonic_angles(h)[k] as int, harmonic_angles(h)[k + 1] as int, 2);
    lemma_add_mod_noop(harmonic_walkoffs(h)[k] as int, harmonic_walkoffs(h)[k + 1] as int, 2);
    lemma_midpoint(xs, harmonic_angles(h), k);
    lemma_midpoint(xs, harmonic_walkoffs(h), k);
}

/// The calculator is a pure function of its inputs: any two result pairs for
/// the same wavelength and harmonic order are identical. Together with the
/// contract of `calculate_angle_walkoff`, whose result equals
/// `angle_walkoff_spec` of the arguments alone, this says that repeated calls
/// with identical inputs return identical pairs.
pub proof fn lemma_calculator_deterministic(
    wavelength: int,
    h: Harmonic,
    r1: (int, int),
    r2: (int, int),
)
    requires
        r1 == angle_walkoff_spec(wavelength, h),
        r2 == angle_walkoff_spec(wavelength, h),
    ensures
        r1 == r2,
{
}

} // verus!

