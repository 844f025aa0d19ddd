//! Piecewise-linear interpolation over a strictly increasing knot sequence,
//! on fixed-point integer data.
//!
//! A query inside the knot range is evaluated on its bracketing segment; a
//! query outside the range is extrapolated linearly along the nearest edge
//! segment. The exact mathematical value of a segment evaluation is rational;
//! the executable code returns its floor, and the contracts state exactly
//! that, via the spec-level division of `interp_at`.

use vstd::prelude::*;
use vstd::arithmetic::div_mod::lemma_fundamental_div_mod;
use vstd::arithmetic::div_mod::lemma_fundamental_div_mod_converse;
use vstd::arithmetic::div_mod::lemma_mod_bound;

verus! {

/// Magnitude bound on table values and query points, so that every
/// intermediate product of the evaluation fits in an `i64`.
pub const MAG: i64 = 1_000_000_000;

/// The knot sequence is long enough to hold a segment and strictly increases.
pub open spec fn knots_ok(xs: Seq<i64>) -> bool {
    &&& 2 <= xs.len()
    &&& forall|i: int| 0 <= i && i + 1 < xs.len() ==> #[trigger] xs[i] < xs[i + 1]
}

/// Every element of the sequence is bounded by `MAG` in magnitude.
pub open spec fn in_mag(s: Seq<i64>) -> bool {
    forall|i: int| 0 <= i < s.len() ==> -(MAG as int) <= #[trigger] s[i] <= MAG as int
}

/// Index of the segment that evaluates the query `x`, searching up from
/// segment `i`: the first segment whose right knot lies strictly beyond `x`,
/// or the last segment when `x` reaches past every knot.
pub open spec fn seg_from(xs: Seq<i64>, x: int, i: int) -> int
    decreases xs.len() - i,
{
    if i + 2 >= xs.len() || x < xs[i + 1] {
        i
    } else {
        seg_from(xs, x, i + 1)
    }
}

/// Index of the segment that evaluates the query `x`. For `x` inside the
/// knot range this is the bracketing segment; for `x` below the first knot
/// it is the first segment, and for `x` at or beyond the last knot the last
/// segment, which makes out-of-range queries linear extrapolations along the
/// nearest edge segment.
pub open spec fn seg_index(xs: Seq<i64>, x: int) -> int {
    seg_from(xs, x, 0)
}

/// Piecewise-linear interpolation of the values `ys` over the knots `xs`,
/// evaluated at `x`: on segment `i`, the floor of
/// `ys[i] + (ys[i+1] - ys[i]) * (x - xs[i]) / (xs[i+1] - xs[i])`.
pub open spec fn interp_at(xs: Seq<i64>, ys: Seq<i64>, x: int) -> int
    recommends
        knots_ok(xs),
        xs.len() == ys.len(),
{
    let i = seg_index(xs, x);
    ys[i] + (ys[i + 1] - ys[i]) * (x - xs[i]) / (xs[i + 1] - xs[i])
}

/// Floor division of `num` by a positive `den`, the spec-level `/` on `int`.
fn div_floor(num: i64, den: i64) -> (r: i64)
    requires
        0 < den,
        i64::MIN < num,
    ensures
        r as int == num as int / den as int,
{
    if num >= 0 {
        let q: u64 = (num as u64) / (den as u64);
        proof {
            lemma_fundamental_div_mod(num as int, den as int);
            lemma_mod_bound(num as int, den as int);
            assert(num as int / den as int <= num as int) by (nonlinear_arith)
                requires
                    0 < den as int,
                    0 <= num as int,
                    num as int == den as int * (num as int / den as int) + num as int % den
                        as int,
                    0 <= num as int % den as int,
            ;
            assert(0 <= num as int / den as int) by (nonlinear_arith)
                requires
                    0 < den as int,
                    0 <= num as int,
                    num as int == den as int * (num as int / den as int) + num as int % den
                        as int,
                    (num as int % den as int) < den as int,
            ;
        }
        q as i64
    } else {
        let m: u64 = (-num) as u64;
        let d: u64 = den as u64;
        let q: u64 = (m + d - 1) / d;
        proof {
            let mi = m as int;
            let di = d as int;
            lemma_fundamental_div_mod(mi, di);
            lemma_mod_bound(mi, di);
            let a = mi / di;
            let b = mi % di;
            assert(0 <= a && a + 1 <= mi + 1 && (b != 0 ==> a + 1 <= mi)) by (nonlinear_arith)
                requires
                    0 < di,
                    0 < mi,
                    mi == di * a + b,
                    0 <= b < di,
            ;
            if b == 0 {
                assert(-mi == (-a) * di + 0 && mi + di - 1 == a * di + (di - 1))
                    by (nonlinear_arith)
                    requires
                        mi == di * a + 0,
                ;
                lemma_fundamental_div_mod_converse(-mi, di, -a, 0);
                lemma_fundamental_div_mod_converse(mi + di - 1, di, a, di - 1);
            } else {
                assert(-mi == (-a - 1) * di + (di - b) && mi + di - 1 == (a + 1) * di + (b - 1))
                    by (nonlinear_arith)
                    requires
                        mi == di * a + b,
                ;
                lemma_fundamental_div_mod_converse(-mi, di, -a - 1, di - b);
                lemma_fundamental_div_mod_converse(mi + di - 1, di, a + 1, b - 1);
            }
            assert((mi + di - 1) / di == -(-mi / di));
            assert(q as int == (mi + di - 1) / di);
            assert(q <= i64::MAX as u64);
        }
        -(q as i64)
    }
}

/// Bounds on a floor quotient with a positive divisor: the quotient never
/// exceeds the dividend in magnitude and keeps its sign.
proof fn lemma_div_floor_bounds(num: int, den: int)
    requires
        0 < den,
    ensures
        num >= 0 ==> 0 <= num / den <= num,
        num < 0 ==> num <= num / den <= 0,
{
    lemma_fundamental_div_mod(num, den);
    lemma_mod_bound(num, den);
    let q = num / den;
    let b = num % den;
    if num >= 0 {
        assert(0 <= q <= num) by (nonlinear_arith)
            requires
                0 < den,
                0 <= num,
                num == den * q + b,
                0 <= b < den,
        ;
    } else {
        assert(num <= q <= 0) by (nonlinear_arith)
            requires
                0 < den,
                num < 0,
                num == den * q + b,
                0 <= b < den,
        ;
    }
}

/// Interpolate the series `ys` over the knots `xs` at the single query `x`.
pub fn interpolate_at(xs: &Vec<i64>, ys: &Vec<i64>, x: i64) -> (r: i64)
    requires
        knots_ok(xs@),
        xs@.len() == ys@.len(),
        in_mag(xs@),
        in_mag(ys@),
        -MAG <= x <= MAG,
    ensures
        r as int == interp_at(xs@, ys@, x as int),
{
    let n = xs.len();
    let mut i: usize = 0;
    while i + 2 < n && xs[i + 1] <= x
        invariant
            n == xs@.len(),
            knots_ok(xs@),
            xs@.len() == ys@.len(),
            0 <= i,
            i + 2 <= n,
            seg_from(xs@, x as int, 0) == seg_from(xs@, x as int, i as int),
        decreases n - i,
    {
        proof {
            assert(seg_from(xs@, x as int, i as int) == seg_from(xs@, x as int, i as int + 1));
        }
        i = i + 1;
    }
    proof {
        assert(seg_from(xs@, x as int, i as int) == i as int);
    }
    let x0 = xs[i];
    let x1 = xs[i + 1];
    let y0 = ys[i];
    let y1 = ys[i + 1];
    let den = x1 - x0;
    let t = x - x0;
    let dy = y1 - y0;
    proof {
        assert(-(MAG as int) * 2 <= dy as int <= (MAG as int) * 2);
        assert(-(MAG as int) * 2 <= t as int <= (MAG as int) * 2);
        assert(-4_000_000_000_000_000_000 <= dy as int * t as int <= 4_000_000_000_000_000_000)
            by (nonlinear_arith)
            requires
                -2_000_000_000 <= dy as int <= 2_000_000_000,
                -2_000_000_000 <= t as int <= 2_000_000_000,
        ;
    }
    let num = dy * t;
    let q = div_floor(num, den);
    proof {
        lemma_div_floor_bounds(num as int, den as int);
    }
    y0 + q
}

/// Interpolate the series `ys` over the knots `xs` at every query point in
/// `out_xs`, returning the interpolated values in the same order.
pub fn interpolate(xs: &Vec<i64>, ys: &Vec<i64>, out_xs: &Vec<i64>) -> (r: Vec<i64>)
    requires
        knots_ok(xs@),
        xs@.len() == ys@.len(),
        in_mag(xs@),
        in_mag(ys@),
        in_mag(out_xs@),
    ensures
        r@.len() == out_xs@.len(),
        forall|k: int| 0 <= k < out_xs@.len() ==> r@[k] as int == interp_at(
            xs@,
            ys@,
            out_xs@[k] as int,
        ),
{
    let mut r: Vec<i64> = Vec::new();
    let mut k: usize = 0;
    while k < out_xs.len()
        invariant
            k <= out_xs@.len(),
            r@.len() == k,
            knots_ok(xs@),
            xs@.len() == ys@.len(),
            in_mag(xs@),
            in_mag(ys@),
            in_mag(out_xs@),
            forall|j: int| 0 <= j < k ==> r@[j] as int == interp_at(xs@, ys@, out_xs@[j] as int),
        decreases out_xs@.len() - k,
    {
        let v = interpolate_at(xs, ys, out_xs[k]);
        r.push(v);
        k = k + 1;
    }
    r
}

} // verus!
