//! The two fixed calibration tables: LBO for second-harmonic generation and
//! BBO for third-harmonic generation.
//!
//! Each table holds 31 points spanning 700 nm to 1000 nm in 10 nm steps. The
//! values are physical calibration data, reproduced exactly in ten-thousandths
//! of their unit (nanometers for the knots, degrees for the angles,
//! milliradians for the walk-offs). The data carry two decimals, so at this
//! resolution every value is an exact — and even — number of fixed-point
//! units, which keeps interval midpoints exact under interpolation.

use vstd::prelude::*;

use crate::interp::in_mag;
use crate::interp::knots_ok;

verus! {

/// One calibration table: wavelength knots with the phase-matching angle and
/// walk-off series defined at those knots.
pub struct CrystalData {
    pub wavelengths: Vec<i64>,
    pub angles: Vec<i64>,
    pub walkoffs: Vec<i64>,
}

impl CrystalData {
    /// The knots strictly increase, the three series have one value per knot,
    /// and every value is small enough to interpolate without overflow.
    pub open spec fn well_formed(&self) -> bool {
        &&& knots_ok(self.wavelengths@)
        &&& self.angles@.len() == self.wavelengths@.len()
        &&& self.walkoffs@.len() == self.wavelengths@.len()
        &&& in_mag(self.wavelengths@)
        &&& in_mag(self.angles@)
        &&& in_mag(self.walkoffs@)
    }
}

/// Every element of the sequence is an even number of fixed-point units.
pub open spec fn all_even(s: Seq<i64>) -> bool {
    forall|i: int| 0 <= i < s.len() ==> #[trigger] s[i] % 2 == 0
}

/// Calibration knots shared by the LBO series: 700 nm to 1000 nm in 10 nm steps.
pub open spec fn lbo_wavelengths() -> Seq<i64> {
    seq![
        7000000, 7100000, 7200000, 7300000, 7400000, 7500000, 7600000, 7700000, 7800000,
        7900000, 8000000, 8100000, 8200000, 8300000, 8400000, 8500000, 8600000, 8700000,
        8800000, 8900000, 9000000, 9100000, 9200000, 9300000, 9400000, 9500000, 9600000,
        9700000, 9800000, 9900000, 10000000,
    ]
}

/// LBO phase-matching angles, one per knot, in ten-thousandths of a degree.
pub open spec fn lbo_angles() -> Seq<i64> {
    seq![
        434000, 420000, 407000, 394000, 382000, 370000, 359000, 347000, 337000, 326000, 316000,
        307000, 297000, 288000, 279000, 270000, 261000, 253000, 244000, 236000, 228000, 220000,
        213000, 205000, 198000, 190000, 183000, 176000, 169000, 162000, 156000,
    ]
}

/// LBO walk-off angles, one per knot, in ten-thousandths of a milliradian.
pub open spec fn lbo_walkoffs() -> Seq<i64> {
    seq![
        188300, 187100, 185500, 183600, 181500, 179100, 176600, 173800, 171000, 167900, 164800,
        161600, 158300, 154900, 151500, 148000, 144400, 140800, 137200, 133600, 129900, 126200,
        122500, 118800, 115100, 111400, 107700, 103900, 100200, 96500, 92700,
    ]
}

/// Calibration knots shared by the BBO series: 700 nm to 1000 nm in 10 nm steps.
pub open spec fn bbo_wavelengths() -> Seq<i64> {
    seq![
        7000000, 7100000, 7200000, 7300000, 7400000, 7500000, 7600000, 7700000, 7800000,
        7900000, 8000000, 8100000, 8200000, 8300000, 8400000, 8500000, 8600000, 8700000,
        8800000, 8900000, 9000000, 9100000, 9200000, 9300000, 9400000, 9500000, 9600000,
        9700000, 9800000, 9900000, 10000000,
    ]
}

/// BBO phase-matching angles, one per knot, in ten-thousandths of a degree.
pub open spec fn bbo_angles() -> Seq<i64> {
    seq![
        533000, 530000, 518000, 507000, 496000, 486000, 477000, 468000, 459000, 451000, 443000,
        435000, 428000, 421000, 415000, 408000, 402000, 396000, 391000, 385000, 380000, 375000,
        370000, 365000, 360000, 356000, 352000, 347000, 343000, 339000, 335000,
    ]
}

/// BBO walk-off angles, one per knot, in ten-thousandths of a milliradian.
pub open spec fn bbo_walkoffs() -> Seq<i64> {
    seq![
        858100, 865200, 870100, 873200, 874800, 875200, 874500, 873000, 870600, 867700, 864200,
        860300, 856000, 851400, 846600, 841500, 836200, 830900, 825400, 819800, 814100, 808400,
        802700, 797000, 791200, 785500, 779800, 774100, 768500, 762900, 757300,
    ]
}

fn build_lbo_wavelengths() -> (v: Vec<i64>)
    ensures
        v@ == lbo_wavelengths(),
{
    let mut v: Vec<i64> = Vec::new();
    v.push(7000000);
    v.push(7100000);
    v.push(7200000);
    v.push(7300000);
    v.push(7400000);
    v.push(7500000);
    v.push(7600000);
    v.push(7700000);
    v.push(7800000);
    v.push(7900000);
    v.push(8000000);
    v.push(8100000);
    v.push(8200000);
    v.push(8300000);
    v.push(8400000);
    v.push(8500000);
    v.push(8600000);
    v.push(8700000);
    v.push(8800000);
    v.push(8900000);
    v.push(9000000);
    v.push(9100000);
    v.push(9200000);
    v.push(9300000);
    v.push(9400000);
    v.push(9500000);
    v.push(9600000);
    v.push(9700000);
    v.push(9800000);
    v.push(9900000);
    v.push(10000000);
    proof {
        assert(v@ =~= lbo_wavelengths());
    }
    v
}

fn build_lbo_angles() -> (v: Vec<i64>)
    ensures
        v@ == lbo_angles(),
{
    let mut v: Vec<i64> = Vec::new();
    v.push(434000);
    v.push(420000);
    v.push(407000);
    v.push(394000);
    v.push(382000);
    v.push(370000);
    v.push(359000);
    v.push(347000);
    v.push(337000);
    v.push(326000);
    v.push(316000);
    v.push(307000);
    v.push(297000);
    v.push(288000);
    v.push(279000);
    v.push(270000);
    v.push(261000);
    v.push(253000);
    v.push(244000);
    v.push(236000);
    v.push(228000);
    v.push(220000);
    v.push(213000);
    v.push(205000);
    v.push(198000);
    v.push(190000);
    v.push(183000);
    v.push(176000);
    v.push(169000);
    v.push(162000);
    v.push(156000);
    proof {
        assert(v@ =~= lbo_angles());
    }
    v
}

fn build_lbo_walkoffs() -> (v: Vec<i64>)
    ensures
        v@ == lbo_walkoffs(),
{
    let mut v: Vec<i64> = Vec::new();
    v.push(188300);
    v.push(187100);
    v.push(185500);
    v.push(183600);
    v.push(181500);
    v.push(179100);
    v.push(176600);
    v.push(173800);
    v.push(171000);
    v.push(167900);
    v.push(164800);
    v.push(161600);
    v.push(158300);
    v.push(154900);
    v.push(151500);
    v.push(148000);
    v.push(144400);
    v.push(140800);
    v.push(137200);
    v.push(133600);
    v.push(129900);
    v.push(126200);
    v.push(122500);
    v.push(118800);
    v.push(115100);
    v.push(111400);
    v.push(107700);
    v.push(103900);
    v.push(100200);
    v.push(96500);
    v.push(92700);
    proof {
        assert(v@ =~= lbo_walkoffs());
    }
    v
}

fn build_bbo_wavelengths() -> (v: Vec<i64>)
    ensures
        v@ == bbo_wavelengths(),
{
    let mut v: Vec<i64> = Vec::new();
    v.push(7000000);
    v.push(7100000);
    v.push(7200000);
    v.push(7300000);
    v.push(7400000);
    v.push(7500000);
    v.push(7600000);
    v.push(7700000);
    v.push(7800000);
    v.push(7900000);
    v.push(8000000);
    v.push(8100000);
    v.push(8200000);
    v.push(8300000);
    v.push(8400000);
    v.push(8500000);
    v.push(8600000);
    v.push(8700000);
    v.push(8800000);
    v.push(8900000);
    v.push(9000000);
    v.push(9100000);
    v.push(9200000);
    v.push(9300000);
    v.push(9400000);
    v.push(9500000);
    v.push(9600000);
    v.push(9700000);
    v.push(9800000);
    v.push(9900000);
    v.push(10000000);
    proof {
        assert(v@ =~= bbo_wavelengths());
    }
    v
}

fn build_bbo_angles() -> (v: Vec<i64>)
    ensures
        v@ == bbo_angles(),
{
    let mut v: Vec<i64> = Vec::new();
    v.push(533000);
    v.push(530000);
    v.push(518000);
    v.push(507000);
    v.push(496000);
    v.push(486000);
    v.push(477000);
    v.push(468000);
    v.push(459000);
    v.push(451000);
    v.push(443000);
    v.push(435000);
    v.push(428000);
    v.push(421000);
    v.push(415000);
    v.push(408000);
    v.push(402000);
    v.push(396000);
    v.push(391000);
    v.push(385000);
    v.push(380000);
    v.push(375000);
    v.push(370000);
    v.push(365000);
    v.push(360000);
    v.push(356000);
    v.push(352000);
    v.push(347000);
    v.push(343000);
    v.push(339000);
    v.push(335000);
    proof {
        assert(v@ =~= bbo_angles());
    }
    v
}

fn build_bbo_walkoffs() -> (v: Vec<i64>)
    ensures
        v@ == bbo_walkoffs(),
{
    let mut v: Vec<i64> = Vec::new();
    v.push(858100);
    v.push(865200);
    v.push(870100);
    v.push(873200);
    v.push(874800);
    v.push(875200);
    v.push(874500);
    v.push(873000);
    v.push(870600);
    v.push(867700);
    v.push(864200);
    v.push(860300);
    v.push(856000);
    v.push(851400);
    v.push(846600);
    v.push(841500);
    v.push(836200);
    v.push(830900);
    v.push(825400);
    v.push(819800);
    v.push(814100);
    v.push(808400);
    v.push(802700);
    v.push(797000);
    v.push(791200);
    v.push(785500);
    v.push(779800);
    v.push(774100);
    v.push(768500);
    v.push(762900);
    v.push(757300);
    proof {
        assert(v@ =~= bbo_walkoffs());
    }
    v
}
/// The LBO table satisfies the calibration-table invariant.
pub proof fn lemma_lbo_well_formed()
    ensures
        knots_ok(lbo_wavelengths()),
        lbo_angles().len() == lbo_wavelengths().len(),
        lbo_walkoffs().len() == lbo_wavelengths().len(),
        in_mag(lbo_wavelengths()),
        in_mag(lbo_angles()),
        in_mag(lbo_walkoffs()),
{
}

/// The BBO table satisfies the calibration-table invariant.
pub proof fn lemma_bbo_well_formed()
    ensures
        knots_ok(bbo_wavelengths()),
        bbo_angles().len() == bbo_wavelengths().len(),
        bbo_walkoffs().len() == bbo_wavelengths().len(),
        in_mag(bbo_wavelengths()),
        in_mag(bbo_angles()),
        in_mag(bbo_walkoffs()),
{
}

/// Every value of every calibration series is an even number of fixed-point
/// units: the data carry two decimals at a four-decimal resolution.
pub proof fn lemma_tables_even()
    ensures
        all_even(lbo_wavelengths()),
        all_even(lbo_angles()),
        all_even(lbo_walkoffs()),
        all_even(bbo_wavelengths()),
        all_even(bbo_angles()),
        all_even(bbo_walkoffs()),
{
}

/// The calibration table for second-harmonic generation in LBO.
pub fn second_harmonic_lbo() -> (t: CrystalData)
    ensures
        t.wavelengths@ == lbo_wavelengths(),
        t.angles@ == lbo_angles(),
        t.walkoffs@ == lbo_walkoffs(),
        t.well_formed(),
{
    proof {
        lemma_lbo_well_formed();
    }
    CrystalData {
        wavelengths: build_lbo_wavelengths(),
        angles: build_lbo_angles(),
        walkoffs: build_lbo_walkoffs(),
    }
}

/// The calibration table for third-harmonic generation in BBO.
pub fn third_harmonic_bbo() -> (t: CrystalData)
    ensures
        t.wavelengths@ == bbo_wavelengths(),
        t.angles@ == bbo_angles(),
        t.walkoffs@ == bbo_walkoffs(),
        t.well_formed(),
{
    proof {
        lemma_bbo_well_formed();
    }
    CrystalData {
        wavelengths: build_bbo_wavelengths(),
        angles: build_bbo_angles(),
        walkoffs: build_bbo_walkoffs(),
    }
}

} // verus!
