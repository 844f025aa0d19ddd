//! Phase-matching angle and spatial walk-off calculator for second- and
//! third-harmonic generation with Ti:Sapphire lasers.
//!
//! Given a fundamental wavelength and a harmonic order, the library selects
//! the calibration table for the matching nonlinear crystal (LBO for the
//! second harmonic, BBO for the third) and linearly interpolates both the
//! phase-matching angle and the walk-off angle at that wavelength.
//!
//! All quantities are fixed-point integers in ten-thousandths of their
//! physical unit: wavelengths in ten-thousandths of a nanometer, angles in
//! ten-thousandths of a degree, walk-offs in ten-thousandths of a
//! milliradian. The two-decimal calibration data scale exactly to this
//! resolution, and it is fine enough that the floor taken by an inexact
//! interpolation step stays within one ten-thousandth of a unit of the exact
//! rational value — interval midpoints come out exact.

use vstd::prelude::*;

pub mod interp;
pub mod laws;
pub mod tables;

use crate::interp::MAG;
use crate::interp::interp_at;
use crate::interp::interpolate_at;
use crate::tables::CrystalData;
use crate::tables::bbo_angles;
use crate::tables::bbo_walkoffs;
use crate::tables::bbo_wavelengths;
use crate::tables::lbo_angles;
use crate::tables::lbo_walkoffs;
use crate::tables::lbo_wavelengths;
use crate::tables::second_harmonic_lbo;
use crate::tables::third_harmonic_bbo;

verus! {

/// Harmonic order to generate; selects the crystal and its calibration data.
#[derive(PartialEq, Eq, Structural, Clone, Copy, Debug)]
pub enum Harmonic {
    Second,
    Third,
}

/// Name of the crystal used for the given harmonic order.
pub fn which_crystal(harmonic: &Harmonic) -> (r: &'static str)
    ensures
        r@ == match *harmonic {
            Harmonic::Second => "LBO"@,
            Harmonic::Third => "BBO"@,
        },
{
    match harmonic {
        Harmonic::Second => "LBO",
        Harmonic::Third => "BBO",
    }
}

/// Calibration knots of the table selected by the given harmonic order.
pub open spec fn harmonic_wavelengths(h: Harmonic) -> Seq<i64> {
    match h {
        Harmonic::Second => lbo_wavelengths(),
        Harmonic::Third => bbo_wavelengths(),
    }
}

/// Phase-matching angle series of the table selected by the given harmonic order.
pub open spec fn harmonic_angles(h: Harmonic) -> Seq<i64> {
    match h {
        Harmonic::Second => lbo_angles(),
        Harmonic::Third => bbo_angles(),
    }
}

/// Walk-off series of the table selected by the given harmonic order.
pub open spec fn harmonic_walkoffs(h: Harmonic) -> Seq<i64> {
    match h {
        Harmonic::Second => lbo_walkoffs(),
        Harmonic::Third => bbo_walkoffs(),
    }
}

/// The pair that `calculate_angle_walkoff` returns: the angle and walk-off
/// series of the selected crystal's table, each interpolated at the given
/// wavelength.
pub open spec fn angle_walkoff_spec(wavelength: int, h: Harmonic) -> (int, int) {
    (
        interp_at(harmonic_wavelengths(h), harmonic_angles(h), wavelength),
        interp_at(harmonic_wavelengths(h), harmonic_walkoffs(h), wavelength),
    )
}

/// Phase-matching angle and walk-off angle for the given fundamental
/// wavelength and harmonic order, in ten-thousandths of a degree and
/// ten-thousandths of a milliradian; the wavelength is in ten-thousandths of
/// a nanometer.
///
/// A wavelength outside the calibrated 700 nm to 1000 nm range is linearly
/// extrapolated along the nearest edge segment of the table; the bound on
/// the wavelength is only the fixed-point range of the arithmetic.
pub fn calculate_angle_walkoff(wavelength: i64, harmonic: &Harmonic) -> (r: (i64, i64))
    requires
        -MAG <= wavelength <= MAG,
    ensures
        (r.0 as int, r.1 as int) == angle_walkoff_spec(wavelength as int, *harmonic),
{
    let table: CrystalData = match harmonic {
        Harmonic::Second => second_harmonic_lbo(),
        Harmonic::Third => third_harmonic_bbo(),
    };
    let angle = interpolate_at(&table.wavelengths, &table.angles, wavelength);
    let walkoff = interpolate_at(&table.wavelengths, &table.walkoffs, wavelength);
    (angle, walkoff)
}

} // verus!
